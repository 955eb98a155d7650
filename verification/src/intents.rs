//! The virtual inputs that applications ask for, kept over restarts of the daemon.

use crate::string_map::StringMap;
use crate::text::{decimal, decimal_text};
use vstd::prelude::*;
use vstd::string::*;

verus! {

/// The version of the file in which the intents are kept.
pub const STORE_VERSION: u32 = 1;

/// A virtual input that an application asks for.
#[derive(Debug, PartialEq, Eq)]
pub struct AppVirtualInputSpec {
    pub id: String,
    pub name: String,
    pub uid: String,
    pub sample_rate: u32,
    pub channels: u16,
}

impl Clone for AppVirtualInputSpec {
    fn clone(&self) -> (r: AppVirtualInputSpec)
        ensures
            r == *self,
    {
        AppVirtualInputSpec {
            id: self.id.clone(),
            name: self.name.clone(),
            uid: self.uid.clone(),
            sample_rate: self.sample_rate,
            channels: self.channels,
        }
    }
}

/// What an application asks for.
#[derive(Debug, PartialEq, Eq)]
pub struct AppVirtualInputs {
    pub app_id: String,
    pub inputs: Vec<AppVirtualInputSpec>,
}

/// What each application asks for.
pub open spec fn intents_of(apps: StringMap<Vec<AppVirtualInputSpec>>) -> Map<
    Seq<char>,
    Seq<AppVirtualInputSpec>,
> {
    Map::new(|id: Seq<char>| apps.has(id), |id: Seq<char>| apps.at(id)@)
}

/// What was found where the intents are kept.
#[derive(Debug)]
pub enum StoredIntents {
    /// There is no file.
    Missing,
    /// The file could not be read.
    Unreadable { error: String },
    /// The file is not of the right form.
    Malformed { error: String },
    /// The file holds this.
    Read { version: u32, apps: StringMap<Vec<AppVirtualInputSpec>> },
}

/// The intents of all applications.
#[derive(Debug)]
pub struct VirtualInputIntentStore {
    pub path: String,
    pub apps: StringMap<Vec<AppVirtualInputSpec>>,
}

/// Why stored intents cannot be used.
pub open spec fn load_error(path: Seq<char>, stored: StoredIntents) -> Option<Seq<char>> {
    match stored {
        StoredIntents::Missing => None,
        StoredIntents::Unreadable { error } => Some(
            "failed to read virtual-input intent store "@ + path + ": "@ + error@,
        ),
        StoredIntents::Malformed { error } => Some(
            "failed to parse virtual-input intent store: "@ + error@,
        ),
        StoredIntents::Read { version, apps: _ } => if version != STORE_VERSION {
            Some(
                "unsupported virtual-input intent store version: expected "@ + decimal(
                    STORE_VERSION as nat,
                ) + ", found "@ + decimal(version as nat),
            )
        } else {
            None
        },
    }
}

fn copy_specs(specs: &Vec<AppVirtualInputSpec>) -> (r: Vec<AppVirtualInputSpec>)
    ensures
        r@ == specs@,
{
    let mut copy: Vec<AppVirtualInputSpec> = Vec::new();
    let mut i: usize = 0;
    while i < specs.len()
        invariant
            i <= specs.len(),
            copy@ =~= specs@.take(i as int),
        decreases specs.len() - i,
    {
        copy.push(specs[i].clone());
        i = i + 1;
    }
    assert(copy@ =~= specs@);
    copy
}

proof fn lemma_intents_inserted(
    before: StringMap<Vec<AppVirtualInputSpec>>,
    after: StringMap<Vec<AppVirtualInputSpec>>,
    id: Seq<char>,
    specs: Vec<AppVirtualInputSpec>,
)
    requires
        before.wf(),
        after.wf(),
        after@ == before@.insert(id, specs),
    ensures
        intents_of(after) == intents_of(before).insert(id, specs@),
{
    assert forall|x: Seq<char>| after.has(x) <==> before.has(x) || x == id by {
        assert(after@.dom().contains(x) == after.has(x));
        assert(before@.dom().contains(x) == before.has(x));
    }
    assert forall|x: Seq<char>| after.has(x) implies #[trigger] intents_of(after)[x] == intents_of(
        before,
    ).insert(id, specs@)[x] by {
        assert(after@[x] == after.at(x));
        if x != id {
            assert(before@.dom().contains(x));
            assert(before@[x] == before.at(x));
        }
    }
    assert(intents_of(after) =~= intents_of(before).insert(id, specs@));
}

proof fn lemma_intents_removed(
    before: StringMap<Vec<AppVirtualInputSpec>>,
    after: StringMap<Vec<AppVirtualInputSpec>>,
    id: Seq<char>,
)
    requires
        before.wf(),
        after.wf(),
        after@ == before@.remove(id),
    ensures
        intents_of(after) == intents_of(before).remove(id),
{
    assert forall|x: Seq<char>| after.has(x) <==> before.has(x) && x != id by {
        assert(after@.dom().contains(x) == after.has(x));
        assert(before@.dom().contains(x) == before.has(x));
    }
    assert forall|x: Seq<char>| after.has(x) implies #[trigger] intents_of(after)[x] == intents_of(
        before,
    )[x] by {
        assert(after@[x] == after.at(x));
        assert(before@[x] == before.at(x));
    }
    assert(intents_of(after) =~= intents_of(before).remove(id));
}

fn copy_apps(apps: &StringMap<Vec<AppVirtualInputSpec>>) -> (r: StringMap<
    Vec<AppVirtualInputSpec>,
>)
    requires
        apps.wf(),
    ensures
        r.wf(),
        intents_of(r) == intents_of(*apps),
{
    let mut copy: StringMap<Vec<AppVirtualInputSpec>> = StringMap::new();
    let mut i: usize = 0;
    while i < apps.len()
        invariant
            apps.wf(),
            i <= apps.keys().len(),
            copy.wf(),
            forall|k: int|
                0 <= k < i ==> intents_of(copy).dom().contains(#[trigger] apps.keys()[k])
                    && intents_of(copy)[apps.keys()[k]] == apps.values()[k]@,
            forall|id: Seq<char>| #[trigger]
                intents_of(copy).dom().contains(id) ==> apps.has(id) && apps.keys().index_of(id)
                    < i,
        decreases apps.keys().len() - i,
    {
        let ghost before = copy;
        let specs = copy_specs(apps.value_at(i));
        let ghost kept_specs = specs;
        let key = apps.key_at(i).clone();
        let ghost id = key@;
        copy.insert(key, specs);
        proof {
            lemma_intents_inserted(before, copy, id, kept_specs);
            apps.lemma_entry(i as int);
            let at = apps.keys().index_of(id);
            assert(apps.keys()[at] == id);
            crate::string_map::lemma_increasing_places(apps.keys(), at, i as int);
            assert forall|k: int| 0 <= k < i + 1 implies intents_of(copy).dom().contains(
                #[trigger] apps.keys()[k],
            ) && intents_of(copy)[apps.keys()[k]] == apps.values()[k]@ by {
                if k < i {
                    crate::string_map::lemma_increasing_places(apps.keys(), k, i as int);
                }
            }
        }
        i = i + 1;
    }
    proof {
        assert forall|id: Seq<char>| #[trigger] intents_of(*apps).dom().contains(id) implies
            intents_of(copy).dom().contains(id) && intents_of(copy)[id] == intents_of(*apps)[id] by {
            let k = apps.keys().index_of(id);
            assert(apps.keys()[k] == id);
        }
        assert(intents_of(copy) =~= intents_of(*apps));
    }
    copy
}

/// The intents with other inputs for one application; without inputs it has none.
pub open spec fn replaced(
    intents: Map<Seq<char>, Seq<AppVirtualInputSpec>>,
    app: Seq<char>,
    inputs: Seq<AppVirtualInputSpec>,
) -> Map<Seq<char>, Seq<AppVirtualInputSpec>> {
    if inputs.len() == 0 {
        intents.remove(app)
    } else {
        intents.insert(app, inputs)
    }
}

impl VirtualInputIntentStore {
    /// The intents from where they are kept. Nothing kept means no intents; anything that
    /// cannot be understood is an error.
    pub fn load(path: String, stored: StoredIntents) -> (r: Result<VirtualInputIntentStore, String>)
        requires
            stored matches StoredIntents::Read { version, apps } ==> apps.wf(),
        ensures
            match r {
                Ok(store) => {
                    &&& load_error(path@, stored) is None
                    &&& store.path == path
                    &&& store.apps.wf()
                    &&& intents_of(store.apps) == (match stored {
                        StoredIntents::Read { version, apps } => intents_of(apps),
                        _ => Map::empty(),
                    })
                },
                Err(text) => load_error(path@, stored) == Some(text@),
            },
    {
        match stored {
            StoredIntents::Missing => {
                let apps: StringMap<Vec<AppVirtualInputSpec>> = StringMap::new();
                assert(intents_of(apps) =~= Map::<Seq<char>, Seq<AppVirtualInputSpec>>::empty());
                Ok(VirtualInputIntentStore { path, apps })
            },
            StoredIntents::Unreadable { error } => {
                let mut text = String::from_str("failed to read virtual-input intent store ");
                text.append(path.as_str());
                text.append(": ");
                text.append(error.as_str());
                Err(text)
            },
            StoredIntents::Malformed { error } => {
                let mut text = String::from_str("failed to parse virtual-input intent store: ");
                text.append(error.as_str());
                Err(text)
            },
            StoredIntents::Read { version, apps } => {
                if version != STORE_VERSION {
                    let mut text = String::from_str(
                        "unsupported virtual-input intent store version: expected ",
                    );
                    text.append(decimal_text(STORE_VERSION as u64).as_str());
                    text.append(", found ");
                    text.append(decimal_text(version as u64).as_str());
                    return Err(text);
                }
                Ok(VirtualInputIntentStore { path, apps })
            },
        }
    }

    /// The intents of all applications.
    pub fn apps(&self) -> (r: &StringMap<Vec<AppVirtualInputSpec>>)
        ensures
            *r == self.apps,
    {
        &self.apps
    }

    /// The intents of one application; none where it has none.
    pub fn app(&self, app_id: &str) -> (r: AppVirtualInputs)
        requires
            self.apps.wf(),
        ensures
            r.app_id@ == app_id@,
            r.inputs@ == if intents_of(self.apps).dom().contains(app_id@) {
                intents_of(self.apps)[app_id@]
            } else {
                Seq::empty()
            },
    {
        let inputs = match self.apps.find(app_id) {
            Some(i) => copy_specs(self.apps.value_at(i)),
            None => {
                let none: Vec<AppVirtualInputSpec> = Vec::new();
                assert(none@ =~= Seq::<AppVirtualInputSpec>::empty());
                none
            },
        };
        AppVirtualInputs { app_id: String::from_str(app_id), inputs }
    }

    /// The intents as they would be with other inputs for one application; without inputs
    /// the application has no intents.
    pub fn candidate(&self, app_id: &str, inputs: Vec<AppVirtualInputSpec>) -> (r: StringMap<
        Vec<AppVirtualInputSpec>,
    >)
        requires
            self.apps.wf(),
        ensures
            r.wf(),
            intents_of(r) == replaced(intents_of(self.apps), app_id@, inputs@),
    {
        let mut candidate = copy_apps(&self.apps);
        let ghost before = candidate;
        let ghost wanted = inputs;
        if inputs.len() == 0 {
            candidate.remove(app_id);
            proof {
                lemma_intents_removed(before, candidate, app_id@);
            }
        } else {
            candidate.insert(String::from_str(app_id), inputs);
            proof {
                lemma_intents_inserted(before, candidate, app_id@, wanted);
            }
        }
        candidate
    }

    /// Takes other intents in place of the present ones.
    pub fn install(&mut self, apps: StringMap<Vec<AppVirtualInputSpec>>)
        requires
            apps.wf(),
        ensures
            final(self).apps == apps,
            final(self).path == old(self).path,
    {
        self.apps = apps;
    }
}

/// Changing the intents of one application leaves those of every other as they are, and
/// giving it no inputs leaves it without intents.
pub proof fn law_intents_are_scoped(
    intents: Map<Seq<char>, Seq<AppVirtualInputSpec>>,
    app: Seq<char>,
    inputs: Seq<AppVirtualInputSpec>,
)
    ensures
        forall|other: Seq<char>|
            other != app ==> (#[trigger] replaced(intents, app, inputs).dom().contains(other)
                <==> intents.dom().contains(other)),
        forall|other: Seq<char>|
            other != app && intents.dom().contains(other) ==> #[trigger] replaced(
                intents,
                app,
                inputs,
            )[other] == intents[other],
        replaced(intents, app, inputs).dom().contains(app) <==> inputs.len() > 0,
        inputs.len() > 0 ==> replaced(intents, app, inputs)[app] == inputs,
{
}

// ---------------------------------------------------------------------------
// Where and how the intents are kept

/// Where the intents are kept: where the environment says, else below the home directory.
pub fn default_path(configured: Option<String>, home: Option<String>) -> (r: Result<String, String>)
    ensures
        match (configured, home) {
            (Some(path), _) => r matches Ok(found) && found@ == path@,
            (None, Some(home)) => r matches Ok(found) && found@ == home@
                + "/Library/Application Support/mars/virtual_input_intents.json"@,
            (None, None) => r matches Err(text) && text@ == "cannot determine home directory"@,
        },
{
    match configured {
        Some(path) => Ok(path),
        None => match home {
            Some(home) => {
                let mut path = home;
                path.append("/Library/Application Support/mars/virtual_input_intents.json");
                Ok(path)
            },
            None => Err(String::from_str("cannot determine home directory")),
        },
    }
}

/// The directory that holds the store; a path without one is refused.
pub fn store_directory(parent: Option<String>, shown_path: &str) -> (r: Result<String, String>)
    ensures
        match parent {
            Some(directory) => r matches Ok(found) && found@ == directory@,
            None => r matches Err(text) && text@ == "virtual-input intent store path has no parent: "@
                + shown_path@,
        },
{
    match parent {
        Some(directory) => Ok(directory),
        None => {
            let mut text = String::from_str("virtual-input intent store path has no parent: ");
            text.append(shown_path);
            Err(text)
        },
    }
}

/// The path of a file in a directory.
pub open spec fn path_in(directory: Seq<char>, name: Seq<char>) -> Seq<char> {
    if directory.len() == 0 || directory.last() == '/' {
        directory + name
    } else {
        directory + "/"@ + name
    }
}

/// The path of the file that is written before it takes the place of the store: hidden, and in
/// the directory of the store.
pub fn temporary_path(directory: &str, file_name: Option<&str>, shown_path: &str) -> (r: Result<
    String,
    String,
>)
    ensures
        match file_name {
            Some(name) => r matches Ok(text) && text@ == path_in(
                directory@,
                "."@ + name@ + ".tmp"@,
            ),
            None => r matches Err(text) && text@ == "invalid virtual-input intent store path: "@
                + shown_path@,
        },
{
    match file_name {
        Some(name) => {
            let mut text = String::from_str(directory);
            let count = directory.unicode_len();
            if count > 0 && directory.get_char(count - 1) != '/' {
                text.append("/");
            }
            text.append(".");
            text.append(name);
            text.append(".tmp");
            assert(text@ =~= path_in(directory@, "."@ + name@ + ".tmp"@));
            Ok(text)
        },
        None => {
            let mut text = String::from_str("invalid virtual-input intent store path: ");
            text.append(shown_path);
            Err(text)
        },
    }
}

/// The steps of keeping the intents.
#[derive(Debug, Clone, Copy, PartialEq, Eq, Structural)]
pub enum PersistStep {
    CreateDirectory,
    Serialize,
    OpenTemporary,
    SecureTemporary,
    WriteTemporary,
    SyncTemporary,
    Commit,
    /// Remove what was written, then report the failure.
    Discard,
    Succeed,
    Fail,
}

/// What follows a step. Once the temporary file was tried, a failure discards it.
pub open spec fn persist_after(step: PersistStep, ok: bool) -> PersistStep {
    match step {
        PersistStep::CreateDirectory => if ok {
            PersistStep::Serialize
        } else {
            PersistStep::Fail
        },
        PersistStep::Serialize => if ok {
            PersistStep::OpenTemporary
        } else {
            PersistStep::Fail
        },
        PersistStep::OpenTemporary => if ok {
            PersistStep::SecureTemporary
        } else {
            PersistStep::Discard
        },
        PersistStep::SecureTemporary => if ok {
            PersistStep::WriteTemporary
        } else {
            PersistStep::Discard
        },
        PersistStep::WriteTemporary => if ok {
            PersistStep::SyncTemporary
        } else {
            PersistStep::Discard
        },
        PersistStep::SyncTemporary => if ok {
            PersistStep::Commit
        } else {
            PersistStep::Discard
        },
        PersistStep::Commit => if ok {
            PersistStep::Succeed
        } else {
            PersistStep::Discard
        },
        PersistStep::Discard => PersistStep::Fail,
        PersistStep::Succeed => PersistStep::Succeed,
        PersistStep::Fail => PersistStep::Fail,
    }
}

/// What follows a step of keeping the intents.
pub fn next_persist_step(step: PersistStep, ok: bool) -> (r: PersistStep)
    ensures
        r == persist_after(step, ok),
{
    match step {
        PersistStep::CreateDirectory => if ok {
            PersistStep::Serialize
        } else {
            PersistStep::Fail
        },
        PersistStep::Serialize => if ok {
            PersistStep::OpenTemporary
        } else {
            PersistStep::Fail
        },
        PersistStep::OpenTemporary => if ok {
            PersistStep::SecureTemporary
        } else {
            PersistStep::Discard
        },
        PersistStep::SecureTemporary => if ok {
            PersistStep::WriteTemporary
        } else {
            PersistStep::Discard
        },
        PersistStep::WriteTemporary => if ok {
            PersistStep::SyncTemporary
        } else {
            PersistStep::Discard
        },
        PersistStep::SyncTemporary => if ok {
            PersistStep::Commit
        } else {
            PersistStep::Discard
        },
        PersistStep::Commit => if ok {
            PersistStep::Succeed
        } else {
            PersistStep::Discard
        },
        PersistStep::Discard => PersistStep::Fail,
        PersistStep::Succeed => PersistStep::Succeed,
        PersistStep::Fail => PersistStep::Fail,
    }
}

/// The text about a step that failed; the paths are those of the directory, of the
/// temporary file and of the store.
pub open spec fn persist_error_text(
    step: PersistStep,
    directory: Seq<char>,
    temporary: Seq<char>,
    path: Seq<char>,
    error: Seq<char>,
) -> Seq<char> {
    match step {
        PersistStep::CreateDirectory =>
        "failed to create virtual-input intent store directory "@ + directory + ": "@ + error,
        PersistStep::Serialize => "failed to serialize virtual-input intent store: "@ + error,
        PersistStep::OpenTemporary => "failed to open virtual-input intent temporary file "@
            + temporary + ": "@ + error,
        PersistStep::SecureTemporary => "failed to secure virtual-input intent temporary file "@
            + temporary + ": "@ + error,
        PersistStep::WriteTemporary => "failed to write virtual-input intent temporary file "@
            + temporary + ": "@ + error,
        PersistStep::SyncTemporary => "failed to sync virtual-input intent temporary file "@
            + temporary + ": "@ + error,
        PersistStep::Commit => "failed to commit virtual-input intent store "@ + path + ": "@
            + error,
        _ => error,
    }
}

fn with_path(head: &str, path: &str, error: &str) -> (r: String)
    ensures
        r@ == head@ + path@ + ": "@ + error@,
{
    let mut text = String::from_str(head);
    text.append(path);
    text.append(": ");
    text.append(error);
    text
}

/// The text about a step of keeping the intents that failed.
pub fn persist_error(
    step: PersistStep,
    directory: &str,
    temporary: &str,
    path: &str,
    error: &str,
) -> (r: String)
    ensures
        r@ == persist_error_text(step, directory@, temporary@, path@, error@),
{
    match step {
        PersistStep::CreateDirectory => with_path(
            "failed to create virtual-input intent store directory ",
            directory,
            error,
        ),
        PersistStep::Serialize => {
            let mut text = String::from_str("failed to serialize virtual-input intent store: ");
            text.append(error);
            text
        },
        PersistStep::OpenTemporary => with_path(
            "failed to open virtual-input intent temporary file ",
            temporary,
            error,
        ),
        PersistStep::SecureTemporary => with_path(
            "failed to secure virtual-input intent temporary file ",
            temporary,
            error,
        ),
        PersistStep::WriteTemporary => with_path(
            "failed to write virtual-input intent temporary file ",
            temporary,
            error,
        ),
        PersistStep::SyncTemporary => with_path(
            "failed to sync virtual-input intent temporary file ",
            temporary,
            error,
        ),
        PersistStep::Commit => with_path(
            "failed to commit virtual-input intent store ",
            path,
            error,
        ),
        _ => String::from_str(error),
    }
}

/// The store is only touched by a commit, and a commit only follows a temporary file that
/// was written and synced: no other step leads to it.
pub proof fn law_commit_follows_sync(step: PersistStep, ok: bool)
    ensures
        persist_after(step, ok) == PersistStep::Commit ==> step == PersistStep::SyncTemporary && ok,
        persist_after(step, ok) == PersistStep::Succeed && step != PersistStep::Succeed ==> step
            == PersistStep::Commit && ok,
{
}

/// What is kept is written aside before it takes the place of what was kept: opened, made
/// private, written and brought to the disk, in this order. Whatever fails on the way is removed,
/// and the failure is told.
pub proof fn law_intents_are_written_aside(ok: bool)
    ensures
        persist_after(PersistStep::CreateDirectory, true) is Serialize,
        persist_after(PersistStep::Serialize, true) is OpenTemporary,
        persist_after(PersistStep::OpenTemporary, true) is SecureTemporary,
        persist_after(PersistStep::SecureTemporary, true) is WriteTemporary,
        persist_after(PersistStep::WriteTemporary, true) is SyncTemporary,
        persist_after(PersistStep::SyncTemporary, true) is Commit,
        persist_after(PersistStep::Commit, true) is Succeed,
        persist_after(PersistStep::CreateDirectory, false) is Fail,
        persist_after(PersistStep::Serialize, false) is Fail,
        persist_after(PersistStep::OpenTemporary, false) is Discard,
        persist_after(PersistStep::SecureTemporary, false) is Discard,
        persist_after(PersistStep::WriteTemporary, false) is Discard,
        persist_after(PersistStep::SyncTemporary, false) is Discard,
        persist_after(PersistStep::Commit, false) is Discard,
        persist_after(PersistStep::Discard, ok) is Fail,
{
}

/// What an application asked for last is what it is given back; one that asked for nothing has
/// nothing.
pub proof fn law_applications_get_what_they_asked_for(
    store: VirtualInputIntentStore,
    app_id: &str,
    inputs: Vec<AppVirtualInputSpec>,
    apps: StringMap<Vec<AppVirtualInputSpec>>,
    next: VirtualInputIntentStore,
    given: AppVirtualInputs,
)
    requires
        store.apps.wf(),
        call_ensures(VirtualInputIntentStore::candidate, (&store, app_id, inputs), apps),
        next.apps == apps,
        call_ensures(VirtualInputIntentStore::app, (&next, app_id), given),
    ensures
        given.app_id@ == app_id@,
        given.inputs@ == inputs@,
{
    law_intents_are_scoped(intents_of(store.apps), app_id@, inputs@);
    if inputs@.len() == 0 {
        assert(given.inputs@ =~= inputs@);
    }
}

/// A store is loaded where there is none yet, which is an empty one, or where it is of the first
/// version, and then holds what was kept; anything else is refused.
pub proof fn law_stores_of_the_first_version_are_loaded(
    path: String,
    stored: StoredIntents,
    r: Result<VirtualInputIntentStore, String>,
)
    requires
        stored matches StoredIntents::Read { version, apps } ==> apps.wf(),
        call_ensures(VirtualInputIntentStore::load, (path, stored), r),
    ensures
        r is Ok <==> stored is Missing || (stored is Read && stored->version == 1),
        stored is Missing && r is Ok ==> intents_of(r->Ok_0.apps).dom() =~= Set::empty(),
        stored is Read && r is Ok ==> intents_of(r->Ok_0.apps) == intents_of(stored->apps),
{
}

/// The file that is written aside is a hidden one beside the store.
pub proof fn law_what_is_written_aside_is_beside_the_store(directory: Seq<char>, name: Seq<char>)
    ensures
        directory.len() > 0 && directory.last() != '/' ==> path_in(directory, name) == directory
            + "/"@ + name,
        directory.len() > 0 && directory.last() == '/' ==> path_in(directory, name) == directory
            + name,
        directory.len() == 0 ==> path_in(directory, name) == name,
{
    if directory.len() == 0 {
        assert(path_in(directory, name) =~= name);
    }
}

} // verus!
