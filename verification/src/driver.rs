//! The audio driver: whether it fits the daemon, and handing it the devices.

use crate::devices::{list_virtual_devices, virtual_devices, VirtualDeviceView};
use crate::profile::{NodeKind, Profile};
use crate::sequences::{lemma_views_push, views};
use crate::text::{
    decimal, is_digit, law_decimals_are_parsed, lemma_numeral_digits, parse_number, parsed_number,
    slice_text,
};
use vstd::prelude::*;
use vstd::string::*;

verus! {

broadcast use lemma_views_push;

// ---------------------------------------------------------------------------
// Whether the driver is there

/// The driver can be used only where it is installed and loaded.
pub fn ensure_driver_available(installed: bool, loaded: bool) -> (r: Result<(), String>)
    ensures
        match r {
            Ok(_) => installed && loaded,
            Err(text) => if !installed {
                text@ == "mars.driver is not installed; run scripts/install.sh"@
            } else {
                !loaded && text@
                    == "mars.driver bundle exists but plugin is not loaded by coreaudiod; try: sudo killall -9 coreaudiod"@
            },
        },
{
    if !installed {
        return Err(String::from_str("mars.driver is not installed; run scripts/install.sh"));
    }
    if !loaded {
        return Err(
            String::from_str(
                "mars.driver bundle exists but plugin is not loaded by coreaudiod; try: sudo killall -9 coreaudiod",
            ),
        );
    }
    Ok(())
}

// ---------------------------------------------------------------------------
// Whether the driver fits the daemon

/// The place of the first full stop at or behind a place, or the end.
pub open spec fn stop_place(text: Seq<char>, from: int) -> int
    decreases text.len() - from,
{
    if from < 0 || from >= text.len() || text[from] == '.' {
        from
    } else {
        stop_place(text, from + 1)
    }
}

/// The major number of a version: what stands before the first full stop, as a number.
pub open spec fn major(version: Seq<char>) -> Option<u64> {
    parsed_number(version.subrange(0, stop_place(version, 0)))
}

/// The major number of a version.
pub fn parse_major(version: &str) -> (r: Option<u64>)
    ensures
        r == major(version@),
{
    let length = version.unicode_len();
    let mut end: usize = 0;
    while end < length && version.get_char(end) != '.'
        invariant
            length == version@.len(),
            end <= length,
            stop_place(version@, 0) == stop_place(version@, end as int),
        decreases length - end,
    {
        end = end + 1;
    }
    let head = slice_text(version, 0, end);
    parse_number(head.as_str())
}

/// Whether a driver fits: it is installed and loaded, and its major number is that of the
/// daemon.
pub open spec fn compatible(
    installed: bool,
    loaded: bool,
    driver_version: Option<Seq<char>>,
    daemon_version: Seq<char>,
) -> bool {
    &&& installed && loaded
    &&& driver_version matches Some(version) && major(version) is Some && major(version) == major(
        daemon_version,
    )
}

/// The characters of an optional text.
pub open spec fn chars_in(text: Option<&str>) -> Option<Seq<char>> {
    match text {
        Some(text) => Some(text@),
        None => None,
    }
}

/// Whether a driver fits the daemon.
pub fn is_driver_compatible(
    driver_installed: bool,
    driver_loaded: bool,
    driver_version: Option<&str>,
    daemon_version: &str,
) -> (r: bool)
    ensures
        r == compatible(
            driver_installed,
            driver_loaded,
            chars_in(driver_version),
            daemon_version@,
        ),
{
    if !driver_installed || !driver_loaded {
        return false;
    }
    match driver_version {
        None => false,
        Some(version) => match (parse_major(version), parse_major(daemon_version)) {
            (Some(driver), Some(daemon)) => driver == daemon,
            _ => false,
        },
    }
}

/// A text in quotation marks, with escapes where they are called for.
pub uninterp spec fn quoted(text: Seq<char>) -> Seq<char>;

/// `<str as std::fmt::Debug>::fmt`, by way of `format!`: the text in quotation marks with
/// its special characters escaped. It depends on the text alone.
#[verifier::external_body]
fn quote(text: &str) -> (r: String)
    ensures
        r@ == quoted(text@),
{
    format!("{text:?}")
}

/// A version that may be unknown, as diagnostics show it.
pub open spec fn shown_version(version: Option<Seq<char>>) -> Seq<char> {
    match version {
        Some(version) => "Some("@ + quoted(version) + ")"@,
        None => "None"@,
    }
}

/// A version that may be unknown, as diagnostics show it.
pub fn show_version(version: Option<&str>) -> (r: String)
    ensures
        r@ == shown_version(chars_in(version)),
{
    match version {
        Some(version) => {
            let mut text = String::from_str("Some(");
            text.append(quote(version).as_str());
            text.append(")");
            text
        },
        None => String::from_str("None"),
    }
}

/// The text about two versions that do not fit.
pub open spec fn versions_text(
    lead: Seq<char>,
    driver_version: Option<Seq<char>>,
    daemon_version: Seq<char>,
) -> Seq<char> {
    lead + shown_version(driver_version) + ", daemon="@ + daemon_version
}

/// The text about two versions that do not fit.
pub fn describe_versions(lead: &str, driver_version: Option<&str>, daemon_version: &str) -> (r:
    String)
    ensures
        r@ == versions_text(lead@, chars_in(driver_version), daemon_version@),
{
    let mut text = String::from_str(lead);
    text.append(show_version(driver_version).as_str());
    text.append(", daemon=");
    text.append(daemon_version);
    text
}

/// A profile is applied only with a driver that fits.
pub fn ensure_driver_compatibility_for_apply(
    installed: bool,
    loaded: bool,
    driver_version: Option<&str>,
    daemon_version: &str,
) -> (r: Result<(), String>)
    ensures
        match r {
            Ok(_) => compatible(installed, loaded, chars_in(driver_version), daemon_version@),
            Err(text) => {
                &&& !compatible(installed, loaded, chars_in(driver_version), daemon_version@)
                &&& text@ == versions_text(
                    "incompatible driver version: driver="@,
                    chars_in(driver_version),
                    daemon_version@,
                )
            },
        },
{
    if is_driver_compatible(installed, loaded, driver_version, daemon_version) {
        return Ok(());
    }
    Err(
        describe_versions(
            "incompatible driver version: driver=",
            driver_version,
            daemon_version,
        ),
    )
}

// ---------------------------------------------------------------------------
// What the driver is told

/// The number of frames in a buffer where a stored state does not say.
pub fn default_driver_buffer_frames() -> (r: u32)
    ensures
        r == 256,
{
    256
}

/// A device as the daemon remembers it of the driver.
#[derive(Debug, PartialEq, Eq)]
pub struct DriverDevice {
    pub id: String,
    pub uid: String,
    pub name: String,
    pub kind: NodeKind,
    pub channels: u16,
    pub hidden: bool,
}

/// What the driver was last told, as the daemon remembers it.
#[derive(Debug, PartialEq, Eq)]
pub struct DriverAppliedState {
    pub version: String,
    pub devices: Vec<DriverDevice>,
    pub sample_rate: u32,
    pub channels: u16,
    pub buffer_frames: u32,
}

/// A device as the driver is told of it.
#[derive(Debug, Clone, PartialEq, Eq)]
pub struct HalDevice {
    pub id: String,
    pub uid: String,
    pub name: String,
    pub kind: String,
    pub channels: u16,
    pub hidden: bool,
}

/// What the driver is told.
#[derive(Debug, Clone, PartialEq, Eq)]
pub struct HalDesiredState {
    pub driver_version: String,
    pub sample_rate: u32,
    pub channels: u16,
    pub buffer_frames: u32,
    pub devices: Vec<HalDevice>,
}

/// A device as the driver is told of it, in characters.
#[verifier::ext_equal]
pub struct HalDeviceView {
    pub id: Seq<char>,
    pub uid: Seq<char>,
    pub name: Seq<char>,
    pub kind: Seq<char>,
    pub channels: u16,
    pub hidden: bool,
}

/// What the driver is told, in characters.
#[verifier::ext_equal]
pub struct HalView {
    pub driver_version: Seq<char>,
    pub sample_rate: u32,
    pub channels: u16,
    pub buffer_frames: u32,
    pub devices: Seq<HalDeviceView>,
}

impl View for DriverDevice {
    type V = VirtualDeviceView;

    open spec fn view(&self) -> VirtualDeviceView {
        VirtualDeviceView {
            id: self.id@,
            name: self.name@,
            uid: self.uid@,
            kind: self.kind,
            channels: self.channels,
            hidden: self.hidden,
        }
    }
}

impl View for HalDevice {
    type V = HalDeviceView;

    open spec fn view(&self) -> HalDeviceView {
        HalDeviceView {
            id: self.id@,
            uid: self.uid@,
            name: self.name@,
            kind: self.kind@,
            channels: self.channels,
            hidden: self.hidden,
        }
    }
}

impl View for HalDesiredState {
    type V = HalView;

    open spec fn view(&self) -> HalView {
        HalView {
            driver_version: self.driver_version@,
            sample_rate: self.sample_rate,
            channels: self.channels,
            buffer_frames: self.buffer_frames,
            devices: views(self.devices@),
        }
    }
}

/// How the driver calls a kind of node.
pub open spec fn hal_kind(kind: NodeKind) -> Seq<char> {
    match kind {
        NodeKind::VirtualOutput => "virtual_output"@,
        NodeKind::VirtualInput => "virtual_input"@,
        NodeKind::ExternalInput => "external_input"@,
        NodeKind::ExternalOutput => "external_output"@,
        NodeKind::Bus => "bus"@,
    }
}

/// How the driver calls a kind of node.
pub fn node_kind_to_hal_kind(kind: NodeKind) -> (r: String)
    ensures
        r@ == hal_kind(kind),
{
    match kind {
        NodeKind::VirtualOutput => String::from_str("virtual_output"),
        NodeKind::VirtualInput => String::from_str("virtual_input"),
        NodeKind::ExternalInput => String::from_str("external_input"),
        NodeKind::ExternalOutput => String::from_str("external_output"),
        NodeKind::Bus => String::from_str("bus"),
    }
}

/// A device as the driver is told of it.
pub open spec fn hal_device(device: VirtualDeviceView) -> HalDeviceView {
    HalDeviceView {
        id: device.id,
        uid: device.uid,
        name: device.name,
        kind: hal_kind(device.kind),
        channels: device.channels,
        hidden: device.hidden,
    }
}

/// What the driver is told to be as it was remembered.
pub open spec fn hal_of_applied(state: DriverAppliedState) -> HalView {
    HalView {
        driver_version: state.version@,
        sample_rate: state.sample_rate,
        channels: state.channels,
        buffer_frames: state.buffer_frames,
        devices: views(state.devices@).map_values(|d: VirtualDeviceView| hal_device(d)),
    }
}

/// What the driver is told to be as it was remembered.
pub fn hal_desired_from_driver_applied(state: &DriverAppliedState) -> (r: HalDesiredState)
    ensures
        r@ == hal_of_applied(*state),
{
    let ghost told = |d: VirtualDeviceView| hal_device(d);
    let mut devices: Vec<HalDevice> = Vec::new();
    let mut i: usize = 0;
    while i < state.devices.len()
        invariant
            i <= state.devices.len(),
            told == |d: VirtualDeviceView| hal_device(d),
            views(devices@) =~= views(state.devices@).take(i as int).map_values(told),
        decreases state.devices.len() - i,
    {
        let device = &state.devices[i];
        devices.push(
            HalDevice {
                id: device.id.clone(),
                uid: device.uid.clone(),
                name: device.name.clone(),
                kind: node_kind_to_hal_kind(device.kind),
                channels: device.channels,
                hidden: device.hidden,
            },
        );
        i = i + 1;
    }
    assert(views(state.devices@).take(i as int) =~= views(state.devices@));
    HalDesiredState {
        driver_version: state.version.clone(),
        sample_rate: state.sample_rate,
        channels: state.channels,
        buffer_frames: state.buffer_frames,
        devices,
    }
}

/// What the driver is told where there is to be nothing.
pub open spec fn empty_hal(version: Seq<char>) -> HalView {
    HalView {
        driver_version: version,
        sample_rate: 48_000,
        channels: 2,
        buffer_frames: 256,
        devices: Seq::empty(),
    }
}

/// What the driver is told where there is to be nothing.
pub fn empty_hal_desired_state(version: &str) -> (r: HalDesiredState)
    ensures
        r@ == empty_hal(version@),
{
    let devices: Vec<HalDevice> = Vec::new();
    assert(views(devices@) =~= Seq::<HalDeviceView>::empty());
    HalDesiredState {
        driver_version: String::from_str(version),
        sample_rate: 48_000,
        channels: 2,
        buffer_frames: default_driver_buffer_frames(),
        devices,
    }
}

/// The number of channels of a device that does not name one.
pub open spec fn staged_default(profile: Profile, channels: u16) -> u16 {
    match profile.audio.channels.value() {
        Some(c) => c,
        None => channels,
    }
}

/// What the driver is told, and what is remembered of it, for a profile: its virtual
/// devices.
pub fn desired_driver_state(
    profile: &Profile,
    sample_rate: u32,
    channels: u16,
    version: &str,
) -> (r: (DriverAppliedState, HalDesiredState))
    ensures
        r.0.version@ == version@,
        r.0.sample_rate == sample_rate,
        r.0.channels == channels,
        r.0.buffer_frames == profile.audio.buffer_frames,
        views(r.0.devices@) == virtual_devices(*profile, staged_default(*profile, channels)),
        r.1@ == hal_of_applied(r.0),
{
    let default = profile.audio.channels.as_value().unwrap_or(channels);
    let virtuals = list_virtual_devices(profile, default);
    let mut devices: Vec<DriverDevice> = Vec::new();
    let mut i: usize = 0;
    while i < virtuals.len()
        invariant
            i <= virtuals.len(),
            views(devices@) =~= views(virtuals@).take(i as int),
        decreases virtuals.len() - i,
    {
        let device = &virtuals[i];
        devices.push(
            DriverDevice {
                id: device.id.clone(),
                uid: device.uid.clone(),
                name: device.name.clone(),
                kind: device.kind,
                channels: device.channels,
                hidden: device.hidden,
            },
        );
        i = i + 1;
    }
    assert(views(virtuals@).take(i as int) =~= views(virtuals@));
    let state = DriverAppliedState {
        version: String::from_str(version),
        devices,
        sample_rate,
        channels,
        buffer_frames: profile.audio.buffer_frames,
    };
    let desired = hal_desired_from_driver_applied(&state);
    (state, desired)
}

// ---------------------------------------------------------------------------
// Remembering and restoring

/// Where the daemon remembers what the driver was told.
pub fn driver_state_path(home: Option<String>) -> (r: Result<String, String>)
    ensures
        match home {
            Some(home) => r matches Ok(path) && path@ == home@
                + "/Library/Caches/mars/driver_applied_state.json"@,
            None => r matches Err(text) && text@ == "cannot determine home directory"@,
        },
{
    match home {
        Some(home) => {
            let mut path = home;
            path.append("/Library/Caches/mars/driver_applied_state.json");
            Ok(path)
        },
        None => Err(String::from_str("cannot determine home directory")),
    }
}

/// What was remembered of the driver at one moment: the file, and what it says where it can
/// be read.
#[derive(Debug)]
pub struct DriverStateSnapshot {
    pub path: String,
    pub raw_json: Option<String>,
    pub parsed_state: Option<DriverAppliedState>,
}

/// What a look at the remembered state found.
#[derive(Debug)]
pub enum CacheRead {
    Missing,
    Unreadable { error: String },
    Read { raw_json: String, parsed_state: Option<DriverAppliedState> },
}

/// What was remembered. A file that makes no sense is kept as it is.
pub fn capture_driver_state_snapshot(path: &str, read: CacheRead) -> (r: Result<
    DriverStateSnapshot,
    String,
>)
    ensures
        match (read, r) {
            (CacheRead::Missing, Ok(snapshot)) => {
                &&& snapshot.path@ == path@
                &&& snapshot.raw_json is None
                &&& snapshot.parsed_state is None
            },
            (CacheRead::Unreadable { error }, Err(text)) => text@
                == "failed to read existing driver state cache "@ + path@ + ": "@ + error@,
            (CacheRead::Read { raw_json, parsed_state }, Ok(snapshot)) => {
                &&& snapshot.path@ == path@
                &&& snapshot.raw_json == Some(raw_json)
                &&& snapshot.parsed_state == parsed_state
            },
            _ => false,
        },
{
    match read {
        CacheRead::Missing => Ok(
            DriverStateSnapshot {
                path: String::from_str(path),
                raw_json: None,
                parsed_state: None,
            },
        ),
        CacheRead::Unreadable { error } => {
            let mut text = String::from_str("failed to read existing driver state cache ");
            text.append(path);
            text.append(": ");
            text.append(error.as_str());
            Err(text)
        },
        CacheRead::Read { raw_json, parsed_state } => Ok(
            DriverStateSnapshot {
                path: String::from_str(path),
                raw_json: Some(raw_json),
                parsed_state,
            },
        ),
    }
}

/// The steps of bringing the driver back to what was remembered: the driver first, then
/// the file.
#[derive(Debug)]
pub enum RestoreStep {
    ApplyDesired { desired: HalDesiredState },
    WriteCache { contents: String },
    RemoveCache,
    Finish { result: Result<(), String> },
}

/// A step of bringing the driver back, in characters.
#[verifier::ext_equal]
pub enum RestoreView {
    ApplyDesired(HalView),
    WriteCache(Seq<char>),
    RemoveCache,
    Finish(Option<Seq<char>>),
}

impl View for RestoreStep {
    type V = RestoreView;

    open spec fn view(&self) -> RestoreView {
        match self {
            RestoreStep::ApplyDesired { desired } => RestoreView::ApplyDesired(desired@),
            RestoreStep::WriteCache { contents } => RestoreView::WriteCache(contents@),
            RestoreStep::RemoveCache => RestoreView::RemoveCache,
            RestoreStep::Finish { result } => RestoreView::Finish(
                match result {
                    Ok(_) => None,
                    Err(text) => Some(text@),
                },
            ),
        }
    }
}

/// Whether the remembered file made no sense, so that the driver cannot be brought back.
pub open spec fn cache_invalid(snapshot: DriverStateSnapshot) -> bool {
    snapshot.parsed_state is None && snapshot.raw_json is Some
}

/// How the file is brought back.
pub open spec fn cache_restoration(snapshot: DriverStateSnapshot) -> RestoreView {
    match snapshot.raw_json {
        Some(raw) => RestoreView::WriteCache(raw@),
        None => RestoreView::RemoveCache,
    }
}

/// The first step of bringing the driver back.
pub open spec fn first_restoration(snapshot: DriverStateSnapshot, version: Seq<char>) -> RestoreView {
    match snapshot.parsed_state {
        Some(state) => RestoreView::ApplyDesired(hal_of_applied(state)),
        None => if snapshot.raw_json is None {
            RestoreView::ApplyDesired(empty_hal(version))
        } else {
            cache_restoration(snapshot)
        },
    }
}

/// What follows a step of bringing the driver back, and what it failed with if it did.
pub open spec fn restoration_after(
    snapshot: DriverStateSnapshot,
    step: RestoreView,
    failure: Option<Seq<char>>,
) -> RestoreView {
    match (step, failure) {
        (RestoreView::ApplyDesired(_), Some(error)) => RestoreView::Finish(
            Some("driver client error: "@ + error),
        ),
        (RestoreView::ApplyDesired(_), None) => cache_restoration(snapshot),
        (RestoreView::WriteCache(_), Some(error)) => RestoreView::Finish(
            Some(
                "failed to restore previous driver state cache "@ + snapshot.path@ + ": "@ + error,
            ),
        ),
        (RestoreView::RemoveCache, Some(error)) => RestoreView::Finish(
            Some("failed to remove new driver state cache "@ + snapshot.path@ + ": "@ + error),
        ),
        (RestoreView::Finish(result), _) => RestoreView::Finish(result),
        _ => RestoreView::Finish(
            if cache_invalid(snapshot) {
                Some("cannot rollback HAL state because previous driver cache is invalid"@)
            } else {
                None
            },
        ),
    }
}

/// What a step failed with, in characters.
pub open spec fn failure_of(outcome: Result<(), String>) -> Option<Seq<char>> {
    match outcome {
        Ok(_) => None,
        Err(text) => Some(text@),
    }
}

fn restore_cache(snapshot: &DriverStateSnapshot) -> (r: RestoreStep)
    ensures
        r@ == cache_restoration(*snapshot),
{
    match &snapshot.raw_json {
        Some(raw) => RestoreStep::WriteCache { contents: raw.clone() },
        None => RestoreStep::RemoveCache,
    }
}

fn path_error(lead: &str, path: &str, error: &str) -> (r: String)
    ensures
        r@ == lead@ + path@ + ": "@ + error@,
{
    let mut text = String::from_str(lead);
    text.append(path);
    text.append(": ");
    text.append(error);
    text
}

impl DriverStateSnapshot {
    /// The first step of bringing the driver back.
    pub fn first_restore_step(&self, version: &str) -> (r: RestoreStep)
        ensures
            r@ == first_restoration(*self, version@),
    {
        match &self.parsed_state {
            Some(state) => RestoreStep::ApplyDesired {
                desired: hal_desired_from_driver_applied(state),
            },
            None => if self.raw_json.is_none() {
                RestoreStep::ApplyDesired { desired: empty_hal_desired_state(version) }
            } else {
                restore_cache(self)
            },
        }
    }

    /// What follows a step of bringing the driver back.
    pub fn next_restore_step(&self, step: RestoreStep, outcome: Result<(), String>) -> (r:
        RestoreStep)
        ensures
            r@ == restoration_after(*self, step@, failure_of(outcome)),
    {
        match step {
            RestoreStep::ApplyDesired { desired: _ } => match outcome {
                Err(error) => {
                    let mut text = String::from_str("driver client error: ");
                    text.append(error.as_str());
                    RestoreStep::Finish { result: Err(text) }
                },
                Ok(_) => restore_cache(self),
            },
            RestoreStep::WriteCache { contents: _ } => match outcome {
                Err(error) => RestoreStep::Finish {
                    result: Err(
                        path_error(
                            "failed to restore previous driver state cache ",
                            self.path.as_str(),
                            error.as_str(),
                        ),
                    ),
                },
                Ok(_) => self.end_restore(),
            },
            RestoreStep::RemoveCache => match outcome {
                Err(error) => RestoreStep::Finish {
                    result: Err(
                        path_error(
                            "failed to remove new driver state cache ",
                            self.path.as_str(),
                            error.as_str(),
                        ),
                    ),
                },
                Ok(_) => self.end_restore(),
            },
            RestoreStep::Finish { result } => RestoreStep::Finish { result },
        }
    }

    fn end_restore(&self) -> (r: RestoreStep)
        ensures
            r@ == RestoreView::Finish(
                if cache_invalid(*self) {
                    Some("cannot rollback HAL state because previous driver cache is invalid"@)
                } else {
                    None
                },
            ),
    {
        if self.parsed_state.is_none() && self.raw_json.is_some() {
            RestoreStep::Finish {
                result: Err(
                    String::from_str(
                        "cannot rollback HAL state because previous driver cache is invalid",
                    ),
                ),
            }
        } else {
            RestoreStep::Finish { result: Ok(()) }
        }
    }
}

/// Where nothing fails, bringing the driver back tells it what was remembered and then puts
/// the file back as it was; it succeeds exactly where the file made sense or was missing.
pub proof fn law_restoration_brings_back(snapshot: DriverStateSnapshot, version: Seq<char>)
    ensures
        ({
            let first = first_restoration(snapshot, version);
            let second = restoration_after(snapshot, first, None);
            let third = restoration_after(snapshot, second, None);
            if cache_invalid(snapshot) {
                &&& first == cache_restoration(snapshot)
                &&& second is Finish
                &&& second->Finish_0 is Some
            } else {
                &&& first == RestoreView::ApplyDesired(
                    match snapshot.parsed_state {
                        Some(state) => hal_of_applied(state),
                        None => empty_hal(version),
                    },
                )
                &&& second == cache_restoration(snapshot)
                &&& third == RestoreView::Finish(None)
            }
        }),
{
}

// ---------------------------------------------------------------------------
// Handing the devices to the driver, and taking them back

/// What is to be done with the driver.
#[derive(Debug, Clone, Copy, PartialEq, Eq, Structural)]
pub enum DriverTask {
    /// Hand it the devices of a profile.
    Stage,
    /// Take all devices back.
    Clear,
}

/// The steps of a task. Those that change something are undone where they fail.
#[derive(Debug)]
pub enum DriverStep {
    CreateDirectory,
    Capture,
    ApplyDesired,
    Serialize,
    WriteCache,
    RemoveRings,
    RemoveCache,
    Restore { error: String },
    Finish { result: Result<(), String> },
}

/// A step of a task, in characters.
#[verifier::ext_equal]
pub enum DriverView {
    CreateDirectory,
    Capture,
    ApplyDesired,
    Serialize,
    WriteCache,
    RemoveRings,
    RemoveCache,
    Restore(Seq<char>),
    Finish(Option<Seq<char>>),
}

impl View for DriverStep {
    type V = DriverView;

    open spec fn view(&self) -> DriverView {
        match self {
            DriverStep::CreateDirectory => DriverView::CreateDirectory,
            DriverStep::Capture => DriverView::Capture,
            DriverStep::ApplyDesired => DriverView::ApplyDesired,
            DriverStep::Serialize => DriverView::Serialize,
            DriverStep::WriteCache => DriverView::WriteCache,
            DriverStep::RemoveRings => DriverView::RemoveRings,
            DriverStep::RemoveCache => DriverView::RemoveCache,
            DriverStep::Restore { error } => DriverView::Restore(error@),
            DriverStep::Finish { result } => DriverView::Finish(failure_of(*result)),
        }
    }
}

/// The first step of a task.
pub open spec fn first_driver_view(task: DriverTask) -> DriverView {
    match task {
        DriverTask::Stage => DriverView::CreateDirectory,
        DriverTask::Clear => DriverView::Capture,
    }
}

/// What follows a step of a task. A failure to change the driver or the file is undone, and
/// is what the task fails with, however the undoing goes.
pub open spec fn driver_view_after(
    task: DriverTask,
    path: Seq<char>,
    step: DriverView,
    failure: Option<Seq<char>>,
) -> DriverView {
    match (step, failure) {
        (DriverView::CreateDirectory, Some(error)) => DriverView::Finish(Some(error)),
        (DriverView::CreateDirectory, None) => DriverView::Capture,
        (DriverView::Capture, Some(error)) => DriverView::Finish(Some(error)),
        (DriverView::Capture, None) => DriverView::ApplyDesired,
        (DriverView::ApplyDesired, Some(error)) => DriverView::Restore(
            "driver client error: "@ + error,
        ),
        (DriverView::ApplyDesired, None) => match task {
            DriverTask::Stage => DriverView::Serialize,
            DriverTask::Clear => DriverView::RemoveRings,
        },
        (DriverView::Serialize, Some(error)) => DriverView::Finish(Some(error)),
        (DriverView::Serialize, None) => DriverView::WriteCache,
        (DriverView::WriteCache, Some(error)) => DriverView::Restore(
            "failed to persist driver state cache "@ + path + ": "@ + error,
        ),
        (DriverView::WriteCache, None) => DriverView::Finish(None),
        (DriverView::RemoveRings, _) => DriverView::RemoveCache,
        (DriverView::RemoveCache, Some(error)) => DriverView::Restore(
            "failed to remove driver state cache "@ + path + ": "@ + error,
        ),
        (DriverView::RemoveCache, None) => DriverView::Finish(None),
        (DriverView::Restore(error), _) => DriverView::Finish(Some(error)),
        (DriverView::Finish(result), _) => DriverView::Finish(result),
    }
}

/// The first step of a task.
pub fn first_driver_step(task: DriverTask) -> (r: DriverStep)
    ensures
        r@ == first_driver_view(task),
{
    match task {
        DriverTask::Stage => DriverStep::CreateDirectory,
        DriverTask::Clear => DriverStep::Capture,
    }
}

/// What follows a step of a task.
pub fn next_driver_step(
    task: DriverTask,
    path: &str,
    step: DriverStep,
    outcome: Result<(), String>,
) -> (r: DriverStep)
    ensures
        r@ == driver_view_after(task, path@, step@, failure_of(outcome)),
{
    match step {
        DriverStep::CreateDirectory => match outcome {
            Err(error) => DriverStep::Finish { result: Err(error) },
            Ok(_) => DriverStep::Capture,
        },
        DriverStep::Capture => match outcome {
            Err(error) => DriverStep::Finish { result: Err(error) },
            Ok(_) => DriverStep::ApplyDesired,
        },
        DriverStep::ApplyDesired => match outcome {
            Err(error) => {
                let mut text = String::from_str("driver client error: ");
                text.append(error.as_str());
                DriverStep::Restore { error: text }
            },
            Ok(_) => match task {
                DriverTask::Stage => DriverStep::Serialize,
                DriverTask::Clear => DriverStep::RemoveRings,
            },
        },
        DriverStep::Serialize => match outcome {
            Err(error) => DriverStep::Finish { result: Err(error) },
            Ok(_) => DriverStep::WriteCache,
        },
        DriverStep::WriteCache => match outcome {
            Err(error) => DriverStep::Restore {
                error: path_error("failed to persist driver state cache ", path, error.as_str()),
            },
            Ok(_) => DriverStep::Finish { result: Ok(()) },
        },
        DriverStep::RemoveRings => DriverStep::RemoveCache,
        DriverStep::RemoveCache => match outcome {
            Err(error) => DriverStep::Restore {
                error: path_error("failed to remove driver state cache ", path, error.as_str()),
            },
            Ok(_) => DriverStep::Finish { result: Ok(()) },
        },
        DriverStep::Restore { error } => DriverStep::Finish { result: Err(error) },
        DriverStep::Finish { result } => DriverStep::Finish { result },
    }
}

/// How many steps a task has left at most.
pub open spec fn driver_steps_left(step: DriverView) -> int {
    match step {
        DriverView::CreateDirectory => 7,
        DriverView::Capture => 6,
        DriverView::ApplyDesired => 5,
        DriverView::Serialize | DriverView::RemoveRings => 4,
        DriverView::WriteCache | DriverView::RemoveCache => 3,
        DriverView::Restore(_) => 2,
        DriverView::Finish(_) => 0,
    }
}

/// A task ends, whatever its steps come to.
pub proof fn law_driver_task_ends(
    task: DriverTask,
    path: Seq<char>,
    step: DriverView,
    failure: Option<Seq<char>>,
)
    ensures
        step is Finish || driver_steps_left(driver_view_after(task, path, step, failure))
            < driver_steps_left(step),
{
}

/// Once the driver may have changed, a failed change leads to restoring what was remembered,
/// and the task then fails with that first failure.
pub proof fn law_failed_changes_are_restored(
    task: DriverTask,
    path: Seq<char>,
    step: DriverView,
    error: Seq<char>,
    later: Option<Seq<char>>,
)
    requires
        step is ApplyDesired || step is WriteCache || step is RemoveCache,
    ensures
        ({
            let next = driver_view_after(task, path, step, Some(error));
            &&& next is Restore
            &&& driver_view_after(task, path, next, later) == DriverView::Finish(
                Some(next->Restore_0),
            )
        }),
{
}

// ---------------------------------------------------------------------------
// What the driver reports

/// What the driver reports of its configuration.
#[derive(Debug, Clone, Copy, PartialEq, Eq, Structural)]
pub struct ConfigurationSummary {
    pub current_generation: u64,
    pub request_count: u64,
    pub perform_count: u64,
    pub applied_device_count: usize,
    pub pending: bool,
}

/// What the status says of the driver.
#[derive(Debug, Clone, Copy, PartialEq, Eq, Structural)]
pub struct DriverStatusSummary {
    pub generation: u64,
    pub request_count: u64,
    pub perform_count: u64,
    pub applied_device_count: usize,
    pub pending_change: bool,
}

/// What the status says of the driver: all zero where it could not be asked.
pub open spec fn summary_of(reported: Option<ConfigurationSummary>) -> DriverStatusSummary {
    match reported {
        Some(summary) => DriverStatusSummary {
            generation: summary.current_generation,
            request_count: summary.request_count,
            perform_count: summary.perform_count,
            applied_device_count: summary.applied_device_count,
            pending_change: summary.pending,
        },
        None => DriverStatusSummary {
            generation: 0,
            request_count: 0,
            perform_count: 0,
            applied_device_count: 0,
            pending_change: false,
        },
    }
}

/// What the status says of the driver.
pub fn driver_status_summary(reported: Option<ConfigurationSummary>) -> (r: DriverStatusSummary)
    ensures
        r == summary_of(reported),
{
    match reported {
        Some(summary) => DriverStatusSummary {
            generation: summary.current_generation,
            request_count: summary.request_count,
            perform_count: summary.perform_count,
            applied_device_count: summary.applied_device_count,
            pending_change: summary.pending,
        },
        None => DriverStatusSummary {
            generation: 0,
            request_count: 0,
            perform_count: 0,
            applied_device_count: 0,
            pending_change: false,
        },
    }
}

/// What the driver counts.
#[derive(Debug, Clone, Copy, PartialEq, Eq, Structural)]
pub struct RuntimeStats {
    pub underrun_count: u64,
    pub overrun_count: u64,
    pub xrun_count: u64,
    pub last_callback_ns: u64,
}

// ---------------------------------------------------------------------------
// Laws of the driver

/// Staging hands the driver the devices of the profile before it keeps what was handed over, and
/// clearing takes them back before it forgets them; either begins with taking down what is kept,
/// and what fails before anything was handed over leaves all as it was.
pub proof fn law_driver_tasks_go_in_order(path: Seq<char>, error: Seq<char>)
    ensures
        first_driver_view(DriverTask::Stage) is CreateDirectory,
        driver_view_after(DriverTask::Stage, path, DriverView::CreateDirectory, None) is Capture,
        driver_view_after(DriverTask::Stage, path, DriverView::Capture, None) is ApplyDesired,
        driver_view_after(DriverTask::Stage, path, DriverView::ApplyDesired, None) is Serialize,
        driver_view_after(DriverTask::Stage, path, DriverView::Serialize, None) is WriteCache,
        driver_view_after(DriverTask::Stage, path, DriverView::WriteCache, None)
            == DriverView::Finish(None),
        first_driver_view(DriverTask::Clear) is Capture,
        driver_view_after(DriverTask::Clear, path, DriverView::Capture, None) is ApplyDesired,
        driver_view_after(DriverTask::Clear, path, DriverView::ApplyDesired, None) is RemoveRings,
        driver_view_after(DriverTask::Clear, path, DriverView::RemoveRings, None) is RemoveCache,
        driver_view_after(DriverTask::Clear, path, DriverView::RemoveRings, Some(error))
            is RemoveCache,
        driver_view_after(DriverTask::Clear, path, DriverView::RemoveCache, None)
            == DriverView::Finish(None),
        forall|task: DriverTask| #[trigger]
            driver_view_after(task, path, DriverView::CreateDirectory, Some(error))
                == DriverView::Finish(Some(error)),
        forall|task: DriverTask| #[trigger]
            driver_view_after(task, path, DriverView::Capture, Some(error)) == DriverView::Finish(
                Some(error),
            ),
        forall|task: DriverTask| #[trigger]
            driver_view_after(task, path, DriverView::ApplyDesired, Some(error))
                == DriverView::Restore("driver client error: "@ + error),
{
}

/// A restoration hands the driver what was applied before, and nothing where nothing was; it
/// writes back what was kept, or removes what is kept now.
pub proof fn law_restoration_undoes_what_was_done(
    snapshot: DriverStateSnapshot,
    version: Seq<char>,
    i: int,
)
    ensures
        snapshot.parsed_state is Some ==> {
            let state = snapshot.parsed_state->0;
            let first = first_restoration(snapshot, version);
            &&& first is ApplyDesired
            &&& first->ApplyDesired_0.sample_rate == state.sample_rate
            &&& first->ApplyDesired_0.channels == state.channels
            &&& first->ApplyDesired_0.buffer_frames == state.buffer_frames
            &&& first->ApplyDesired_0.driver_version == state.version@
            &&& first->ApplyDesired_0.devices.len() == state.devices@.len()
            &&& 0 <= i < state.devices@.len() ==> first->ApplyDesired_0.devices[i].id
                == state.devices@[i].id@ && first->ApplyDesired_0.devices[i].uid
                == state.devices@[i].uid@ && first->ApplyDesired_0.devices[i].name
                == state.devices@[i].name@ && first->ApplyDesired_0.devices[i].channels
                == state.devices@[i].channels && first->ApplyDesired_0.devices[i].hidden
                == state.devices@[i].hidden
        },
        snapshot.parsed_state is None && snapshot.raw_json is None ==> {
            let first = first_restoration(snapshot, version);
            first is ApplyDesired && first->ApplyDesired_0.devices.len() == 0
        },
        snapshot.raw_json is Some ==> cache_restoration(snapshot) == RestoreView::WriteCache(
            snapshot.raw_json->0@,
        ),
        snapshot.raw_json is None ==> cache_restoration(snapshot) is RemoveCache,
        forall|step: RestoreView, error: Seq<char>|
            !(step is Finish) ==> {
                let next = #[trigger] restoration_after(snapshot, step, Some(error));
                next is Finish && next->Finish_0 is Some
            },
{
}

/// What is handed to the driver: the virtual devices of the profile, one by one, at the rate, the
/// channels and the buffer of the profile.
pub proof fn law_driver_gets_the_devices_of_the_profile(
    profile: Profile,
    sample_rate: u32,
    channels: u16,
    version: &str,
    r: (DriverAppliedState, HalDesiredState),
    i: int,
)
    requires
        call_ensures(desired_driver_state, (&profile, sample_rate, channels, version), r),
    ensures
        r.0.sample_rate == sample_rate,
        r.0.channels == channels,
        r.0.buffer_frames == profile.audio.buffer_frames,
        r.0.version@ == version@,
        r.1.sample_rate == sample_rate,
        r.1.channels == channels,
        r.1.buffer_frames == profile.audio.buffer_frames,
        r.1.devices@.len() == r.0.devices@.len(),
        r.0.devices@.len() == profile.virtual_devices.outputs@.len()
            + profile.virtual_devices.inputs@.len(),
        0 <= i < profile.virtual_devices.outputs@.len() ==> r.0.devices@[i].id@
            == profile.virtual_devices.outputs@[i].id@ && r.0.devices@[i].name@
            == profile.virtual_devices.outputs@[i].name@ && r.0.devices@[i].kind
            == NodeKind::VirtualOutput && r.0.devices@[i].hidden
            == profile.virtual_devices.outputs@[i].hidden,
        0 <= i < r.1.devices@.len() ==> r.1.devices@[i].id@ == r.0.devices@[i].id@
            && r.1.devices@[i].uid@ == r.0.devices@[i].uid@ && r.1.devices@[i].name@
            == r.0.devices@[i].name@ && r.1.devices@[i].channels == r.0.devices@[i].channels
            && r.1.devices@[i].hidden == r.0.devices@[i].hidden,
        0 <= i < r.1.devices@.len() && r.0.devices@[i].kind == NodeKind::VirtualOutput
            ==> r.1.devices@[i].kind@ == "virtual_output"@,
        0 <= i < r.1.devices@.len() && r.0.devices@[i].kind == NodeKind::VirtualInput
            ==> r.1.devices@[i].kind@ == "virtual_input"@,
{
    let applied = views(r.0.devices@);
    let desired = views(r.1.devices@);
    assert(applied.len() == r.0.devices@.len());
    assert(desired.len() == r.1.devices@.len());
    if 0 <= i < r.0.devices@.len() {
        assert(applied[i] == r.0.devices@[i]@);
        assert(desired[i] == r.1.devices@[i]@);
        assert(r.1@.devices[i] == hal_device(applied[i]));
    }
}

/// A profile is applied only with a driver that is installed, loaded and of the same first number
/// of the version.
pub proof fn law_drivers_are_compatible_by_major(
    installed: bool,
    loaded: bool,
    driver_version: Option<&str>,
    daemon_version: &str,
    r: Result<(), String>,
    available: Result<(), String>,
)
    requires
        call_ensures(
            ensure_driver_compatibility_for_apply,
            (installed, loaded, driver_version, daemon_version),
            r,
        ),
        call_ensures(ensure_driver_available, (installed, loaded), available),
    ensures
        r is Ok <==> installed && loaded && driver_version is Some && major(driver_version->0@)
            is Some && major(driver_version->0@) == major(daemon_version@),
        available is Ok <==> installed && loaded,
{
}

proof fn lemma_stop_place(text: Seq<char>, from: int, stop: int)
    requires
        0 <= from <= stop < text.len(),
        text[stop] == '.',
        forall|i: int| from <= i < stop ==> text[i] != '.',
    ensures
        stop_place(text, from) == stop,
    decreases stop - from,
{
    if from < stop {
        lemma_stop_place(text, from + 1, stop);
    }
}

/// The first number of a version is what stands in front of its first stop.
pub proof fn law_major_stands_in_front_of_the_first_stop(n: u64, rest: Seq<char>)
    ensures
        major(decimal(n as nat) + seq!['.'] + rest) == Some(n),
{
    let digits = decimal(n as nat);
    let version = digits + seq!['.'] + rest;
    lemma_numeral_digits(n as nat);
    assert forall|i: int| 0 <= i < digits.len() implies version[i] != '.' by {
        assert(version[i] == digits[i]);
        assert(is_digit(digits[i]));
    }
    lemma_stop_place(version, 0, digits.len() as int);
    assert(version.subrange(0, digits.len() as int) =~= digits);
    law_decimals_are_parsed(n);
}

/// What the driver reports is passed on as it is, and nothing where it reports nothing.
pub proof fn law_driver_summary_is_what_was_reported(summary: ConfigurationSummary)
    ensures
        ({
            let told = summary_of(Some(summary));
            &&& told.generation == summary.current_generation
            &&& told.request_count == summary.request_count
            &&& told.perform_count == summary.perform_count
            &&& told.applied_device_count == summary.applied_device_count
            &&& told.pending_change == summary.pending
            &&& summary_of(None).generation == 0
            &&& !summary_of(None).pending_change
        }),
{
}

} // verus!
