//! Matching the external devices of a profile with those that are there.

use crate::devices::ResolvedExternalDevice;
use crate::profile::{channels_or, DeviceMatch, NodeKind, Profile, TransportType};
use crate::sequences::{joined, lemma_views_push, views};
use vstd::prelude::*;
use vstd::string::*;

verus! {

broadcast use lemma_views_push;

/// An external device that is there.
#[derive(Debug, PartialEq, Eq)]
pub struct ExternalDeviceInfo {
    pub uid: String,
    pub name: String,
    pub manufacturer: Option<String>,
    pub transport: Option<TransportType>,
    pub channels: u16,
    pub sample_rates: Vec<u32>,
}

/// The external devices that are there.
#[derive(Debug, PartialEq, Eq)]
pub struct DeviceInventory {
    pub inputs: Vec<ExternalDeviceInfo>,
    pub outputs: Vec<ExternalDeviceInfo>,
}

/// What came of matching the external devices of a profile.
#[derive(Debug)]
pub struct ExternalResolution {
    pub resolved: Vec<ResolvedExternalDevice>,
    pub warnings: Vec<String>,
    pub errors: Vec<String>,
}

/// The device that fits best, and whether that rests on something unknown of it.
#[derive(Debug, Clone, Copy)]
pub struct MatchResult<'a> {
    pub device: &'a ExternalDeviceInfo,
    pub used_unknown_metadata: bool,
}

/// A compiled regular expression, carried as it is.
#[verifier::external_type_specification]
#[verifier::external_body]
pub struct ExRegex(regex::Regex);

/// Why a text is no regular expression, carried as it is.
#[verifier::external_type_specification]
#[verifier::external_body]
pub struct ExRegexError(regex::Error);

/// Whether a text is a regular expression.
pub uninterp spec fn regex_valid(pattern: Seq<char>) -> bool;

/// The text that a regular expression was made from.
pub uninterp spec fn regex_source(expression: regex::Regex) -> Seq<char>;

/// Whether the regular expression of a text has a match anywhere in another.
pub uninterp spec fn regex_matches(pattern: Seq<char>, text: Seq<char>) -> bool;

/// `regex::Regex::new`: the regular expression that a text stands for, where it is one. Whether
/// it is depends on the text alone, and the expression keeps the text.
#[verifier::external_body]
fn compile_regex(pattern: &str) -> (r: Result<regex::Regex, regex::Error>)
    ensures
        r is Ok <==> regex_valid(pattern@),
        r matches Ok(expression) ==> regex_source(expression) == pattern@,
{
    regex::Regex::new(pattern)
}

/// `regex::Regex::is_match`: whether the expression has a match anywhere in the text, which
/// depends on what the expression was made from and on the text alone.
#[verifier::external_body]
fn regex_is_match(expression: &regex::Regex, text: &str) -> (r: bool)
    ensures
        r == regex_matches(regex_source(*expression), text@),
{
    expression.is_match(text)
}

// ---------------------------------------------------------------------------
// How well a device fits

/// How a property of a device relates to what is asked for.
#[derive(Debug, Clone, Copy, PartialEq, Eq, Structural)]
pub enum Fit {
    /// Nothing is asked for.
    Any,
    /// It is what is asked for.
    Known,
    /// It is not known.
    Unknown,
    /// It is something else.
    Mismatch,
}

/// How the manufacturer fits.
pub open spec fn manufacturer_fit(criteria: DeviceMatch, device: ExternalDeviceInfo) -> Fit {
    match (criteria.manufacturer, device.manufacturer) {
        (None, _) => Fit::Any,
        (Some(_), None) => Fit::Unknown,
        (Some(wanted), Some(found)) => if wanted@ == found@ {
            Fit::Known
        } else {
            Fit::Mismatch
        },
    }
}

/// How the transport fits.
pub open spec fn transport_fit(criteria: DeviceMatch, device: ExternalDeviceInfo) -> Fit {
    match (criteria.transport, device.transport) {
        (None, _) => Fit::Any,
        (Some(_), None) => Fit::Unknown,
        (Some(wanted), Some(found)) => if wanted == found {
            Fit::Known
        } else {
            Fit::Mismatch
        },
    }
}

/// Whether a device has the uid, where one is asked for.
pub open spec fn uid_fits(criteria: DeviceMatch, device: ExternalDeviceInfo) -> bool {
    criteria.uid matches Some(uid) ==> device.uid@ == uid@
}

/// Whether a device has the name, where one is asked for.
pub open spec fn name_fits(criteria: DeviceMatch, device: ExternalDeviceInfo) -> bool {
    criteria.name matches Some(name) ==> device.name@ == name@
}

/// Whether a device can be taken, given whether its name satisfies the expression.
pub open spec fn fits(criteria: DeviceMatch, device: ExternalDeviceInfo, expression: bool) -> bool {
    &&& uid_fits(criteria, device)
    &&& name_fits(criteria, device)
    &&& expression
    &&& manufacturer_fit(criteria, device) != Fit::Mismatch
    &&& transport_fit(criteria, device) != Fit::Mismatch
}

/// Whether taking a device rests on something unknown of it.
pub open spec fn rests_on_unknown(criteria: DeviceMatch, device: ExternalDeviceInfo) -> bool {
    manufacturer_fit(criteria, device) == Fit::Unknown || transport_fit(criteria, device)
        == Fit::Unknown
}

/// How good a device is: first that nothing is unknown, then how much is known to fit.
pub open spec fn rank(criteria: DeviceMatch, device: ExternalDeviceInfo) -> int {
    (if rests_on_unknown(criteria, device) {
        0int
    } else {
        3int
    }) + (if manufacturer_fit(criteria, device) == Fit::Known {
        1int
    } else {
        0int
    }) + (if transport_fit(criteria, device) == Fit::Known {
        1int
    } else {
        0int
    })
}

/// Whether the device at a place is the first of the best.
pub open spec fn is_best(
    criteria: DeviceMatch,
    candidates: Seq<ExternalDeviceInfo>,
    expression: spec_fn(int) -> bool,
    best: int,
) -> bool {
    &&& 0 <= best < candidates.len()
    &&& fits(criteria, candidates[best], expression(best))
    &&& forall|i: int|
        0 <= i < candidates.len() && fits(criteria, #[trigger] candidates[i], expression(i))
            ==> rank(criteria, candidates[i]) <= rank(criteria, candidates[best]) && (i < best
            ==> rank(criteria, candidates[i]) < rank(criteria, candidates[best]))
}

/// Whether some device can be taken.
pub open spec fn some_fits(
    criteria: DeviceMatch,
    candidates: Seq<ExternalDeviceInfo>,
    expression: spec_fn(int) -> bool,
) -> bool {
    exists|i: int|
        0 <= i < candidates.len() && fits(criteria, #[trigger] candidates[i], expression(i))
}

/// The place of the first of the best, where some device can be taken.
pub open spec fn best_place(
    criteria: DeviceMatch,
    candidates: Seq<ExternalDeviceInfo>,
    expression: spec_fn(int) -> bool,
) -> Option<int> {
    if some_fits(criteria, candidates, expression) {
        Some(choose|best: int| is_best(criteria, candidates, expression, best))
    } else {
        None
    }
}

proof fn lemma_best_unique(
    criteria: DeviceMatch,
    candidates: Seq<ExternalDeviceInfo>,
    expression: spec_fn(int) -> bool,
    a: int,
    b: int,
)
    requires
        is_best(criteria, candidates, expression, a),
        is_best(criteria, candidates, expression, b),
    ensures
        a == b,
{
    assert(fits(criteria, candidates[a], expression(a)));
    assert(fits(criteria, candidates[b], expression(b)));
}

fn fit_of_manufacturer(criteria: &DeviceMatch, device: &ExternalDeviceInfo) -> (r: Fit)
    ensures
        r == manufacturer_fit(*criteria, *device),
{
    match (&criteria.manufacturer, &device.manufacturer) {
        (None, _) => Fit::Any,
        (Some(_), None) => Fit::Unknown,
        (Some(wanted), Some(found)) => if *wanted == *found {
            Fit::Known
        } else {
            Fit::Mismatch
        },
    }
}

fn fit_of_transport(criteria: &DeviceMatch, device: &ExternalDeviceInfo) -> (r: Fit)
    ensures
        r == transport_fit(*criteria, *device),
{
    match (criteria.transport, device.transport) {
        (None, _) => Fit::Any,
        (Some(_), None) => Fit::Unknown,
        (Some(wanted), Some(found)) => if wanted == found {
            Fit::Known
        } else {
            Fit::Mismatch
        },
    }
}

fn rank_of(criteria: &DeviceMatch, device: &ExternalDeviceInfo) -> (r: u8)
    ensures
        r == rank(*criteria, *device),
{
    let manufacturer = fit_of_manufacturer(criteria, device);
    let transport = fit_of_transport(criteria, device);
    let mut r: u8 = if manufacturer == Fit::Unknown || transport == Fit::Unknown {
        0
    } else {
        3
    };
    if manufacturer == Fit::Known {
        r = r + 1;
    }
    if transport == Fit::Known {
        r = r + 1;
    }
    r
}

fn check_fit(criteria: &DeviceMatch, device: &ExternalDeviceInfo, expression: bool) -> (r: bool)
    ensures
        r == fits(*criteria, *device, expression),
{
    if let Some(uid) = &criteria.uid {
        if device.uid != *uid {
            return false;
        }
    }
    if let Some(name) = &criteria.name {
        if device.name != *name {
            return false;
        }
    }
    expression && fit_of_manufacturer(criteria, device) != Fit::Mismatch && fit_of_transport(
        criteria,
        device,
    ) != Fit::Mismatch
}

/// The device that fits best, given for each whether its name satisfies the expression.
pub fn select_match<'a>(
    criteria: &DeviceMatch,
    candidates: &'a Vec<ExternalDeviceInfo>,
    expression: &Vec<bool>,
) -> (r: Option<MatchResult<'a>>)
    requires
        expression.len() == candidates.len(),
    ensures
        match (r, best_place(*criteria, candidates@, |i: int| expression@[i])) {
            (Some(found), Some(best)) => 0 <= best < candidates@.len() && *found.device
                == candidates@[best] && found.used_unknown_metadata == rests_on_unknown(
                *criteria,
                candidates@[best],
            ),
            (None, None) => true,
            _ => false,
        },
{
    let ghost holds = |i: int| expression@[i];
    let mut best: Option<usize> = None;
    let mut i: usize = 0;
    while i < candidates.len()
        invariant
            i <= candidates.len(),
            expression.len() == candidates.len(),
            holds == |i: int| expression@[i],
            match best {
                None => !some_fits(*criteria, candidates@.take(i as int), holds),
                Some(b) => b < i && is_best(*criteria, candidates@.take(i as int), holds, b as int),
            },
        decreases candidates.len() - i,
    {
        let ghost seen = candidates@.take(i as int);
        let ghost grown = candidates@.take(i + 1);
        proof {
            assert(grown =~= seen.push(candidates@[i as int]));
            assert forall|k: int| 0 <= k < i implies #[trigger] grown[k] == seen[k] by {}
        }
        if check_fit(criteria, &candidates[i], expression[i]) {
            match best {
                None => {
                    proof {
                        assert forall|k: int| 0 <= k < i implies !fits(
                            *criteria,
                            #[trigger] grown[k],
                            holds(k),
                        ) by {
                            assert(!fits(*criteria, seen[k], holds(k)));
                        }
                        assert(is_best(*criteria, grown, holds, i as int));
                    }
                    best = Some(i);
                },
                Some(b) => {
                    if rank_of(criteria, &candidates[i]) > rank_of(criteria, &candidates[b]) {
                        proof {
                            assert(seen[b as int] == candidates@[b as int]);
                            assert forall|k: int|
                                0 <= k < grown.len() && fits(
                                    *criteria,
                                    #[trigger] grown[k],
                                    holds(k),
                                ) implies rank(*criteria, grown[k]) <= rank(
                                *criteria,
                                grown[i as int],
                            ) && (k < i ==> rank(*criteria, grown[k]) < rank(
                                *criteria,
                                grown[i as int],
                            )) by {
                                if k < i {
                                    assert(fits(*criteria, seen[k], holds(k)));
                                }
                            }
                            assert(is_best(*criteria, grown, holds, i as int));
                        }
                        best = Some(i);
                    } else {
                        proof {
                            assert(seen[b as int] == candidates@[b as int]);
                            assert forall|k: int|
                                0 <= k < grown.len() && fits(
                                    *criteria,
                                    #[trigger] grown[k],
                                    holds(k),
                                ) implies rank(*criteria, grown[k]) <= rank(
                                *criteria,
                                grown[b as int],
                            ) && (k < b ==> rank(*criteria, grown[k]) < rank(
                                *criteria,
                                grown[b as int],
                            )) by {
                                if k < i {
                                    assert(fits(*criteria, seen[k], holds(k)));
                                }
                            }
                            assert(is_best(*criteria, grown, holds, b as int));
                        }
                    }
                },
            }
        } else {
            proof {
                if let Some(b) = best {
                    assert(seen[b as int] == candidates@[b as int]);
                    assert forall|k: int|
                        0 <= k < grown.len() && fits(
                            *criteria,
                            #[trigger] grown[k],
                            holds(k),
                        ) implies rank(*criteria, grown[k]) <= rank(*criteria, grown[b as int]) && (
                    k < b ==> rank(*criteria, grown[k]) < rank(*criteria, grown[b as int])) by {
                        assert(fits(*criteria, seen[k], holds(k)));
                    }
                    assert(is_best(*criteria, grown, holds, b as int));
                } else {
                    assert forall|k: int| 0 <= k < grown.len() implies !fits(
                        *criteria,
                        #[trigger] grown[k],
                        holds(k),
                    ) by {
                        if k < i {
                            assert(!fits(*criteria, seen[k], holds(k)));
                        }
                    }
                    assert(!some_fits(*criteria, grown, holds));
                }
            }
        }
        i = i + 1;
    }
    assert(candidates@.take(i as int) =~= candidates@);
    match best {
        None => None,
        Some(b) => {
            proof {
                assert(fits(*criteria, candidates@[b as int], holds(b as int)));
                assert(some_fits(*criteria, candidates@, holds));
                let place = best_place(*criteria, candidates@, holds)->0;
                assert(is_best(*criteria, candidates@, holds, place));
                lemma_best_unique(*criteria, candidates@, holds, b as int, place);
            }
            let device = &candidates[b];
            let manufacturer = fit_of_manufacturer(criteria, device);
            let transport = fit_of_transport(criteria, device);
            Some(
                MatchResult {
                    device,
                    used_unknown_metadata: manufacturer == Fit::Unknown || transport
                        == Fit::Unknown,
                },
            )
        },
    }
}

/// Whether the name of a device satisfies the expression, where one is asked for. What is
/// no regular expression is satisfied by no name.
pub open spec fn expression_holds(criteria: DeviceMatch, device: ExternalDeviceInfo) -> bool {
    match criteria.name_regex {
        None => true,
        Some(pattern) => regex_valid(pattern@) && regex_matches(pattern@, device.name@),
    }
}

/// The place of the device that fits best, by everything that is asked for.
pub open spec fn match_place(criteria: DeviceMatch, candidates: Seq<ExternalDeviceInfo>) -> Option<
    int,
> {
    best_place(criteria, candidates, |i: int| expression_holds(criteria, candidates[i]))
}

proof fn lemma_best_place_same(
    criteria: DeviceMatch,
    candidates: Seq<ExternalDeviceInfo>,
    a: spec_fn(int) -> bool,
    b: spec_fn(int) -> bool,
)
    requires
        forall|i: int| 0 <= i < candidates.len() ==> #[trigger] a(i) == b(i),
    ensures
        best_place(criteria, candidates, a) == best_place(criteria, candidates, b),
{
    assert forall|i: int| is_best(criteria, candidates, a, i) <==> is_best(
        criteria,
        candidates,
        b,
        i,
    ) by {
        if is_best(criteria, candidates, a, i) {
            assert(a(i) == b(i));
            assert forall|k: int|
                0 <= k < candidates.len() && fits(
                    criteria,
                    #[trigger] candidates[k],
                    b(k),
                ) implies rank(criteria, candidates[k]) <= rank(criteria, candidates[i]) && (k < i
                ==> rank(criteria, candidates[k]) < rank(criteria, candidates[i])) by {
                assert(a(k) == b(k));
            }
        }
        if is_best(criteria, candidates, b, i) {
            assert(a(i) == b(i));
            assert forall|k: int|
                0 <= k < candidates.len() && fits(
                    criteria,
                    #[trigger] candidates[k],
                    a(k),
                ) implies rank(criteria, candidates[k]) <= rank(criteria, candidates[i]) && (k < i
                ==> rank(criteria, candidates[k]) < rank(criteria, candidates[i])) by {
                assert(a(k) == b(k));
            }
        }
    }
    if some_fits(criteria, candidates, a) {
        let i = choose|i: int|
            0 <= i < candidates.len() && fits(criteria, #[trigger] candidates[i], a(i));
        assert(a(i) == b(i));
        assert(fits(criteria, candidates[i], b(i)));
    }
    if some_fits(criteria, candidates, b) {
        let i = choose|i: int|
            0 <= i < candidates.len() && fits(criteria, #[trigger] candidates[i], b(i));
        assert(a(i) == b(i));
        assert(fits(criteria, candidates[i], a(i)));
    }
    if some_fits(criteria, candidates, a) {
        let x = best_place(criteria, candidates, a)->0;
        let y = best_place(criteria, candidates, b)->0;
        lemma_best_exists(criteria, candidates, a);
        lemma_best_exists(criteria, candidates, b);
        assert(is_best(criteria, candidates, b, y));
        assert(is_best(criteria, candidates, a, x));
        assert(is_best(criteria, candidates, b, x));
        lemma_best_unique(criteria, candidates, b, x, y);
    }
}

proof fn lemma_best_exists(
    criteria: DeviceMatch,
    candidates: Seq<ExternalDeviceInfo>,
    expression: spec_fn(int) -> bool,
)
    requires
        some_fits(criteria, candidates, expression),
    ensures
        exists|best: int| is_best(criteria, candidates, expression, best),
    decreases candidates.len(),
{
    let last = candidates.len() - 1;
    let rest = candidates.drop_last();
    if some_fits(criteria, rest, expression) {
        lemma_best_exists(criteria, rest, expression);
        let b = choose|best: int| is_best(criteria, rest, expression, best);
        assert(rest[b] == candidates[b]);
        if fits(criteria, candidates[last], expression(last)) && rank(criteria, candidates[last])
            > rank(criteria, candidates[b]) {
            assert forall|k: int|
                0 <= k < candidates.len() && fits(
                    criteria,
                    #[trigger] candidates[k],
                    expression(k),
                ) implies rank(criteria, candidates[k]) <= rank(criteria, candidates[last]) && (k
                < last ==> rank(criteria, candidates[k]) < rank(criteria, candidates[last])) by {
                if k < last {
                    assert(fits(criteria, rest[k], expression(k)));
                }
            }
            assert(is_best(criteria, candidates, expression, last));
        } else {
            assert forall|k: int|
                0 <= k < candidates.len() && fits(
                    criteria,
                    #[trigger] candidates[k],
                    expression(k),
                ) implies rank(criteria, candidates[k]) <= rank(criteria, candidates[b]) && (k < b
                ==> rank(criteria, candidates[k]) < rank(criteria, candidates[b])) by {
                if k < last {
                    assert(fits(criteria, rest[k], expression(k)));
                }
            }
            assert(is_best(criteria, candidates, expression, b));
        }
    } else {
        let i = choose|i: int|
            0 <= i < candidates.len() && fits(criteria, #[trigger] candidates[i], expression(i));
        if i < last {
            assert(fits(criteria, rest[i], expression(i)));
        }
        assert forall|k: int|
            0 <= k < candidates.len() && fits(
                criteria,
                #[trigger] candidates[k],
                expression(k),
            ) implies k == last by {
            if k < last {
                assert(fits(criteria, rest[k], expression(k)));
            }
        }
        assert(is_best(criteria, candidates, expression, last));
    }
}

/// The device that fits best, by everything that is asked for.
pub fn find_match<'a>(criteria: &DeviceMatch, candidates: &'a Vec<ExternalDeviceInfo>) -> (r:
    Option<MatchResult<'a>>)
    ensures
        match (r, match_place(*criteria, candidates@)) {
            (Some(found), Some(best)) => 0 <= best < candidates@.len() && *found.device
                == candidates@[best] && found.used_unknown_metadata == rests_on_unknown(
                *criteria,
                candidates@[best],
            ),
            (None, None) => true,
            _ => false,
        },
{
    let compiled = match &criteria.name_regex {
        None => None,
        Some(pattern) => match compile_regex(pattern.as_str()) {
            Ok(compiled) => Some(compiled),
            Err(_) => {
                return None;
            },
        },
    };
    let mut expression: Vec<bool> = Vec::new();
    let mut i: usize = 0;
    while i < candidates.len()
        invariant
            i <= candidates.len(),
            expression@.len() == i,
            match (criteria.name_regex, compiled) {
                (None, None) => true,
                (Some(pattern), Some(compiled)) => regex_valid(pattern@) && regex_source(compiled)
                    == pattern@,
                _ => false,
            },
            forall|k: int|
                0 <= k < i ==> #[trigger] expression@[k] == expression_holds(
                    *criteria,
                    candidates@[k],
                ),
        decreases candidates.len() - i,
    {
        let holds = match &compiled {
            None => true,
            Some(compiled) => regex_is_match(compiled, candidates[i].name.as_str()),
        };
        expression.push(holds);
        i = i + 1;
    }
    proof {
        lemma_best_place_same(
            *criteria,
            candidates@,
            |i: int| expression@[i],
            |i: int| expression_holds(*criteria, candidates@[i]),
        );
    }
    select_match(criteria, candidates, &expression)
}

// ---------------------------------------------------------------------------
// All external devices of a profile

/// What a matched device is.
pub struct ResolvedView {
    pub logical_id: Seq<char>,
    pub matched_uid: Seq<char>,
    pub name: Seq<char>,
    pub kind: NodeKind,
    pub channels: u16,
}

impl View for ResolvedExternalDevice {
    type V = ResolvedView;

    open spec fn view(&self) -> ResolvedView {
        ResolvedView {
            logical_id: self.logical_id@,
            matched_uid: self.matched_uid@,
            name: self.name@,
            kind: self.kind,
            channels: self.channels,
        }
    }
}

/// What an endpoint resolves to: one device, or none.
pub open spec fn endpoint_resolved(
    id: Seq<char>,
    criteria: DeviceMatch,
    channels: Option<u16>,
    kind: NodeKind,
    candidates: Seq<ExternalDeviceInfo>,
) -> Seq<ResolvedView> {
    match match_place(criteria, candidates) {
        Some(i) => seq![
            ResolvedView {
                logical_id: id,
                matched_uid: candidates[i].uid@,
                name: candidates[i].name@,
                kind,
                channels: channels_or(channels, candidates[i].channels),
            },
        ],
        None => Seq::empty(),
    }
}

/// What the user is told of an endpoint whose match rests on something unknown.
pub open spec fn endpoint_warnings(
    id: Seq<char>,
    criteria: DeviceMatch,
    candidates: Seq<ExternalDeviceInfo>,
) -> Seq<Seq<char>> {
    match match_place(criteria, candidates) {
        Some(i) if rests_on_unknown(criteria, candidates[i]) => seq![
            "external endpoint '"@ + id + "' matched '"@ + candidates[i].name@
                + "' using best-effort metadata (manufacturer/transport unavailable)"@,
        ],
        _ => Seq::empty(),
    }
}

/// The error of an endpoint without a device.
pub open spec fn endpoint_errors(
    id: Seq<char>,
    criteria: DeviceMatch,
    candidates: Seq<ExternalDeviceInfo>,
) -> Seq<Seq<char>> {
    match match_place(criteria, candidates) {
        Some(_) => Seq::empty(),
        None => seq!["external endpoint '"@ + id + "' is missing"@],
    }
}

/// The matched devices of the first inputs.
pub open spec fn inputs_resolved(p: Profile, inventory: DeviceInventory, n: int) -> Seq<ResolvedView> {
    joined(
        |i: int|
            endpoint_resolved(
                p.external.inputs@[i].id@,
                p.external.inputs@[i].criteria,
                p.external.inputs@[i].channels,
                NodeKind::ExternalInput,
                inventory.inputs@,
            ),
        n,
    )
}

/// The warnings about the first inputs.
pub open spec fn inputs_warnings(p: Profile, inventory: DeviceInventory, n: int) -> Seq<Seq<char>> {
    joined(
        |i: int|
            endpoint_warnings(
                p.external.inputs@[i].id@,
                p.external.inputs@[i].criteria,
                inventory.inputs@,
            ),
        n,
    )
}

/// The errors about the first inputs.
pub open spec fn inputs_errors(p: Profile, inventory: DeviceInventory, n: int) -> Seq<Seq<char>> {
    joined(
        |i: int|
            endpoint_errors(
                p.external.inputs@[i].id@,
                p.external.inputs@[i].criteria,
                inventory.inputs@,
            ),
        n,
    )
}

/// The matched devices of the first outputs.
pub open spec fn outputs_resolved(p: Profile, inventory: DeviceInventory, n: int) -> Seq<
    ResolvedView,
> {
    joined(
        |i: int|
            endpoint_resolved(
                p.external.outputs@[i].id@,
                p.external.outputs@[i].criteria,
                p.external.outputs@[i].channels,
                NodeKind::ExternalOutput,
                inventory.outputs@,
            ),
        n,
    )
}

/// The warnings about the first outputs.
pub open spec fn outputs_warnings(p: Profile, inventory: DeviceInventory, n: int) -> Seq<Seq<char>> {
    joined(
        |i: int|
            endpoint_warnings(
                p.external.outputs@[i].id@,
                p.external.outputs@[i].criteria,
                inventory.outputs@,
            ),
        n,
    )
}

/// The errors about the first outputs.
pub open spec fn outputs_errors(p: Profile, inventory: DeviceInventory, n: int) -> Seq<Seq<char>> {
    joined(
        |i: int|
            endpoint_errors(
                p.external.outputs@[i].id@,
                p.external.outputs@[i].criteria,
                inventory.outputs@,
            ),
        n,
    )
}

/// What matching the external devices of a profile comes to: inputs first, then outputs.
pub open spec fn resolution_of(
    p: Profile,
    inventory: DeviceInventory,
    r: ExternalResolution,
) -> bool {
    let inputs = p.external.inputs@.len() as int;
    let outputs = p.external.outputs@.len() as int;
    &&& views(r.resolved@) == inputs_resolved(p, inventory, inputs) + outputs_resolved(
        p,
        inventory,
        outputs,
    )
    &&& views(r.warnings@) == inputs_warnings(p, inventory, inputs) + outputs_warnings(
        p,
        inventory,
        outputs,
    )
    &&& views(r.errors@) == inputs_errors(p, inventory, inputs) + outputs_errors(
        p,
        inventory,
        outputs,
    )
}

fn resolve_endpoint(
    resolution: &mut ExternalResolution,
    id: &String,
    criteria: &DeviceMatch,
    channels: Option<u16>,
    kind: NodeKind,
    candidates: &Vec<ExternalDeviceInfo>,
)
    ensures
        views(final(resolution).resolved@) == views(old(resolution).resolved@) + endpoint_resolved(
            id@,
            *criteria,
            channels,
            kind,
            candidates@,
        ),
        views(final(resolution).warnings@) == views(old(resolution).warnings@) + endpoint_warnings(
            id@,
            *criteria,
            candidates@,
        ),
        views(final(resolution).errors@) == views(old(resolution).errors@) + endpoint_errors(
            id@,
            *criteria,
            candidates@,
        ),
{
    let ghost resolved = views(resolution.resolved@);
    let ghost warnings = views(resolution.warnings@);
    let ghost errors = views(resolution.errors@);
    match find_match(criteria, candidates) {
        Some(found) => {
            if found.used_unknown_metadata {
                let mut text = String::from_str("external endpoint '");
                text.append(id.as_str());
                text.append("' matched '");
                text.append(found.device.name.as_str());
                text.append("' using best-effort metadata (manufacturer/transport unavailable)");
                resolution.warnings.push(text);
            }
            resolution.resolved.push(
                ResolvedExternalDevice {
                    logical_id: id.clone(),
                    matched_uid: found.device.uid.clone(),
                    name: found.device.name.clone(),
                    kind,
                    channels: channels.unwrap_or(found.device.channels),
                },
            );
        },
        None => {
            let mut text = String::from_str("external endpoint '");
            text.append(id.as_str());
            text.append("' is missing");
            resolution.errors.push(text);
        },
    }
    proof {
        assert(views(resolution.resolved@) =~= resolved + endpoint_resolved(
            id@,
            *criteria,
            channels,
            kind,
            candidates@,
        ));
        assert(views(resolution.warnings@) =~= warnings + endpoint_warnings(
            id@,
            *criteria,
            candidates@,
        ));
        assert(views(resolution.errors@) =~= errors + endpoint_errors(id@, *criteria, candidates@));
    }
}

/// Matches the external devices of a profile with those that are there.
pub fn resolve_externals(profile: &Profile, inventory: &DeviceInventory) -> (r: ExternalResolution)
    ensures
        resolution_of(*profile, *inventory, r),
{
    let mut resolution = ExternalResolution {
        resolved: Vec::new(),
        warnings: Vec::new(),
        errors: Vec::new(),
    };
    assert(views(resolution.resolved@) =~= inputs_resolved(*profile, *inventory, 0));
    assert(views(resolution.warnings@) =~= inputs_warnings(*profile, *inventory, 0));
    assert(views(resolution.errors@) =~= inputs_errors(*profile, *inventory, 0));
    let mut i: usize = 0;
    while i < profile.external.inputs.len()
        invariant
            i <= profile.external.inputs.len(),
            views(resolution.resolved@) == inputs_resolved(*profile, *inventory, i as int),
            views(resolution.warnings@) == inputs_warnings(*profile, *inventory, i as int),
            views(resolution.errors@) == inputs_errors(*profile, *inventory, i as int),
        decreases profile.external.inputs.len() - i,
    {
        let endpoint = &profile.external.inputs[i];
        resolve_endpoint(
            &mut resolution,
            &endpoint.id,
            &endpoint.criteria,
            endpoint.channels,
            NodeKind::ExternalInput,
            &inventory.inputs,
        );
        i = i + 1;
    }
    let ghost resolved = views(resolution.resolved@);
    let ghost warnings = views(resolution.warnings@);
    let ghost errors = views(resolution.errors@);
    assert(resolved =~= resolved + outputs_resolved(*profile, *inventory, 0));
    assert(warnings =~= warnings + outputs_warnings(*profile, *inventory, 0));
    assert(errors =~= errors + outputs_errors(*profile, *inventory, 0));
    i = 0;
    while i < profile.external.outputs.len()
        invariant
            i <= profile.external.outputs.len(),
            views(resolution.resolved@) == resolved + outputs_resolved(
                *profile,
                *inventory,
                i as int,
            ),
            views(resolution.warnings@) == warnings + outputs_warnings(
                *profile,
                *inventory,
                i as int,
            ),
            views(resolution.errors@) == errors + outputs_errors(*profile, *inventory, i as int),
        decreases profile.external.outputs.len() - i,
    {
        let endpoint = &profile.external.outputs[i];
        resolve_endpoint(
            &mut resolution,
            &endpoint.id,
            &endpoint.criteria,
            endpoint.channels,
            NodeKind::ExternalOutput,
            &inventory.outputs,
        );
        assert(views(resolution.resolved@) =~= resolved + outputs_resolved(
            *profile,
            *inventory,
            i + 1,
        ));
        assert(views(resolution.warnings@) =~= warnings + outputs_warnings(
            *profile,
            *inventory,
            i + 1,
        ));
        assert(views(resolution.errors@) =~= errors + outputs_errors(*profile, *inventory, i + 1));
        i = i + 1;
    }
    resolution
}

/// Every external endpoint of a profile is either matched or reported as missing.
pub proof fn law_every_endpoint_is_accounted_for(
    p: Profile,
    inventory: DeviceInventory,
    r: ExternalResolution,
)
    requires
        resolution_of(p, inventory, r),
    ensures
        r.resolved@.len() + r.errors@.len() == p.external.inputs@.len()
            + p.external.outputs@.len(),
{
    lemma_accounted(p, inventory, p.external.inputs@.len() as int, p.external.outputs@.len() as int);
    assert(views(r.resolved@).len() == r.resolved@.len());
    assert(views(r.errors@).len() == r.errors@.len());
}

proof fn lemma_accounted(p: Profile, inventory: DeviceInventory, inputs: int, outputs: int)
    requires
        0 <= inputs,
        0 <= outputs,
    ensures
        inputs_resolved(p, inventory, inputs).len() + inputs_errors(p, inventory, inputs).len()
            == inputs,
        outputs_resolved(p, inventory, outputs).len() + outputs_errors(p, inventory, outputs).len()
            == outputs,
    decreases inputs + outputs,
{
    if inputs > 0 {
        lemma_accounted(p, inventory, inputs - 1, outputs);
    } else if outputs > 0 {
        lemma_accounted(p, inventory, inputs, outputs - 1);
    }
}

proof fn lemma_match_place(criteria: DeviceMatch, candidates: Seq<ExternalDeviceInfo>)
    ensures
        match match_place(criteria, candidates) {
            Some(best) => is_best(
                criteria,
                candidates,
                |i: int| expression_holds(criteria, candidates[i]),
                best,
            ),
            None => !some_fits(
                criteria,
                candidates,
                |i: int| expression_holds(criteria, candidates[i]),
            ),
        },
{
    let expression = |i: int| expression_holds(criteria, candidates[i]);
    if some_fits(criteria, candidates, expression) {
        lemma_best_exists(criteria, candidates, expression);
    }
}

/// The device that is matched has what is asked for: the uid, the name, a name that the
/// expression matches, and the manufacturer and the transport where they are known. Whatever is
/// asked for and not known is told.
pub proof fn law_match_has_what_is_asked_for(
    criteria: DeviceMatch,
    candidates: Seq<ExternalDeviceInfo>,
)
    requires
        match_place(criteria, candidates) is Some,
    ensures
        ({
            let place = match_place(criteria, candidates)->0;
            let device = candidates[place];
            &&& 0 <= place < candidates.len()
            &&& criteria.uid matches Some(uid) ==> device.uid@ == uid@
            &&& criteria.name matches Some(name) ==> device.name@ == name@
            &&& criteria.name_regex matches Some(pattern) ==> regex_matches(pattern@, device.name@)
            &&& (criteria.manufacturer matches Some(wanted) && device.manufacturer matches Some(
                found,
            )) ==> criteria.manufacturer->0@ == device.manufacturer->0@
            &&& (criteria.transport is Some && device.transport is Some) ==> criteria.transport
                == device.transport
            &&& rests_on_unknown(criteria, device) <==> (criteria.manufacturer is Some
                && device.manufacturer is None) || (criteria.transport is Some && device.transport
                is None)
        }),
{
    lemma_match_place(criteria, candidates);
}

/// A device that has everything that is asked for is matched, or another such one in its place:
/// nothing is missing where it is there.
pub proof fn law_fitting_device_is_found(
    criteria: DeviceMatch,
    candidates: Seq<ExternalDeviceInfo>,
    i: int,
)
    requires
        0 <= i < candidates.len(),
        criteria.uid matches Some(uid) ==> candidates[i].uid@ == uid@,
        criteria.name matches Some(name) ==> candidates[i].name@ == name@,
        criteria.name_regex matches Some(pattern) ==> regex_valid(pattern@) && regex_matches(
            pattern@,
            candidates[i].name@,
        ),
        criteria.manufacturer is Some && candidates[i].manufacturer is Some
            ==> criteria.manufacturer->0@ == candidates[i].manufacturer->0@,
        criteria.transport is Some && candidates[i].transport is Some ==> criteria.transport
            == candidates[i].transport,
    ensures
        match_place(criteria, candidates) is Some,
{
    lemma_match_place(criteria, candidates);
    let expression = |k: int| expression_holds(criteria, candidates[k]);
    assert(expression(i));
    assert(fits(criteria, candidates[i], expression(i)));
}

/// Where no device has the name that is asked for, nothing is matched; the same holds of the
/// uid, and of an expression that is none.
pub proof fn law_nothing_else_is_taken(criteria: DeviceMatch, candidates: Seq<ExternalDeviceInfo>)
    ensures
        (criteria.name matches Some(name) && forall|i: int|
            0 <= i < candidates.len() ==> (#[trigger] candidates[i]).name@ != name@) ==> match_place(
            criteria,
            candidates,
        ) is None,
        (criteria.uid matches Some(uid) && forall|i: int|
            0 <= i < candidates.len() ==> (#[trigger] candidates[i]).uid@ != uid@) ==> match_place(
            criteria,
            candidates,
        ) is None,
        (criteria.name_regex matches Some(pattern) && !regex_valid(pattern@)) ==> match_place(
            criteria,
            candidates,
        ) is None,
{
    lemma_match_place(criteria, candidates);
}

/// A device of which everything that is asked for is known comes before one of which something
/// is not known, and of two alike the one that is listed first.
pub proof fn law_known_devices_come_first(
    criteria: DeviceMatch,
    candidates: Seq<ExternalDeviceInfo>,
    i: int,
)
    requires
        0 <= i < candidates.len(),
        criteria.uid matches Some(uid) ==> candidates[i].uid@ == uid@,
        criteria.name matches Some(name) ==> candidates[i].name@ == name@,
        criteria.name_regex matches Some(pattern) ==> regex_valid(pattern@) && regex_matches(
            pattern@,
            candidates[i].name@,
        ),
        criteria.manufacturer is Some ==> candidates[i].manufacturer is Some
            && criteria.manufacturer->0@ == candidates[i].manufacturer->0@,
        criteria.transport is Some ==> criteria.transport == candidates[i].transport,
    ensures
        ({
            let place = match_place(criteria, candidates)->0;
            let device = candidates[place];
            &&& match_place(criteria, candidates) is Some
            &&& place <= i
            &&& criteria.manufacturer is Some ==> device.manufacturer is Some
            &&& criteria.transport is Some ==> device.transport is Some
        }),
{
    law_fitting_device_is_found(criteria, candidates, i);
    lemma_match_place(criteria, candidates);
    let expression = |k: int| expression_holds(criteria, candidates[k]);
    let best = match_place(criteria, candidates)->0;
    assert(expression(i) && expression(best));
    assert(fits(criteria, candidates[i], expression(i)));
    assert(rank(criteria, candidates[i]) >= rank(criteria, candidates[best]));
}

proof fn lemma_joined_contains<A>(a: Seq<A>, b: Seq<A>)
    ensures
        forall|x: A| #[trigger] a.contains(x) ==> (a + b).contains(x),
        b.len() > 0 ==> (a + b).contains(b[0]),
{
    assert forall|x: A| #[trigger] a.contains(x) implies (a + b).contains(x) by {
        assert((a + b)[a.index_of(x)] == x);
    }
    if b.len() > 0 {
        assert((a + b)[a.len() as int] == b[0]);
    }
}

proof fn lemma_input_reported(p: Profile, inventory: DeviceInventory, k: int, n: int)
    requires
        0 <= k < n,
    ensures
        ({
            let endpoint = p.external.inputs@[k];
            let found = endpoint_resolved(
                endpoint.id@,
                endpoint.criteria,
                endpoint.channels,
                NodeKind::ExternalInput,
                inventory.inputs@,
            );
            let missing = endpoint_errors(endpoint.id@, endpoint.criteria, inventory.inputs@);
            let unsure = endpoint_warnings(endpoint.id@, endpoint.criteria, inventory.inputs@);
            &&& found.len() > 0 ==> inputs_resolved(p, inventory, n).contains(found[0])
            &&& missing.len() > 0 ==> inputs_errors(p, inventory, n).contains(missing[0])
            &&& unsure.len() > 0 ==> inputs_warnings(p, inventory, n).contains(unsure[0])
        }),
    decreases n,
{
    let endpoint = p.external.inputs@[n - 1];
    let rest = inputs_resolved(p, inventory, n - 1);
    let rest_errors = inputs_errors(p, inventory, n - 1);
    let rest_warnings = inputs_warnings(p, inventory, n - 1);
    let found = endpoint_resolved(
        endpoint.id@,
        endpoint.criteria,
        endpoint.channels,
        NodeKind::ExternalInput,
        inventory.inputs@,
    );
    let missing = endpoint_errors(endpoint.id@, endpoint.criteria, inventory.inputs@);
    let unsure = endpoint_warnings(endpoint.id@, endpoint.criteria, inventory.inputs@);
    assert(inputs_resolved(p, inventory, n) == rest + found);
    assert(inputs_errors(p, inventory, n) == rest_errors + missing);
    assert(inputs_warnings(p, inventory, n) == rest_warnings + unsure);
    lemma_joined_contains(rest, found);
    lemma_joined_contains(rest_errors, missing);
    lemma_joined_contains(rest_warnings, unsure);
    if k < n - 1 {
        lemma_input_reported(p, inventory, k, n - 1);
    }
}

proof fn lemma_output_reported(p: Profile, inventory: DeviceInventory, k: int, n: int)
    requires
        0 <= k < n,
    ensures
        ({
            let endpoint = p.external.outputs@[k];
            let found = endpoint_resolved(
                endpoint.id@,
                endpoint.criteria,
                endpoint.channels,
                NodeKind::ExternalOutput,
                inventory.outputs@,
            );
            let missing = endpoint_errors(endpoint.id@, endpoint.criteria, inventory.outputs@);
            let unsure = endpoint_warnings(endpoint.id@, endpoint.criteria, inventory.outputs@);
            &&& found.len() > 0 ==> outputs_resolved(p, inventory, n).contains(found[0])
            &&& missing.len() > 0 ==> outputs_errors(p, inventory, n).contains(missing[0])
            &&& unsure.len() > 0 ==> outputs_warnings(p, inventory, n).contains(unsure[0])
        }),
    decreases n,
{
    let endpoint = p.external.outputs@[n - 1];
    let rest = outputs_resolved(p, inventory, n - 1);
    let rest_errors = outputs_errors(p, inventory, n - 1);
    let rest_warnings = outputs_warnings(p, inventory, n - 1);
    let found = endpoint_resolved(
        endpoint.id@,
        endpoint.criteria,
        endpoint.channels,
        NodeKind::ExternalOutput,
        inventory.outputs@,
    );
    let missing = endpoint_errors(endpoint.id@, endpoint.criteria, inventory.outputs@);
    let unsure = endpoint_warnings(endpoint.id@, endpoint.criteria, inventory.outputs@);
    assert(outputs_resolved(p, inventory, n) == rest + found);
    assert(outputs_errors(p, inventory, n) == rest_errors + missing);
    assert(outputs_warnings(p, inventory, n) == rest_warnings + unsure);
    lemma_joined_contains(rest, found);
    lemma_joined_contains(rest_errors, missing);
    lemma_joined_contains(rest_warnings, unsure);
    if k < n - 1 {
        lemma_output_reported(p, inventory, k, n - 1);
    }
}

/// Every external input of a profile is matched among the inputs of the machine, and every
/// external output among its outputs: what is reported of it names the device that was matched,
/// or says that it is missing.
pub proof fn law_endpoints_are_reported(
    p: Profile,
    inventory: DeviceInventory,
    r: ExternalResolution,
    output: bool,
    k: int,
)
    requires
        resolution_of(p, inventory, r),
        0 <= k < if output {
            p.external.outputs@.len()
        } else {
            p.external.inputs@.len()
        },
    ensures
        ({
            let criteria = if output {
                p.external.outputs@[k].criteria
            } else {
                p.external.inputs@[k].criteria
            };
            let candidates = if output {
                inventory.outputs@
            } else {
                inventory.inputs@
            };
            let id = if output {
                p.external.outputs@[k].id@
            } else {
                p.external.inputs@[k].id@
            };
            let channels = if output {
                p.external.outputs@[k].channels
            } else {
                p.external.inputs@[k].channels
            };
            match match_place(criteria, candidates) {
                Some(i) => exists|j: int|
                    {
                        &&& 0 <= j < r.resolved@.len()
                        &&& (#[trigger] r.resolved@[j]).logical_id@ == id
                        &&& r.resolved@[j].matched_uid@ == candidates[i].uid@
                        &&& r.resolved@[j].name@ == candidates[i].name@
                        &&& r.resolved@[j].kind == if output {
                            NodeKind::ExternalOutput
                        } else {
                            NodeKind::ExternalInput
                        }
                        &&& r.resolved@[j].channels == match channels {
                            Some(wanted) => wanted,
                            None => candidates[i].channels,
                        }
                    },
                None => exists|j: int|
                    0 <= j < r.errors@.len() && (#[trigger] r.errors@[j])@ == "external endpoint '"@
                        + id + "' is missing"@,
            }
        }),
{
    let n = p.external.inputs@.len() as int;
    let m = p.external.outputs@.len() as int;
    let ins = inputs_resolved(p, inventory, n);
    let outs = outputs_resolved(p, inventory, m);
    let in_errors = inputs_errors(p, inventory, n);
    let out_errors = outputs_errors(p, inventory, m);
    if output {
        lemma_output_reported(p, inventory, k, m);
    } else {
        lemma_input_reported(p, inventory, k, n);
    }
    let criteria = if output {
        p.external.outputs@[k].criteria
    } else {
        p.external.inputs@[k].criteria
    };
    let candidates = if output {
        inventory.outputs@
    } else {
        inventory.inputs@
    };
    let id = if output {
        p.external.outputs@[k].id@
    } else {
        p.external.inputs@[k].id@
    };
    let channels = if output {
        p.external.outputs@[k].channels
    } else {
        p.external.inputs@[k].channels
    };
    let kind = if output {
        NodeKind::ExternalOutput
    } else {
        NodeKind::ExternalInput
    };
    match match_place(criteria, candidates) {
        Some(i) => {
            let wanted = endpoint_resolved(id, criteria, channels, kind, candidates)[0];
            let j = if output {
                ins.len() + outs.index_of(wanted)
            } else {
                ins.index_of(wanted)
            };
            assert(0 <= j < views(r.resolved@).len());
            assert(views(r.resolved@)[j] == wanted);
            assert(r.resolved@[j]@ == wanted);
        },
        None => {
            let wanted = endpoint_errors(id, criteria, candidates)[0];
            let j = if output {
                in_errors.len() + out_errors.index_of(wanted)
            } else {
                in_errors.index_of(wanted)
            };
            assert(0 <= j < views(r.errors@).len());
            assert(views(r.errors@)[j] == wanted);
            assert(r.errors@[j]@ == wanted);
        },
    }
}

/// A match that rests on something unknown is reported with a warning that names the endpoint
/// and the device.
pub proof fn law_unsure_matches_are_warned_of(
    p: Profile,
    inventory: DeviceInventory,
    r: ExternalResolution,
    k: int,
)
    requires
        resolution_of(p, inventory, r),
        0 <= k < p.external.inputs@.len(),
        match_place(p.external.inputs@[k].criteria, inventory.inputs@) matches Some(i) && {
            let criteria = p.external.inputs@[k].criteria;
            let device = inventory.inputs@[i];
            (criteria.manufacturer is Some && device.manufacturer is None) || (criteria.transport
                is Some && device.transport is None)
        },
    ensures
        exists|j: int|
            0 <= j < r.warnings@.len() && (#[trigger] r.warnings@[j])@ == "external endpoint '"@
                + p.external.inputs@[k].id@ + "' matched '"@ + inventory.inputs@[match_place(
                p.external.inputs@[k].criteria,
                inventory.inputs@,
            )->0].name@
                + "' using best-effort metadata (manufacturer/transport unavailable)"@,
{
    let n = p.external.inputs@.len() as int;
    lemma_input_reported(p, inventory, k, n);
    let ins = inputs_warnings(p, inventory, n);
    let wanted = endpoint_warnings(
        p.external.inputs@[k].id@,
        p.external.inputs@[k].criteria,
        inventory.inputs@,
    )[0];
    let j = ins.index_of(wanted);
    assert(0 <= j < views(r.warnings@).len());
    assert(views(r.warnings@)[j] == wanted);
    assert(r.warnings@[j]@ == wanted);
}

/// Nothing is missing exactly where every endpoint is matched.
pub proof fn law_nothing_is_missing_where_all_are_matched(
    p: Profile,
    inventory: DeviceInventory,
    n: int,
    m: int,
)
    requires
        0 <= n <= p.external.inputs@.len(),
        0 <= m <= p.external.outputs@.len(),
    ensures
        inputs_errors(p, inventory, n).len() == 0 <==> forall|i: int|
            0 <= i < n ==> match_place(
                (#[trigger] p.external.inputs@[i]).criteria,
                inventory.inputs@,
            ) is Some,
        outputs_errors(p, inventory, m).len() == 0 <==> forall|i: int|
            0 <= i < m ==> match_place(
                (#[trigger] p.external.outputs@[i]).criteria,
                inventory.outputs@,
            ) is Some,
    decreases n + m,
{
    if n > 0 {
        law_nothing_is_missing_where_all_are_matched(p, inventory, n - 1, m);
        let last = p.external.inputs@[n - 1];
        assert(inputs_errors(p, inventory, n) == inputs_errors(p, inventory, n - 1)
            + endpoint_errors(last.id@, last.criteria, inventory.inputs@));
    } else if m > 0 {
        law_nothing_is_missing_where_all_are_matched(p, inventory, n, m - 1);
        let last = p.external.outputs@[m - 1];
        assert(outputs_errors(p, inventory, m) == outputs_errors(p, inventory, m - 1)
            + endpoint_errors(last.id@, last.criteria, inventory.outputs@));
    }
}

/// The device that is found is one of those there, and has what is asked for of it.
pub proof fn law_find_match<'a>(
    criteria: DeviceMatch,
    candidates: &'a Vec<ExternalDeviceInfo>,
    r: Option<MatchResult<'a>>,
    i: int,
)
    requires
        call_ensures(find_match, (&criteria, candidates), r),
    ensures
        r is Some ==> {
            let device = *r->0.device;
            &&& candidates@.contains(device)
            &&& criteria.uid is Some ==> device.uid@ == criteria.uid->0@
            &&& criteria.name is Some ==> device.name@ == criteria.name->0@
            &&& criteria.name_regex is Some ==> regex_matches(criteria.name_regex->0@, device.name@)
            &&& criteria.manufacturer is Some && device.manufacturer is Some
                ==> device.manufacturer->0@ == criteria.manufacturer->0@
            &&& criteria.transport is Some && device.transport is Some ==> device.transport
                == criteria.transport
            &&& r->0.used_unknown_metadata <==> (criteria.manufacturer is Some
                && device.manufacturer is None) || (criteria.transport is Some && device.transport
                is None)
        },
        0 <= i < candidates@.len() && criteria.name_regex is None && (criteria.uid is Some
            ==> candidates@[i].uid@ == criteria.uid->0@) && (criteria.name is Some
            ==> candidates@[i].name@ == criteria.name->0@) && criteria.manufacturer is None
            && criteria.transport is None ==> r is Some,
        criteria.name is Some && (forall|k: int|
            0 <= k < candidates@.len() ==> (#[trigger] candidates@[k]).name@ != criteria.name->0@)
            ==> r is None,
{
    law_nothing_else_is_taken(criteria, candidates@);
    if r is Some {
        law_match_has_what_is_asked_for(criteria, candidates@);
        assert(candidates@.contains(candidates@[match_place(criteria, candidates@)->0]));
    }
    if 0 <= i < candidates@.len() && criteria.name_regex is None && (criteria.uid is Some
        ==> candidates@[i].uid@ == criteria.uid->0@) && (criteria.name is Some
        ==> candidates@[i].name@ == criteria.name->0@) && criteria.manufacturer is None
        && criteria.transport is None {
        law_fitting_device_is_found(criteria, candidates@, i);
    }
}

} // verus!
