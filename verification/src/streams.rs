//! Streams of external devices: which there are and which is chosen.

use crate::matching::{DeviceInventory, ExternalDeviceInfo};
use crate::number::Real32;
use crate::sequences::{first_some, kept, lemma_kept};
use crate::text::{contains_text, decimal, decimal_text, str_contains, str_equal};
use vstd::prelude::*;
use vstd::string::*;

verus! {

/// Which way audio flows through a stream.
#[derive(Debug, Clone, Copy, PartialEq, Eq, Structural)]
pub enum StreamDirection {
    Input,
    Output,
}

/// The direction in words.
pub open spec fn direction_text(direction: StreamDirection) -> Seq<char> {
    match direction {
        StreamDirection::Input => "input"@,
        StreamDirection::Output => "output"@,
    }
}

impl StreamDirection {
    /// The direction in words.
    #[must_use]
    pub fn as_str(self) -> (r: &'static str)
        ensures
            r@ == direction_text(self),
    {
        match self {
            StreamDirection::Input => "input",
            StreamDirection::Output => "output",
        }
    }
}

/// Why an operation on external devices failed.
#[derive(Debug, PartialEq)]
pub enum CoreAudioError {
    Host(String),
    Enumerate(String),
    DefaultDeviceUnavailable { direction: &'static str },
    DeviceNotFound { uid: String },
    UnsupportedChannelCount {
        uid: String,
        direction: &'static str,
        sample_rate: u32,
        preferred: Vec<u16>,
    },
    UnsupportedStreamConfig { uid: String, direction: &'static str, sample_rate: u32 },
    BuildInputStream { uid: String, reason: String },
    BuildOutputStream { uid: String, reason: String },
    StartStream { uid: String, reason: String },
    ProbeTimeout { timeout_ms: u64 },
    ProbeCorrelationLow { score: Real32 },
    Probe { reason: String },
}

/// Numbers separated by commas.
pub open spec fn number_list(numbers: Seq<u16>) -> Seq<char>
    decreases numbers.len(),
{
    if numbers.len() == 0 {
        Seq::empty()
    } else if numbers.len() == 1 {
        decimal(numbers[0] as nat)
    } else {
        number_list(numbers.drop_last()) + ", "@ + decimal(numbers.last() as nat)
    }
}

/// The text of an error; the number that an error of correlation holds is given in words.
pub open spec fn core_audio_error_text(e: CoreAudioError, score: Seq<char>) -> Seq<char> {
    match e {
        CoreAudioError::Host(text) => "cpal host unavailable: "@ + text@,
        CoreAudioError::Enumerate(text) => "failed to enumerate devices: "@ + text@,
        CoreAudioError::DefaultDeviceUnavailable { direction } => "no default "@ + direction@
            + " device is available"@,
        CoreAudioError::DeviceNotFound { uid } => "device not found for uid '"@ + uid@ + "'"@,
        CoreAudioError::UnsupportedChannelCount { uid, direction, sample_rate, preferred } =>
        "no supported "@ + direction@ + " stream config for uid '"@ + uid@ + "' at "@ + decimal(
            sample_rate as nat,
        ) + " Hz using preferred channels ["@ + number_list(preferred@) + "]"@,
        CoreAudioError::UnsupportedStreamConfig { uid, direction, sample_rate } => "no supported "@
            + direction@ + " stream config for uid '"@ + uid@ + "' at "@ + decimal(
            sample_rate as nat,
        ) + " Hz"@,
        CoreAudioError::BuildInputStream { uid, reason } =>
        "failed to build input stream for uid '"@ + uid@ + "': "@ + reason@,
        CoreAudioError::BuildOutputStream { uid, reason } =>
        "failed to build output stream for uid '"@ + uid@ + "': "@ + reason@,
        CoreAudioError::StartStream { uid, reason } => "failed to start stream for uid '"@ + uid@
            + "': "@ + reason@,
        CoreAudioError::ProbeTimeout { timeout_ms } => "loopback probe timed out after "@ + decimal(
            timeout_ms as nat,
        ) + " ms"@,
        CoreAudioError::ProbeCorrelationLow { score: _ } =>
        "loopback probe did not find a reliable correlation peak (score="@ + score + ")"@,
        CoreAudioError::Probe { reason } => "loopback probe failed: "@ + reason@,
    }
}

fn number_list_text(numbers: &Vec<u16>) -> (r: String)
    ensures
        r@ == number_list(numbers@),
{
    let mut r = String::new();
    let mut i: usize = 0;
    while i < numbers.len()
        invariant
            i <= numbers.len(),
            r@ == number_list(numbers@.take(i as int)),
        decreases numbers.len() - i,
    {
        proof {
            assert(numbers@.take(i + 1).drop_last() =~= numbers@.take(i as int));
        }
        let ghost before = r@;
        if i > 0 {
            r.append(", ");
        }
        r.append(decimal_text(numbers[i] as u64).as_str());
        assert(i == 0 ==> r@ =~= decimal(numbers@[0] as nat));
        i = i + 1;
    }
    assert(numbers@.take(i as int) =~= numbers@);
    r
}

fn three(a: &str, b: &str, c: &str) -> (r: String)
    ensures
        r@ == a@ + b@ + c@,
{
    let mut r = String::from_str(a);
    r.append(b);
    r.append(c);
    r
}

fn four(a: &str, b: &str, c: &str, d: &str) -> (r: String)
    ensures
        r@ == a@ + b@ + c@ + d@,
{
    let mut r = three(a, b, c);
    r.append(d);
    r
}

impl CoreAudioError {
    /// The text of the error. Where the error holds a correlation, its numeral is given.
    pub fn message(&self, score: &str) -> (r: String)
        ensures
            r@ == core_audio_error_text(*self, score@),
    {
        match self {
            CoreAudioError::Host(text) => {
                let mut r = String::from_str("cpal host unavailable: ");
                r.append(text.as_str());
                r
            },
            CoreAudioError::Enumerate(text) => {
                let mut r = String::from_str("failed to enumerate devices: ");
                r.append(text.as_str());
                r
            },
            CoreAudioError::DefaultDeviceUnavailable { direction } => three(
                "no default ",
                direction,
                " device is available",
            ),
            CoreAudioError::DeviceNotFound { uid } => three(
                "device not found for uid '",
                uid.as_str(),
                "'",
            ),
            CoreAudioError::UnsupportedChannelCount { uid, direction, sample_rate, preferred } => {
                let mut r = three("no supported ", direction, " stream config for uid '");
                r.append(uid.as_str());
                r.append("' at ");
                r.append(decimal_text(*sample_rate as u64).as_str());
                r.append(" Hz using preferred channels [");
                r.append(number_list_text(preferred).as_str());
                r.append("]");
                r
            },
            CoreAudioError::UnsupportedStreamConfig { uid, direction, sample_rate } => {
                let mut r = three("no supported ", direction, " stream config for uid '");
                r.append(uid.as_str());
                r.append("' at ");
                r.append(decimal_text(*sample_rate as u64).as_str());
                r.append(" Hz");
                r
            },
            CoreAudioError::BuildInputStream { uid, reason } => four(
                "failed to build input stream for uid '",
                uid.as_str(),
                "': ",
                reason.as_str(),
            ),
            CoreAudioError::BuildOutputStream { uid, reason } => four(
                "failed to build output stream for uid '",
                uid.as_str(),
                "': ",
                reason.as_str(),
            ),
            CoreAudioError::StartStream { uid, reason } => four(
                "failed to start stream for uid '",
                uid.as_str(),
                "': ",
                reason.as_str(),
            ),
            CoreAudioError::ProbeTimeout { timeout_ms } => three(
                "loopback probe timed out after ",
                decimal_text(*timeout_ms).as_str(),
                " ms",
            ),
            CoreAudioError::ProbeCorrelationLow { score: _ } => three(
                "loopback probe did not find a reliable correlation peak (score=",
                score,
                ")",
            ),
            CoreAudioError::Probe { reason } => {
                let mut r = String::from_str("loopback probe failed: ");
                r.append(reason.as_str());
                r
            },
        }
    }
}

// ---------------------------------------------------------------------------
// Sets of numbers in increasing order

/// Whether numbers stand in strictly increasing order.
pub open spec fn ascending(list: Seq<u32>) -> bool {
    forall|i: int, j: int| 0 <= i < j < list.len() ==> #[trigger] list[i] < #[trigger] list[j]
}

/// Puts a number into an increasing list, unless it is there.
pub fn insert_ascending(list: &mut Vec<u32>, x: u32)
    requires
        ascending(old(list)@),
    ensures
        ascending(final(list)@),
        final(list)@.to_set() == old(list)@.to_set().insert(x),
{
    let ghost before = list@;
    let mut i: usize = 0;
    while i < list.len() && list[i] < x
        invariant
            i <= list.len(),
            list@ == before,
            forall|k: int| 0 <= k < i ==> list@[k] < x,
        decreases list.len() - i,
    {
        i = i + 1;
    }
    if i < list.len() && list[i] == x {
        proof {
            assert(before.contains(x)) by {
                assert(before[i as int] == x);
            }
            assert(list@.to_set() =~= before.to_set().insert(x));
        }
        return ;
    }
    list.insert(i, x);
    proof {
        let after = list@;
        assert forall|a: int, b: int| 0 <= a < b < after.len() implies #[trigger] after[a]
            < #[trigger] after[b] by {
            if a == i {
                if i < before.len() {
                    assert(before[i as int] > x);
                }
                assert(after[b] == before[b - 1]);
            } else if b == i {
                assert(after[a] == before[a]);
            } else {
                let pa = if a < i { a } else { a - 1 };
                let pb = if b < i { b } else { b - 1 };
                assert(after[a] == before[pa] && after[b] == before[pb]);
            }
        }
        assert forall|y: u32| after.to_set().contains(y) <==> before.to_set().insert(x).contains(
            y,
        ) by {
            if after.contains(y) && y != x {
                let k = after.index_of(y);
                let p = if k < i { k } else { k - 1 };
                assert(before[p] == y);
            }
            if before.contains(y) {
                let p = before.index_of(y);
                let k = if p < i { p } else { p + 1 };
                assert(after[k] == y);
            }
            assert(after[i as int] == x);
        }
        assert(after.to_set() =~= before.to_set().insert(x));
    }
}

// ---------------------------------------------------------------------------
// Stream configurations

/// The formats of samples that a device may want.
#[derive(Debug, Clone, Copy, PartialEq, Eq, Structural)]
pub enum SampleFormat {
    Float,
    Int16,
    Uint16,
    Int8,
    Int24,
    Int32,
    Int64,
    Uint8,
    Uint24,
    Uint32,
    Uint64,
    Double,
    Dsd8,
    Dsd16,
    Dsd32,
    Other,
}

/// A range of configurations that a device supports.
#[derive(Debug, Clone, Copy, PartialEq, Eq, Structural)]
pub struct SupportedConfig {
    pub channels: u16,
    pub min_sample_rate: u32,
    pub max_sample_rate: u32,
    pub format: SampleFormat,
}

/// The configuration of a stream.
#[derive(Debug, Clone, Copy, PartialEq, Eq, Structural)]
pub struct StreamChoice {
    pub channels: u16,
    pub sample_rate: u32,
    pub format: SampleFormat,
}

/// How little a format is wanted.
pub open spec fn format_priority(format: SampleFormat) -> int {
    match format {
        SampleFormat::Float => 0,
        SampleFormat::Int16 => 1,
        SampleFormat::Uint16 => 2,
        _ => 3,
    }
}

/// How little a format is wanted.
pub fn sample_format_priority(format: SampleFormat) -> (r: usize)
    ensures
        r == format_priority(format),
{
    match format {
        SampleFormat::Float => 0,
        SampleFormat::Int16 => 1,
        SampleFormat::Uint16 => 2,
        _ => 3,
    }
}

/// Whether a range holds the sample rate.
pub open spec fn holds_rate(config: SupportedConfig, sample_rate: u32) -> bool {
    config.min_sample_rate <= sample_rate <= config.max_sample_rate
}

/// Whether a range holds the configuration.
pub open spec fn holds_config(config: SupportedConfig, channels: u16, sample_rate: u32) -> bool {
    config.channels == channels && holds_rate(config, sample_rate)
}

/// Whether the range at a place is the first of those with the most wanted format.
pub open spec fn is_chosen(
    configs: Seq<SupportedConfig>,
    channels: u16,
    sample_rate: u32,
    place: int,
) -> bool {
    &&& 0 <= place < configs.len()
    &&& holds_config(configs[place], channels, sample_rate)
    &&& forall|i: int|
        0 <= i < configs.len() && holds_config(#[trigger] configs[i], channels, sample_rate)
            ==> format_priority(configs[place].format) <= format_priority(configs[i].format) && (i
            < place ==> format_priority(configs[place].format) < format_priority(
            configs[i].format,
        ))
}

/// Whether some range holds the configuration.
pub open spec fn some_config(configs: Seq<SupportedConfig>, channels: u16, sample_rate: u32) -> bool {
    exists|i: int|
        0 <= i < configs.len() && holds_config(#[trigger] configs[i], channels, sample_rate)
}

/// The text about a device without the configuration.
pub open spec fn no_config_text(
    direction: StreamDirection,
    channels: u16,
    sample_rate: u32,
) -> Seq<char> {
    "no supported "@ + direction_text(direction) + " config for channels="@ + decimal(
        channels as nat,
    ) + " sample_rate="@ + decimal(sample_rate as nat)
}

fn choose_config(configs: &Vec<SupportedConfig>, channels: u16, sample_rate: u32) -> (r: Option<
    usize,
>)
    ensures
        match r {
            Some(place) => is_chosen(configs@, channels, sample_rate, place as int),
            None => !some_config(configs@, channels, sample_rate),
        },
{
    let mut best: Option<usize> = None;
    let mut i: usize = 0;
    while i < configs.len()
        invariant
            i <= configs.len(),
            match best {
                Some(b) => b < i && holds_config(configs@[b as int], channels, sample_rate) && (
                forall|k: int|
                    0 <= k < i && holds_config(#[trigger] configs@[k], channels, sample_rate)
                        ==> format_priority(configs@[b as int].format) <= format_priority(
                        configs@[k].format,
                    ) && (k < b ==> format_priority(configs@[b as int].format) < format_priority(
                        configs@[k].format,
                    ))),
                None => forall|k: int|
                    0 <= k < i ==> !holds_config(#[trigger] configs@[k], channels, sample_rate),
            },
        decreases configs.len() - i,
    {
        let config = configs[i];
        if config.channels == channels && config.min_sample_rate <= sample_rate && sample_rate
            <= config.max_sample_rate {
            match best {
                Some(b) => {
                    if sample_format_priority(config.format) < sample_format_priority(
                        configs[b].format,
                    ) {
                        best = Some(i);
                    }
                },
                None => {
                    best = Some(i);
                },
            }
        }
        i = i + 1;
    }
    best
}

/// Chooses a stream with the channels and sample rate, in the format that is wanted most.
pub fn select_stream_config(
    configs: &Vec<SupportedConfig>,
    direction: StreamDirection,
    channels: u16,
    sample_rate: u32,
) -> (r: Result<StreamChoice, String>)
    ensures
        match r {
            Ok(choice) => choice.channels == channels && choice.sample_rate == sample_rate && exists|
                place: int,
            | #[trigger]
                is_chosen(configs@, channels, sample_rate, place) && choice.format
                    == configs@[place].format,
            Err(text) => !some_config(configs@, channels, sample_rate) && text@ == no_config_text(
                direction,
                channels,
                sample_rate,
            ),
        },
{
    match choose_config(configs, channels, sample_rate) {
        Some(place) => {
            assert(is_chosen(configs@, channels, sample_rate, place as int));
            Ok(StreamChoice { channels, sample_rate, format: configs[place].format })
        },
        None => {
            let mut text = String::from_str("no supported ");
            text.append(direction.as_str());
            text.append(" config for channels=");
            text.append(decimal_text(channels as u64).as_str());
            text.append(" sample_rate=");
            text.append(decimal_text(sample_rate as u64).as_str());
            Err(text)
        },
    }
}

/// The error about a stream that cannot be opened.
pub open spec fn is_build_error(
    error: CoreAudioError,
    uid: Seq<char>,
    direction: StreamDirection,
    text: Seq<char>,
) -> bool {
    match direction {
        StreamDirection::Input => error matches CoreAudioError::BuildInputStream {
            uid: named,
            reason,
        } && named@ == uid && reason@ == text,
        StreamDirection::Output => error matches CoreAudioError::BuildOutputStream {
            uid: named,
            reason,
        } && named@ == uid && reason@ == text,
    }
}

/// The name of a format.
pub open spec fn format_name(format: SampleFormat) -> Seq<char> {
    match format {
        SampleFormat::Float => "F32"@,
        SampleFormat::Int16 => "I16"@,
        SampleFormat::Uint16 => "U16"@,
        SampleFormat::Int8 => "I8"@,
        SampleFormat::Int24 => "I24"@,
        SampleFormat::Int32 => "I32"@,
        SampleFormat::Int64 => "I64"@,
        SampleFormat::Uint8 => "U8"@,
        SampleFormat::Uint24 => "U24"@,
        SampleFormat::Uint32 => "U32"@,
        SampleFormat::Uint64 => "U64"@,
        SampleFormat::Double => "F64"@,
        SampleFormat::Dsd8 => "DsdU8"@,
        SampleFormat::Dsd16 => "DsdU16"@,
        SampleFormat::Dsd32 => "DsdU32"@,
        SampleFormat::Other => "unknown"@,
    }
}

fn name_format(format: SampleFormat) -> (r: &'static str)
    ensures
        r@ == format_name(format),
{
    match format {
        SampleFormat::Float => "F32",
        SampleFormat::Int16 => "I16",
        SampleFormat::Uint16 => "U16",
        SampleFormat::Int8 => "I8",
        SampleFormat::Int24 => "I24",
        SampleFormat::Int32 => "I32",
        SampleFormat::Int64 => "I64",
        SampleFormat::Uint8 => "U8",
        SampleFormat::Uint24 => "U24",
        SampleFormat::Uint32 => "U32",
        SampleFormat::Uint64 => "U64",
        SampleFormat::Double => "F64",
        SampleFormat::Dsd8 => "DsdU8",
        SampleFormat::Dsd16 => "DsdU16",
        SampleFormat::Dsd32 => "DsdU32",
        SampleFormat::Other => "unknown",
    }
}

/// The error about a stream of samples in a format that is not supported.
pub fn unsupported_format(uid: &str, direction: StreamDirection, format: SampleFormat) -> (r:
    CoreAudioError)
    ensures
        is_build_error(
            r,
            uid@,
            direction,
            "unsupported "@ + direction_text(direction) + " sample format: "@ + format_name(format),
        ),
{
    let mut reason = String::from_str("unsupported ");
    reason.append(direction.as_str());
    reason.append(" sample format: ");
    reason.append(name_format(format));
    match direction {
        StreamDirection::Input => {
            CoreAudioError::BuildInputStream { uid: String::from_str(uid), reason }
        },
        StreamDirection::Output => {
            CoreAudioError::BuildOutputStream { uid: String::from_str(uid), reason }
        },
    }
}

/// The stream to open on a device, from what asking it for its configurations came to.
pub fn choose_stream(
    uid: &str,
    direction: StreamDirection,
    channels: u16,
    sample_rate: u32,
    queried: &Result<Vec<SupportedConfig>, String>,
) -> (r: Result<StreamChoice, CoreAudioError>)
    ensures
        match (*queried, r) {
            (Err(error), Err(e)) => is_build_error(e, uid@, direction, error@),
            (Err(_), Ok(_)) => false,
            (Ok(configs), Ok(choice)) => choice.channels == channels && choice.sample_rate
                == sample_rate && exists|place: int| #[trigger]
                is_chosen(configs@, channels, sample_rate, place) && choice.format
                    == configs@[place].format,
            (Ok(configs), Err(e)) => !some_config(configs@, channels, sample_rate)
                && is_build_error(
                e,
                uid@,
                direction,
                no_config_text(direction, channels, sample_rate),
            ),
        },
{
    let selected = match queried {
        Ok(configs) => select_stream_config(configs, direction, channels, sample_rate),
        Err(error) => Err(error.clone()),
    };
    match selected {
        Ok(choice) => Ok(choice),
        Err(reason) => match direction {
            StreamDirection::Input => Err(
                CoreAudioError::BuildInputStream { uid: String::from_str(uid), reason },
            ),
            StreamDirection::Output => Err(
                CoreAudioError::BuildOutputStream { uid: String::from_str(uid), reason },
            ),
        },
    }
}

/// The configurations of a device; none where it could not be asked for them.
pub open spec fn configs_in(queried: Result<Vec<SupportedConfig>, String>) -> Seq<SupportedConfig> {
    match queried {
        Ok(configs) => configs@,
        Err(_) => Seq::empty(),
    }
}

/// The first of the preferred numbers of channels that the device supports.
pub fn resolve_channel_count(
    uid: &str,
    direction: StreamDirection,
    sample_rate: u32,
    preferred: &Vec<u16>,
    queried: &Result<Vec<SupportedConfig>, String>,
) -> (r: Result<u16, CoreAudioError>)
    ensures
        match r {
            Ok(channels) => exists|i: int|
                0 <= i < preferred@.len() && #[trigger] preferred@[i] == channels && some_config(
                    configs_in(*queried),
                    channels,
                    sample_rate,
                ) && forall|k: int|
                    0 <= k < i ==> !some_config(configs_in(*queried), #[trigger] preferred@[k], sample_rate),
            Err(e) => {
                &&& forall|k: int|
                    0 <= k < preferred@.len() ==> !some_config(
                        configs_in(*queried),
                        #[trigger] preferred@[k],
                        sample_rate,
                    )
                &&& e matches CoreAudioError::UnsupportedChannelCount {
                    uid: named,
                    direction: way,
                    sample_rate: rate,
                    preferred: asked,
                } && named@ == uid@ && way@ == direction_text(direction) && rate == sample_rate
                    && asked@ == preferred@
            },
        },
{
    let none: Vec<SupportedConfig> = Vec::new();
    let configs = match queried {
        Ok(configs) => configs,
        Err(_) => &none,
    };
    assert(configs@ =~= configs_in(*queried));
    let mut i: usize = 0;
    while i < preferred.len()
        invariant
            i <= preferred.len(),
            configs@ == configs_in(*queried),
            forall|k: int|
                0 <= k < i ==> !some_config(configs@, #[trigger] preferred@[k], sample_rate),
        decreases preferred.len() - i,
    {
        let channels = preferred[i];
        match choose_config(configs, channels, sample_rate) {
            Some(place) => {
                assert(holds_config(configs@[place as int], channels, sample_rate));
                assert(preferred@[i as int] == channels);
                return Ok(channels);
            },
            None => {},
        }
        i = i + 1;
    }
    let mut asked: Vec<u16> = Vec::new();
    i = 0;
    while i < preferred.len()
        invariant
            i <= preferred.len(),
            asked@ =~= preferred@.take(i as int),
        decreases preferred.len() - i,
    {
        asked.push(preferred[i]);
        i = i + 1;
    }
    assert(asked@ =~= preferred@);
    Err(
        CoreAudioError::UnsupportedChannelCount {
            uid: String::from_str(uid),
            direction: direction.as_str(),
            sample_rate,
            preferred: asked,
        },
    )
}

/// The numbers of channels that a device supports at a sample rate.
pub open spec fn channel_set(configs: Seq<SupportedConfig>, sample_rate: u32, n: int) -> Set<u32> {
    Set::new(
        |c: u32|
            exists|i: int|
                0 <= i < n && holds_rate(#[trigger] configs[i], sample_rate) && configs[i].channels
                    == c,
    )
}

/// Numbers as wider numbers.
pub open spec fn widened(list: Seq<u16>) -> Seq<u32> {
    Seq::new(list.len(), |i: int| list[i] as u32)
}

/// The numbers of channels that a device supports at a sample rate, in increasing order.
pub fn supported_channel_counts(
    uid: &str,
    direction: StreamDirection,
    sample_rate: u32,
    queried: &Result<Vec<SupportedConfig>, String>,
) -> (r: Result<Vec<u16>, CoreAudioError>)
    ensures
        match r {
            Ok(counts) => queried is Ok && counts@.len() > 0 && ascending(widened(counts@)) && widened(
                counts@,
            ).to_set() == channel_set(
                configs_in(*queried),
                sample_rate,
                configs_in(*queried).len() as int,
            ),
            Err(e) => match *queried {
                Err(error) => e matches CoreAudioError::Enumerate(text) && text@ == error@,
                Ok(configs) => {
                    &&& forall|i: int|
                        0 <= i < configs@.len() ==> !holds_rate(
                            #[trigger] configs@[i],
                            sample_rate,
                        )
                    &&& e matches CoreAudioError::UnsupportedStreamConfig {
                        uid: named,
                        direction: way,
                        sample_rate: rate,
                    } && named@ == uid@ && way@ == direction_text(direction) && rate == sample_rate
                },
            },
        },
{
    let configs = match queried {
        Ok(configs) => configs,
        Err(error) => {
            return Err(CoreAudioError::Enumerate(error.clone()));
        },
    };
    let mut counts: Vec<u32> = Vec::new();
    assert(counts@.to_set() =~= channel_set(configs@, sample_rate, 0));
    let mut i: usize = 0;
    while i < configs.len()
        invariant
            i <= configs.len(),
            ascending(counts@),
            counts@.to_set() == channel_set(configs@, sample_rate, i as int),
        decreases configs.len() - i,
    {
        let config = configs[i];
        let ghost before = counts@.to_set();
        if config.min_sample_rate <= sample_rate && sample_rate <= config.max_sample_rate {
            insert_ascending(&mut counts, config.channels as u32);
        }
        proof {
            assert forall|c: u32| counts@.to_set().contains(c) <==> channel_set(
                configs@,
                sample_rate,
                i + 1,
            ).contains(c) by {
                if before.contains(c) {
                    let k = choose|k: int|
                        0 <= k < i && holds_rate(#[trigger] configs@[k], sample_rate)
                            && configs@[k].channels == c;
                    assert(holds_rate(configs@[k], sample_rate));
                }
                if holds_rate(configs@[i as int], sample_rate) {
                    assert(channel_set(configs@, sample_rate, i + 1).contains(
                        config.channels as u32,
                    ));
                }
            }
            assert(counts@.to_set() =~= channel_set(configs@, sample_rate, i + 1));
        }
        i = i + 1;
    }
    if counts.len() == 0 {
        proof {
            assert forall|k: int| 0 <= k < configs@.len() implies !holds_rate(
                #[trigger] configs@[k],
                sample_rate,
            ) by {
                if holds_rate(configs@[k], sample_rate) {
                    assert(channel_set(configs@, sample_rate, i as int).contains(
                        configs@[k].channels as u32,
                    ));
                    assert(counts@.contains(configs@[k].channels as u32));
                }
            }
        }
        return Err(
            CoreAudioError::UnsupportedStreamConfig {
                uid: String::from_str(uid),
                direction: direction.as_str(),
                sample_rate,
            },
        );
    }
    let mut narrow: Vec<u16> = Vec::new();
    let mut k: usize = 0;
    while k < counts.len()
        invariant
            k <= counts.len(),
            counts@.to_set() == channel_set(configs@, sample_rate, configs@.len() as int),
            narrow@.len() == k,
            forall|j: int| 0 <= j < k ==> (#[trigger] narrow@[j]) as u32 == counts@[j],
        decreases counts.len() - k,
    {
        proof {
            assert(counts@.contains(counts@[k as int]));
            assert(counts@.to_set().contains(counts@[k as int]));
            assert(channel_set(configs@, sample_rate, configs@.len() as int).contains(
                counts@[k as int],
            ));
        }
        narrow.push(counts[k] as u16);
        k = k + 1;
    }
    assert(widened(narrow@) =~= counts@);
    Ok(narrow)
}

// ---------------------------------------------------------------------------
// Devices

/// The most channels of the first configurations.
pub open spec fn most_channels(configs: Seq<SupportedConfig>, n: int) -> u16
    decreases n,
{
    if n <= 0 {
        0
    } else if configs[n - 1].channels > most_channels(configs, n - 1) {
        configs[n - 1].channels
    } else {
        most_channels(configs, n - 1)
    }
}

/// The ends of the ranges of sample rates.
pub open spec fn rate_set(configs: Seq<SupportedConfig>, n: int) -> Set<u32> {
    Set::new(
        |rate: u32|
            exists|i: int|
                0 <= i < n && ((#[trigger] configs[i]).min_sample_rate == rate
                    || configs[i].max_sample_rate == rate),
    )
}

/// The channels of a device without any configuration.
pub open spec fn assumed_channels(direction: StreamDirection) -> u16 {
    match direction {
        StreamDirection::Input => 1,
        StreamDirection::Output => 2,
    }
}

/// The channels and sample rates of a device in one direction.
pub open spec fn details_of(
    configs: Seq<SupportedConfig>,
    direction: StreamDirection,
    channels: u16,
    rates: Seq<u32>,
) -> bool {
    let most = most_channels(configs, configs.len() as int);
    &&& channels == if most == 0 {
        assumed_channels(direction)
    } else {
        most
    }
    &&& ascending(rates)
    &&& rates.to_set() == rate_set(configs, configs.len() as int)
}

/// The channels and sample rates of a device in one direction.
pub fn collect_details(configs: &Vec<SupportedConfig>, direction: StreamDirection) -> (r: (
    u16,
    Vec<u32>,
))
    ensures
        details_of(configs@, direction, r.0, r.1@),
{
    let mut channels: u16 = 0;
    let mut rates: Vec<u32> = Vec::new();
    assert(rates@.to_set() =~= rate_set(configs@, 0));
    let mut i: usize = 0;
    while i < configs.len()
        invariant
            i <= configs.len(),
            channels == most_channels(configs@, i as int),
            ascending(rates@),
            rates@.to_set() == rate_set(configs@, i as int),
        decreases configs.len() - i,
    {
        let config = configs[i];
        let ghost before = rates@.to_set();
        if config.channels > channels {
            channels = config.channels;
        }
        insert_ascending(&mut rates, config.min_sample_rate);
        insert_ascending(&mut rates, config.max_sample_rate);
        proof {
            assert forall|rate: u32| rates@.to_set().contains(rate) <==> rate_set(
                configs@,
                i + 1,
            ).contains(rate) by {
                if before.contains(rate) {
                    let k = choose|k: int|
                        0 <= k < i && ((#[trigger] configs@[k]).min_sample_rate == rate
                            || configs@[k].max_sample_rate == rate);
                    assert(configs@[k].min_sample_rate == rate || configs@[k].max_sample_rate
                        == rate);
                }
                assert(configs@[i as int] == config);
            }
            assert(rates@.to_set() =~= rate_set(configs@, i + 1));
        }
        i = i + 1;
    }
    let shown = if channels == 0 {
        match direction {
            StreamDirection::Input => 1,
            StreamDirection::Output => 2,
        }
    } else {
        channels
    };
    (shown, rates)
}

/// What the host tells of a device: its name, its stable id, and its configurations in each
/// direction, where it has any.
#[derive(Debug)]
pub struct ProbedDevice {
    pub name: Option<String>,
    pub id: Result<String, String>,
    pub outputs: Result<Vec<SupportedConfig>, String>,
    pub inputs: Result<Vec<SupportedConfig>, String>,
}

/// The name of a device, or one made from its place.
pub open spec fn device_name(device: ProbedDevice, index: int) -> Seq<char> {
    match device.name {
        Some(name) => name@,
        None => "Unknown Device "@ + decimal(index as nat),
    }
}

/// The text about a device without a stable id.
pub open spec fn no_id_text(name: Seq<char>, error: Seq<char>) -> Seq<char> {
    "failed to get stable id for '"@ + name + "': "@ + error
}

/// What is known of a device in one direction.
pub open spec fn device_info(
    info: ExternalDeviceInfo,
    device: ProbedDevice,
    index: int,
    direction: StreamDirection,
    configs: Seq<SupportedConfig>,
) -> bool {
    &&& device.id matches Ok(uid) && info.uid@ == uid@
    &&& info.name@ == device_name(device, index)
    &&& info.manufacturer is None
    &&& info.transport is None
    &&& details_of(configs, direction, info.channels, info.sample_rates@)
}

/// The infos follow those of the first devices that have the direction.
pub open spec fn infos_of(
    devices: Seq<ProbedDevice>,
    n: int,
    direction: StreamDirection,
    infos: Seq<ExternalDeviceInfo>,
) -> bool {
    let places = kept(
        |i: int|
            match direction {
                StreamDirection::Input => devices[i].inputs is Ok,
                StreamDirection::Output => devices[i].outputs is Ok,
            },
        n,
    );
    &&& infos.len() == places.len()
    &&& forall|k: int|
        0 <= k < infos.len() ==> device_info(
            #[trigger] infos[k],
            devices[places[k]],
            places[k],
            direction,
            match direction {
                StreamDirection::Input => devices[places[k]].inputs->Ok_0@,
                StreamDirection::Output => devices[places[k]].outputs->Ok_0@,
            },
        )
}

fn name_of(device: &ProbedDevice, index: usize) -> (r: String)
    ensures
        r@ == device_name(*device, index as int),
{
    match &device.name {
        Some(name) => name.clone(),
        None => {
            let mut name = String::from_str("Unknown Device ");
            name.append(decimal_text(index as u64).as_str());
            name
        },
    }
}

fn info_of(
    uid: &String,
    name: &String,
    configs: &Vec<SupportedConfig>,
    direction: StreamDirection,
) -> (r: ExternalDeviceInfo)
    ensures
        r.uid@ == uid@,
        r.name@ == name@,
        r.manufacturer is None,
        r.transport is None,
        details_of(configs@, direction, r.channels, r.sample_rates@),
{
    let (channels, sample_rates) = collect_details(configs, direction);
    ExternalDeviceInfo {
        uid: uid.clone(),
        name: name.clone(),
        manufacturer: None,
        transport: None,
        channels,
        sample_rates,
    }
}

/// What is known of one device in a direction, or why that is not known.
pub fn device_info_from_device(
    device: &ProbedDevice,
    direction: StreamDirection,
    index: usize,
    configs: Result<Vec<SupportedConfig>, String>,
) -> (r: Result<ExternalDeviceInfo, CoreAudioError>)
    ensures
        match r {
            Ok(info) => configs matches Ok(found) && device_info(
                info,
                *device,
                index as int,
                direction,
                found@,
            ),
            Err(e) => e matches CoreAudioError::Enumerate(text) && match (device.id, configs) {
                (Err(error), _) => text@ == no_id_text(device_name(*device, index as int), error@),
                (Ok(_), Err(error)) => text@ == error@,
                (Ok(_), Ok(_)) => false,
            },
        },
{
    let name = name_of(device, index);
    match &device.id {
        Err(error) => {
            let mut text = String::from_str("failed to get stable id for '");
            text.append(name.as_str());
            text.append("': ");
            text.append(error.as_str());
            Err(CoreAudioError::Enumerate(text))
        },
        Ok(uid) => match configs {
            Err(error) => Err(CoreAudioError::Enumerate(error)),
            Ok(configs) => Ok(info_of(uid, &name, &configs, direction)),
        },
    }
}

/// What is known of the default device of a direction; there has to be one.
pub fn default_device_info(
    direction: StreamDirection,
    device: Option<&ProbedDevice>,
    configs: Result<Vec<SupportedConfig>, String>,
) -> (r: Result<ExternalDeviceInfo, CoreAudioError>)
    ensures
        match (device, r) {
            (None, Err(e)) => e matches CoreAudioError::DefaultDeviceUnavailable {
                direction: way,
            } && way@ == direction_text(direction),
            (None, Ok(_)) => false,
            (Some(device), Ok(info)) => configs matches Ok(found) && device_info(
                info,
                *device,
                0,
                direction,
                found@,
            ),
            (Some(device), Err(e)) => e matches CoreAudioError::Enumerate(text) && match (
                device.id,
                configs,
            ) {
                (Err(error), _) => text@ == no_id_text(device_name(*device, 0), error@),
                (Ok(_), Err(error)) => text@ == error@,
                (Ok(_), Ok(_)) => false,
            },
        },
{
    match device {
        None => Err(CoreAudioError::DefaultDeviceUnavailable { direction: direction.as_str() }),
        Some(device) => device_info_from_device(device, direction, 0, configs),
    }
}

/// The text about the first device without a stable id.
pub open spec fn first_id_error(devices: Seq<ProbedDevice>) -> Option<Seq<char>> {
    first_some(
        |i: int|
            match devices[i].id {
                Ok(_) => None,
                Err(error) => Some(no_id_text(device_name(devices[i], i), error@)),
            },
        0,
        devices.len() as int,
    )
}

/// The devices that are there, in each direction.
pub fn list_device_inventory(devices: &Vec<ProbedDevice>) -> (r: Result<
    DeviceInventory,
    CoreAudioError,
>)
    ensures
        match r {
            Ok(inventory) => {
                &&& first_id_error(devices@) is None
                &&& infos_of(
                    devices@,
                    devices@.len() as int,
                    StreamDirection::Input,
                    inventory.inputs@,
                )
                &&& infos_of(
                    devices@,
                    devices@.len() as int,
                    StreamDirection::Output,
                    inventory.outputs@,
                )
            },
            Err(e) => e matches CoreAudioError::Enumerate(text) && first_id_error(devices@) == Some(
                text@,
            ),
        },
{
    let ghost f = |i: int|
        match devices@[i].id {
            Ok(_) => None,
            Err(error) => Some(no_id_text(device_name(devices@[i], i), error@)),
        };
    let mut inputs: Vec<ExternalDeviceInfo> = Vec::new();
    let mut outputs: Vec<ExternalDeviceInfo> = Vec::new();
    let mut i: usize = 0;
    while i < devices.len()
        invariant
            i <= devices.len(),
            f == |i: int|
                match devices@[i].id {
                    Ok(_) => None,
                    Err(error) => Some(no_id_text(device_name(devices@[i], i), error@)),
                },
            first_some(f, 0, devices@.len() as int) == first_some(
                f,
                i as int,
                devices@.len() as int,
            ),
            infos_of(devices@, i as int, StreamDirection::Input, inputs@),
            infos_of(devices@, i as int, StreamDirection::Output, outputs@),
        decreases devices.len() - i,
    {
        let device = &devices[i];
        let name = name_of(device, i);
        match &device.id {
            Err(error) => {
                let mut text = String::from_str("failed to get stable id for '");
                text.append(name.as_str());
                text.append("': ");
                text.append(error.as_str());
                proof {
                    assert(f(i as int) == Some(text@));
                }
                return Err(CoreAudioError::Enumerate(text));
            },
            Ok(uid) => {
                proof {
                    assert(f(i as int) is None);
                }
                if let Ok(configs) = &device.outputs {
                    outputs.push(info_of(uid, &name, configs, StreamDirection::Output));
                }
                if let Ok(configs) = &device.inputs {
                    inputs.push(info_of(uid, &name, configs, StreamDirection::Input));
                }
            },
        }
        i = i + 1;
    }
    Ok(DeviceInventory { inputs, outputs })
}

/// The place of the first device with the uid; a device without a stable id is passed over.
pub fn find_device_by_uid(devices: &Vec<ProbedDevice>, uid: &str) -> (r: Result<
    usize,
    CoreAudioError,
>)
    ensures
        match r {
            Ok(place) => {
                &&& place < devices@.len()
                &&& devices@[place as int].id matches Ok(id) && id@ == uid@
                &&& forall|k: int|
                    0 <= k < place ==> !((#[trigger] devices@[k]).id matches Ok(id) && id@ == uid@)
            },
            Err(e) => {
                &&& forall|k: int|
                    0 <= k < devices@.len() ==> !((#[trigger] devices@[k]).id matches Ok(id) && id@
                        == uid@)
                &&& e matches CoreAudioError::DeviceNotFound { uid: named } && named@ == uid@
            },
        },
{
    let mut i: usize = 0;
    while i < devices.len()
        invariant
            i <= devices.len(),
            forall|k: int|
                0 <= k < i ==> !((#[trigger] devices@[k]).id matches Ok(id) && id@ == uid@),
        decreases devices.len() - i,
    {
        if let Ok(id) = &devices[i].id {
            if str_equal(id.as_str(), uid) {
                return Ok(i);
            }
        }
        i = i + 1;
    }
    Err(CoreAudioError::DeviceNotFound { uid: String::from_str(uid) })
}

// ---------------------------------------------------------------------------
// Permission

/// A text with its letters in lower case.
pub uninterp spec fn lower_case(text: Seq<char>) -> Seq<char>;

/// `str::to_lowercase` of std: the text with every letter replaced by its lower case, by
/// the rules of Unicode, which depend on the text alone.
#[verifier::external_body]
fn to_lower_case(text: &str) -> (r: String)
    ensures
        r@ == lower_case(text@),
{
    text.to_lowercase()
}

/// Whether a message in lower case speaks of a permission that was denied.
pub open spec fn speaks_of_denial(message: Seq<char>) -> bool {
    contains_text(message, "not authorized"@) || contains_text(message, "permission"@)
        || contains_text(message, "denied"@) || contains_text(message, "tcc"@)
}

/// Whether a message in lower case speaks of a permission that was denied.
pub fn is_denial(message: &str) -> (r: bool)
    ensures
        r == speaks_of_denial(message@),
{
    str_contains(message, "not authorized") || str_contains(message, "permission")
        || str_contains(message, "denied") || str_contains(message, "tcc")
}

/// Whether the microphone may be used: yes where the configuration of the default input
/// can be queried, no where the error speaks of a denial, else that is not known. Nothing
/// is asked where there is no input device.
#[must_use]
pub fn detect_microphone_permission(query: Option<Result<(), String>>) -> (r: Option<bool>)
    ensures
        r == (match query {
            None => None::<bool>,
            Some(Ok(())) => Some(true),
            Some(Err(error)) => if speaks_of_denial(lower_case(error@)) {
                Some(false)
            } else {
                None
            },
        }),
{
    match query {
        None => None,
        Some(Ok(())) => Some(true),
        Some(Err(error)) => {
            let message = to_lower_case(error.as_str());
            if is_denial(message.as_str()) {
                Some(false)
            } else {
                None
            }
        },
    }
}

// ---------------------------------------------------------------------------
// Laws

/// A stream is opened as it is asked for, in a format that the device supports for it: floating
/// point where it can be, else signed and then unsigned sixteen bits. It is refused only where
/// the device supports nothing of the kind.
pub proof fn law_streams_are_opened_as_asked(
    configs: Vec<SupportedConfig>,
    direction: StreamDirection,
    channels: u16,
    sample_rate: u32,
    r: Result<StreamChoice, String>,
    i: int,
)
    requires
        call_ensures(select_stream_config, (&configs, direction, channels, sample_rate), r),
    ensures
        r matches Ok(choice) ==> choice.channels == channels && choice.sample_rate == sample_rate
            && exists|k: int|
            0 <= k < configs@.len() && (#[trigger] configs@[k]).channels == channels
                && configs@[k].min_sample_rate <= sample_rate <= configs@[k].max_sample_rate
                && configs@[k].format == choice.format,
        0 <= i < configs@.len() && configs@[i].channels == channels && configs@[i].min_sample_rate
            <= sample_rate <= configs@[i].max_sample_rate ==> {
            &&& r is Ok
            &&& configs@[i].format == SampleFormat::Float ==> r->Ok_0.format == SampleFormat::Float
            &&& configs@[i].format == SampleFormat::Int16 ==> r->Ok_0.format == SampleFormat::Float
                || r->Ok_0.format == SampleFormat::Int16
            &&& configs@[i].format == SampleFormat::Uint16 ==> r->Ok_0.format
                == SampleFormat::Float || r->Ok_0.format == SampleFormat::Int16 || r->Ok_0.format
                == SampleFormat::Uint16
        },
{
    if r is Ok {
        let place = choose|place: int| #[trigger]
            is_chosen(configs@, channels, sample_rate, place) && r->Ok_0.format
                == configs@[place].format;
        assert(configs@[place].channels == channels);
    }
    if 0 <= i < configs@.len() && configs@[i].channels == channels && configs@[i].min_sample_rate
        <= sample_rate <= configs@[i].max_sample_rate {
        assert(holds_config(configs@[i], channels, sample_rate));
    }
}

/// The first number of channels that is preferred and supported is taken; none is taken that is
/// not supported at the rate.
pub proof fn law_preferred_channels_come_first(
    uid: &str,
    direction: StreamDirection,
    sample_rate: u32,
    preferred: Vec<u16>,
    queried: Result<Vec<SupportedConfig>, String>,
    r: Result<u16, CoreAudioError>,
    i: int,
    k: int,
)
    requires
        call_ensures(
            resolve_channel_count,
            (uid, direction, sample_rate, &preferred, &queried),
            r,
        ),
        0 <= i < preferred@.len(),
        queried is Ok,
        0 <= k < queried->Ok_0@.len(),
        queried->Ok_0@[k].channels == preferred@[i],
        queried->Ok_0@[k].min_sample_rate <= sample_rate <= queried->Ok_0@[k].max_sample_rate,
    ensures
        r is Ok,
        exists|j: int| 0 <= j <= i && #[trigger] preferred@[j] == r->Ok_0,
        exists|j: int|
            0 <= j < queried->Ok_0@.len() && (#[trigger] queried->Ok_0@[j]).channels == r->Ok_0
                && queried->Ok_0@[j].min_sample_rate <= sample_rate
                <= queried->Ok_0@[j].max_sample_rate,
{
    let configs = configs_in(queried);
    assert(holds_config(configs[k], preferred@[i], sample_rate));
    assert(some_config(configs, preferred@[i], sample_rate));
    let channels = r->Ok_0;
    let j = choose|j: int|
        0 <= j < preferred@.len() && #[trigger] preferred@[j] == channels && some_config(
            configs,
            channels,
            sample_rate,
        ) && forall|k: int|
            0 <= k < j ==> !some_config(configs, #[trigger] preferred@[k], sample_rate);
    if i < j {
        assert(!some_config(configs, preferred@[i], sample_rate));
    }
    let m = choose|m: int|
        0 <= m < configs.len() && holds_config(#[trigger] configs[m], channels, sample_rate);
    assert(queried->Ok_0@[m].channels == channels);
}

proof fn lemma_most_channels(configs: Seq<SupportedConfig>, n: int, i: int)
    requires
        0 <= n <= configs.len(),
    ensures
        0 <= i < n ==> configs[i].channels <= most_channels(configs, n),
        most_channels(configs, n) > 0 ==> exists|k: int|
            0 <= k < n && (#[trigger] configs[k]).channels == most_channels(configs, n),
    decreases n,
{
    if n > 0 {
        lemma_most_channels(configs, n - 1, i);
        if configs[n - 1].channels > most_channels(configs, n - 1) {
            assert(configs[n - 1].channels == most_channels(configs, n));
        } else if most_channels(configs, n) > 0 {
            let k = choose|k: int|
                0 <= k < n - 1 && (#[trigger] configs[k]).channels == most_channels(configs, n - 1);
            assert(configs[k].channels == most_channels(configs, n));
        }
    }
}

/// A device is listed with the most channels that it supports, one for an input and two for an
/// output where it names none, and with the bounds of all of its sample rates in order.
pub proof fn law_devices_are_listed_with_their_most_channels(
    configs: Seq<SupportedConfig>,
    direction: StreamDirection,
    channels: u16,
    rates: Seq<u32>,
    i: int,
    j: int,
)
    requires
        details_of(configs, direction, channels, rates),
        0 <= i < configs.len(),
    ensures
        configs[i].channels > 0 ==> channels >= configs[i].channels && exists|k: int|
            0 <= k < configs.len() && (#[trigger] configs[k]).channels == channels,
        rates.contains(configs[i].min_sample_rate),
        rates.contains(configs[i].max_sample_rate),
        0 <= j && j + 1 < rates.len() ==> rates[j] < rates[j + 1],
{
    lemma_most_channels(configs, configs.len() as int, i);
    let all = rate_set(configs, configs.len() as int);
    assert(all.contains(configs[i].min_sample_rate));
    assert(all.contains(configs[i].max_sample_rate));
    assert(rates.to_set().contains(configs[i].min_sample_rate));
    assert(rates.to_set().contains(configs[i].max_sample_rate));
}

/// A device without configurations is taken to have one channel as an input and two as an
/// output.
pub proof fn law_devices_without_configurations(
    direction: StreamDirection,
    channels: u16,
    rates: Seq<u32>,
)
    requires
        details_of(Seq::empty(), direction, channels, rates),
    ensures
        direction == StreamDirection::Input ==> channels == 1,
        direction == StreamDirection::Output ==> channels == 2,
        rates.len() == 0,
{
    assert(rate_set(Seq::empty(), 0) =~= Set::empty());
    if rates.len() > 0 {
        assert(rates.to_set().contains(rates[0]));
    }
}

/// Every device that can be captured from is listed among the inputs, and every one that can be
/// played on among the outputs, under its own id.
pub proof fn law_devices_are_listed_by_direction(
    devices: Vec<ProbedDevice>,
    r: Result<DeviceInventory, CoreAudioError>,
    i: int,
)
    requires
        call_ensures(list_device_inventory, (&devices,), r),
        r is Ok,
        0 <= i < devices@.len(),
    ensures
        devices@[i].inputs is Ok ==> exists|k: int|
            0 <= k < r->Ok_0.inputs@.len() && devices@[i].id is Ok && (
            #[trigger] r->Ok_0.inputs@[k]).uid@ == devices@[i].id->Ok_0@,
        devices@[i].outputs is Ok ==> exists|k: int|
            0 <= k < r->Ok_0.outputs@.len() && devices@[i].id is Ok && (
            #[trigger] r->Ok_0.outputs@[k]).uid@ == devices@[i].id->Ok_0@,
        r->Ok_0.inputs@.len() <= devices@.len(),
        r->Ok_0.outputs@.len() <= devices@.len(),
{
    let n = devices@.len() as int;
    lemma_infos_found(devices@, n, StreamDirection::Input, r->Ok_0.inputs@, i);
    lemma_infos_found(devices@, n, StreamDirection::Output, r->Ok_0.outputs@, i);
}

proof fn lemma_infos_found(
    devices: Seq<ProbedDevice>,
    n: int,
    direction: StreamDirection,
    infos: Seq<ExternalDeviceInfo>,
    i: int,
)
    requires
        infos_of(devices, n, direction, infos),
        0 <= i < n <= devices.len(),
    ensures
        infos.len() <= n,
        (match direction {
            StreamDirection::Input => devices[i].inputs is Ok,
            StreamDirection::Output => devices[i].outputs is Ok,
        }) ==> exists|k: int|
            0 <= k < infos.len() && devices[i].id is Ok && (#[trigger] infos[k]).uid@
                == devices[i].id->Ok_0@,
{
    let keep = |i: int|
        match direction {
            StreamDirection::Input => devices[i].inputs is Ok,
            StreamDirection::Output => devices[i].outputs is Ok,
        };
    lemma_kept(keep, n);
    let places = kept(keep, n);
    if keep(i) {
        assert(places.contains(i));
        let k = places.index_of(i);
        assert(infos[k].uid@ == devices[i].id->Ok_0@);
    }
}

/// The device that is found for a uid has that uid, and one is found where any has it.
pub proof fn law_devices_are_found_by_uid(
    devices: Vec<ProbedDevice>,
    uid: &str,
    r: Result<usize, CoreAudioError>,
    i: int,
)
    requires
        call_ensures(find_device_by_uid, (&devices, uid), r),
        0 <= i < devices@.len(),
    ensures
        r is Ok ==> r->Ok_0 < devices@.len() && devices@[r->Ok_0 as int].id is Ok
            && devices@[r->Ok_0 as int].id->Ok_0@ == uid@,
        devices@[i].id is Ok && devices@[i].id->Ok_0@ == uid@ ==> r is Ok && r->Ok_0 <= i,
{
}

/// An error of the microphone is taken for a missing permission where it speaks of one; without
/// an error there is the permission, and without a question nothing is known.
pub proof fn law_missing_permission_is_recognised(
    query: Option<Result<(), String>>,
    r: Option<bool>,
    before: Seq<char>,
    after: Seq<char>,
)
    requires
        call_ensures(detect_microphone_permission, (query,), r),
    ensures
        query is None ==> r is None,
        query == Some(Ok::<(), String>(())) ==> r == Some(true),
        query matches Some(Err(error)) ==> r != Some(true),
        query matches Some(Err(error)) ==> ((lower_case(error@) == before + "not authorized"@ + after
            || lower_case(error@) == before + "permission"@ + after || lower_case(error@) == before
            + "denied"@ + after || lower_case(error@) == before + "tcc"@ + after) ==> r == Some(
            false,
        )),
{
    if let Some(Err(error)) = query {
        let text = lower_case(error@);
        lemma_contains_middle(before, "not authorized"@, after);
        lemma_contains_middle(before, "permission"@, after);
        lemma_contains_middle(before, "denied"@, after);
        lemma_contains_middle(before, "tcc"@, after);
    }
}

proof fn lemma_contains_middle(before: Seq<char>, needle: Seq<char>, after: Seq<char>)
    ensures
        contains_text(before + needle + after, needle),
{
    let text = before + needle + after;
    let at = before.len() as int;
    assert(text.subrange(at, at + needle.len()) =~= needle);
    assert(crate::text::occurs_at(text, needle, at));
}

} // verus!
