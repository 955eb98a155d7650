//! Testing the router on itself: the latency inside it, and a route through it.

use crate::api::ExitCode;
use crate::apply::{ApplyRequest, ApplyResult};
use crate::cli::{fail_with, fails_with, truth, truth_text, with_exit, CliError, CliErrorView};
use crate::matching::{DeviceInventory, ExternalDeviceInfo};
use crate::number::{Real32, Real64};
use crate::probe::{
    LoopbackProbeResult, VinRingLoopbackProbeRequest, VinRingMonitorRequest, VinRingMonitorResult,
};
use crate::profile::{
    AutoOrU16, AutoOrU32, DeviceMatch, ExternalInput, ExternalOutput, Pipe, Profile,
    VirtualInputDevice, VirtualOutputDevice, PROFILE_VERSION,
};
use crate::sequences::{kept, lemma_kept, lemma_views_push, views};
use crate::streams::{
    channel_set, configs_in, core_audio_error_text, direction_text, holds_rate, resolve_channel_count,
    some_config, supported_channel_counts, widened, CoreAudioError, StreamDirection,
    SupportedConfig,
};
use crate::text::{
    decimal, decimal_text, join_texts, joined_text, numeral, numeral_text, signed_decimal,
    signed_decimal_text,
};
use vstd::prelude::*;
use vstd::string::*;

verus! {

broadcast use lemma_views_push;

/// The virtual output of a test.
pub const TEST_VIRTUAL_OUTPUT_ID: &'static str = "test-system";

pub const TEST_VIRTUAL_OUTPUT_NAME: &'static str = "Bus: Test System";

pub const TEST_VIRTUAL_OUTPUT_UID: &'static str = "com.mars.tso";

/// The virtual input of a test.
pub const TEST_VIRTUAL_INPUT_ID: &'static str = "test-capture";

pub const TEST_VIRTUAL_INPUT_NAME: &'static str = "Mix: Test Capture";

pub const TEST_VIRTUAL_INPUT_UID: &'static str = "com.mars.tsi";

/// The microphone and the speaker of the test of a route.
pub const TEST_MIC_ID: &'static str = "test-mic";

pub const TEST_SPEAKER_ID: &'static str = "test-speaker";

/// The microphone and the speaker that are built in.
pub const BUILTIN_MIC_UID: &'static str = "coreaudio:BuiltInMicrophoneDevice";

pub const BUILTIN_SPEAKER_UID: &'static str = "coreaudio:BuiltInSpeakerDevice";

/// How long applying the profile of a test may take.
pub const TEST_APPLY_TIMEOUT_MS: u64 = 5_000;

/// How long a probe may take.
pub const TEST_PROBE_TIMEOUT_MS: u64 = 4_000;

/// How long the test of a route listens.
pub const ROUTE_LISTEN_DURATION_MS: u64 = 5_000;

/// How long the devices of a test are given to get ready.
pub const TEST_DEVICE_READY_INTERVAL_MS: u64 = 100;

/// The pattern of 0.2: a correlation below it is weak.
pub const WEAK_CORRELATION_BITS: u32 = 0x3E4C_CCCD;

/// The pattern of 0.008: the least peak that counts as a signal.
pub const SIGNAL_PEAK_BITS: u32 = 0x3C03_126F;

/// The pattern of 0.02: a peak below it is low.
pub const LOW_PEAK_BITS: u32 = 0x3CA3_D70A;

/// The uid of a device as the audio system has it.
pub open spec fn system_uid(uid: Seq<char>) -> Seq<char> {
    "coreaudio:"@ + uid
}

/// The uid of a device as the audio system has it.
pub fn coreaudio_uid(uid: &str) -> (r: String)
    ensures
        r@ == system_uid(uid@),
{
    let mut text = String::from_str("coreaudio:");
    text.append(uid);
    text
}

// ---------------------------------------------------------------------------
// The profiles of the tests

/// Whether a pipe leads from one node to another and changes nothing.
pub open spec fn plain_pipe(pipe: Pipe, from: Seq<char>, to: Seq<char>) -> bool {
    &&& pipe.from@ == from
    &&& pipe.to@ == to
    &&& pipe.enabled
    &&& pipe.gain_db.bits == 0
    &&& !pipe.mute
    &&& pipe.pan.bits == 0
    &&& pipe.delay_ms.bits == 0
}

fn make_pipe(from: &str, to: &str) -> (r: Pipe)
    ensures
        plain_pipe(r, from@, to@),
{
    Pipe {
        from: String::from_str(from),
        to: String::from_str(to),
        enabled: true,
        gain_db: Real32::zero(),
        mute: false,
        pan: Real32::zero(),
        delay_ms: Real32::zero(),
    }
}

/// Whether a profile has exactly the virtual devices of a test, and nothing but pipes and
/// external devices besides.
pub open spec fn test_frame(
    p: Profile,
    name: Seq<char>,
    description: Seq<char>,
    sample_rate: u32,
    buffer_frames: u32,
    output_channels: u16,
    input_channels: u16,
) -> bool {
    &&& p.version == PROFILE_VERSION
    &&& p.name matches Some(text) && text@ == name
    &&& p.description matches Some(text) && text@ == description
    &&& p.audio.sample_rate == AutoOrU32::Value(sample_rate)
    &&& p.audio.channels == AutoOrU16::Value(2)
    &&& p.audio.buffer_frames == buffer_frames
    &&& p.audio.format@.len() == 0
    &&& p.audio.latency_mode@.len() == 0
    &&& p.virtual_devices.outputs@.len() == 1
    &&& {
        let output = p.virtual_devices.outputs@[0];
        &&& output.id@ == TEST_VIRTUAL_OUTPUT_ID@
        &&& output.name@ == TEST_VIRTUAL_OUTPUT_NAME@
        &&& output.channels == Some(output_channels)
        &&& output.uid matches Some(uid) && uid@ == TEST_VIRTUAL_OUTPUT_UID@
        &&& !output.hidden
    }
    &&& p.virtual_devices.inputs@.len() == 1
    &&& {
        let input = p.virtual_devices.inputs@[0];
        &&& input.id@ == TEST_VIRTUAL_INPUT_ID@
        &&& input.name@ == TEST_VIRTUAL_INPUT_NAME@
        &&& input.channels == Some(input_channels)
        &&& input.uid matches Some(uid) && uid@ == TEST_VIRTUAL_INPUT_UID@
        &&& input.mix is None
    }
    &&& p.buses@.len() == 0
    &&& p.routes@.len() == 0
    &&& p.processors@.len() == 0
    &&& p.processor_chains@.len() == 0
    &&& p.captures.process_taps@.len() == 0
    &&& p.captures.system_taps@.len() == 0
    &&& p.sinks.files@.len() == 0
    &&& p.sinks.streams@.len() == 0
}

fn make_test_frame(
    name: &str,
    description: &str,
    sample_rate: u32,
    buffer_frames: u32,
    output_channels: u16,
    input_channels: u16,
) -> (r: Profile)
    ensures
        test_frame(
            r,
            name@,
            description@,
            sample_rate,
            buffer_frames,
            output_channels,
            input_channels,
        ),
        r.external.inputs@.len() == 0,
        r.external.outputs@.len() == 0,
        r.pipes@.len() == 0,
{
    let mut profile = Profile::default();
    profile.name = Some(String::from_str(name));
    profile.description = Some(String::from_str(description));
    profile.audio.sample_rate = AutoOrU32::Value(sample_rate);
    profile.audio.channels = AutoOrU16::Value(2);
    profile.audio.buffer_frames = buffer_frames;
    profile.virtual_devices.outputs.push(
        VirtualOutputDevice {
            id: String::from_str(TEST_VIRTUAL_OUTPUT_ID),
            name: String::from_str(TEST_VIRTUAL_OUTPUT_NAME),
            channels: Some(output_channels),
            uid: Some(String::from_str(TEST_VIRTUAL_OUTPUT_UID)),
            hidden: false,
        },
    );
    profile.virtual_devices.inputs.push(
        VirtualInputDevice {
            id: String::from_str(TEST_VIRTUAL_INPUT_ID),
            name: String::from_str(TEST_VIRTUAL_INPUT_NAME),
            channels: Some(input_channels),
            uid: Some(String::from_str(TEST_VIRTUAL_INPUT_UID)),
            mix: None,
        },
    );
    profile
}

/// The profile that measures the latency inside the router: from the virtual output straight
/// to the virtual input.
pub fn build_internal_test_profile(sample_rate: u32, buffer_frames: u32) -> (r: Profile)
    ensures
        test_frame(
            r,
            "mars-test-internal-latency"@,
            "Temporary internal loopback profile for `mars test`."@,
            sample_rate,
            buffer_frames,
            2,
            2,
        ),
        r.external.inputs@.len() == 0,
        r.external.outputs@.len() == 0,
        r.pipes@.len() == 1,
        plain_pipe(r.pipes@[0], TEST_VIRTUAL_OUTPUT_ID@, TEST_VIRTUAL_INPUT_ID@),
{
    let mut profile = make_test_frame(
        "mars-test-internal-latency",
        "Temporary internal loopback profile for `mars test`.",
        sample_rate,
        buffer_frames,
        2,
        2,
    );
    profile.pipes.push(make_pipe(TEST_VIRTUAL_OUTPUT_ID, TEST_VIRTUAL_INPUT_ID));
    profile
}

/// Whether a device is asked for by its uid alone.
pub open spec fn asks_for(criteria: DeviceMatch, uid: Seq<char>) -> bool {
    &&& criteria.uid matches Some(wanted) && wanted@ == uid
    &&& criteria.name is None
    &&& criteria.name_regex is None
    &&& criteria.manufacturer is None
    &&& criteria.transport is None
}

fn ask_for(uid: &String) -> (r: DeviceMatch)
    ensures
        asks_for(r, uid@),
{
    DeviceMatch {
        uid: Some(uid.clone()),
        name: None,
        name_regex: None,
        manufacturer: None,
        transport: None,
    }
}

/// The profile that tests a route: from the virtual output to the speaker, and from the
/// microphone to the virtual input.
pub fn build_route_test_profile(
    sample_rate: u32,
    buffer_frames: u32,
    microphone: &ExternalDeviceInfo,
    microphone_channels: u16,
    speaker: &ExternalDeviceInfo,
    speaker_channels: u16,
) -> (r: Profile)
    ensures
        test_frame(
            r,
            "mars-test-route"@,
            "Temporary microphone-to-speaker route test profile for `mars test --route`."@,
            sample_rate,
            buffer_frames,
            speaker_channels,
            microphone_channels,
        ),
        r.external.inputs@.len() == 1,
        r.external.inputs@[0].id@ == TEST_MIC_ID@,
        asks_for(r.external.inputs@[0].criteria, microphone.uid@),
        r.external.inputs@[0].channels == Some(microphone_channels),
        r.external.outputs@.len() == 1,
        r.external.outputs@[0].id@ == TEST_SPEAKER_ID@,
        asks_for(r.external.outputs@[0].criteria, speaker.uid@),
        r.external.outputs@[0].channels == Some(speaker_channels),
        r.pipes@.len() == 2,
        plain_pipe(r.pipes@[0], TEST_VIRTUAL_OUTPUT_ID@, TEST_SPEAKER_ID@),
        plain_pipe(r.pipes@[1], TEST_MIC_ID@, TEST_VIRTUAL_INPUT_ID@),
{
    let mut profile = make_test_frame(
        "mars-test-route",
        "Temporary microphone-to-speaker route test profile for `mars test --route`.",
        sample_rate,
        buffer_frames,
        speaker_channels,
        microphone_channels,
    );
    profile.external.inputs.push(
        ExternalInput {
            id: String::from_str(TEST_MIC_ID),
            criteria: ask_for(&microphone.uid),
            channels: Some(microphone_channels),
        },
    );
    profile.external.outputs.push(
        ExternalOutput {
            id: String::from_str(TEST_SPEAKER_ID),
            criteria: ask_for(&speaker.uid),
            channels: Some(speaker_channels),
        },
    );
    profile.pipes.push(make_pipe(TEST_VIRTUAL_OUTPUT_ID, TEST_SPEAKER_ID));
    profile.pipes.push(make_pipe(TEST_MIC_ID, TEST_VIRTUAL_INPUT_ID));
    profile
}

/// The name of the file that holds the profile of a test, by process and moment.
pub fn test_profile_file_name(pid: u32, timestamp_ms: u128) -> (r: String)
    ensures
        r@ == "mars-test-"@ + decimal(pid as nat) + "-"@ + numeral(timestamp_ms as nat, 10)
            + ".yaml"@,
{
    let mut text = String::from_str("mars-test-");
    text.append(decimal_text(pid as u64).as_str());
    text.append("-");
    text.append(numeral_text(timestamp_ms, 10).as_str());
    text.append(".yaml");
    text
}

// ---------------------------------------------------------------------------
// Choosing the devices

/// What is wrong with the settings of a test.
pub open spec fn config_problem(sample_rate: u32, buffer_frames: u32) -> Option<Seq<char>> {
    if sample_rate == 0 {
        Some("--sample-rate must be > 0"@)
    } else if buffer_frames == 0 {
        Some("--buffer-frames must be > 0"@)
    } else {
        None
    }
}

/// A test needs a sample rate and a buffer.
pub fn validate_test_audio_config(sample_rate: u32, buffer_frames: u32) -> (r: Result<(), CliError>)
    ensures
        match config_problem(sample_rate, buffer_frames) {
            None => r is Ok,
            Some(problem) => fails_with(r, problem, ExitCode::InvalidInput),
        },
{
    if sample_rate == 0 {
        return Err(fail_with("--sample-rate must be > 0", ExitCode::InvalidInput));
    }
    if buffer_frames == 0 {
        return Err(fail_with("--buffer-frames must be > 0", ExitCode::InvalidInput));
    }
    Ok(())
}

/// Whether two descriptions are of the same device.
pub open spec fn same_device(a: ExternalDeviceInfo, b: ExternalDeviceInfo) -> bool {
    &&& a.uid == b.uid
    &&& a.name == b.name
    &&& a.manufacturer == b.manufacturer
    &&& a.transport == b.transport
    &&& a.channels == b.channels
    &&& a.sample_rates@ == b.sample_rates@
}

fn copy_device(device: &ExternalDeviceInfo) -> (r: ExternalDeviceInfo)
    ensures
        same_device(r, *device),
{
    let mut sample_rates: Vec<u32> = Vec::new();
    let mut i: usize = 0;
    while i < device.sample_rates.len()
        invariant
            i <= device.sample_rates.len(),
            sample_rates@ =~= device.sample_rates@.take(i as int),
        decreases device.sample_rates.len() - i,
    {
        sample_rates.push(device.sample_rates[i]);
        i = i + 1;
    }
    assert(sample_rates@ =~= device.sample_rates@);
    ExternalDeviceInfo {
        uid: device.uid.clone(),
        name: device.name.clone(),
        manufacturer: device.manufacturer.clone(),
        transport: device.transport,
        channels: device.channels,
        sample_rates,
    }
}

/// Whether a device is called by its uid or by its name.
pub open spec fn is_called(device: ExternalDeviceInfo, selector: Seq<char>) -> bool {
    device.uid@ == selector || device.name@ == selector
}

/// The places of the devices that are called so.
pub open spec fn called(devices: Seq<ExternalDeviceInfo>, selector: Seq<char>) -> Seq<int> {
    kept(|i: int| is_called(devices[i], selector), devices.len() as int)
}

/// The device that is chosen: the only one that is called so, or the default where none is
/// named.
pub fn resolve_test_device(
    devices: &Vec<ExternalDeviceInfo>,
    selector: Option<&str>,
    default_device: &ExternalDeviceInfo,
    label: &str,
) -> (r: Result<ExternalDeviceInfo, CliError>)
    ensures
        match selector {
            None => r matches Ok(device) && same_device(device, *default_device),
            Some(selector) => {
                let found = called(devices@, selector@);
                if found.len() == 0 {
                    fails_with(
                        r,
                        label@ + " '"@ + selector@
                            + "' not found (use `mars devices --json` to inspect available UIDs)"@,
                        ExitCode::InvalidInput,
                    )
                } else if found.len() == 1 {
                    r matches Ok(device) && same_device(device, devices@[found[0]])
                } else {
                    fails_with(
                        r,
                        label@ + " selector '"@ + selector@
                            + "' is ambiguous; match by UID instead"@,
                        ExitCode::InvalidInput,
                    )
                }
            },
        },
{
    let selector = match selector {
        None => {
            return Ok(copy_device(default_device));
        },
        Some(selector) => selector,
    };
    let wanted = String::from_str(selector);
    let ghost keep = |i: int| is_called(devices@[i], selector@);
    let mut count: usize = 0;
    let mut first: usize = 0;
    let mut i: usize = 0;
    while i < devices.len()
        invariant
            wanted@ == selector@,
            i <= devices.len(),
            keep == |i: int| is_called(devices@[i], selector@),
            count == kept(keep, i as int).len(),
            count <= i,
            count > 0 ==> first < i && kept(keep, i as int)[0] == first,
        decreases devices.len() - i,
    {
        if devices[i].uid == wanted || devices[i].name == wanted {
            if count == 0 {
                first = i;
            }
            count = count + 1;
        }
        i = i + 1;
    }
    if count == 1 {
        return Ok(copy_device(&devices[first]));
    }
    let mut message = String::from_str(label);
    if count == 0 {
        message.append(" '");
        message.append(selector);
        message.append("' not found (use `mars devices --json` to inspect available UIDs)");
    } else {
        message.append(" selector '");
        message.append(selector);
        message.append("' is ambiguous; match by UID instead");
    }
    Err(CliError::WithExit { message, exit_code: ExitCode::InvalidInput })
}

/// The place of the first device with a uid.
pub open spec fn uid_place(devices: Seq<ExternalDeviceInfo>, uid: Seq<char>, i: int) -> Option<int>
    decreases devices.len() - i,
{
    if i < 0 || i >= devices.len() {
        None
    } else if devices[i].uid@ == uid {
        Some(i)
    } else {
        uid_place(devices, uid, i + 1)
    }
}

/// The device that is built in, if it is there.
pub fn preferred_builtin_device(devices: &Vec<ExternalDeviceInfo>, builtin_uid: &str) -> (r: Option<
    ExternalDeviceInfo,
>)
    ensures
        match (uid_place(devices@, builtin_uid@, 0), r) {
            (None, None) => true,
            (Some(place), Some(device)) => same_device(device, devices@[place]),
            _ => false,
        },
{
    let wanted = String::from_str(builtin_uid);
    let mut i: usize = 0;
    while i < devices.len()
        invariant
            wanted@ == builtin_uid@,
            i <= devices.len(),
            uid_place(devices@, builtin_uid@, 0) == uid_place(devices@, builtin_uid@, i as int),
        decreases devices.len() - i,
    {
        if devices[i].uid == wanted {
            return Some(copy_device(&devices[i]));
        }
        i = i + 1;
    }
    None
}

/// The default device of a test: where nothing is named, the one that is built in if it is
/// there, else the default of the system.
pub fn preferred_device(
    devices: &Vec<ExternalDeviceInfo>,
    builtin_uid: &str,
    anything_named: bool,
    system_default: &ExternalDeviceInfo,
) -> (r: ExternalDeviceInfo)
    ensures
        match uid_place(devices@, builtin_uid@, 0) {
            Some(place) if !anything_named => same_device(r, devices@[place]),
            _ => same_device(r, *system_default),
        },
{
    if anything_named {
        return copy_device(system_default);
    }
    match preferred_builtin_device(devices, builtin_uid) {
        Some(device) => device,
        None => copy_device(system_default),
    }
}

/// The device that is chosen, or why none is.
pub open spec fn device_choice(
    devices: Seq<ExternalDeviceInfo>,
    builtin_uid: Seq<char>,
    selector: Option<Seq<char>>,
    anything_named: bool,
    system_default: ExternalDeviceInfo,
    label: Seq<char>,
) -> Result<ExternalDeviceInfo, Seq<char>> {
    match selector {
        None => match uid_place(devices, builtin_uid, 0) {
            Some(place) if !anything_named => Ok(devices[place]),
            _ => Ok(system_default),
        },
        Some(selector) => {
            let found = called(devices, selector);
            if found.len() == 0 {
                Err(
                    label + " '"@ + selector
                        + "' not found (use `mars devices --json` to inspect available UIDs)"@,
                )
            } else if found.len() == 1 {
                Ok(devices[found[0]])
            } else {
                Err(label + " selector '"@ + selector + "' is ambiguous; match by UID instead"@)
            }
        },
    }
}

/// The characters of an optional selector.
pub open spec fn selector_chars(selector: Option<&str>) -> Option<Seq<char>> {
    match selector {
        Some(selector) => Some(selector@),
        None => None,
    }
}

/// The microphone and the speaker of the test of a route, from the devices that are there and
/// the defaults of the system. What fails first is reported.
pub fn select_test_devices(
    mic_selector: Option<&str>,
    speaker_selector: Option<&str>,
    sample_rate: u32,
    buffer_frames: u32,
    listed: Result<DeviceInventory, CliError>,
    default_mic: Result<ExternalDeviceInfo, CliError>,
    default_speaker: Result<ExternalDeviceInfo, CliError>,
) -> (r: Result<(ExternalDeviceInfo, ExternalDeviceInfo), CliError>)
    ensures
        match config_problem(sample_rate, buffer_frames) {
            Some(problem) => fails_with(r, problem, ExitCode::InvalidInput),
            None => match (listed, default_mic, default_speaker) {
                (Err(error), _, _) => r matches Err(e) && e == error,
                (Ok(_), Err(error), _) => r matches Err(e) && e == error,
                (Ok(_), Ok(_), Err(error)) => r matches Err(e) && e == error,
                (Ok(inventory), Ok(mic), Ok(speaker)) => {
                    let named = mic_selector is Some || speaker_selector is Some;
                    match (
                        device_choice(
                            inventory.inputs@,
                            BUILTIN_MIC_UID@,
                            selector_chars(mic_selector),
                            named,
                            mic,
                            "microphone"@,
                        ),
                        device_choice(
                            inventory.outputs@,
                            BUILTIN_SPEAKER_UID@,
                            selector_chars(speaker_selector),
                            named,
                            speaker,
                            "speaker"@,
                        ),
                    ) {
                        (Err(problem), _) => fails_with(r, problem, ExitCode::InvalidInput),
                        (Ok(_), Err(problem)) => fails_with(r, problem, ExitCode::InvalidInput),
                        (Ok(first), Ok(second)) => r matches Ok(chosen) && same_device(
                            chosen.0,
                            first,
                        ) && same_device(chosen.1, second),
                    }
                },
            },
        },
{
    match validate_test_audio_config(sample_rate, buffer_frames) {
        Err(error) => {
            return Err(error);
        },
        Ok(_) => {},
    }
    let inventory = match listed {
        Err(error) => {
            return Err(error);
        },
        Ok(inventory) => inventory,
    };
    let system_mic = match default_mic {
        Err(error) => {
            return Err(error);
        },
        Ok(device) => device,
    };
    let system_speaker = match default_speaker {
        Err(error) => {
            return Err(error);
        },
        Ok(device) => device,
    };
    let named = mic_selector.is_some() || speaker_selector.is_some();
    let preferred_mic = preferred_device(&inventory.inputs, BUILTIN_MIC_UID, named, &system_mic);
    let preferred_speaker = preferred_device(
        &inventory.outputs,
        BUILTIN_SPEAKER_UID,
        named,
        &system_speaker,
    );
    let microphone = match resolve_test_device(
        &inventory.inputs,
        mic_selector,
        &preferred_mic,
        "microphone",
    ) {
        Err(error) => {
            return Err(error);
        },
        Ok(device) => device,
    };
    match resolve_test_device(
        &inventory.outputs,
        speaker_selector,
        &preferred_speaker,
        "speaker",
    ) {
        Err(error) => Err(error),
        Ok(speaker) => Ok((microphone, speaker)),
    }
}

/// What the command ends with where the audio system refuses.
pub open spec fn refusal_code(error: CoreAudioError) -> ExitCode {
    match error {
        CoreAudioError::DefaultDeviceUnavailable { direction: _ } => ExitCode::InvalidInput,
        CoreAudioError::DeviceNotFound { uid: _ } => ExitCode::InvalidInput,
        CoreAudioError::UnsupportedChannelCount {
            uid: _,
            direction: _,
            sample_rate: _,
            preferred: _,
        } => ExitCode::InvalidInput,
        CoreAudioError::UnsupportedStreamConfig { uid: _, direction: _, sample_rate: _ } => {
            ExitCode::InvalidInput
        },
        _ => ExitCode::ApplyFailed,
    }
}

/// What the command fails with where the audio system refuses; the number in its message, if
/// any, is given as text.
pub fn coreaudio_to_cli_error(error: &CoreAudioError, score: &str) -> (r: CliError)
    ensures
        r is WithExit,
        r@ == with_exit(core_audio_error_text(*error, score@), refusal_code(*error)),
{
    let exit_code = match error {
        CoreAudioError::DefaultDeviceUnavailable { direction: _ } => ExitCode::InvalidInput,
        CoreAudioError::DeviceNotFound { uid: _ } => ExitCode::InvalidInput,
        CoreAudioError::UnsupportedChannelCount {
            uid: _,
            direction: _,
            sample_rate: _,
            preferred: _,
        } => ExitCode::InvalidInput,
        CoreAudioError::UnsupportedStreamConfig { uid: _, direction: _, sample_rate: _ } => {
            ExitCode::InvalidInput
        },
        _ => ExitCode::ApplyFailed,
    };
    CliError::WithExit { message: error.message(score), exit_code }
}

/// Whether a number of channels is the largest that a device supports at a sample rate.
pub open spec fn most_supported(configs: Seq<SupportedConfig>, sample_rate: u32, channels: u16) -> bool {
    let counts = channel_set(configs, sample_rate, configs.len() as int);
    &&& counts.contains(channels as u32)
    &&& forall|c: u32| #[trigger] counts.contains(c) ==> c <= channels
}

/// Whether none of the preferred numbers of channels before a place is supported.
pub open spec fn none_before(
    configs: Seq<SupportedConfig>,
    sample_rate: u32,
    preferred: Seq<u16>,
    n: int,
) -> bool {
    forall|k: int| 0 <= k < n ==> !some_config(configs, #[trigger] preferred[k], sample_rate)
}

/// The numbers of channels that a test prefers, the best first: one for a microphone, two for
/// a speaker.
pub fn preferred_test_channels(direction: StreamDirection) -> (r: Vec<u16>)
    ensures
        r@ == match direction {
            StreamDirection::Input => seq![1u16, 2u16],
            StreamDirection::Output => seq![2u16, 1u16],
        },
{
    let mut r: Vec<u16> = Vec::new();
    match direction {
        StreamDirection::Input => {
            r.push(1);
            r.push(2);
        },
        StreamDirection::Output => {
            r.push(2);
            r.push(1);
        },
    }
    assert(r@ =~= match direction {
        StreamDirection::Input => seq![1u16, 2u16],
        StreamDirection::Output => seq![2u16, 1u16],
    });
    r
}

/// The number of channels of a test: the first preferred one that the device supports, else
/// the most that it supports. A device that supports none at the sample rate, or cannot
/// be asked, is refused.
pub fn select_test_channels(
    uid: &str,
    direction: StreamDirection,
    sample_rate: u32,
    preferred: &Vec<u16>,
    queried: &Result<Vec<SupportedConfig>, String>,
) -> (r: Result<u16, CliError>)
    ensures
        match r {
            Ok(channels) => {
                ||| exists|i: int|
                    0 <= i < preferred@.len() && #[trigger] preferred@[i] == channels
                        && some_config(configs_in(*queried), channels, sample_rate) && none_before(
                        configs_in(*queried),
                        sample_rate,
                        preferred@,
                        i,
                    )
                ||| none_before(configs_in(*queried), sample_rate, preferred@, preferred@.len() as int)
                    && most_supported(configs_in(*queried), sample_rate, channels)
            },
            Err(error) => {
                &&& none_before(configs_in(*queried), sample_rate, preferred@, preferred@.len() as int)
                &&& forall|i: int|
                    0 <= i < configs_in(*queried).len() ==> !holds_rate(#[trigger] configs_in(*queried)[i], sample_rate)
                &&& error is WithExit
                &&& match *queried {
                    Err(text) => {
                        &&& error@.exit_code == ExitCode::ApplyFailed
                        &&& exists|refusal: CoreAudioError|
                            {
                                &&& refusal matches CoreAudioError::Enumerate(reason) && reason@
                                    == text@
                                &&& error@.message == #[trigger] core_audio_error_text(
                                    refusal,
                                    ""@,
                                )
                            }
                    },
                    Ok(_) => {
                        &&& error@.exit_code == ExitCode::InvalidInput
                        &&& exists|refusal: CoreAudioError|
                            {
                                &&& refusal is UnsupportedStreamConfig
                                &&& refusal->UnsupportedStreamConfig_uid@ == uid@
                                &&& refusal->UnsupportedStreamConfig_direction@ == direction_text(
                                    direction,
                                )
                                &&& refusal->UnsupportedStreamConfig_sample_rate == sample_rate
                                &&& error@.message == #[trigger] core_audio_error_text(
                                    refusal,
                                    ""@,
                                )
                            }
                    },
                }
            },
        },
{
    match resolve_channel_count(uid, direction, sample_rate, preferred, queried) {
        Ok(channels) => {
            proof {
                let i = choose|i: int|
                    0 <= i < preferred@.len() && #[trigger] preferred@[i] == channels
                        && some_config(configs_in(*queried), channels, sample_rate) && forall|k: int|
                        0 <= k < i ==> !some_config(
                            configs_in(*queried),
                            #[trigger] preferred@[k],
                            sample_rate,
                        );
                assert(none_before(configs_in(*queried), sample_rate, preferred@, i));
            }
            Ok(channels)
        },
        Err(_) => match supported_channel_counts(uid, direction, sample_rate, queried) {
            Err(refusal) => Err(coreaudio_to_cli_error(&refusal, "")),
            Ok(counts) => {
                let last = counts[counts.len() - 1];
                proof {
                    let wide = widened(counts@);
                    let set = channel_set(configs_in(*queried), sample_rate, configs_in(*queried).len() as int);
                    assert(wide[counts@.len() - 1] == last as u32);
                    assert(wide.to_set().contains(last as u32));
                    assert forall|c: u32| #[trigger] set.contains(c) implies c <= last by {
                        assert(wide.to_set().contains(c));
                        let k = wide.index_of(c);
                        assert(wide[k] == c);
                        if k < wide.len() - 1 {
                            assert(wide[k] < wide[wide.len() - 1]);
                        }
                    }
                }
                Ok(last)
            },
        },
    }
}

// ---------------------------------------------------------------------------
// What the tests ask

/// The probe of the latency inside the router.
pub fn internal_probe_request(
    sample_rate: u32,
    output_channels: u16,
    input_channels: u16,
    buffer_frames: u32,
) -> (r: VinRingLoopbackProbeRequest)
    ensures
        r.output_uid@ == TEST_VIRTUAL_OUTPUT_UID@,
        r.vin_uid@ == TEST_VIRTUAL_INPUT_UID@,
        r.sample_rate == sample_rate,
        r.output_channels == output_channels,
        r.vin_channels == input_channels,
        r.buffer_frames == buffer_frames,
        r.timeout_ms == TEST_PROBE_TIMEOUT_MS,
{
    VinRingLoopbackProbeRequest {
        output_uid: String::from_str(TEST_VIRTUAL_OUTPUT_UID),
        vin_uid: String::from_str(TEST_VIRTUAL_INPUT_UID),
        sample_rate,
        output_channels,
        vin_channels: input_channels,
        buffer_frames,
        timeout_ms: TEST_PROBE_TIMEOUT_MS,
    }
}

/// What the test of a route listens to.
pub fn route_monitor_request(sample_rate: u32, microphone_channels: u16, buffer_frames: u32) -> (r:
    VinRingMonitorRequest)
    ensures
        r.vin_uid@ == TEST_VIRTUAL_INPUT_UID@,
        r.sample_rate == sample_rate,
        r.vin_channels == microphone_channels,
        r.buffer_frames == buffer_frames,
        r.timeout_ms == ROUTE_LISTEN_DURATION_MS,
{
    VinRingMonitorRequest {
        vin_uid: String::from_str(TEST_VIRTUAL_INPUT_UID),
        sample_rate,
        vin_channels: microphone_channels,
        buffer_frames,
        timeout_ms: ROUTE_LISTEN_DURATION_MS,
    }
}

/// How a test applies a profile: all of it, and for real.
pub fn test_apply_request(profile_path: &str) -> (r: ApplyRequest)
    ensures
        r.profile_path@ == profile_path@,
        !r.no_delete,
        !r.dry_run,
        r.timeout_ms == TEST_APPLY_TIMEOUT_MS,
{
    ApplyRequest {
        profile_path: String::from_str(profile_path),
        no_delete: false,
        dry_run: false,
        timeout_ms: TEST_APPLY_TIMEOUT_MS,
    }
}

fn check_errors(lead: &str, errors: &Vec<String>) -> (r: Result<(), CliError>)
    ensures
        if errors@.len() == 0 {
            r is Ok
        } else {
            fails_with(
                r,
                lead@ + joined_text(views(errors@), "; "@),
                ExitCode::ApplyFailed,
            )
        },
{
    if errors.len() == 0 {
        return Ok(());
    }
    let mut message = String::from_str(lead);
    message.append(join_texts(errors, "; ").as_str());
    Err(CliError::WithExit { message, exit_code: ExitCode::ApplyFailed })
}

/// The profile of a test has to be applied without errors.
pub fn check_test_apply(result: &ApplyResult) -> (r: Result<(), CliError>)
    ensures
        if result.errors@.len() == 0 {
            r is Ok
        } else {
            fails_with(
                r,
                "test profile apply failed: "@ + joined_text(views(result.errors@), "; "@),
                ExitCode::ApplyFailed,
            )
        },
{
    check_errors("test profile apply failed: ", &result.errors)
}

/// The profile of a test has to be cleared without errors.
pub fn check_test_clear(result: &ApplyResult) -> (r: Result<(), CliError>)
    ensures
        if result.errors@.len() == 0 {
            r is Ok
        } else {
            fails_with(
                r,
                "failed to clear test profile: "@ + joined_text(views(result.errors@), "; "@),
                ExitCode::ApplyFailed,
            )
        },
{
    check_errors("failed to clear test profile: ", &result.errors)
}

/// How what was applied before a test is brought back.
#[derive(Debug, PartialEq, Eq)]
pub enum TestRestore {
    Apply { profile_path: String },
    Clear,
}

/// How what was applied before a test is brought back: its profile, which has to be there
/// still, or nothing.
pub fn restore_action(previous: Option<&str>, exists: bool) -> (r: Result<TestRestore, CliError>)
    ensures
        match previous {
            None => r == Ok::<TestRestore, CliError>(TestRestore::Clear),
            Some(path) => if exists {
                r matches Ok(TestRestore::Apply { profile_path }) && profile_path@ == path@
            } else {
                fails_with(
                    r,
                    "previous profile no longer exists: '"@ + path@ + "'"@,
                    ExitCode::ApplyFailed,
                )
            },
        },
{
    match previous {
        None => Ok(TestRestore::Clear),
        Some(path) => if exists {
            Ok(TestRestore::Apply { profile_path: String::from_str(path) })
        } else {
            let mut message = String::from_str("previous profile no longer exists: '");
            message.append(path);
            message.append("'");
            Err(CliError::WithExit { message, exit_code: ExitCode::ApplyFailed })
        },
    }
}

// ---------------------------------------------------------------------------
// What the tests report

/// An end of what was tested.
#[derive(Debug, PartialEq, Eq)]
pub struct TestEndpointReport {
    pub kind: String,
    pub logical_id: Option<String>,
    pub name: String,
    pub uid: String,
    pub channels: u16,
}

/// What was tested, and how.
#[derive(Debug, PartialEq, Eq)]
pub struct TestContextReport {
    pub mode: String,
    pub description: String,
    pub signal: String,
    pub source: TestEndpointReport,
    pub sinks: Vec<TestEndpointReport>,
    pub paths: Vec<String>,
    pub includes: Vec<String>,
    pub excludes: Vec<String>,
}

/// An end of what was tested, in characters.
#[verifier::ext_equal]
pub struct TestEndpointView {
    pub kind: Seq<char>,
    pub logical_id: Option<Seq<char>>,
    pub name: Seq<char>,
    pub uid: Seq<char>,
    pub channels: u16,
}

/// What was tested, and how, in characters.
#[verifier::ext_equal]
pub struct TestContextView {
    pub mode: Seq<char>,
    pub description: Seq<char>,
    pub signal: Seq<char>,
    pub source: TestEndpointView,
    pub sinks: Seq<TestEndpointView>,
    pub paths: Seq<Seq<char>>,
    pub includes: Seq<Seq<char>>,
    pub excludes: Seq<Seq<char>>,
}

impl View for TestEndpointReport {
    type V = TestEndpointView;

    open spec fn view(&self) -> TestEndpointView {
        TestEndpointView {
            kind: self.kind@,
            logical_id: match self.logical_id {
                Some(id) => Some(id@),
                None => None,
            },
            name: self.name@,
            uid: self.uid@,
            channels: self.channels,
        }
    }
}

impl View for TestContextReport {
    type V = TestContextView;

    open spec fn view(&self) -> TestContextView {
        TestContextView {
            mode: self.mode@,
            description: self.description@,
            signal: self.signal@,
            source: self.source@,
            sinks: views(self.sinks@),
            paths: views(self.paths@),
            includes: views(self.includes@),
            excludes: views(self.excludes@),
        }
    }
}

/// An end of what was tested.
pub open spec fn test_end(
    kind: Seq<char>,
    id: Seq<char>,
    name: Seq<char>,
    uid: Seq<char>,
    channels: u16,
) -> TestEndpointView {
    TestEndpointView { kind, logical_id: Some(id), name, uid, channels }
}

fn make_end(kind: &str, id: &str, name: &str, uid: &str, channels: u16) -> (r: TestEndpointReport)
    ensures
        r@ == test_end(kind@, id@, name@, uid@, channels),
{
    TestEndpointReport {
        kind: String::from_str(kind),
        logical_id: Some(String::from_str(id)),
        name: String::from_str(name),
        uid: String::from_str(uid),
        channels,
    }
}

fn list_of_one(a: &str) -> (r: Vec<String>)
    ensures
        views(r@) == seq![a@],
{
    let mut list: Vec<String> = Vec::new();
    list.push(String::from_str(a));
    assert(views(list@) =~= seq![a@]);
    list
}

fn list_of_two(a: &str, b: &str) -> (r: Vec<String>)
    ensures
        views(r@) == seq![a@, b@],
{
    let mut list: Vec<String> = list_of_one(a);
    list.push(String::from_str(b));
    assert(views(list@) =~= seq![a@, b@]);
    list
}

fn list_of_three(a: &str, b: &str, c: &str) -> (r: Vec<String>)
    ensures
        views(r@) == seq![a@, b@, c@],
{
    let mut list: Vec<String> = list_of_two(a, b);
    list.push(String::from_str(c));
    assert(views(list@) =~= seq![a@, b@, c@]);
    list
}

/// What the test of the latency inside the router is about.
pub open spec fn internal_context() -> TestContextView {
    TestContextView {
        mode: "internal_latency"@,
        description: "Measures internal sample-offset latency through the MARS data plane."@,
        signal: "Injects a deterministic impulse+chirp probe into the temporary virtual output and correlates the captured temporary virtual input."@,
        source: test_end(
            "virtual_output"@,
            TEST_VIRTUAL_OUTPUT_ID@,
            TEST_VIRTUAL_OUTPUT_NAME@,
            system_uid(TEST_VIRTUAL_OUTPUT_UID@),
            2,
        ),
        sinks: seq![
            test_end(
                "virtual_input"@,
                TEST_VIRTUAL_INPUT_ID@,
                TEST_VIRTUAL_INPUT_NAME@,
                system_uid(TEST_VIRTUAL_INPUT_UID@),
                2,
            ),
        ],
        paths: seq!["virtual output ring -> daemon render loop -> virtual input ring"@],
        includes: seq![
            "MARS shared-memory ring transport"@,
            "daemon render scheduling and graph traversal"@,
            "internal sample buffering between virtual output and virtual input"@,
        ],
        excludes: seq![
            "app-side CoreAudio host streams"@,
            "physical speaker/microphone latency"@,
            "external device I/O"@,
        ],
    }
}

/// What the test of the latency inside the router is about.
pub fn internal_latency_test_context() -> (r: TestContextReport)
    ensures
        r@ == internal_context(),
{
    let mut sinks: Vec<TestEndpointReport> = Vec::new();
    sinks.push(
        make_end(
            "virtual_input",
            TEST_VIRTUAL_INPUT_ID,
            TEST_VIRTUAL_INPUT_NAME,
            coreaudio_uid(TEST_VIRTUAL_INPUT_UID).as_str(),
            2,
        ),
    );
    assert(views(sinks@) =~= internal_context().sinks);
    TestContextReport {
        mode: String::from_str("internal_latency"),
        description: String::from_str(
            "Measures internal sample-offset latency through the MARS data plane.",
        ),
        signal: String::from_str(
            "Injects a deterministic impulse+chirp probe into the temporary virtual output and correlates the captured temporary virtual input.",
        ),
        source: make_end(
            "virtual_output",
            TEST_VIRTUAL_OUTPUT_ID,
            TEST_VIRTUAL_OUTPUT_NAME,
            coreaudio_uid(TEST_VIRTUAL_OUTPUT_UID).as_str(),
            2,
        ),
        sinks,
        paths: list_of_one("virtual output ring -> daemon render loop -> virtual input ring"),
        includes: list_of_three(
            "MARS shared-memory ring transport",
            "daemon render scheduling and graph traversal",
            "internal sample buffering between virtual output and virtual input",
        ),
        excludes: list_of_three(
            "app-side CoreAudio host streams",
            "physical speaker/microphone latency",
            "external device I/O",
        ),
    }
}

/// What the test of a route is about.
pub open spec fn route_context(
    microphone: ExternalDeviceInfo,
    microphone_channels: u16,
    speaker: ExternalDeviceInfo,
    speaker_channels: u16,
) -> TestContextView {
    TestContextView {
        mode: "route_signal_detection"@,
        description: "Verifies that microphone signal enters MARS and reaches both the selected speaker route and the virtual capture path."@,
        signal: "Listens for live microphone input such as speech or a clap."@,
        source: test_end(
            "external_input"@,
            TEST_MIC_ID@,
            microphone.name@,
            microphone.uid@,
            microphone_channels,
        ),
        sinks: seq![
            test_end(
                "external_output"@,
                TEST_SPEAKER_ID@,
                speaker.name@,
                speaker.uid@,
                speaker_channels,
            ),
            test_end(
                "virtual_input"@,
                TEST_VIRTUAL_INPUT_ID@,
                TEST_VIRTUAL_INPUT_NAME@,
                system_uid(TEST_VIRTUAL_INPUT_UID@),
                microphone_channels,
            ),
        ],
        paths: seq![
            "microphone -> daemon render loop -> speaker"@,
            "microphone -> daemon render loop -> virtual capture"@,
        ],
        includes: seq![
            "selected microphone external input stream"@,
            "selected speaker external output stream"@,
            "virtual capture sink visibility"@,
        ],
        excludes: seq![
            "a numeric latency measurement"@,
            "speaker audibility measured back through a microphone"@,
        ],
    }
}

/// What the test of a route is about.
pub fn route_test_context(
    microphone: &ExternalDeviceInfo,
    microphone_channels: u16,
    speaker: &ExternalDeviceInfo,
    speaker_channels: u16,
) -> (r: TestContextReport)
    ensures
        r@ == route_context(*microphone, microphone_channels, *speaker, speaker_channels),
{
    let mut sinks: Vec<TestEndpointReport> = Vec::new();
    sinks.push(
        make_end(
            "external_output",
            TEST_SPEAKER_ID,
            speaker.name.as_str(),
            speaker.uid.as_str(),
            speaker_channels,
        ),
    );
    sinks.push(
        make_end(
            "virtual_input",
            TEST_VIRTUAL_INPUT_ID,
            TEST_VIRTUAL_INPUT_NAME,
            coreaudio_uid(TEST_VIRTUAL_INPUT_UID).as_str(),
            microphone_channels,
        ),
    );
    assert(views(sinks@) =~= route_context(
        *microphone,
        microphone_channels,
        *speaker,
        speaker_channels,
    ).sinks);
    TestContextReport {
        mode: String::from_str("route_signal_detection"),
        description: String::from_str(
            "Verifies that microphone signal enters MARS and reaches both the selected speaker route and the virtual capture path.",
        ),
        signal: String::from_str("Listens for live microphone input such as speech or a clap."),
        source: make_end(
            "external_input",
            TEST_MIC_ID,
            microphone.name.as_str(),
            microphone.uid.as_str(),
            microphone_channels,
        ),
        sinks,
        paths: list_of_two(
            "microphone -> daemon render loop -> speaker",
            "microphone -> daemon render loop -> virtual capture",
        ),
        includes: list_of_three(
            "selected microphone external input stream",
            "selected speaker external output stream",
            "virtual capture sink visibility",
        ),
        excludes: list_of_two(
            "a numeric latency measurement",
            "speaker audibility measured back through a microphone",
        ),
    }
}

/// What a probe found out, as it is reported.
#[derive(Debug, Clone, Copy)]
pub struct ProbeReport {
    pub latency_frames: i64,
    pub latency_ms: Real64,
    pub correlation_score: Real32,
    pub output_signal_frames: usize,
    pub captured_frames: usize,
}

/// What a probe found out, as it is reported.
pub fn probe_report(result: LoopbackProbeResult) -> (r: ProbeReport)
    ensures
        r.latency_frames == result.latency_frames,
        r.latency_ms == result.latency_ms,
        r.correlation_score == result.correlation_score,
        r.output_signal_frames == result.output_signal_frames,
        r.captured_frames == result.captured_frames,
{
    ProbeReport {
        latency_frames: result.latency_frames,
        latency_ms: result.latency_ms,
        correlation_score: result.correlation_score,
        output_signal_frames: result.output_signal_frames,
        captured_frames: result.captured_frames,
    }
}

/// The report on the latency inside the router.
#[derive(Debug)]
pub struct InternalLatencyTestReport {
    pub context: TestContextReport,
    pub sample_rate: u32,
    pub buffer_frames: u32,
    pub virtual_system_output_uid: String,
    pub virtual_capture_input_uid: String,
    pub internal: ProbeReport,
    pub notes: Vec<String>,
    pub restored_profile: Option<String>,
}

/// The report on a route.
#[derive(Debug)]
pub struct RouteTestReport {
    pub context: TestContextReport,
    pub sample_rate: u32,
    pub buffer_frames: u32,
    pub listen_ms: u64,
    pub microphone: ExternalDeviceInfo,
    pub speaker: ExternalDeviceInfo,
    pub virtual_capture_input_uid: String,
    pub external_input_connected: bool,
    pub external_output_connected: bool,
    pub capture_signal_detected: bool,
    pub peak_dbfs: Option<Real32>,
    pub rms_dbfs: Option<Real32>,
    pub captured_frames: usize,
    pub notes: Vec<String>,
    pub restored_profile: Option<String>,
}

/// What a test fails with where something in it or after it failed: a file that could not be
/// removed comes first, then the test itself and what could not be brought back.
pub open spec fn test_failure<T>(
    phase: Result<T, CliError>,
    restore: Result<(), CliError>,
    cleanup: Result<(), String>,
    profile_path: Seq<char>,
    finished: Seq<char>,
) -> Option<CliErrorView> {
    match (cleanup, phase, restore) {
        (Err(error), _, _) => Some(
            with_exit(
                "test cleanup failed for '"@ + profile_path + "': "@ + error@,
                ExitCode::ApplyFailed,
            ),
        ),
        (Ok(_), Ok(_), Ok(_)) => None,
        (Ok(_), Ok(_), Err(error)) => Some(
            with_exit(
                finished + " but restoring the previous profile failed: "@ + error@.message,
                ExitCode::ApplyFailed,
            ),
        ),
        (Ok(_), Err(error), Ok(_)) => Some(error@),
        (Ok(_), Err(error), Err(other)) => Some(
            with_exit(
                error@.message + "; restore failed: "@ + other@.message,
                ExitCode::ApplyFailed,
            ),
        ),
    }
}

/// The outcome of a test, from the outcomes of its parts.
pub fn settle_test<T>(
    phase: Result<T, CliError>,
    restore: Result<(), CliError>,
    cleanup: Result<(), String>,
    profile_path: &str,
    finished: &str,
) -> (r: Result<T, CliError>)
    ensures
        match (test_failure(phase, restore, cleanup, profile_path@, finished@), r) {
            (None, Ok(value)) => phase == Ok::<T, CliError>(value),
            (Some(failure), Err(error)) => error@ == failure,
            _ => false,
        },
{
    if let Err(error) = cleanup {
        let mut message = String::from_str("test cleanup failed for '");
        message.append(profile_path);
        message.append("': ");
        message.append(error.as_str());
        return Err(CliError::WithExit { message, exit_code: ExitCode::ApplyFailed });
    }
    match phase {
        Ok(value) => match restore {
            Ok(_) => Ok(value),
            Err(error) => {
                let mut message = String::from_str(finished);
                message.append(" but restoring the previous profile failed: ");
                message.append(error.message().as_str());
                Err(CliError::WithExit { message, exit_code: ExitCode::ApplyFailed })
            },
        },
        Err(error) => match restore {
            Ok(_) => Err(error),
            Err(other) => {
                let mut message = error.message();
                message.append("; restore failed: ");
                message.append(other.message().as_str());
                Err(CliError::WithExit { message, exit_code: ExitCode::ApplyFailed })
            },
        },
    }
}

/// The notes on the latency inside the router.
pub open spec fn internal_notes(result: LoopbackProbeResult) -> Seq<Seq<char>> {
    seq![
        "Measures the internal MARS data plane (`mars.vout` -> daemon render loop -> `mars.vin`) only; excludes app-side CoreAudio host streams and any speaker/microphone path."@,
    ] + (if result.correlation_score.below(Real32 { bits: WEAK_CORRELATION_BITS }) {
        seq!["Correlation was weak; retry before trusting the latency number."@]
    } else {
        Seq::empty()
    }) + (if result.latency_frames < 0 {
        seq![
            "Measured internal latency was not positive; treat the reported number as low-confidence and retry."@,
        ]
    } else if result.latency_frames == 0 {
        seq![
            "Measured sample offset was 0 frames. That means the current internal route did not add extra sample buffering beyond the daemon's scheduling cadence."@,
        ]
    } else {
        Seq::empty()
    })
}

/// Whether a report tells of a probe of the latency inside the router.
pub open spec fn internal_report_tells(
    report: InternalLatencyTestReport,
    result: LoopbackProbeResult,
    sample_rate: u32,
    buffer_frames: u32,
    previous_profile: Option<String>,
) -> bool {
    &&& report.context@ == internal_context()
    &&& report.sample_rate == sample_rate
    &&& report.buffer_frames == buffer_frames
    &&& report.virtual_system_output_uid@ == system_uid(TEST_VIRTUAL_OUTPUT_UID@)
    &&& report.virtual_capture_input_uid@ == system_uid(TEST_VIRTUAL_INPUT_UID@)
    &&& report.internal.latency_frames == result.latency_frames
    &&& report.internal.latency_ms == result.latency_ms
    &&& report.internal.correlation_score == result.correlation_score
    &&& report.internal.output_signal_frames == result.output_signal_frames
    &&& report.internal.captured_frames == result.captured_frames
    &&& views(report.notes@) == internal_notes(result)
    &&& report.restored_profile == previous_profile
}

fn list_internal_notes(result: &LoopbackProbeResult) -> (r: Vec<String>)
    ensures
        views(r@) == internal_notes(*result),
{
    let mut notes = list_of_one(
        "Measures the internal MARS data plane (`mars.vout` -> daemon render loop -> `mars.vin`) only; excludes app-side CoreAudio host streams and any speaker/microphone path.",
    );
    let weak = Real32 { bits: WEAK_CORRELATION_BITS };
    if result.correlation_score.is_below(&weak) {
        notes.push(
            String::from_str("Correlation was weak; retry before trusting the latency number."),
        );
    }
    if result.latency_frames < 0 {
        notes.push(
            String::from_str(
                "Measured internal latency was not positive; treat the reported number as low-confidence and retry.",
            ),
        );
    } else if result.latency_frames == 0 {
        notes.push(
            String::from_str(
                "Measured sample offset was 0 frames. That means the current internal route did not add extra sample buffering beyond the daemon's scheduling cadence.",
            ),
        );
    }
    assert(views(notes@) =~= internal_notes(*result));
    notes
}

/// Ends the test of the latency inside the router: the report, or what failed.
pub fn finish_internal_test(
    phase: Result<LoopbackProbeResult, CliError>,
    restore: Result<(), CliError>,
    cleanup: Result<(), String>,
    profile_path: &str,
    sample_rate: u32,
    buffer_frames: u32,
    previous_profile: Option<String>,
) -> (r: Result<InternalLatencyTestReport, CliError>)
    ensures
        match (test_failure(phase, restore, cleanup, profile_path@, "test finished"@), r) {
            (Some(failure), Err(error)) => error@ == failure,
            (None, Ok(report)) => phase matches Ok(result) && internal_report_tells(
                report,
                result,
                sample_rate,
                buffer_frames,
                previous_profile,
            ),
            _ => false,
        },
{
    match settle_test(phase, restore, cleanup, profile_path, "test finished") {
        Err(error) => Err(error),
        Ok(result) => {
            let notes = list_internal_notes(&result);
            Ok(
                InternalLatencyTestReport {
                    context: internal_latency_test_context(),
                    sample_rate,
                    buffer_frames,
                    virtual_system_output_uid: coreaudio_uid(TEST_VIRTUAL_OUTPUT_UID),
                    virtual_capture_input_uid: coreaudio_uid(TEST_VIRTUAL_INPUT_UID),
                    internal: probe_report(result),
                    notes,
                    restored_profile: previous_profile,
                },
            )
        },
    }
}

// ---------------------------------------------------------------------------
// The test of a route

/// The devices that were chosen for the test of a route.
#[derive(Debug)]
pub struct SelectedTestEndpoints {
    pub microphone: ExternalDeviceInfo,
    pub speaker: ExternalDeviceInfo,
    pub microphone_channels: u16,
    pub speaker_channels: u16,
}

/// What was heard while a route was tested, and how many external devices were connected. The
/// levels in decibels and the texts of the two levels come with them.
#[derive(Debug)]
pub struct RouteObservation {
    pub connected_inputs: usize,
    pub connected_outputs: usize,
    pub monitor: VinRingMonitorResult,
    pub peak_dbfs: Real32,
    pub rms_dbfs: Real32,
    pub peak_text: String,
    pub rms_text: String,
}

/// Whether a peak counts as a signal.
pub open spec fn signal_heard(peak: Real32) -> bool {
    !peak.nan() && !peak.below(Real32 { bits: SIGNAL_PEAK_BITS })
}

/// A level in decibels; there is none of silence.
pub open spec fn level_of(value: Real32, dbfs: Real32) -> Option<Real32> {
    if value.nan() || (Real32 { bits: 0 }).below(value) {
        Some(dbfs)
    } else {
        None
    }
}

fn level(value: Real32, dbfs: Real32) -> (r: Option<Real32>)
    ensures
        r == level_of(value, dbfs),
{
    let zero = Real32 { bits: 0 };
    if value.is_nan() || zero.is_below(&value) {
        Some(dbfs)
    } else {
        None
    }
}

/// The text where too little was heard.
pub open spec fn silence_text(selected: SelectedTestEndpoints, seen: RouteObservation) -> Seq<char> {
    "route test did not observe enough microphone signal (peak="@ + seen.peak_text@ + ", rms="@
        + seen.rms_text@ + ")\nselected microphone: "@ + selected.microphone.name@ + " ("@
        + selected.microphone.uid@ + ")\nselected speaker: "@ + selected.speaker.name@ + " ("@
        + selected.speaker.uid@
        + ")\nspeak louder, clap near the microphone, or override devices with `mars test --route --mic "@
        + selected.microphone.uid@ + " --speaker "@ + selected.speaker.uid@ + "`."@
}

fn describe_silence(selected: &SelectedTestEndpoints, seen: &RouteObservation) -> (r: String)
    ensures
        r@ == silence_text(*selected, *seen),
{
    let mut text = String::from_str("route test did not observe enough microphone signal (peak=");
    text.append(seen.peak_text.as_str());
    text.append(", rms=");
    text.append(seen.rms_text.as_str());
    text.append(")\nselected microphone: ");
    text.append(selected.microphone.name.as_str());
    text.append(" (");
    text.append(selected.microphone.uid.as_str());
    text.append(")\nselected speaker: ");
    text.append(selected.speaker.name.as_str());
    text.append(" (");
    text.append(selected.speaker.uid.as_str());
    text.append(
        ")\nspeak louder, clap near the microphone, or override devices with `mars test --route --mic ",
    );
    text.append(selected.microphone.uid.as_str());
    text.append(" --speaker ");
    text.append(selected.speaker.uid.as_str());
    text.append("`.");
    text
}

/// The notes on a route.
pub open spec fn route_notes(peak: Real32) -> Seq<Seq<char>> {
    seq![
        "Signal detection is verified through the virtual capture path; physical speaker audibility is inferred from the connected external output stream, not directly microphone-sampled."@,
    ] + (if peak.below(Real32 { bits: LOW_PEAK_BITS }) {
        seq![
            "Detected signal level was low; if monitoring still sounds wrong, retry with a louder source or the microphone closer to the speaker."@,
        ]
    } else {
        Seq::empty()
    })
}

/// Whether a report tells of the test of a route.
pub open spec fn route_report_tells(
    report: RouteTestReport,
    selected: SelectedTestEndpoints,
    seen: RouteObservation,
    sample_rate: u32,
    buffer_frames: u32,
    previous_profile: Option<String>,
) -> bool {
    &&& report.context@ == route_context(
        selected.microphone,
        selected.microphone_channels,
        selected.speaker,
        selected.speaker_channels,
    )
    &&& report.sample_rate == sample_rate
    &&& report.buffer_frames == buffer_frames
    &&& report.listen_ms == ROUTE_LISTEN_DURATION_MS
    &&& report.microphone == selected.microphone
    &&& report.speaker == selected.speaker
    &&& report.virtual_capture_input_uid@ == system_uid(TEST_VIRTUAL_INPUT_UID@)
    &&& report.external_input_connected == (seen.connected_inputs > 0)
    &&& report.external_output_connected == (seen.connected_outputs > 0)
    &&& report.capture_signal_detected
    &&& report.peak_dbfs == level_of(seen.monitor.peak, seen.peak_dbfs)
    &&& report.rms_dbfs == level_of(seen.monitor.rms, seen.rms_dbfs)
    &&& report.captured_frames == seen.monitor.captured_frames
    &&& views(report.notes@) == route_notes(seen.monitor.peak)
    &&& report.restored_profile == previous_profile
}

/// Ends the test of a route: the report, or what failed. Too little sound is a failure.
pub fn finish_route_test(
    phase: Result<RouteObservation, CliError>,
    restore: Result<(), CliError>,
    cleanup: Result<(), String>,
    profile_path: &str,
    selected: SelectedTestEndpoints,
    sample_rate: u32,
    buffer_frames: u32,
    previous_profile: Option<String>,
) -> (r: Result<RouteTestReport, CliError>)
    ensures
        match (test_failure(phase, restore, cleanup, profile_path@, "route test finished"@), r) {
            (Some(failure), Err(error)) => error@ == failure,
            (Some(_), Ok(_)) => false,
            (None, Err(error)) => phase matches Ok(seen) && !signal_heard(seen.monitor.peak)
                && error@ == with_exit(silence_text(selected, seen), ExitCode::ApplyFailed),
            (None, Ok(report)) => phase matches Ok(seen) && signal_heard(seen.monitor.peak)
                && route_report_tells(
                report,
                selected,
                seen,
                sample_rate,
                buffer_frames,
                previous_profile,
            ),
        },
{
    let seen = match settle_test(phase, restore, cleanup, profile_path, "route test finished") {
        Err(error) => {
            return Err(error);
        },
        Ok(seen) => seen,
    };
    let peak = seen.monitor.peak;
    let least = Real32 { bits: SIGNAL_PEAK_BITS };
    if peak.is_nan() || peak.is_below(&least) {
        return Err(
            CliError::WithExit {
                message: describe_silence(&selected, &seen),
                exit_code: ExitCode::ApplyFailed,
            },
        );
    }
    let mut notes = list_of_one(
        "Signal detection is verified through the virtual capture path; physical speaker audibility is inferred from the connected external output stream, not directly microphone-sampled.",
    );
    let low = Real32 { bits: LOW_PEAK_BITS };
    if peak.is_below(&low) {
        notes.push(
            String::from_str(
                "Detected signal level was low; if monitoring still sounds wrong, retry with a louder source or the microphone closer to the speaker.",
            ),
        );
    }
    assert(views(notes@) =~= route_notes(peak));
    Ok(
        RouteTestReport {
            context: route_test_context(
                &selected.microphone,
                selected.microphone_channels,
                &selected.speaker,
                selected.speaker_channels,
            ),
            sample_rate,
            buffer_frames,
            listen_ms: ROUTE_LISTEN_DURATION_MS,
            microphone: selected.microphone,
            speaker: selected.speaker,
            virtual_capture_input_uid: coreaudio_uid(TEST_VIRTUAL_INPUT_UID),
            external_input_connected: seen.connected_inputs > 0,
            external_output_connected: seen.connected_outputs > 0,
            capture_signal_detected: true,
            peak_dbfs: level(peak, seen.peak_dbfs),
            rms_dbfs: level(seen.monitor.rms, seen.rms_dbfs),
            captured_frames: seen.monitor.captured_frames,
            notes,
            restored_profile: previous_profile,
        },
    )
}

// ---------------------------------------------------------------------------
// The reports as text

/// An end of what was tested, as text.
pub open spec fn end_text(end: TestEndpointView) -> Seq<char> {
    end.name + " ["@ + end.kind + (match end.logical_id {
        Some(id) => " id="@ + id,
        None => Seq::empty(),
    }) + " uid="@ + end.uid + " channels="@ + decimal(end.channels as nat) + "]"@
}

/// An end of what was tested, as text.
pub fn format_test_endpoint(endpoint: &TestEndpointReport) -> (r: String)
    ensures
        r@ == end_text(endpoint@),
{
    let mut middle = String::new();
    if let Some(id) = &endpoint.logical_id {
        middle.append(" id=");
        middle.append(id.as_str());
    }
    assert(middle@ =~= (match endpoint@.logical_id {
        Some(id) => " id="@ + id,
        None => Seq::empty(),
    }));
    let mut text = endpoint.name.clone();
    text.append(" [");
    text.append(endpoint.kind.as_str());
    text.append(middle.as_str());
    text.append(" uid=");
    text.append(endpoint.uid.as_str());
    text.append(" channels=");
    text.append(decimal_text(endpoint.channels as u64).as_str());
    text.append("]");
    text
}

/// The lines on what was tested.
pub open spec fn context_lines(
    context: TestContextView,
    outputs: Seq<char>,
    paths: Seq<char>,
) -> Seq<Seq<char>> {
    seq![
        "Test: "@ + context.mode,
        "What: "@ + context.description,
        "Signal: "@ + context.signal,
        "Input: "@ + end_text(context.source),
        outputs + joined_text(
            context.sinks.map_values(|end: TestEndpointView| end_text(end)),
            " | "@,
        ),
        paths + joined_text(context.paths, " ; "@),
        "Includes: "@ + joined_text(context.includes, "; "@),
        "Excludes: "@ + joined_text(context.excludes, "; "@),
    ]
}

fn lead_text(lead: &str, text: &str) -> (r: String)
    ensures
        r@ == lead@ + text@,
{
    let mut whole = String::from_str(lead);
    whole.append(text);
    whole
}

fn list_context_lines(context: &TestContextReport, outputs: &str, paths: &str) -> (r: Vec<String>)
    ensures
        views(r@) == context_lines(context@, outputs@, paths@),
{
    let ghost shown = |end: TestEndpointView| end_text(end);
    let mut ends: Vec<String> = Vec::new();
    let mut i: usize = 0;
    while i < context.sinks.len()
        invariant
            i <= context.sinks.len(),
            shown == |end: TestEndpointView| end_text(end),
            views(ends@) =~= views(context.sinks@).take(i as int).map_values(shown),
        decreases context.sinks.len() - i,
    {
        ends.push(format_test_endpoint(&context.sinks[i]));
        i = i + 1;
    }
    assert(views(context.sinks@).take(i as int) =~= views(context.sinks@));
    let mut lines: Vec<String> = Vec::new();
    lines.push(lead_text("Test: ", context.mode.as_str()));
    lines.push(lead_text("What: ", context.description.as_str()));
    lines.push(lead_text("Signal: ", context.signal.as_str()));
    lines.push(lead_text("Input: ", format_test_endpoint(&context.source).as_str()));
    lines.push(lead_text(outputs, join_texts(&ends, " | ").as_str()));
    lines.push(lead_text(paths, join_texts(&context.paths, " ; ").as_str()));
    lines.push(lead_text("Includes: ", join_texts(&context.includes, "; ").as_str()));
    lines.push(lead_text("Excludes: ", join_texts(&context.excludes, "; ").as_str()));
    assert(views(lines@) =~= context_lines(context@, outputs@, paths@));
    lines
}

/// The lines that end a report.
pub open spec fn closing_lines(notes: Seq<Seq<char>>, restored: Option<Seq<char>>) -> Seq<Seq<char>> {
    (if notes.len() == 0 {
        Seq::empty()
    } else {
        seq!["Notes: "@ + joined_text(notes, " "@)]
    }) + (match restored {
        Some(profile) => seq!["Restored profile: "@ + profile],
        None => Seq::empty(),
    })
}

fn add_closing_lines(lines: &mut Vec<String>, notes: &Vec<String>, restored: &Option<String>)
    ensures
        views(final(lines)@) == views(old(lines)@) + closing_lines(
            views(notes@),
            profile_text(*restored),
        ),
{
    let ghost before = views(lines@);
    let ghost ending = closing_lines(views(notes@), profile_text(*restored));
    if notes.len() > 0 {
        lines.push(lead_text("Notes: ", join_texts(notes, " ").as_str()));
    }
    if let Some(profile) = restored {
        lines.push(lead_text("Restored profile: ", profile.as_str()));
    }
    assert(views(lines@) =~= before + ending);
}

/// The characters of an optional text.
pub open spec fn profile_text(profile: Option<String>) -> Option<Seq<char>> {
    match profile {
        Some(profile) => Some(profile@),
        None => None,
    }
}

/// The report on the latency inside the router as text; the two numbers with fractions are
/// given as texts.
pub open spec fn internal_report_text(
    report: InternalLatencyTestReport,
    latency: Seq<char>,
    correlation: Seq<char>,
) -> Seq<char> {
    joined_text(
        context_lines(report.context@, "Output: "@, "Path: "@) + seq![
            "Config: sample_rate="@ + decimal(report.sample_rate as nat) + "Hz buffer_frames="@
                + decimal(report.buffer_frames as nat),
            "Result: latency="@ + latency + "ms frames="@ + signed_decimal(
                report.internal.latency_frames as int,
            ) + " correlation="@ + correlation,
            "Samples: probe_frames="@ + decimal(report.internal.output_signal_frames as nat)
                + " captured_frames="@ + decimal(report.internal.captured_frames as nat),
        ] + closing_lines(views(report.notes@), profile_text(report.restored_profile)),
        "\n"@,
    )
}

/// The report on the latency inside the router as text.
pub fn format_internal_latency_test_report(
    report: &InternalLatencyTestReport,
    latency: &str,
    correlation: &str,
) -> (r: String)
    ensures
        r@ == internal_report_text(*report, latency@, correlation@),
{
    let mut lines = list_context_lines(&report.context, "Output: ", "Path: ");
    let ghost first = views(lines@);
    let mut config = String::from_str("Config: sample_rate=");
    config.append(decimal_text(report.sample_rate as u64).as_str());
    config.append("Hz buffer_frames=");
    config.append(decimal_text(report.buffer_frames as u64).as_str());
    let mut result = String::from_str("Result: latency=");
    result.append(latency);
    result.append("ms frames=");
    result.append(signed_decimal_text(report.internal.latency_frames).as_str());
    result.append(" correlation=");
    result.append(correlation);
    let mut samples = String::from_str("Samples: probe_frames=");
    samples.append(decimal_text(report.internal.output_signal_frames as u64).as_str());
    samples.append(" captured_frames=");
    samples.append(decimal_text(report.internal.captured_frames as u64).as_str());
    let ghost middle = seq![config@, result@, samples@];
    lines.push(config);
    lines.push(result);
    lines.push(samples);
    assert(views(lines@) =~= first + middle);
    add_closing_lines(&mut lines, &report.notes, &report.restored_profile);
    join_texts(&lines, "\n")
}

/// A level in decibels as text, from the text of its number.
pub open spec fn level_text(level: Option<Real32>, number: Seq<char>) -> Seq<char> {
    match level {
        Some(_) => number + " dBFS"@,
        None => "-inf dBFS"@,
    }
}

/// A level in decibels as text, from the text of its number.
pub fn format_dbfs(level: Option<Real32>, number: &str) -> (r: String)
    ensures
        r@ == level_text(level, number@),
{
    match level {
        Some(_) => {
            let mut text = String::from_str(number);
            text.append(" dBFS");
            text
        },
        None => String::from_str("-inf dBFS"),
    }
}

/// The report on a route as text; the numbers of the two levels are given as texts.
pub open spec fn route_report_text(report: RouteTestReport, peak: Seq<char>, rms: Seq<char>) -> Seq<
    char,
> {
    joined_text(
        context_lines(report.context@, "Outputs: "@, "Paths: "@) + seq![
            "Config: sample_rate="@ + decimal(report.sample_rate as nat) + "Hz buffer_frames="@
                + decimal(report.buffer_frames as nat) + " listen="@ + decimal(
                report.listen_ms as nat,
            ) + "ms"@,
            "Result: signal_detected="@ + truth(report.capture_signal_detected) + " peak="@
                + level_text(report.peak_dbfs, peak) + " rms="@ + level_text(report.rms_dbfs, rms)
                + " captured_frames="@ + decimal(report.captured_frames as nat),
            "Connectivity: external_input_connected="@ + truth(report.external_input_connected)
                + " external_output_connected="@ + truth(report.external_output_connected),
        ] + closing_lines(views(report.notes@), profile_text(report.restored_profile)),
        "\n"@,
    )
}

/// The report on a route as text.
pub fn format_route_test_report(report: &RouteTestReport, peak: &str, rms: &str) -> (r: String)
    ensures
        r@ == route_report_text(*report, peak@, rms@),
{
    let mut lines = list_context_lines(&report.context, "Outputs: ", "Paths: ");
    let ghost first = views(lines@);
    let mut config = String::from_str("Config: sample_rate=");
    config.append(decimal_text(report.sample_rate as u64).as_str());
    config.append("Hz buffer_frames=");
    config.append(decimal_text(report.buffer_frames as u64).as_str());
    config.append(" listen=");
    config.append(decimal_text(report.listen_ms).as_str());
    config.append("ms");
    let mut result = String::from_str("Result: signal_detected=");
    result.append(truth_text(report.capture_signal_detected));
    result.append(" peak=");
    result.append(format_dbfs(report.peak_dbfs, peak).as_str());
    result.append(" rms=");
    result.append(format_dbfs(report.rms_dbfs, rms).as_str());
    result.append(" captured_frames=");
    result.append(decimal_text(report.captured_frames as u64).as_str());
    let mut connectivity = String::from_str("Connectivity: external_input_connected=");
    connectivity.append(truth_text(report.external_input_connected));
    connectivity.append(" external_output_connected=");
    connectivity.append(truth_text(report.external_output_connected));
    let ghost middle = seq![config@, result@, connectivity@];
    lines.push(config);
    lines.push(result);
    lines.push(connectivity);
    assert(views(lines@) =~= first + middle);
    add_closing_lines(&mut lines, &report.notes, &report.restored_profile);
    join_texts(&lines, "\n")
}

// ---------------------------------------------------------------------------
// Laws

/// A signal was heard where its peak is a number of at least 0.008, and low where it is below
/// 0.02.
pub proof fn law_signals_are_heard_from_a_level_on(peak: Real32)
    ensures
        peak.bits <= 0x7F80_0000 ==> (signal_heard(peak) <==> peak.bits >= 0x3C03_126F),
        peak.bits > 0x7F80_0000 && peak.bits <= 0xFF80_0000 && peak.bits != 0x8000_0000
            ==> !signal_heard(peak),
        peak.bits <= 0x7F80_0000 ==> (route_notes(peak).len() == 2 <==> peak.bits < 0x3CA3_D70A),
{
}

/// The test of a route succeeds exactly where everything did: it was observed, a signal was heard,
/// the previous profile was restored and nothing was left behind. Its report names the devices
/// that were selected, and what was connected and captured.
pub proof fn law_route_test_succeeds_where_all_did(
    phase: Result<RouteObservation, CliError>,
    restore: Result<(), CliError>,
    cleanup: Result<(), String>,
    profile_path: &str,
    selected: SelectedTestEndpoints,
    sample_rate: u32,
    buffer_frames: u32,
    previous_profile: Option<String>,
    r: Result<RouteTestReport, CliError>,
)
    requires
        call_ensures(
            finish_route_test,
            (
                phase,
                restore,
                cleanup,
                profile_path,
                selected,
                sample_rate,
                buffer_frames,
                previous_profile,
            ),
            r,
        ),
    ensures
        r is Ok <==> phase is Ok && restore is Ok && cleanup is Ok && signal_heard(
            phase->Ok_0.monitor.peak,
        ),
        r is Ok ==> {
            let report = r->Ok_0;
            let seen = phase->Ok_0;
            &&& report.microphone == selected.microphone
            &&& report.speaker == selected.speaker
            &&& report.sample_rate == sample_rate
            &&& report.buffer_frames == buffer_frames
            &&& report.external_input_connected <==> seen.connected_inputs > 0
            &&& report.external_output_connected <==> seen.connected_outputs > 0
            &&& report.capture_signal_detected
            &&& report.captured_frames == seen.monitor.captured_frames
            &&& report.restored_profile == previous_profile
        },
        phase is Err && restore is Ok && cleanup is Ok ==> r is Err && r->Err_0@ == phase->Err_0@,
{
}

/// The test of the latency succeeds exactly where it was measured, the previous profile was
/// restored and nothing was left behind, and reports what was measured.
pub proof fn law_latency_test_reports_what_was_measured(
    phase: Result<LoopbackProbeResult, CliError>,
    restore: Result<(), CliError>,
    cleanup: Result<(), String>,
    profile_path: &str,
    sample_rate: u32,
    buffer_frames: u32,
    previous_profile: Option<String>,
    r: Result<InternalLatencyTestReport, CliError>,
)
    requires
        call_ensures(
            finish_internal_test,
            (
                phase,
                restore,
                cleanup,
                profile_path,
                sample_rate,
                buffer_frames,
                previous_profile,
            ),
            r,
        ),
    ensures
        r is Ok <==> phase is Ok && restore is Ok && cleanup is Ok,
        r is Ok ==> {
            let report = r->Ok_0;
            let result = phase->Ok_0;
            &&& report.internal.latency_frames == result.latency_frames
            &&& report.internal.latency_ms == result.latency_ms
            &&& report.internal.correlation_score == result.correlation_score
            &&& report.internal.output_signal_frames == result.output_signal_frames
            &&& report.internal.captured_frames == result.captured_frames
            &&& report.sample_rate == sample_rate
            &&& report.buffer_frames == buffer_frames
            &&& report.restored_profile == previous_profile
        },
        phase is Err && restore is Ok && cleanup is Ok ==> r is Err && r->Err_0@ == phase->Err_0@,
{
}

/// After a test the profile that was applied is applied again, where it is still there; where
/// none was applied everything is cleared.
pub proof fn law_tests_bring_the_profile_back(
    previous: Option<&str>,
    exists_still: bool,
    r: Result<TestRestore, CliError>,
)
    requires
        call_ensures(restore_action, (previous, exists_still), r),
    ensures
        previous is None ==> r == Ok::<TestRestore, CliError>(TestRestore::Clear),
        previous is Some && exists_still ==> r is Ok && r->Ok_0 is Apply && r->Ok_0->profile_path@
            == previous->0@,
        previous is Some && !exists_still ==> r is Err,
{
}

/// The device of a test: the only one with the uid or the name that is asked for; where none is
/// asked for, the one that is built in, unless the other device was named, or the default.
pub proof fn law_test_devices_are_those_asked_for(
    devices: Seq<ExternalDeviceInfo>,
    builtin_uid: Seq<char>,
    selector: Option<Seq<char>>,
    anything_named: bool,
    system_default: ExternalDeviceInfo,
    label: Seq<char>,
    i: int,
)
    requires
        0 <= i < devices.len(),
    ensures
        ({
            let r = device_choice(
                devices,
                builtin_uid,
                selector,
                anything_named,
                system_default,
                label,
            );
            &&& selector is Some && r is Ok ==> r->Ok_0.uid@ == selector->0 || r->Ok_0.name@
                == selector->0
            &&& selector is Some && (devices[i].uid@ == selector->0 || devices[i].name@
                == selector->0) && (forall|j: int|
                0 <= j < devices.len() && j != i ==> (#[trigger] devices[j]).uid@ != selector->0
                    && devices[j].name@ != selector->0) ==> r == Ok::<ExternalDeviceInfo, Seq<char>>(
                devices[i],
            )
            &&& selector is Some && (forall|j: int|
                0 <= j < devices.len() ==> (#[trigger] devices[j]).uid@ != selector->0
                    && devices[j].name@ != selector->0) ==> r is Err
            &&& selector is None && anything_named ==> r == Ok::<ExternalDeviceInfo, Seq<char>>(
                system_default,
            )
            &&& selector is None && !anything_named && devices[i].uid@ == builtin_uid ==> r is Ok
                && r->Ok_0.uid@ == builtin_uid
        }),
{
    lemma_uid_place(devices, builtin_uid, 0, i);
    if selector is Some {
        let wanted = selector->0;
        let keep = |k: int| is_called(devices[k], wanted);
        let n = devices.len() as int;
        lemma_kept(keep, n);
        let found = called(devices, wanted);
        if found.len() > 0 {
            assert(keep(found[0]));
        }
        if keep(i) && (forall|j: int|
            0 <= j < devices.len() && j != i ==> (#[trigger] devices[j]).uid@ != wanted
                && devices[j].name@ != wanted) {
            assert(found.contains(i));
            let k = found.index_of(i);
            if found.len() > 1 {
                let other = if k == 0 {
                    1int
                } else {
                    0int
                };
                assert(keep(found[other]));
                assert(found[other] != i) by {
                    if other < k {
                        assert(found[other] < found[k]);
                    } else {
                        assert(found[k] < found[other]);
                    }
                }
                assert(devices[found[other]].uid@ != wanted);
            }
        }
    }
}

proof fn lemma_uid_place(devices: Seq<ExternalDeviceInfo>, uid: Seq<char>, from: int, i: int)
    requires
        0 <= from <= devices.len(),
    ensures
        uid_place(devices, uid, from) matches Some(k) ==> from <= k < devices.len()
            && devices[k].uid@ == uid,
        from <= i < devices.len() && devices[i].uid@ == uid ==> uid_place(devices, uid, from)
            is Some,
    decreases devices.len() - from,
{
    if from < devices.len() {
        lemma_uid_place(devices, uid, from + 1, i);
    }
}

/// The profile of the test of the latency leads from its virtual output straight to its virtual
/// input; that of the test of a route leads from the microphone to the virtual input and from
/// the virtual output to the speaker, and asks for both devices by their uids.
pub proof fn law_test_profiles_lead_where_the_test_goes(
    sample_rate: u32,
    buffer_frames: u32,
    microphone: ExternalDeviceInfo,
    microphone_channels: u16,
    speaker: ExternalDeviceInfo,
    speaker_channels: u16,
    a: Profile,
    b: Profile,
)
    requires
        call_ensures(build_internal_test_profile, (sample_rate, buffer_frames), a),
        call_ensures(
            build_route_test_profile,
            (
                sample_rate,
                buffer_frames,
                &microphone,
                microphone_channels,
                &speaker,
                speaker_channels,
            ),
            b,
        ),
    ensures
        a.pipes@.len() == 1,
        a.pipes@[0].enabled && !a.pipes@[0].mute && a.pipes@[0].gain_db.bits == 0
            && a.pipes@[0].pan.bits == 0 && a.pipes@[0].delay_ms.bits == 0,
        a.pipes@[0].from@ == a.virtual_devices.outputs@[0].id@,
        a.pipes@[0].to@ == a.virtual_devices.inputs@[0].id@,
        a.audio.sample_rate == AutoOrU32::Value(sample_rate),
        a.audio.buffer_frames == buffer_frames,
        a.virtual_devices.outputs@[0].channels == Some(2u16),
        a.virtual_devices.inputs@[0].channels == Some(2u16),
        b.pipes@.len() == 2,
        b.pipes@[0].enabled && b.pipes@[1].enabled && !b.pipes@[0].mute && !b.pipes@[1].mute,
        b.pipes@[0].from@ == b.virtual_devices.outputs@[0].id@,
        b.pipes@[0].to@ == b.external.outputs@[0].id@,
        b.pipes@[1].from@ == b.external.inputs@[0].id@,
        b.pipes@[1].to@ == b.virtual_devices.inputs@[0].id@,
        b.external.inputs@[0].criteria.uid is Some,
        b.external.inputs@[0].criteria.uid->0@ == microphone.uid@,
        b.external.outputs@[0].criteria.uid is Some,
        b.external.outputs@[0].criteria.uid->0@ == speaker.uid@,
        b.external.inputs@[0].channels == Some(microphone_channels),
        b.external.outputs@[0].channels == Some(speaker_channels),
        b.audio.sample_rate == AutoOrU32::Value(sample_rate),
        b.audio.buffer_frames == buffer_frames,
{
}

} // verus!
