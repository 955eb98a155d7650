//! Loopback probes: a known signal is played, captured again and looked for.
//!
//! The signal and its correlation with what was captured are computed by the program that
//! plays it; here stands what is played when, what is captured, and what the outcome means.
//! Samples are held by their bit patterns.

use crate::number::{Real32, Real64};
use crate::streams::CoreAudioError;
use vstd::prelude::*;
use vstd::string::*;

verus! {

/// A probe from an output device to an input device.
#[derive(Debug, Clone, PartialEq, Eq)]
pub struct LoopbackProbeRequest {
    pub output_uid: String,
    pub input_uid: String,
    pub sample_rate: u32,
    pub output_channels: u16,
    pub input_channels: u16,
    pub timeout_ms: u64,
}

/// A probe from a virtual output to the ring of a virtual input.
#[derive(Debug, Clone, PartialEq, Eq)]
pub struct VinRingLoopbackProbeRequest {
    pub output_uid: String,
    pub vin_uid: String,
    pub sample_rate: u32,
    pub output_channels: u16,
    pub vin_channels: u16,
    pub buffer_frames: u32,
    pub timeout_ms: u64,
}

/// Listening to the ring of a virtual input.
#[derive(Debug, Clone, PartialEq, Eq)]
pub struct VinRingMonitorRequest {
    pub vin_uid: String,
    pub sample_rate: u32,
    pub vin_channels: u16,
    pub buffer_frames: u32,
    pub timeout_ms: u64,
}

/// What a probe found out.
#[derive(Debug, Clone, Copy)]
pub struct LoopbackProbeResult {
    pub latency_frames: i64,
    pub latency_ms: Real64,
    pub correlation_score: Real32,
    pub output_signal_frames: usize,
    pub captured_frames: usize,
}

/// What listening found out.
#[derive(Debug, Clone, Copy)]
pub struct VinRingMonitorResult {
    pub captured_frames: usize,
    pub peak: Real32,
    pub rms: Real32,
}

/// The pattern of 0.2, the least correlation of a probe between devices.
pub const MIN_DEVICE_CORRELATION_BITS: u32 = 0x3E4C_CCCD;

/// The pattern of 0.1, the least correlation of a probe through a ring.
pub const MIN_RING_CORRELATION_BITS: u32 = 0x3DCC_CCCD;

/// The frames in front of the signal of a probe through a ring.
pub const RING_PRE_ROLL_FRAMES: usize = 0;

/// The fewest frames of a probe signal.
pub const MIN_PROBE_FRAMES: usize = 512;

/// The error is that of a probe, with a reason.
pub open spec fn is_probe_error(e: CoreAudioError, text: Seq<char>) -> bool {
    e matches CoreAudioError::Probe { reason } && reason@ == text
}

fn probe_error(text: &str) -> (r: CoreAudioError)
    ensures
        is_probe_error(r, text@),
{
    CoreAudioError::Probe { reason: String::from_str(text) }
}

/// Checks a request for a probe between devices.
pub fn check_loopback_request(request: &LoopbackProbeRequest) -> (r: Result<(), CoreAudioError>)
    ensures
        match r {
            Ok(()) => request.sample_rate > 0 && request.output_channels > 0
                && request.input_channels > 0,
            Err(e) => if request.sample_rate == 0 {
                is_probe_error(e, "sample_rate must be > 0"@)
            } else {
                (request.output_channels == 0 || request.input_channels == 0) && is_probe_error(
                    e,
                    "input/output channels must be > 0"@,
                )
            },
        },
{
    if request.sample_rate == 0 {
        return Err(probe_error("sample_rate must be > 0"));
    }
    if request.output_channels == 0 || request.input_channels == 0 {
        return Err(probe_error("input/output channels must be > 0"));
    }
    Ok(())
}

/// Checks a request for a probe through a ring.
pub fn check_ring_request(request: &VinRingLoopbackProbeRequest) -> (r: Result<(), CoreAudioError>)
    ensures
        match r {
            Ok(()) => request.sample_rate > 0 && request.output_channels > 0
                && request.vin_channels > 0 && request.buffer_frames > 0,
            Err(e) => if request.sample_rate == 0 || request.output_channels == 0
                || request.vin_channels == 0 {
                is_probe_error(e, "sample_rate and channel counts must be > 0"@)
            } else {
                request.buffer_frames == 0 && is_probe_error(e, "buffer_frames must be > 0"@)
            },
        },
{
    if request.sample_rate == 0 || request.output_channels == 0 || request.vin_channels == 0 {
        return Err(probe_error("sample_rate and channel counts must be > 0"));
    }
    if request.buffer_frames == 0 {
        return Err(probe_error("buffer_frames must be > 0"));
    }
    Ok(())
}

/// Checks a request to listen to a ring.
pub fn check_monitor_request(request: &VinRingMonitorRequest) -> (r: Result<(), CoreAudioError>)
    ensures
        match r {
            Ok(()) => request.sample_rate > 0 && request.vin_channels > 0 && request.buffer_frames
                > 0,
            Err(e) => if request.sample_rate == 0 || request.vin_channels == 0 {
                is_probe_error(e, "sample_rate and vin_channels must be > 0"@)
            } else {
                request.buffer_frames == 0 && is_probe_error(e, "buffer_frames must be > 0"@)
            },
        },
{
    if request.sample_rate == 0 || request.vin_channels == 0 {
        return Err(probe_error("sample_rate and vin_channels must be > 0"));
    }
    if request.buffer_frames == 0 {
        return Err(probe_error("buffer_frames must be > 0"));
    }
    Ok(())
}

// ---------------------------------------------------------------------------
// The signal

/// Silence of a length.
pub open spec fn zeros(n: nat) -> Seq<u32> {
    Seq::new(n, |i: int| 0u32)
}

/// The probe between silences.
pub open spec fn timeline(probe: Seq<u32>, pre_roll: nat, post_roll: nat) -> Seq<u32> {
    zeros(pre_roll) + probe + zeros(post_roll)
}

/// The probe between silences.
pub fn build_output_timeline(
    probe: &Vec<u32>,
    pre_roll_frames: usize,
    post_roll_frames: usize,
) -> (r: Vec<u32>)
    requires
        pre_roll_frames + probe@.len() + post_roll_frames <= usize::MAX,
    ensures
        r@ == timeline(probe@, pre_roll_frames as nat, post_roll_frames as nat),
{
    let mut out: Vec<u32> = Vec::new();
    out.resize(pre_roll_frames, 0);
    assert(out@ =~= zeros(pre_roll_frames as nat));
    let mut i: usize = 0;
    while i < probe.len()
        invariant
            i <= probe.len(),
            out@ =~= zeros(pre_roll_frames as nat) + probe@.take(i as int),
        decreases probe.len() - i,
    {
        out.push(probe[i]);
        i = i + 1;
    }
    let len = out.len();
    let ghost before = out@;
    out.resize(len + post_roll_frames, 0);
    assert(before =~= zeros(pre_roll_frames as nat) + probe@);
    assert(out@ =~= before + zeros(post_roll_frames as nat));
    assert(out@ =~= timeline(probe@, pre_roll_frames as nat, post_roll_frames as nat));
    out
}

/// A signal on every channel.
pub open spec fn interleaved(signal: Seq<u32>, channels: int) -> Seq<u32> {
    let n = if channels > 1 {
        channels
    } else {
        1
    };
    Seq::new((signal.len() * n) as nat, |i: int| signal[i / n])
}

/// A signal on every channel.
pub fn interleave_mono_signal(signal: &Vec<u32>, channels: usize) -> (r: Vec<u32>)
    ensures
        r@ == interleaved(signal@, channels as int),
{
    let n = if channels > 1 {
        channels
    } else {
        1
    };
    let ghost width = n as int;
    let mut out: Vec<u32> = Vec::new();
    let mut i: usize = 0;
    while i < signal.len()
        invariant
            i <= signal.len(),
            n >= 1,
            width == n,
            out@ =~= Seq::new((i * width) as nat, |k: int| signal@[k / width]),
        decreases signal.len() - i,
    {
        let mut c: usize = 0;
        while c < n
            invariant
                i < signal.len(),
                c <= n,
                n >= 1,
                width == n,
                out@ =~= Seq::new((i * width + c) as nat, |k: int| signal@[k / width]),
            decreases n - c,
        {
            proof {
                vstd::arithmetic::div_mod::lemma_fundamental_div_mod_converse(
                    i * width + c,
                    width,
                    i as int,
                    c as int,
                );
                assert(i * width >= 0) by (nonlinear_arith)
                    requires
                        width >= 0,
                        i >= 0,
                ;
            }
            out.push(signal[i]);
            c = c + 1;
        }
        assert((i + 1) * width == i * width + width) by (nonlinear_arith);
        i = i + 1;
    }
    out
}

/// How much is captured of a probe.
#[derive(Debug, Clone, Copy, PartialEq, Eq, Structural)]
pub struct CapturePlan {
    pub output_signal_frames: usize,
    pub target_capture_frames: usize,
    pub max_capture_samples: usize,
}

/// How much is captured: what is played and half a second more, on every channel.
pub fn plan_capture(output_signal_frames: usize, sample_rate: u32, channels: u16) -> (r: CapturePlan)
    requires
        (output_signal_frames + sample_rate as int / 2) * channels <= usize::MAX,
        output_signal_frames + sample_rate as int / 2 <= usize::MAX,
    ensures
        r.output_signal_frames == output_signal_frames,
        r.target_capture_frames == output_signal_frames + sample_rate as int / 2,
        r.max_capture_samples == r.target_capture_frames * channels,
{
    let target_capture_frames = output_signal_frames + (sample_rate / 2) as usize;
    let max_capture_samples = target_capture_frames * (channels as usize);
    CapturePlan { output_signal_frames, target_capture_frames, max_capture_samples }
}

/// The seconds that are listened for, at least one.
pub open spec fn listened_seconds(timeout_ms: u64) -> int {
    if timeout_ms >= 2000 {
        timeout_ms as int / 1000
    } else {
        1
    }
}

/// How much is captured of listening at most: twice what the time allows for.
pub fn monitor_capture_samples(sample_rate: u32, timeout_ms: u64, vin_channels: u16) -> (r: usize)
    requires
        sample_rate > 0,
        sample_rate * listened_seconds(timeout_ms) * vin_channels * 2 <= usize::MAX,
        sample_rate * listened_seconds(timeout_ms) <= usize::MAX,
    ensures
        r == sample_rate * listened_seconds(timeout_ms) * vin_channels * 2,
{
    let seconds: u64 = if timeout_ms >= 2000 {
        timeout_ms / 1000
    } else {
        1
    };
    let ghost samples = sample_rate * listened_seconds(timeout_ms);
    proof {
        assert(samples >= 0) by (nonlinear_arith)
            requires
                samples == sample_rate * listened_seconds(timeout_ms),
                sample_rate >= 0,
                listened_seconds(timeout_ms) >= 1,
        ;
        assert(samples * vin_channels >= 0) by (nonlinear_arith)
            requires
                samples >= 0,
        ;
        assert(seconds <= samples) by (nonlinear_arith)
            requires
                samples == sample_rate * seconds,
                sample_rate >= 1,
                seconds >= 0,
        ;
    }
    (sample_rate as usize) * (seconds as usize) * (vin_channels as usize) * 2
}

// ---------------------------------------------------------------------------
// Playing and capturing

/// What was captured with more added, up to a limit.
pub open spec fn captured_with(captured: Seq<u32>, samples: Seq<u32>, limit: int) -> Seq<u32> {
    let room = if limit > captured.len() {
        limit - captured.len()
    } else {
        0
    };
    captured + samples.take(if room < samples.len() {
        room
    } else {
        samples.len() as int
    })
}

/// Adds to what was captured, up to a limit.
pub fn append_captured(captured: &mut Vec<u32>, samples: &Vec<u32>, max_capture_samples: usize)
    ensures
        final(captured)@ == captured_with(old(captured)@, samples@, max_capture_samples as int),
{
    let ghost before = captured@;
    let room = if max_capture_samples > captured.len() {
        max_capture_samples - captured.len()
    } else {
        0
    };
    let limit = if room < samples.len() {
        room
    } else {
        samples.len()
    };
    let mut i: usize = 0;
    while i < limit
        invariant
            i <= limit <= samples.len(),
            captured@ =~= before + samples@.take(i as int),
        decreases limit - i,
    {
        captured.push(samples[i]);
        i = i + 1;
    }
}

/// A signal while it is played.
#[derive(Debug)]
pub struct ProbePlayback {
    pub samples: Vec<u32>,
    pub cursor: usize,
    pub finished: bool,
}

/// How many samples of the signal the next buffer takes.
pub open spec fn play_length(samples: int, cursor: int, room: int) -> int {
    let left = if samples > cursor {
        samples - cursor
    } else {
        0
    };
    if left < room {
        left
    } else {
        room
    }
}

impl ProbePlayback {
    /// A signal of which nothing was played.
    pub fn new(samples: Vec<u32>) -> (r: ProbePlayback)
        ensures
            r.samples == samples,
            r.cursor == 0,
            !r.finished,
    {
        ProbePlayback { samples, cursor: 0, finished: false }
    }

    /// Fills a buffer with the next part of the signal, and with silence behind its end.
    pub fn fill(&mut self, out: &mut Vec<u32>)
        ensures
            ({
                let n = play_length(
                    old(self).samples@.len() as int,
                    old(self).cursor as int,
                    old(out)@.len() as int,
                );
                &&& final(out)@ == Seq::new(
                    old(out)@.len(),
                    |i: int|
                        if i < n {
                            old(self).samples@[old(self).cursor + i]
                        } else {
                            0u32
                        },
                )
                &&& final(self).cursor == old(self).cursor + n
                &&& final(self).samples == old(self).samples
                &&& final(self).finished == (old(self).finished || n < old(out)@.len() || old(
                    self,
                ).cursor + n >= old(self).samples@.len())
            }),
    {
        let ghost before = *self;
        let ghost len = out@.len();
        let left = if self.samples.len() > self.cursor {
            self.samples.len() - self.cursor
        } else {
            0
        };
        let n = if left < out.len() {
            left
        } else {
            out.len()
        };
        let total = self.samples.len();
        let mut i: usize = 0;
        while i < out.len()
            invariant
                i <= out.len(),
                out@.len() == len,
                *self == before,
                total == before.samples@.len(),
                n == play_length(before.samples@.len() as int, before.cursor as int, len as int),
                forall|k: int|
                    0 <= k < i ==> out@[k] == if k < n {
                        before.samples@[before.cursor + k]
                    } else {
                        0u32
                    },
            decreases out.len() - i,
        {
            if i < n {
                let sample = self.samples[self.cursor + i];
                out.set(i, sample);
            } else {
                out.set(i, 0);
            }
            i = i + 1;
        }
        assert(out@ =~= Seq::new(
            len,
            |i: int|
                if i < n {
                    before.samples@[before.cursor + i]
                } else {
                    0u32
                },
        ));
        self.cursor = self.cursor + n;
        if n < out.len() || self.cursor >= self.samples.len() {
            self.finished = true;
        }
    }
}

/// What to do about a probe that runs.
#[derive(Debug)]
pub enum ProbePoll {
    Wait,
    Done,
    Failed(CoreAudioError),
}

/// What to do about a probe that runs: an error of a stream ends it, then it is done once
/// everything was played and captured, then it may be too late.
pub fn poll_probe(
    stream_error: Option<String>,
    finished: bool,
    captured_samples: usize,
    max_capture_samples: usize,
    deadline_passed: bool,
    timeout_ms: u64,
) -> (r: ProbePoll)
    ensures
        match stream_error {
            Some(text) => r matches ProbePoll::Failed(e) && is_probe_error(e, text@),
            None => if finished && captured_samples >= max_capture_samples {
                r is Done
            } else if deadline_passed {
                r matches ProbePoll::Failed(e) && e == (CoreAudioError::ProbeTimeout { timeout_ms })
            } else {
                r is Wait
            },
        },
{
    match stream_error {
        Some(reason) => ProbePoll::Failed(CoreAudioError::Probe { reason }),
        None => if finished && captured_samples >= max_capture_samples {
            ProbePoll::Done
        } else if deadline_passed {
            ProbePoll::Failed(CoreAudioError::ProbeTimeout { timeout_ms })
        } else {
            ProbePoll::Wait
        },
    }
}

/// The latency in frames, from where the signal was found; a correlation that is too low
/// finds nothing.
pub fn conclude_probe(peak_index: usize, score: Real32, least: Real32, pre_roll_frames: usize) -> (r:
    Result<i64, CoreAudioError>)
    requires
        peak_index <= i64::MAX,
        pre_roll_frames <= i64::MAX,
    ensures
        match r {
            Ok(latency) => !score.below(least) && latency == peak_index - pre_roll_frames,
            Err(e) => score.below(least) && e == (CoreAudioError::ProbeCorrelationLow { score }),
        },
{
    if score.is_below(&least) {
        return Err(CoreAudioError::ProbeCorrelationLow { score });
    }
    Ok(peak_index as i64 - pre_roll_frames as i64)
}

/// The latency in frames between devices, whose probe begins with a pause.
pub fn conclude_device_probe(peak_index: usize, score: Real32, pre_roll_frames: usize) -> (r: Result<
    i64,
    CoreAudioError,
>)
    requires
        peak_index <= i64::MAX,
        pre_roll_frames <= i64::MAX,
    ensures
        match r {
            Ok(latency) => !score.below(Real32 { bits: MIN_DEVICE_CORRELATION_BITS }) && latency
                == peak_index - pre_roll_frames,
            Err(e) => score.below(Real32 { bits: MIN_DEVICE_CORRELATION_BITS }) && e == (
            CoreAudioError::ProbeCorrelationLow { score }),
        },
{
    conclude_probe(
        peak_index,
        score,
        Real32::from_bits(MIN_DEVICE_CORRELATION_BITS),
        pre_roll_frames,
    )
}

/// The latency in frames through a ring, whose probe begins at once.
pub fn conclude_ring_probe(peak_index: usize, score: Real32) -> (r: Result<i64, CoreAudioError>)
    requires
        peak_index <= i64::MAX,
    ensures
        match r {
            Ok(latency) => !score.below(Real32 { bits: MIN_RING_CORRELATION_BITS }) && latency
                == peak_index,
            Err(e) => score.below(Real32 { bits: MIN_RING_CORRELATION_BITS }) && e == (
            CoreAudioError::ProbeCorrelationLow { score }),
        },
{
    conclude_probe(
        peak_index,
        score,
        Real32::from_bits(MIN_RING_CORRELATION_BITS),
        RING_PRE_ROLL_FRAMES,
    )
}

// ---------------------------------------------------------------------------
// Probing through rings

/// How many samples a list of channels has at least.
pub open spec fn width(channels: usize) -> int {
    if channels > 1 {
        channels as int
    } else {
        1
    }
}

/// The state of a probe through rings.
#[derive(Debug)]
pub struct RingProbe {
    /// What is played, on all channels.
    pub output: Vec<u32>,
    pub output_channels: usize,
    pub output_cursor: usize,
    /// The most frames that are written at once.
    pub chunk_frames: usize,
    pub vin_channels: usize,
    pub captured: Vec<u32>,
    pub max_capture_samples: usize,
}

/// The room in a ring, in frames.
pub open spec fn writable_frames(write_idx: u64, read_idx: u64, capacity: u32) -> int {
    let used = if write_idx > read_idx {
        write_idx - read_idx
    } else {
        0
    };
    if capacity as int > used {
        capacity - used
    } else {
        0
    }
}

/// The smaller of two.
pub open spec fn least_of(a: int, b: int) -> int {
    if a < b {
        a
    } else {
        b
    }
}

impl RingProbe {
    /// The output is made of frames, and the cursor stands at a frame within it.
    pub open spec fn wf(self) -> bool {
        &&& self.output_channels > 0
        &&& self.output_cursor <= self.output@.len()
    }

    /// How many frames to write next, given the indices of the ring: nothing where all was
    /// written or there is no room.
    pub fn frames_to_write(&self, write_idx: u64, read_idx: u64, capacity_frames: u32) -> (r: Option<
        usize,
    >)
        requires
            self.wf(),
        ensures
            match r {
                None => self.output_cursor >= self.output@.len() || writable_frames(
                    write_idx,
                    read_idx,
                    capacity_frames,
                ) == 0,
                Some(frames) => {
                    &&& self.output_cursor < self.output@.len()
                    &&& writable_frames(write_idx, read_idx, capacity_frames) > 0
                    &&& frames == least_of(
                        least_of(
                            writable_frames(write_idx, read_idx, capacity_frames),
                            (self.output@.len() - self.output_cursor) / (
                            self.output_channels as int),
                        ),
                        self.chunk_frames as int,
                    )
                },
            },
    {
        if self.output_cursor >= self.output.len() {
            return None;
        }
        let used: u64 = write_idx.saturating_sub(read_idx);
        if used >= capacity_frames as u64 {
            return None;
        }
        let writable: usize = (capacity_frames as u64 - used) as usize;
        let left = (self.output.len() - self.output_cursor) / self.output_channels;
        let mut frames = if writable < left {
            writable
        } else {
            left
        };
        if self.chunk_frames < frames {
            frames = self.chunk_frames;
        }
        Some(frames)
    }

    /// Notes how many frames were written; says whether that was any.
    pub fn note_written(&mut self, frames: usize) -> (r: bool)
        requires
            old(self).wf(),
            old(self).output_cursor + frames * old(self).output_channels <= old(
                self,
            ).output@.len(),
        ensures
            final(self).wf(),
            final(self).output_cursor == old(self).output_cursor + frames
                * old(self).output_channels,
            final(self).output == old(self).output,
            final(self).captured == old(self).captured,
            final(self).output_channels == old(self).output_channels,
            final(self).chunk_frames == old(self).chunk_frames,
            final(self).vin_channels == old(self).vin_channels,
            final(self).max_capture_samples == old(self).max_capture_samples,
            r == (frames > 0),
    {
        proof {
            let total = self.output.len();
            assert(frames * self.output_channels >= 0) by (nonlinear_arith)
                requires
                    frames >= 0,
                    self.output_channels >= 0,
            ;
        }
        let step = frames * self.output_channels;
        self.output_cursor = self.output_cursor + step;
        frames > 0
    }

    /// How many samples the next read may bring; nothing where all was captured.
    pub fn read_length(&self) -> (r: Option<usize>)
        requires
            self.wf(),
            self.max_capture_samples + width(self.vin_channels) <= usize::MAX,
        ensures
            match r {
                None => self.captured@.len() >= self.max_capture_samples,
                Some(n) => {
                    let left = self.max_capture_samples - self.captured@.len();
                    let frames = left / width(self.vin_channels);
                    &&& left > 0
                    &&& n == (if frames > 1 {
                        frames
                    } else {
                        1
                    }) * width(self.vin_channels)
                },
            },
    {
        if self.captured.len() >= self.max_capture_samples {
            return None;
        }
        let left = self.max_capture_samples - self.captured.len();
        let channels = if self.vin_channels > 1 {
            self.vin_channels
        } else {
            1
        };
        let frames = left / channels;
        let frames = if frames > 1 {
            frames
        } else {
            1
        };
        proof {
            assert(frames * channels <= left + channels) by (nonlinear_arith)
                requires
                    channels >= 1,
                    left >= 0,
                    frames == (left as int) / (channels as int) || frames == 1,
            ;
        }
        Some(frames * channels)
    }

    /// Takes in what a read brought; says whether that was anything.
    pub fn accept_read(&mut self, scratch: &Vec<u32>, read_frames: usize) -> (r: bool)
        requires
            old(self).wf(),
            read_frames * width(old(self).vin_channels) <= scratch@.len(),
        ensures
            final(self).wf(),
            final(self).captured@ == captured_with(
                old(self).captured@,
                scratch@.take(read_frames * width(old(self).vin_channels)),
                old(self).max_capture_samples as int,
            ),
            final(self).output == old(self).output,
            final(self).output_cursor == old(self).output_cursor,
            final(self).output_channels == old(self).output_channels,
            final(self).chunk_frames == old(self).chunk_frames,
            final(self).vin_channels == old(self).vin_channels,
            final(self).max_capture_samples == old(self).max_capture_samples,
            r == (final(self).captured@.len() > old(self).captured@.len()),
    {
        let channels = if self.vin_channels > 1 {
            self.vin_channels
        } else {
            1
        };
        proof {
            assert(read_frames * channels >= 0) by (nonlinear_arith)
                requires
                    read_frames >= 0,
                    channels >= 0,
            ;
            let bound = scratch.len();
        }
        let count = read_frames * channels;
        let before = self.captured.len();
        let mut samples: Vec<u32> = Vec::new();
        let mut i: usize = 0;
        while i < count
            invariant
                i <= count <= scratch.len(),
                samples@ =~= scratch@.take(i as int),
            decreases count - i,
        {
            samples.push(scratch[i]);
            i = i + 1;
        }
        append_captured(&mut self.captured, &samples, self.max_capture_samples);
        self.captured.len() > before
    }

    /// Whether everything was written and captured.
    pub fn is_complete(&self) -> (r: bool)
        ensures
            r == (self.output_cursor >= self.output@.len() && self.captured@.len()
                >= self.max_capture_samples),
    {
        self.output_cursor >= self.output.len() && self.captured.len() >= self.max_capture_samples
    }

    /// In the end at least as much as the probe has to have been captured.
    pub fn check_captured(&self, probe_frames: usize, timeout_ms: u64) -> (r: Result<
        (),
        CoreAudioError,
    >)
        ensures
            match r {
                Ok(()) => self.captured@.len() >= probe_frames * self.vin_channels,
                Err(e) => self.captured@.len() < probe_frames * self.vin_channels && e == (
                CoreAudioError::ProbeTimeout { timeout_ms }),
            },
    {
        match probe_frames.checked_mul(self.vin_channels) {
            Some(needed) => if self.captured.len() < needed {
                Err(CoreAudioError::ProbeTimeout { timeout_ms })
            } else {
                Ok(())
            },
            None => {
                assert(self.captured.len() < probe_frames * self.vin_channels);
                Err(CoreAudioError::ProbeTimeout { timeout_ms })
            },
        }
    }
}

/// Every channel of the played signal carries the probe behind the leading silence.
pub proof fn law_probe_is_played_on_every_channel(
    probe: Seq<u32>,
    pre_roll: nat,
    post_roll: nat,
    channels: int,
    k: int,
    c: int,
)
    requires
        channels >= 1,
        0 <= k < probe.len(),
        0 <= c < channels,
    ensures
        interleaved(timeline(probe, pre_roll, post_roll), channels)[(pre_roll + k) * channels + c]
            == probe[k],
{
    let line = timeline(probe, pre_roll, post_roll);
    let i = (pre_roll + k) * channels + c;
    vstd::arithmetic::div_mod::lemma_fundamental_div_mod_converse(i, channels, pre_roll + k, c);
    assert(0 <= i < line.len() * channels) by (nonlinear_arith)
        requires
            0 <= pre_roll + k,
            pre_roll + k + 1 <= line.len(),
            0 <= c < channels,
            i == (pre_roll + k) * channels + c,
    ;
    assert(line[pre_roll + k] == probe[k]);
}

/// A probe between devices finds its latency where the correlation is at least a fifth, as the
/// place of the signal less the pause in front of it; a probe through a ring where it is at
/// least a tenth, as the place itself.
pub proof fn law_latency_is_where_the_signal_is(
    peak_index: usize,
    score: Real32,
    pre_roll_frames: usize,
    devices: Result<i64, CoreAudioError>,
    ring: Result<i64, CoreAudioError>,
)
    requires
        peak_index <= i64::MAX,
        pre_roll_frames <= i64::MAX,
        call_ensures(conclude_device_probe, (peak_index, score, pre_roll_frames), devices),
        call_ensures(conclude_ring_probe, (peak_index, score), ring),
        score.bits < 0x7F80_0000,
    ensures
        score.bits >= 0x3E4C_CCCD ==> devices == Ok::<i64, CoreAudioError>(
            (peak_index - pre_roll_frames) as i64,
        ),
        score.bits < 0x3E4C_CCCD ==> devices is Err,
        score.bits >= 0x3DCC_CCCD ==> ring == Ok::<i64, CoreAudioError>(peak_index as i64),
        score.bits < 0x3DCC_CCCD ==> ring is Err,
{
}

/// What is captured is kept in order up to a limit, and what comes behind the limit is left out.
pub proof fn law_captures_keep_what_came_first(
    captured: Seq<u32>,
    samples: Seq<u32>,
    limit: int,
    i: int,
)
    requires
        captured.len() <= limit,
    ensures
        captured_with(captured, samples, limit).len() == if captured.len() + samples.len() < limit {
            (captured.len() + samples.len()) as int
        } else {
            limit
        },
        0 <= i < captured.len() ==> captured_with(captured, samples, limit)[i] == captured[i],
        captured.len() <= i < captured_with(captured, samples, limit).len() ==> captured_with(
            captured,
            samples,
            limit,
        )[i] == samples[i - captured.len()],
{
}

/// What a probe plays: the pause in front, the signal, and the pause behind it.
pub proof fn law_probes_play_a_signal_between_pauses(
    probe: Seq<u32>,
    pre_roll: nat,
    post_roll: nat,
    i: int,
)
    requires
        0 <= i < pre_roll + probe.len() + post_roll,
    ensures
        timeline(probe, pre_roll, post_roll).len() == pre_roll + probe.len() + post_roll,
        i < pre_roll ==> timeline(probe, pre_roll, post_roll)[i] == 0,
        pre_roll <= i < pre_roll + probe.len() ==> timeline(probe, pre_roll, post_roll)[i]
            == probe[i - pre_roll],
        pre_roll + probe.len() <= i ==> timeline(probe, pre_roll, post_roll)[i] == 0,
{
}

/// A capture goes on for half a second behind what is played, on all of its channels.
pub proof fn law_captures_outlast_what_is_played(
    frames: usize,
    sample_rate: u32,
    channels: u16,
    r: CapturePlan,
)
    requires
        (frames + sample_rate as int / 2) * channels <= usize::MAX,
        frames + sample_rate as int / 2 <= usize::MAX,
        call_ensures(plan_capture, (frames, sample_rate, channels), r),
    ensures
        r.output_signal_frames == frames,
        r.target_capture_frames == frames + sample_rate as int / 2,
        r.max_capture_samples == (frames + sample_rate as int / 2) * channels,
{
}

/// A probe is asked again until something decides: an error of a stream, everything played and
/// captured, or the deadline.
pub proof fn law_probes_end_when_something_decides(
    stream_error: Option<String>,
    finished: bool,
    captured: usize,
    wanted: usize,
    late: bool,
    timeout_ms: u64,
    r: ProbePoll,
)
    requires
        call_ensures(
            poll_probe,
            (stream_error, finished, captured, wanted, late, timeout_ms),
            r,
        ),
    ensures
        r is Done <==> stream_error is None && finished && captured >= wanted,
        r is Wait <==> stream_error is None && !late && (!finished || captured < wanted),
        r is Failed <==> stream_error is Some || (late && (!finished || captured < wanted)),
{
}

/// A request for a probe is taken exactly where it has a rate, channels and, through a ring, a
/// buffer.
pub proof fn law_requests_need_rates_and_channels(
    a: LoopbackProbeRequest,
    b: VinRingLoopbackProbeRequest,
    c: VinRingMonitorRequest,
    x: Result<(), CoreAudioError>,
    y: Result<(), CoreAudioError>,
    z: Result<(), CoreAudioError>,
)
    requires
        call_ensures(check_loopback_request, (&a,), x),
        call_ensures(check_ring_request, (&b,), y),
        call_ensures(check_monitor_request, (&c,), z),
    ensures
        x is Ok <==> a.sample_rate > 0 && a.output_channels > 0 && a.input_channels > 0,
        y is Ok <==> b.sample_rate > 0 && b.output_channels > 0 && b.vin_channels > 0
            && b.buffer_frames > 0,
        z is Ok <==> c.sample_rate > 0 && c.vin_channels > 0 && c.buffer_frames > 0,
{
}

/// A ring can be written as far as it is free: its capacity less what was written and not read.
pub proof fn law_rings_are_written_as_far_as_they_are_free(
    write_idx: u64,
    read_idx: u64,
    capacity: u32,
)
    requires
        read_idx <= write_idx <= read_idx + capacity,
    ensures
        writable_frames(write_idx, read_idx, capacity) == capacity - (write_idx - read_idx),
{
}

} // verus!
