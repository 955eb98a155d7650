//! Probes through rings, step by step: what is played goes into the ring of a virtual output
//! as far as there is room, and what comes out of the ring of a virtual input is captured.

use vstd::prelude::*;

use crate::probe::captured_with;
use crate::probe::least_of;
use crate::probe::width;
use crate::probe::writable_frames;
use crate::probe::RingProbe;

verus! {

/// The steps of a probe through rings.
#[derive(Debug, Clone, Copy, PartialEq, Eq, Structural)]
pub enum RingStep {
    /// Look whether it is too late.
    CheckTime,
    /// Look how far the ring of the output was read.
    Inspect,
    /// Write so many frames of what is played, from where it stands.
    Write { frames: usize },
    /// Read up to so many samples.
    Read { samples: usize },
    /// Wait a moment.
    Pause,
    /// Read what is left, up to so many samples.
    ReadRest { samples: usize },
    Finish,
}

/// What a step came to.
#[derive(Debug)]
pub enum RingEvent {
    Time { late: bool },
    Inspected { write_idx: u64, read_idx: u64, capacity_frames: u32 },
    Written { written: usize },
    Received { scratch: Vec<u32>, frames: usize },
    Paused,
}

/// A probe under way.
#[derive(Debug)]
pub struct RingRun {
    pub probe: RingProbe,
    pub step: RingStep,
    /// Whether anything was written or read since the last look at the time.
    pub progress: bool,
}

/// Whether everything was played and captured.
pub open spec fn complete(probe: RingProbe) -> bool {
    probe.output_cursor >= probe.output@.len() && !hungry(probe)
}

/// Whether there is something to capture still.
pub open spec fn hungry(probe: RingProbe) -> bool {
    probe.captured@.len() < probe.max_capture_samples
}

/// How many samples the next read may bring.
pub open spec fn next_read(probe: RingProbe) -> usize {
    let frames = (probe.max_capture_samples - probe.captured@.len()) / width(probe.vin_channels);
    ((if frames > 1 {
        frames
    } else {
        1
    }) * width(probe.vin_channels)) as usize
}

/// How many frames are written next where there is room.
pub open spec fn next_write(probe: RingProbe, room: int) -> usize {
    least_of(
        least_of(
            room,
            (probe.output@.len() - probe.output_cursor) / (probe.output_channels as int),
        ),
        probe.chunk_frames as int,
    ) as usize
}

/// The step when no more is written: what is left is read, if anything is wanted.
pub open spec fn rest_step(probe: RingProbe) -> RingStep {
    if hungry(probe) {
        RingStep::ReadRest { samples: next_read(probe) }
    } else {
        RingStep::Finish
    }
}

/// The step once something was read, or nothing was wanted.
pub open spec fn step_after_reading(probe: RingProbe, progress: bool) -> RingStep {
    if complete(probe) {
        rest_step(probe)
    } else if progress {
        RingStep::CheckTime
    } else {
        RingStep::Pause
    }
}

/// The step once something was written, or could not be.
pub open spec fn step_after_writing(probe: RingProbe, progress: bool) -> RingStep {
    if hungry(probe) {
        RingStep::Read { samples: next_read(probe) }
    } else {
        step_after_reading(probe, progress)
    }
}

/// Whether an event can come of a step.
pub open spec fn event_fits(probe: RingProbe, step: RingStep, event: RingEvent) -> bool {
    match (step, event) {
        (RingStep::CheckTime, RingEvent::Time { .. }) => true,
        (RingStep::Inspect, RingEvent::Inspected { .. }) => true,
        (RingStep::Write { frames }, RingEvent::Written { written }) => written <= frames,
        (
            RingStep::Read { .. } | RingStep::ReadRest { .. },
            RingEvent::Received { scratch, frames },
        ) => frames * width(probe.vin_channels) <= scratch@.len(),
        (RingStep::Pause, RingEvent::Paused) => true,
        _ => false,
    }
}

/// Whether a probe differs from another only in what was captured, and how.
pub open spec fn took_in(
    before: RingProbe,
    after: RingProbe,
    scratch: Seq<u32>,
    frames: usize,
) -> bool {
    &&& after.captured@ == captured_with(
        before.captured@,
        scratch.take(frames * width(before.vin_channels)),
        before.max_capture_samples as int,
    )
    &&& after.output == before.output
    &&& after.output_cursor == before.output_cursor
    &&& after.output_channels == before.output_channels
    &&& after.chunk_frames == before.chunk_frames
    &&& after.vin_channels == before.vin_channels
    &&& after.max_capture_samples == before.max_capture_samples
}

/// Whether a run follows another after an event.
pub open spec fn follows(before: RingRun, after: RingRun, event: RingEvent) -> bool {
    match event {
        RingEvent::Time { late } => {
            &&& after.probe == before.probe
            &&& !after.progress
            &&& after.step == if late {
                rest_step(before.probe)
            } else if before.probe.output_cursor < before.probe.output@.len() {
                RingStep::Inspect
            } else {
                step_after_writing(before.probe, false)
            }
        },
        RingEvent::Inspected { write_idx, read_idx, capacity_frames } => {
            let room = writable_frames(write_idx, read_idx, capacity_frames);
            &&& after.probe == before.probe
            &&& after.progress == before.progress
            &&& after.step == if room > 0 {
                RingStep::Write { frames: next_write(before.probe, room) }
            } else {
                step_after_writing(before.probe, before.progress)
            }
        },
        RingEvent::Written { written } => {
            &&& after.probe == (RingProbe {
                output_cursor: (before.probe.output_cursor + written
                    * before.probe.output_channels) as usize,
                ..before.probe
            })
            &&& after.progress == (before.progress || written > 0)
            &&& after.step == step_after_writing(after.probe, after.progress)
        },
        RingEvent::Received { scratch, frames } => {
            &&& took_in(before.probe, after.probe, scratch@, frames)
            &&& after.progress == (before.progress || after.probe.captured@.len()
                > before.probe.captured@.len())
            &&& after.step == if before.step is ReadRest {
                RingStep::Finish
            } else {
                step_after_reading(after.probe, after.progress)
            }
        },
        RingEvent::Paused => {
            &&& after.probe == before.probe
            &&& after.progress == before.progress
            &&& after.step == RingStep::CheckTime
        },
    }
}

proof fn lemma_whole_frames(samples: int, channels: int, frames: int)
    requires
        channels > 0,
        frames <= samples / channels,
    ensures
        frames * channels <= samples,
{
    assert(frames * channels <= samples) by (nonlinear_arith)
        requires
            channels > 0,
            frames <= samples / channels,
    ;
}

/// The next read, where something is wanted.
fn read_step(probe: &RingProbe, rest: bool) -> (r: Option<RingStep>)
    requires
        probe.wf(),
        probe.max_capture_samples + width(probe.vin_channels) <= usize::MAX,
    ensures
        r is Some <==> hungry(*probe),
        r matches Some(step) ==> step == if rest {
            RingStep::ReadRest { samples: next_read(*probe) }
        } else {
            RingStep::Read { samples: next_read(*probe) }
        },
{
    match probe.read_length() {
        None => None,
        Some(samples) => if rest {
            Some(RingStep::ReadRest { samples })
        } else {
            Some(RingStep::Read { samples })
        },
    }
}

fn plan_rest(probe: &RingProbe) -> (r: RingStep)
    requires
        probe.wf(),
        probe.max_capture_samples + width(probe.vin_channels) <= usize::MAX,
    ensures
        r == rest_step(*probe),
{
    match read_step(probe, true) {
        Some(step) => step,
        None => RingStep::Finish,
    }
}

fn plan_after_reading(probe: &RingProbe, progress: bool) -> (r: RingStep)
    requires
        probe.wf(),
        probe.max_capture_samples + width(probe.vin_channels) <= usize::MAX,
    ensures
        r == step_after_reading(*probe, progress),
{
    if probe.is_complete() {
        plan_rest(probe)
    } else if progress {
        RingStep::CheckTime
    } else {
        RingStep::Pause
    }
}

fn plan_after_writing(probe: &RingProbe, progress: bool) -> (r: RingStep)
    requires
        probe.wf(),
        probe.max_capture_samples + width(probe.vin_channels) <= usize::MAX,
    ensures
        r == step_after_writing(*probe, progress),
{
    match read_step(probe, false) {
        Some(step) => step,
        None => plan_after_reading(probe, progress),
    }
}

impl RingRun {
    /// There is something to write where the ring is looked at for that, and the frames that
    /// are to be written are there.
    pub open spec fn wf(self) -> bool {
        &&& self.probe.wf()
        &&& self.step is Inspect ==> self.probe.output_cursor < self.probe.output@.len()
        &&& self.probe.max_capture_samples + width(self.probe.vin_channels) <= usize::MAX
        &&& self.step matches RingStep::Write { frames } ==> self.probe.output_cursor + frames
            * self.probe.output_channels <= self.probe.output@.len()
    }

    /// A probe that begins.
    pub fn begin(probe: RingProbe) -> (r: RingRun)
        requires
            probe.wf(),
            probe.max_capture_samples + width(probe.vin_channels) <= usize::MAX,
        ensures
            r.wf(),
            r.probe == probe,
            r.step == RingStep::CheckTime,
            !r.progress,
    {
        RingRun { probe, step: RingStep::CheckTime, progress: false }
    }

    /// Goes on after what a step came to.
    pub fn advance(&mut self, event: RingEvent)
        requires
            old(self).wf(),
            event_fits(old(self).probe, old(self).step, event),
        ensures
            final(self).wf(),
            follows(*old(self), *final(self), event),
    {
        match event {
            RingEvent::Time { late } => {
                self.progress = false;
                self.step = if late {
                    plan_rest(&self.probe)
                } else if self.probe.output_cursor < self.probe.output.len() {
                    RingStep::Inspect
                } else {
                    plan_after_writing(&self.probe, false)
                };
            },
            RingEvent::Inspected { write_idx, read_idx, capacity_frames } => {
                self.step =
                match self.probe.frames_to_write(write_idx, read_idx, capacity_frames) {
                    Some(frames) => {
                        proof {
                            lemma_whole_frames(
                                (self.probe.output@.len() - self.probe.output_cursor) as int,
                                self.probe.output_channels as int,
                                frames as int,
                            );
                        }
                        RingStep::Write { frames }
                    },
                    None => plan_after_writing(&self.probe, self.progress),
                };
            },
            RingEvent::Written { written } => {
                proof {
                    let frames = self.step->frames;
                    assert(written * self.probe.output_channels <= frames
                        * self.probe.output_channels) by (nonlinear_arith)
                        requires
                            written <= frames,
                    ;
                }
                let wrote = self.probe.note_written(written);
                self.progress = self.progress || wrote;
                self.step = plan_after_writing(&self.probe, self.progress);
            },
            RingEvent::Received { scratch, frames } => {
                let rest = matches!(self.step, RingStep::ReadRest { .. });
                let took = self.probe.accept_read(&scratch, frames);
                self.progress = self.progress || took;
                self.step = if rest {
                    RingStep::Finish
                } else {
                    plan_after_reading(&self.probe, self.progress)
                };
            },
            RingEvent::Paused => {
                self.step = RingStep::CheckTime;
            },
        }
    }
}

/// A probe that is not late goes on until everything was played and captured.
pub proof fn law_probe_is_played_to_the_end(before: RingRun, after: RingRun, event: RingEvent)
    requires
        event_fits(before.probe, before.step, event),
        follows(before, after, event),
        !(before.step is ReadRest),
        event matches RingEvent::Time { late } ==> !late,
        after.step is ReadRest || after.step is Finish,
    ensures
        complete(after.probe),
        after.step == RingStep::Finish,
{
}

/// No more is captured than was planned.
pub proof fn law_capture_is_bounded(before: RingRun, after: RingRun, event: RingEvent)
    requires
        event_fits(before.probe, before.step, event),
        follows(before, after, event),
        before.probe.captured@.len() <= before.probe.max_capture_samples,
    ensures
        after.probe.captured@.len() <= after.probe.max_capture_samples,
        before.probe.captured@.is_prefix_of(after.probe.captured@),
{
    if let RingEvent::Received { scratch, frames } = event {
        assert(frames * width(before.probe.vin_channels) >= 0) by (nonlinear_arith)
            requires
                frames >= 0,
                width(before.probe.vin_channels) >= 1,
        ;
    }
}

/// What a probe writes at once has room in the ring and is no more than is left or a chunk; what
/// it reads is no more than it still wants, but for a last frame.
pub proof fn law_probes_write_what_fits(
    before: RingRun,
    after: RingRun,
    write_idx: u64,
    read_idx: u64,
    capacity_frames: u32,
)
    requires
        before.wf(),
        before.probe.output_channels > 0,
        before.probe.output_cursor < before.probe.output@.len(),
        follows(
            before,
            after,
            (RingEvent::Inspected { write_idx, read_idx, capacity_frames }),
        ),
        read_idx <= write_idx,
        write_idx - read_idx < capacity_frames,
    ensures
        after.step is Write,
        after.step->frames <= capacity_frames - (write_idx - read_idx),
        after.step->frames <= before.probe.chunk_frames,
        after.step->frames * before.probe.output_channels <= before.probe.output@.len()
            - before.probe.output_cursor,
        after.step->frames == capacity_frames - (write_idx - read_idx) || after.step->frames
            == before.probe.chunk_frames || (after.step->frames + 1)
            * before.probe.output_channels > before.probe.output@.len()
            - before.probe.output_cursor,
{
    let left = before.probe.output@.len() - before.probe.output_cursor;
    let channels = before.probe.output_channels as int;
    let whole = left / channels;
    assert(whole * channels <= left && (whole + 1) * channels > left && whole >= 0)
        by (nonlinear_arith)
        requires
            channels > 0,
            left >= 0,
            whole == left / channels,
    ;
    let room = capacity_frames - (write_idx - read_idx);
    let frames = after.step->frames as int;
    assert(frames <= whole);
    assert(frames * channels <= whole * channels) by (nonlinear_arith)
        requires
            0 <= frames <= whole,
            channels > 0,
    ;
}

/// A probe ends only once it is too late, or everything was played and captured; being too late,
/// it reads once more what it still wants, and being on time it goes on.
pub proof fn law_probes_end_late_or_complete(before: RingRun, after: RingRun, late: bool)
    requires
        before.wf(),
        follows(before, after, (RingEvent::Time { late })),
    ensures
        late && before.probe.captured@.len() < before.probe.max_capture_samples ==> after.step
            is ReadRest,
        late && before.probe.captured@.len() >= before.probe.max_capture_samples ==> after.step
            is Finish,
        !late && before.probe.output_cursor < before.probe.output@.len() ==> after.step is Inspect,
        !late && before.probe.output_cursor >= before.probe.output@.len()
            && before.probe.captured@.len() < before.probe.max_capture_samples ==> after.step
            is Read,
        !late && after.step is Finish ==> before.probe.output_cursor >= before.probe.output@.len()
            && before.probe.captured@.len() >= before.probe.max_capture_samples,
        !after.progress,
{
}

/// What was written is not written again, and what was read is captured behind what was captured
/// before.
pub proof fn law_probes_go_on_where_they_stood(
    before: RingRun,
    after: RingRun,
    written: usize,
    scratch: Vec<u32>,
    frames: usize,
    last: RingRun,
)
    requires
        before.wf(),
        before.probe.output_cursor + written * before.probe.output_channels <= usize::MAX,
        follows(before, after, (RingEvent::Written { written })),
        follows(before, last, (RingEvent::Received { scratch, frames })),
        before.probe.captured@.len() + frames * width(before.probe.vin_channels)
            <= before.probe.max_capture_samples,
        frames * width(before.probe.vin_channels) <= scratch@.len(),
    ensures
        after.probe.output_cursor == before.probe.output_cursor + written
            * before.probe.output_channels,
        after.probe.captured == before.probe.captured,
        written > 0 ==> after.progress,
        last.probe.captured@ == before.probe.captured@ + scratch@.take(
            frames * width(before.probe.vin_channels),
        ),
        last.probe.output_cursor == before.probe.output_cursor,
        before.step is ReadRest ==> last.step is Finish,
{
    let n = frames * width(before.probe.vin_channels);
    assert(n >= 0) by (nonlinear_arith)
        requires
            n == frames * width(before.probe.vin_channels),
            width(before.probe.vin_channels) >= 1,
            frames >= 0,
    ;
    let new = scratch@.take(n);
    assert(new.take(n) =~= new);
    assert(written * before.probe.output_channels >= 0) by (nonlinear_arith)
        requires
            written >= 0,
            before.probe.output_channels >= 0,
    ;
}

} // verus!
