//! Delays: rings that hand out what came in a while ago.
//!
//! Samples are held by their bit patterns; a delay moves them and never computes with them.

use crate::render_loop::{capped_product, saturating_product};
use vstd::prelude::*;

verus! {

/// What comes out of a delay that holds `pending`, oldest first, when `samples` come in.
pub open spec fn delayed(pending: Seq<u32>, samples: Seq<u32>) -> Seq<u32> {
    (pending + samples).take(samples.len() as int)
}

/// What a delay then holds.
pub open spec fn held(pending: Seq<u32>, samples: Seq<u32>) -> Seq<u32> {
    (pending + samples).skip(samples.len() as int)
}

/// A delay of a number of samples.
#[derive(Debug, Clone)]
pub struct DelayLine {
    pub data: Vec<u32>,
    pub write_idx: usize,
    pub delay_frames: usize,
}

impl DelayLine {
    /// The place to write to lies in the ring, and only a line without delay has no ring.
    pub open spec fn wf(self) -> bool {
        &&& self.data@.len() == 0 || self.write_idx < self.data@.len()
        &&& self.delay_frames == 0 ==> self.data@.len() == 0
    }

    /// What is held, oldest first.
    pub open spec fn pending(self) -> Seq<u32> {
        if self.data@.len() == 0 {
            Seq::empty()
        } else {
            self.data@.skip(self.write_idx as int) + self.data@.take(self.write_idx as int)
        }
    }

    /// A line that holds silence.
    pub fn new(delay_frames: usize, channels: usize) -> (r: DelayLine)
        ensures
            r.wf(),
            r.delay_frames == delay_frames,
            r.pending() == Seq::new(
                capped_product(delay_frames as int, channels as int) as nat,
                |i: int| 0u32,
            ),
    {
        let len = saturating_product(delay_frames, channels);
        let mut data: Vec<u32> = Vec::new();
        data.resize(len, 0);
        proof {
            assert(delay_frames == 0 ==> delay_frames * channels == 0) by (nonlinear_arith);
        }
        let r = DelayLine { data, write_idx: 0, delay_frames };
        assert(r.pending() =~= Seq::new(len as nat, |i: int| 0u32));
        r
    }

    /// Takes samples in and hands out, in their places, what was held longest.
    pub fn process_in_place(&mut self, samples: &mut Vec<u32>)
        requires
            old(self).wf(),
        ensures
            final(self).wf(),
            final(self).delay_frames == old(self).delay_frames,
            final(samples)@ == delayed(old(self).pending(), old(samples)@),
            final(self).pending() == held(old(self).pending(), old(samples)@),
    {
        let ghost pending = self.pending();
        let ghost input = samples@;
        if self.delay_frames == 0 || self.data.len() == 0 {
            assert(samples@ =~= delayed(pending, input));
            assert(self.pending() =~= held(pending, input));
            return ;
        }
        let ghost all = pending + input;
        let len = self.data.len();
        let mut i: usize = 0;
        assert(self.pending() =~= all.subrange(0, len as int));
        while i < samples.len()
            invariant
                i <= samples.len(),
                len > 0,
                self.data@.len() == len,
                pending.len() == len,
                self.write_idx < len,
                self.delay_frames == old(self).delay_frames,
                self.delay_frames > 0,
                samples@.len() == input.len(),
                all == pending + input,
                self.pending() == all.subrange(i as int, i + len),
                forall|k: int| 0 <= k < i ==> samples@[k] == all[k],
                forall|k: int| i <= k < samples@.len() ==> samples@[k] == input[k],
            decreases samples.len() - i,
        {
            let ghost before = self.data@;
            let w = self.write_idx;
            let held_sample = self.data[w];
            let input_sample = samples[i];
            self.data.set(w, input_sample);
            samples.set(i, held_sample);
            let next = if w + 1 == len {
                0
            } else {
                w + 1
            };
            self.write_idx = next;
            proof {
                let old_pending = before.skip(w as int) + before.take(w as int);
                assert(old_pending[0] == held_sample);
                assert(old_pending == all.subrange(i as int, i + len));
                assert(held_sample == all[i as int]);
                assert(input_sample == input[i as int]);
                assert(input_sample == all[i + len]);
                assert(self.pending() =~= old_pending.skip(1).push(input_sample));
                assert(all.subrange(i + 1, i + 1 + len) =~= all.subrange(i as int, i + len).skip(
                    1,
                ).push(all[i + len]));
            }
            i = i + 1;
        }
        assert(samples@ =~= delayed(pending, input));
        assert(self.pending() =~= held(pending, input));
    }
}

/// What leaves a delay is what entered it, in order: after any two buffers the output
/// joined together is the first held samples followed by the input.
pub proof fn law_delay_keeps_order(pending: Seq<u32>, a: Seq<u32>, b: Seq<u32>)
    ensures
        delayed(pending, a) + delayed(held(pending, a), b) == delayed(pending, a + b),
        held(held(pending, a), b) == held(pending, a + b),
        held(pending, a).len() == pending.len(),
{
    assert(pending + (a + b) =~= (pending + a) + b);
    assert(delayed(pending, a) + delayed(held(pending, a), b) =~= delayed(pending, a + b));
    assert(held(held(pending, a), b) =~= held(pending, a + b));
}

/// A fresh delay of `n` samples hands out `n` zeros first, then the input from its start.
pub proof fn law_fresh_delay_starts_silent(n: nat, input: Seq<u32>, i: int)
    requires
        0 <= i < input.len(),
    ensures
        delayed(Seq::new(n, |k: int| 0u32), input)[i] == if i < n {
            0u32
        } else {
            input[i - n]
        },
{
}

// ---------------------------------------------------------------------------
// Delays of frames

/// The frame at a place of a list of samples.
pub open spec fn frame_at(samples: Seq<u32>, channels: int, frame: int) -> Seq<u32> {
    samples.subrange(frame * channels, frame * channels + channels)
}

/// The whole frames of a list of samples.
pub open spec fn frames_of(samples: Seq<u32>, channels: int) -> Seq<Seq<u32>> {
    Seq::new((samples.len() / (channels as nat)) as nat, |f: int| frame_at(samples, channels, f))
}

/// A processor that shifts audio in time.
#[derive(Debug, Clone)]
pub struct TimeShiftState {
    pub ring: Vec<u32>,
    pub ring_frames: usize,
    pub write_frame: usize,
    pub delay_frames: usize,
    pub channels: usize,
}

proof fn lemma_frame_bounds(ring_frames: int, channels: int, frame: int)
    requires
        0 <= frame < ring_frames,
        channels >= 0,
    ensures
        0 <= frame * channels,
        frame * channels + channels <= ring_frames * channels,
{
    assert(0 <= frame * channels) by (nonlinear_arith)
        requires
            frame >= 0,
            channels >= 0,
    ;
    assert(frame * channels + channels <= ring_frames * channels) by (nonlinear_arith)
        requires
            frame + 1 <= ring_frames,
            channels >= 0,
    ;
}

proof fn lemma_frames_apart(channels: int, a: int, b: int)
    requires
        channels >= 0,
        0 <= a,
        0 <= b,
        a != b,
    ensures
        a * channels + channels <= b * channels || b * channels + channels <= a * channels,
{
    if a < b {
        assert(a * channels + channels <= b * channels) by (nonlinear_arith)
            requires
                a + 1 <= b,
                channels >= 0,
        ;
    } else {
        assert(b * channels + channels <= a * channels) by (nonlinear_arith)
            requires
                b + 1 <= a,
                channels >= 0,
        ;
    }
}

/// The place in a ring `back` frames behind `write`.
pub open spec fn ring_place(write: int, ring_frames: int, back: int) -> int {
    if write >= back {
        write - back
    } else {
        write + ring_frames - back
    }
}

/// Whether a processor was just made ready to shift: by the delay, but no further than the
/// largest one, and it holds silence.
pub open spec fn made_ready_shift(
    shift: TimeShiftState,
    channels: usize,
    delay_frames: usize,
    max_delay_frames: usize,
) -> bool {
    let most = if max_delay_frames > 1 {
        max_delay_frames as int
    } else {
        1
    };
    &&& shift.channels == if channels > 1 {
        channels as int
    } else {
        1
    }
    &&& shift.delay_frames == if delay_frames < most {
        delay_frames as int
    } else {
        most
    }
    &&& shift.write_frame == 0
    &&& forall|i: int| 0 <= i < shift.ring@.len() ==> #[trigger] shift.ring@[i] == 0
}

/// Whether a processor shifts samples in time: what it holds comes out first, and the frames
/// that come in take its place. Without a delay, or for other channels, it does nothing, and a
/// part of a frame at the end stays as it is.
pub open spec fn shifted(
    before: TimeShiftState,
    after: TimeShiftState,
    channels: usize,
    input: Seq<u32>,
    output: Seq<u32>,
) -> bool {
    &&& after.delay_frames == before.delay_frames
    &&& after.channels == before.channels
    &&& output.len() == input.len()
    &&& if before.delay_frames == 0 || before.channels != channels {
        after == before && output == input
    } else {
        let frames = frames_of(input, channels as int);
        let n = frames.len() as int;
        &&& frames_of(output, channels as int) == (before.pending() + frames).take(n)
        &&& after.pending() == (before.pending() + frames).skip(n)
        &&& forall|k: int| n * channels <= k < input.len() ==> #[trigger] output[k] == input[k]
    }
}

impl TimeShiftState {
    /// Nothing is prepared.
    pub open spec fn is_unprepared(self) -> bool {
        self.ring@.len() == 0 && self.ring_frames == 0 && self.write_frame == 0
            && self.delay_frames == 0 && self.channels == 0
    }

    /// The ring holds more frames than the delay, and the place to write to lies in it.
    pub open spec fn wf(self) -> bool {
        self.is_unprepared() || {
            &&& self.channels > 0
            &&& self.ring@.len() == self.ring_frames * self.channels
            &&& self.write_frame < self.ring_frames
            &&& self.delay_frames < self.ring_frames
        }
    }

    /// The frames that are held, oldest first.
    pub open spec fn pending(self) -> Seq<Seq<u32>> {
        Seq::new(
            self.delay_frames as nat,
            |j: int|
                frame_at(
                    self.ring@,
                    self.channels as int,
                    ring_place(
                        self.write_frame as int,
                        self.ring_frames as int,
                        self.delay_frames - j,
                    ),
                ),
        )
    }

    /// Nothing prepared.
    pub fn unprepared() -> (r: TimeShiftState)
        ensures
            r.wf(),
            r.is_unprepared(),
    {
        TimeShiftState {
            ring: Vec::new(),
            ring_frames: 0,
            write_frame: 0,
            delay_frames: 0,
            channels: 0,
        }
    }

    /// Prepares a delay, at most the largest one, on a number of channels. The ring holds
    /// silence.
    pub fn prepare(channels: usize, delay_frames: usize, max_delay_frames: usize) -> (r:
        TimeShiftState)
        requires
            (max_delay_frames + 2) * (channels + 1) <= usize::MAX,
        ensures
            r.wf(),
            made_ready_shift(r, channels, delay_frames, max_delay_frames),
    {
        let width = if channels > 1 {
            channels
        } else {
            1
        };
        let most = if max_delay_frames > 1 {
            max_delay_frames
        } else {
            1
        };
        proof {
            assert(most + 1 <= usize::MAX && (most + 1) * width <= usize::MAX) by (nonlinear_arith)
                requires
                    (max_delay_frames + 2) * (channels + 1) <= usize::MAX,
                    most == max_delay_frames || most == 1,
                    most >= 1,
                    max_delay_frames >= 0,
                    channels >= 0,
                    width == channels || width == 1,
                    width >= 1,
                    width <= channels + 1,
                    most + 1 <= max_delay_frames + 2,
            ;
        }
        let ring_frames = most + 1;
        let len = ring_frames * width;
        let mut ring: Vec<u32> = Vec::new();
        ring.resize(len, 0);
        let delay = if delay_frames < most {
            delay_frames
        } else {
            most
        };
        TimeShiftState { ring, ring_frames, write_frame: 0, delay_frames: delay, channels: width }
    }

    fn process_frame(&mut self, samples: &mut Vec<u32>, frame: usize)
        requires
            old(self).wf(),
            old(self).delay_frames > 0,
            frame * old(self).channels + old(self).channels <= old(samples)@.len(),
        ensures
            final(self).wf(),
            final(self).delay_frames == old(self).delay_frames,
            final(self).channels == old(self).channels,
            final(self).ring_frames == old(self).ring_frames,
            final(samples)@.len() == old(samples)@.len(),
            frame_at(final(samples)@, old(self).channels as int, frame as int)
                == old(self).pending()[0],
            forall|k: int|
                0 <= k < old(samples)@.len() && (k < frame * old(self).channels || k >= frame * old(
                    self,
                ).channels + old(self).channels) ==> final(samples)@[k] == old(samples)@[k],
            final(self).pending() == old(self).pending().skip(1).push(
                frame_at(old(samples)@, old(self).channels as int, frame as int),
            ),
    {
        let ghost start = *self;
        let ghost input = samples@;
        let channels = self.channels;
        let write = self.write_frame;
        let ring_len = self.ring.len();
        let samples_len = samples.len();
        let read = if write >= self.delay_frames {
            write - self.delay_frames
        } else {
            write + (self.ring_frames - self.delay_frames)
        };
        proof {
            lemma_frame_bounds(start.ring_frames as int, channels as int, read as int);
            lemma_frame_bounds(start.ring_frames as int, channels as int, write as int);
            lemma_frames_apart(channels as int, read as int, write as int);
            assert(frame * channels >= 0) by (nonlinear_arith)
                requires
                    frame >= 0,
                    channels >= 0,
            ;
        }
        let read_base = read * channels;
        let write_base = write * channels;
        let base = frame * channels;
        let mut c: usize = 0;
        while c < channels
            invariant
                c <= channels,
                start.wf(),
                start.delay_frames > 0,
                channels == start.channels,
                self.channels == start.channels,
                self.ring_frames == start.ring_frames,
                self.write_frame == start.write_frame,
                self.delay_frames == start.delay_frames,
                self.ring@.len() == start.ring@.len(),
                samples@.len() == input.len(),
                samples_len == input.len(),
                ring_len == start.ring@.len(),
                read_base + channels <= start.ring@.len(),
                write_base + channels <= start.ring@.len(),
                base + channels <= input.len(),
                read_base + channels <= write_base || write_base + channels <= read_base,
                forall|k: int|
                    0 <= k < self.ring@.len() ==> self.ring@[k] == if write_base <= k < write_base
                        + c {
                        input[base + (k - write_base)]
                    } else {
                        start.ring@[k]
                    },
                forall|k: int|
                    0 <= k < input.len() ==> samples@[k] == if base <= k < base + c {
                        start.ring@[read_base + (k - base)]
                    } else {
                        input[k]
                    },
            decreases channels - c,
        {
            let sample = samples[base + c];
            let held_sample = self.ring[read_base + c];
            self.ring.set(write_base + c, sample);
            samples.set(base + c, held_sample);
            c = c + 1;
        }
        self.write_frame = if write + 1 == self.ring_frames {
            0
        } else {
            write + 1
        };
        proof {
            let n = start.ring_frames as int;
            let d = start.delay_frames as int;
            let w = channels as int;
            assert(frame_at(samples@, w, frame as int) =~= start.pending()[0]);
            let wanted = start.pending().skip(1).push(frame_at(input, w, frame as int));
            assert forall|j: int| 0 <= j < d implies #[trigger] self.pending()[j] == wanted[j] by {
                let place = ring_place(self.write_frame as int, n, d - j);
                lemma_frame_bounds(n, w, place);
                if j < d - 1 {
                    assert(place == ring_place(write as int, n, d - (j + 1)));
                    lemma_frames_apart(w, place, write as int);
                    assert(self.pending()[j] =~= start.pending()[j + 1]);
                } else {
                    assert(place == write);
                    assert(self.pending()[j] =~= frame_at(input, w, frame as int));
                }
            }
            assert(self.pending() =~= wanted);
        }
    }

    /// Takes whole frames in and hands out, in their places, those held longest; samples
    /// behind the last whole frame stay as they are. Without delay, or with another number
    /// of channels than prepared, nothing happens.
    pub fn process(&mut self, samples: &mut Vec<u32>, channels: usize)
        requires
            old(self).wf(),
        ensures
            final(self).wf(),
            shifted(*old(self), *final(self), channels, old(samples)@, final(samples)@),
    {
        if self.delay_frames == 0 || self.channels != channels {
            return ;
        }
        let ghost start = *self;
        let ghost input = samples@;
        let frames = samples.len() / channels;
        let ghost w = channels as int;
        let ghost all = start.pending() + frames_of(input, w);
        let ghost d = start.delay_frames as int;
        proof {
            assert(frames * channels <= input.len()) by (nonlinear_arith)
                requires
                    frames == (input.len() as int) / (channels as int),
                    channels > 0,
            ;
            assert(start.pending() =~= all.subrange(0, d));
        }
        let mut f: usize = 0;
        while f < frames
            invariant
                f <= frames,
                w == channels,
                channels > 0,
                frames == input.len() as int / w,
                frames * channels <= input.len(),
                self.wf(),
                self.delay_frames == d,
                self.channels == channels,
                d > 0,
                start.delay_frames == d,
                samples@.len() == input.len(),
                all == start.pending() + frames_of(input, w),
                self.pending() == all.subrange(f as int, f + d),
                forall|k: int| 0 <= k < f ==> #[trigger] frame_at(samples@, w, k) == all[k],
                forall|k: int| f * w <= k < input.len() ==> samples@[k] == input[k],
            decreases frames - f,
        {
            let ghost before = samples@;
            proof {
                lemma_frame_bounds(frames as int, w, f as int);
                assert((f + 1) * w == f * w + w) by (nonlinear_arith);
            }
            self.process_frame(samples, f);
            proof {
                assert(frame_at(before, w, f as int) =~= frame_at(input, w, f as int));
                assert(all[f + d] == frames_of(input, w)[f as int]);
                assert(all.subrange(f as int, f + d)[0] == all[f as int]);
                assert(self.pending() =~= all.subrange(f + 1, f + 1 + d));
                assert forall|k: int| 0 <= k < f + 1 implies #[trigger] frame_at(samples@, w, k)
                    == all[k] by {
                    if k < f {
                        lemma_frame_bounds(frames as int, w, k);
                        lemma_frames_apart(w, k, f as int);
                        assert(k * w + w <= f * w) by (nonlinear_arith)
                            requires
                                k + 1 <= f,
                                w >= 0,
                        ;
                        assert(frame_at(samples@, w, k) =~= frame_at(before, w, k));
                    }
                }
            }
            f = f + 1;
        }
        assert(frames_of(samples@, w) =~= all.take(frames as int));
        assert(self.pending() =~= all.skip(frames as int));
    }
}

/// What comes out of a delay stands in a queue: first what it held, then what came in; what is
/// left is held, as much as before.
pub proof fn law_delay_is_a_queue(pending: Seq<u32>, samples: Seq<u32>, i: int)
    ensures
        delayed(pending, samples).len() == samples.len(),
        held(pending, samples).len() == pending.len(),
        0 <= i < samples.len() ==> delayed(pending, samples)[i] == if i < pending.len() {
            pending[i]
        } else {
            samples[i - pending.len()]
        },
        0 <= i < pending.len() ==> held(pending, samples)[i] == if i + samples.len()
            < pending.len() {
            pending[i + samples.len()]
        } else {
            samples[i + samples.len() - pending.len()]
        },
{
}

/// A time shift hands out, frame by frame, first the frames that it holds and then those that
/// came in, each with all of its channels. It shifts only audio of its number of channels, and
/// a shift by nothing changes nothing.
pub proof fn law_time_shift_moves_whole_frames(
    before: TimeShiftState,
    after: TimeShiftState,
    channels: usize,
    input: Seq<u32>,
    output: Seq<u32>,
    frame: int,
    channel: int,
)
    requires
        before.wf(),
        shifted(before, after, channels, input, output),
        0 <= channel < channels,
        0 <= frame,
        frame * channels + channels <= input.len(),
    ensures
        output.len() == input.len(),
        before.delay_frames == 0 || before.channels != channels ==> output == input && after
            == before,
        before.delay_frames > 0 && before.channels == channels ==> {
            let held = before.pending().len();
            &&& held == before.delay_frames
            &&& output[frame * channels + channel] == if frame < held {
                before.pending()[frame][channel]
            } else {
                input[(frame - held) * channels + channel]
            }
        },
{
    if before.delay_frames > 0 && before.channels == channels {
        let n = channels as int;
        let frames = frames_of(input, n);
        let held = before.pending().len() as int;
        assert(frame < input.len() as int / n && frame * n >= 0) by (nonlinear_arith)
            requires
                0 <= frame,
                n > 0,
                frame * n + n <= input.len(),
        ;
        assert(frames_of(output, n)[frame] == frame_at(output, n, frame));
        assert(frame_at(output, n, frame)[channel] == output[frame * n + channel]);
        if frame >= held {
            assert((frame - held) * n + n <= input.len() && (frame - held) * n >= 0)
                by (nonlinear_arith)
                requires
                    0 <= held <= frame,
                    n > 0,
                    frame * n + n <= input.len(),
            ;
            assert(frames[frame - held] == frame_at(input, n, frame - held));
            assert(frame_at(input, n, frame - held)[channel] == input[(frame - held) * n
                + channel]);
        }
    }
}

/// A delay hands out what it held longest and holds back what came in last.
pub proof fn law_delay_line(line: &mut DelayLine, samples: &mut Vec<u32>, i: int)
    requires
        old(line).wf(),
        call_ensures(DelayLine::process_in_place, (line, samples), ()),
        0 <= i < old(samples)@.len(),
    ensures
        final(samples)@.len() == old(samples)@.len(),
        i < old(line).pending().len() ==> final(samples)@[i] == old(line).pending()[i],
        i >= old(line).pending().len() ==> final(samples)@[i] == old(samples)@[i - old(
            line,
        ).pending().len()],
        final(line).pending().len() == old(line).pending().len(),
        final(line).pending() == (old(line).pending() + old(samples)@).skip(
            old(samples)@.len() as int,
        ),
{
    law_delay_is_a_queue(old(line).pending(), old(samples)@, i);
}

/// A delay that was just made holds as many silent samples as its frames have.
pub proof fn law_new_delay_line(delay_frames: usize, channels: usize, r: DelayLine, i: int)
    requires
        call_ensures(DelayLine::new, (delay_frames, channels), r),
        delay_frames * channels <= usize::MAX,
    ensures
        r.wf(),
        r.pending().len() == delay_frames * channels,
        0 <= i < r.pending().len() ==> r.pending()[i] == 0,
{
    assert(delay_frames * channels >= 0) by (nonlinear_arith);
}

} // verus!
