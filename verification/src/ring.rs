//! Rings of frames: what is written comes out again in order, as far as there is room.

use crate::render_loop::RingSpec;
use crate::text::{decimal, decimal_text};
use std::collections::VecDeque;
use vstd::prelude::*;
use vstd::string::*;

verus! {

/// A ring of interleaved samples, by their bit patterns, and how many frames went in and came
/// out.
#[derive(Debug)]
pub struct Ring {
    pub spec: RingSpec,
    pub samples: VecDeque<u32>,
    pub write_idx: u64,
    pub read_idx: u64,
}

/// How many samples a frame of a ring has.
pub open spec fn frame_width(spec: RingSpec) -> int {
    if spec.channels > 1 {
        spec.channels as int
    } else {
        1
    }
}

/// A count of frames that begins again behind its largest value.
pub open spec fn frames_counted(count: u64, frames: int) -> u64 {
    ((count + frames) % 0x1_0000_0000_0000_0000) as u64
}

/// The smaller of two.
pub open spec fn fewer(a: int, b: int) -> int {
    if a < b {
        a
    } else {
        b
    }
}

impl Ring {
    /// A ring holds whole frames, and no more than it has room for.
    pub open spec fn wf(self) -> bool {
        &&& self.samples@.len() % (frame_width(self.spec) as nat) == 0
        &&& self.held_frames() <= self.spec.capacity_frames
    }

    /// How many frames a ring holds.
    pub open spec fn held_frames(self) -> int {
        self.samples@.len() as int / frame_width(self.spec)
    }

    /// How many frames of a buffer are written: as many as there is room for.
    pub open spec fn frames_taken(self, samples: nat) -> int {
        fewer(
            samples as int / frame_width(self.spec),
            self.spec.capacity_frames - self.held_frames(),
        )
    }

    /// How many frames a buffer receives: as many as there are.
    pub open spec fn frames_given(self, samples: nat) -> int {
        fewer(samples as int / frame_width(self.spec), self.held_frames())
    }

    /// An empty ring.
    pub fn new(spec: RingSpec) -> (r: Ring)
        ensures
            r.wf(),
            r.spec == spec,
            r.samples@ == Seq::<u32>::empty(),
            r.write_idx == 0,
            r.read_idx == 0,
    {
        let ring = Ring { spec, samples: VecDeque::new(), write_idx: 0, read_idx: 0 };
        assert(ring.samples@ =~= Seq::<u32>::empty());
        proof {
            lemma_whole_frames(0, 0, frame_width(spec));
        }
        ring
    }

    fn width(&self) -> (r: usize)
        ensures
            r == frame_width(self.spec),
    {
        if self.spec.channels > 1 {
            self.spec.channels as usize
        } else {
            1
        }
    }

    /// Writes whole frames as far as there is room and says how many. Part of a frame is
    /// refused.
    pub fn write_interleaved(&mut self, data: &Vec<u32>) -> (r: Result<usize, String>)
        requires
            old(self).wf(),
        ensures
            final(self).wf(),
            match r {
                Err(text) => {
                    &&& data@.len() % (frame_width(old(self).spec) as nat) != 0
                    &&& *final(self) == *old(self)
                    &&& text@ == "sample count "@ + decimal(data@.len())
                        + " is not aligned with "@ + decimal(frame_width(old(self).spec) as nat)
                        + " channels"@
                },
                Ok(frames) => {
                    &&& data@.len() % (frame_width(old(self).spec) as nat) == 0
                    &&& took(*old(self), *final(self), data@, frames as int)
                },
            },
    {
        let width = self.width();
        if data.len() % width != 0 {
            let mut text = String::from_str("sample count ");
            text.append(decimal_text(data.len() as u64).as_str());
            text.append(" is not aligned with ");
            text.append(decimal_text(width as u64).as_str());
            text.append(" channels");
            return Err(text);
        }
        let held = self.samples.len() / width;
        let room = self.spec.capacity_frames as usize - held;
        let offered = data.len() / width;
        let frames = if offered < room {
            offered
        } else {
            room
        };
        proof {
            lemma_frames_fit(frames as int, offered as int, width as int, data@.len() as int);
            lemma_whole_frames(
                self.samples@.len() as int,
                frames as int,
                width as int,
            );
        }
        let count = frames * width;
        let ghost before = self.samples@;
        let mut i: usize = 0;
        while i < count
            invariant
                i <= count <= data.len(),
                self.spec == old(self).spec,
                self.write_idx == old(self).write_idx,
                self.read_idx == old(self).read_idx,
                self.samples@ =~= before + data@.take(i as int),
            decreases count - i,
        {
            self.samples.push_back(data[i]);
            i = i + 1;
        }
        self.write_idx = self.write_idx.wrapping_add(frames as u64);
        Ok(frames)
    }

    /// Reads whole frames into the start of a buffer, as far as there are any, and says how
    /// many. The rest of the buffer stays as it is.
    pub fn read_interleaved(&mut self, out: &mut Vec<u32>) -> (r: usize)
        requires
            old(self).wf(),
        ensures
            final(self).wf(),
            gave(*old(self), *final(self), old(out)@, final(out)@, r as int),
    {
        let width = self.width();
        let held = self.samples.len() / width;
        let wanted = out.len() / width;
        let frames = if wanted < held {
            wanted
        } else {
            held
        };
        proof {
            lemma_frames_fit(frames as int, wanted as int, width as int, out@.len() as int);
            lemma_frames_fit(frames as int, held as int, width as int, self.samples@.len() as int);
            lemma_whole_frames(self.samples@.len() as int, -(frames as int), width as int);
            assert((-(frames as int)) * width == -(frames * width)) by (nonlinear_arith);
        }
        let count = frames * width;
        let ghost before = self.samples@;
        let ghost start = out@;
        let mut i: usize = 0;
        while i < count
            invariant
                i <= count <= out.len(),
                count <= before.len(),
                out@.len() == start.len(),
                self.spec == old(self).spec,
                self.write_idx == old(self).write_idx,
                self.read_idx == old(self).read_idx,
                self.samples@ =~= before.skip(i as int),
                out@ =~= before.take(i as int) + start.skip(i as int),
            decreases count - i,
        {
            match self.samples.pop_front() {
                Some(sample) => {
                    out.set(i, sample);
                },
                None => {},
            }
            i = i + 1;
        }
        self.read_idx = self.read_idx.wrapping_add(frames as u64);
        frames
    }
}

/// A ring that is there already has to have the format that is asked for; its room may differ.
pub fn check_format(name: &str, existing: RingSpec, wanted: RingSpec) -> (r: Result<(), String>)
    ensures
        r is Ok <==> existing.channels == wanted.channels && existing.sample_rate
            == wanted.sample_rate,
        r matches Err(text) ==> text@ == "ring '"@ + name@ + "' exists with another format"@,
{
    if existing.channels == wanted.channels && existing.sample_rate == wanted.sample_rate {
        return Ok(());
    }
    let mut text = String::from_str("ring '");
    text.append(name);
    text.append("' exists with another format");
    Err(text)
}

/// Whether a ring took the first frames of a buffer, as many as there was room for.
pub open spec fn took(before: Ring, after: Ring, data: Seq<u32>, frames: int) -> bool {
    &&& frames == before.frames_taken(data.len())
    &&& after.samples@ == before.samples@ + data.take(frames * frame_width(before.spec))
    &&& after.write_idx == frames_counted(before.write_idx, frames)
    &&& after.read_idx == before.read_idx
    &&& after.spec == before.spec
}

/// Whether a ring gave its first frames into a buffer, as many as there were.
pub open spec fn gave(
    before: Ring,
    after: Ring,
    buffer: Seq<u32>,
    out: Seq<u32>,
    frames: int,
) -> bool {
    let n = frames * frame_width(before.spec);
    &&& frames == before.frames_given(buffer.len())
    &&& out == before.samples@.take(n) + buffer.skip(n)
    &&& after.samples@ == before.samples@.skip(n)
    &&& after.read_idx == frames_counted(before.read_idx, frames)
    &&& after.write_idx == before.write_idx
    &&& after.spec == before.spec
}

proof fn lemma_frames_fit(frames: int, whole: int, width: int, samples: int)
    requires
        width > 0,
        0 <= frames <= whole,
        whole == samples / width,
    ensures
        0 <= frames * width <= samples,
{
    assert(0 <= frames * width <= samples) by (nonlinear_arith)
        requires
            width > 0,
            0 <= frames <= whole,
            whole == samples / width,
    ;
}

/// Whole frames more or less are whole frames.
proof fn lemma_whole_frames(samples: int, frames: int, width: int)
    requires
        width > 0,
        samples % width == 0,
    ensures
        (samples + frames * width) % width == 0,
        (samples + frames * width) / width == samples / width + frames,
        0int / width == 0,
        0int % width == 0,
{
    vstd::arithmetic::div_mod::lemma_fundamental_div_mod_converse(0, width, 0, 0);
    vstd::arithmetic::div_mod::lemma_fundamental_div_mod(samples, width);
    let quotient = samples / width + frames;
    assert(samples + frames * width == quotient * width + 0) by (nonlinear_arith)
        requires
            samples == width * (samples / width),
            quotient == samples / width + frames,
    ;
    vstd::arithmetic::div_mod::lemma_fundamental_div_mod_converse(
        samples + frames * width,
        width,
        quotient,
        0,
    );
}

/// What is written into an empty ring that has room for it comes out again, in order and
/// whole, and leaves the ring empty.
pub proof fn law_ring_gives_back(
    empty: Ring,
    filled: Ring,
    after: Ring,
    data: Seq<u32>,
    buffer: Seq<u32>,
    out: Seq<u32>,
    written: int,
    read: int,
)
    requires
        empty.samples@.len() == 0,
        data.len() % (frame_width(empty.spec) as nat) == 0,
        data.len() as int / frame_width(empty.spec) <= empty.spec.capacity_frames,
        buffer.len() == data.len(),
        took(empty, filled, data, written),
        gave(filled, after, buffer, out, read),
    ensures
        written == read,
        out == data,
        after.samples@.len() == 0,
{
    let width = frame_width(empty.spec);
    let frames = data.len() as int / width;
    lemma_whole_frames(0, 0, width);
    vstd::arithmetic::div_mod::lemma_fundamental_div_mod(data.len() as int, width);
    assert(frames * width == data.len()) by (nonlinear_arith)
        requires
            data.len() == width * frames,
    ;
    assert(empty.held_frames() == 0);
    assert(written == frames);
    assert(filled.samples@ =~= data);
    assert(read == frames);
    assert(out =~= data);
}

/// A ring takes the frames that it has room for, from the first on, and says how many; it counts
/// them, and what it held stays in front of them.
pub proof fn law_rings_take_what_fits(before: Ring, after: Ring, data: Seq<u32>, frames: int)
    requires
        before.wf(),
        took(before, after, data, frames),
        before.spec.channels >= 1,
        data.len() % (before.spec.channels as nat) == 0,
        before.write_idx + before.spec.capacity_frames <= u64::MAX,
    ensures
        ({
            let channels = before.spec.channels as int;
            let held = before.samples@.len() as int / channels;
            let room = before.spec.capacity_frames - held;
            &&& data.len() as int / channels <= room ==> frames * channels == data.len()
                && after.samples@ == before.samples@ + data
            &&& data.len() as int / channels > room ==> frames == room
            &&& after.samples@ == before.samples@ + data.take(frames * channels)
            &&& after.write_idx == before.write_idx + frames
            &&& after.read_idx == before.read_idx
        }),
{
    let channels = before.spec.channels as int;
    let n = data.len() as int / channels;
    vstd::arithmetic::div_mod::lemma_fundamental_div_mod(data.len() as int, channels);
    assert(n * channels == data.len()) by (nonlinear_arith)
        requires
            data.len() == channels * n + 0,
    ;
    assert(data.take(data.len() as int) =~= data);
}

/// A ring gives the frames that it held longest, as many as there are or have room, and keeps the
/// rest; what it has none for in the buffer stays as it was.
pub proof fn law_rings_give_what_came_first(
    before: Ring,
    after: Ring,
    buffer: Seq<u32>,
    out: Seq<u32>,
    frames: int,
    i: int,
)
    requires
        before.wf(),
        gave(before, after, buffer, out, frames),
        before.spec.channels >= 1,
        before.read_idx + before.spec.capacity_frames <= u64::MAX,
        0 <= i < buffer.len(),
    ensures
        ({
            let channels = before.spec.channels as int;
            let held = before.samples@.len() as int / channels;
            let room = buffer.len() as int / channels;
            &&& frames == if room < held {
                room
            } else {
                held
            }
            &&& out.len() == buffer.len()
            &&& i < frames * channels ==> out[i] == before.samples@[i]
            &&& i >= frames * channels ==> out[i] == buffer[i]
            &&& after.samples@ == before.samples@.skip(frames * channels)
            &&& after.read_idx == before.read_idx + frames
        }),
{
    let channels = before.spec.channels as int;
    let held = before.samples@.len() as int / channels;
    let room = buffer.len() as int / channels;
    assert(0 <= frames * channels <= before.samples@.len() && frames * channels <= buffer.len())
        by (nonlinear_arith)
        requires
            channels >= 1,
            held == before.samples@.len() as int / channels,
            room == buffer.len() as int / channels,
            frames == (if room < held {
                room
            } else {
                held
            }),
            held >= 0,
            room >= 0,
    ;
}

} // verus!
