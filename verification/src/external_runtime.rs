//! The external endpoints while audio runs: reading, writing, losing and regaining them.

use crate::external_io::{
    count_up, counted, filled, last_of, left_over, overflows, pop_samples,
    push_bounded_error_with_capacity, push_samples, taken, EndpointKind, EndpointPhase, ExternalEndpointConfig,
    ExternalInputEndpointSnapshot, ExternalRuntimeCounters, ExternalRuntimeSnapshot,
    ExternalRuntimeStatus, ENDPOINT_ERROR_RING_CAPACITY, EXTERNAL_QUEUE_PERIODS,
    STREAM_ERROR_RING_CAPACITY,
};
use crate::render_loop::{capped_product, saturating_product};
use crate::sequences::kept;
use crate::string_map::StringMap;
use std::collections::VecDeque;
use vstd::prelude::*;
use vstd::string::*;

verus! {

/// The connection of an endpoint to its device.
#[derive(Debug, Clone, Copy)]
pub struct Link {
    pub device_channels: usize,
    pub max_samples: usize,
    pub phase: EndpointPhase,
    pub attempts: u32,
    /// When to try again, in milliseconds of a clock that only goes forward.
    pub next_retry_at: Option<u64>,
}

/// An endpoint that audio comes in by. Samples are held by their bit patterns.
#[derive(Debug)]
pub struct InputEndpoint {
    pub node_id: String,
    pub uid: String,
    pub node_channels: usize,
    pub link: Link,
    pub queue: VecDeque<u32>,
    pub ingested_frames: u64,
    pub underrun_count: u64,
    pub overrun_count: u64,
    pub xrun_count: u64,
    pub restart_attempts: u64,
    pub errors: VecDeque<String>,
}

/// An endpoint that audio goes out by.
#[derive(Debug)]
pub struct OutputEndpoint {
    pub node_id: String,
    pub uid: String,
    pub node_channels: usize,
    pub link: Link,
    pub queue: VecDeque<u32>,
}

// ---------------------------------------------------------------------------
// Reading

/// Whether channels can be converted from one number to another.
pub open spec fn convertible(from: usize, to: usize) -> bool {
    from == to || (from == 1 && to == 2) || (from == 2 && to == 1)
}

/// How many samples a read of `len` samples takes from the queue of the device.
pub open spec fn samples_needed(device: usize, node: usize, len: int) -> int {
    if device == node {
        len
    } else if device == 1 && node == 2 {
        len / 2
    } else if device == 2 && node == 1 {
        2 * len
    } else {
        0
    }
}

/// How many frames a read takes in.
pub open spec fn frames_taken(device: usize, node: usize, len: int, queued: int) -> int {
    let needed = samples_needed(device, node, len);
    let got = if needed < queued {
        needed
    } else {
        queued
    };
    if device == node {
        got / (if node > 1 {
            node as int
        } else {
            1
        })
    } else if device == 2 && node == 1 {
        got / 2
    } else {
        got
    }
}

/// What a read puts into the buffer: the samples as they are, one channel copied to two, two
/// averaged to one, or silence where the numbers of channels do not go together. Silence
/// stands for what the queue lacks.
pub open spec fn read_gives<F: Fn(u32, u32) -> u32>(
    device: usize,
    node: usize,
    queue: Seq<u32>,
    before: Seq<u32>,
    after: Seq<u32>,
    average: F,
) -> bool {
    let len = before.len() as int;
    let got = taken(queue, samples_needed(device, node, len));
    &&& after.len() == len
    &&& if device == node {
        after == got
    } else if device == 1 && node == 2 {
        &&& forall|f: int| 0 <= f < len / 2 ==> after[2 * f] == #[trigger] got[f]
        &&& forall|f: int| 0 <= f < len / 2 ==> after[2 * f + 1] == #[trigger] got[f]
        &&& len % 2 == 1 ==> after[len - 1] == before[len - 1]
    } else if device == 2 && node == 1 {
        forall|f: int|
            0 <= f < len ==> call_ensures(
                average,
                (got[2 * f], got[2 * f + 1]),
                #[trigger] after[f],
            )
    } else {
        after == Seq::new(len as nat, |i: int| 0u32)
    }
}

/// Whether a read found less than it needed.
pub open spec fn read_misses(e: InputEndpoint, len: int) -> bool {
    ||| e.link.phase != EndpointPhase::Connected
    ||| !convertible(e.link.device_channels, e.node_channels)
    ||| samples_needed(e.link.device_channels, e.node_channels, len) > e.queue@.len()
}

/// One count more where something happened.
pub open spec fn counted_if(count: u64, happened: bool) -> u64 {
    if happened {
        counted(count, 1)
    } else {
        count
    }
}

fn count_if(count: u64, happened: bool) -> (r: u64)
    ensures
        r == counted_if(count, happened),
{
    if happened {
        count_up(count, 1)
    } else {
        count
    }
}

/// A read of an endpoint. Where the endpoint is not connected the buffer is silenced and
/// the queue is left alone.
pub open spec fn input_read<F: Fn(u32, u32) -> u32>(
    e: InputEndpoint,
    after: InputEndpoint,
    out_before: Seq<u32>,
    out_after: Seq<u32>,
    average: F,
) -> bool {
    let len = out_before.len() as int;
    let device = e.link.device_channels;
    let connected = e.link.phase == EndpointPhase::Connected;
    let misses = read_misses(e, len);
    &&& if connected {
        &&& read_gives(device, e.node_channels, e.queue@, out_before, out_after, average)
        &&& after.queue@ == left_over(e.queue@, samples_needed(device, e.node_channels, len))
        &&& after.ingested_frames == counted(
            e.ingested_frames,
            frames_taken(device, e.node_channels, len, e.queue@.len() as int) as u64,
        )
    } else {
        &&& out_after == Seq::new(len as nat, |i: int| 0u32)
        &&& after.queue@ == e.queue@
        &&& after.ingested_frames == e.ingested_frames
    }
    &&& after.underrun_count == counted_if(e.underrun_count, misses)
    &&& after.xrun_count == counted_if(e.xrun_count, misses)
    &&& after.node_id == e.node_id
    &&& after.uid == e.uid
    &&& after.node_channels == e.node_channels
    &&& after.link == e.link
    &&& after.overrun_count == e.overrun_count
    &&& after.restart_attempts == e.restart_attempts
    &&& after.errors == e.errors
}

fn silence(out: &mut Vec<u32>)
    ensures
        final(out)@ == Seq::new(old(out)@.len(), |i: int| 0u32),
{
    let ghost len = out@.len();
    let mut i: usize = 0;
    while i < out.len()
        invariant
            i <= out.len(),
            out@.len() == len,
            forall|k: int| 0 <= k < i ==> out@[k] == 0,
        decreases out.len() - i,
    {
        out.set(i, 0);
        i = i + 1;
    }
    assert(out@ =~= Seq::new(len, |i: int| 0u32));
}

fn pop_one(queue: &mut VecDeque<u32>) -> (r: u32)
    ensures
        r == taken(old(queue)@, 1)[0],
        final(queue)@ == left_over(old(queue)@, 1),
{
    let ghost before = queue@;
    match queue.pop_front() {
        Some(sample) => {
            assert(queue@ =~= left_over(before, 1));
            sample
        },
        None => {
            assert(queue@ =~= left_over(before, 1));
            0
        },
    }
}

proof fn lemma_left_over_step(queue: Seq<u32>, n: int)
    requires
        0 <= n,
    ensures
        left_over(left_over(queue, n), 1) == left_over(queue, n + 1),
        taken(left_over(queue, n), 1)[0] == if n < queue.len() {
            queue[n]
        } else {
            0u32
        },
        left_over(queue, 0) == queue,
{
    assert(left_over(left_over(queue, n), 1) =~= left_over(queue, n + 1));
    assert(left_over(queue, 0) =~= queue);
}

fn read_copied(queue: &mut VecDeque<u32>, out: &mut Vec<u32>)
    ensures
        final(out)@.len() == old(out)@.len(),
        forall|f: int|
            0 <= f < old(out)@.len() / 2 ==> final(out)@[2 * f] == #[trigger] taken(
                old(queue)@,
                old(out)@.len() as int / 2,
            )[f],
        forall|f: int|
            0 <= f < old(out)@.len() / 2 ==> final(out)@[2 * f + 1] == #[trigger] taken(
                old(queue)@,
                old(out)@.len() as int / 2,
            )[f],
        old(out)@.len() % 2 == 1 ==> final(out)@[old(out)@.len() - 1] == old(out)@[old(
            out,
        )@.len() - 1],
        final(queue)@ == left_over(old(queue)@, old(out)@.len() as int / 2),
{
    let ghost before = queue@;
    let ghost first = out@;
    let len = out.len();
    let frames = len / 2;
    let mut f: usize = 0;
    proof {
        lemma_left_over_step(before, 0);
    }
    while f < frames
        invariant
            f <= frames,
            frames == len / 2,
            len == first.len(),
            out@.len() == len,
            queue@ == left_over(before, f as int),
            forall|k: int| 0 <= k < f ==> out@[2 * k] == #[trigger] taken(before, frames as int)[k],
            forall|k: int|
                0 <= k < f ==> out@[2 * k + 1] == #[trigger] taken(before, frames as int)[k],
            forall|k: int| 2 * f <= k < len ==> out@[k] == first[k],
        decreases frames - f,
    {
        proof {
            lemma_left_over_step(before, f as int);
        }
        let sample = pop_one(queue);
        out.set(f * 2, sample);
        out.set(f * 2 + 1, sample);
        f = f + 1;
    }
}

fn read_averaged<F: Fn(u32, u32) -> u32>(queue: &mut VecDeque<u32>, out: &mut Vec<u32>, average: &F)
    requires
        forall|a: u32, b: u32| call_requires(*average, (a, b)),
    ensures
        final(out)@.len() == old(out)@.len(),
        forall|f: int|
            0 <= f < old(out)@.len() ==> call_ensures(
                *average,
                (
                    taken(old(queue)@, 2 * (old(out)@.len() as int))[2 * f],
                    taken(old(queue)@, 2 * (old(out)@.len() as int))[2 * f + 1],
                ),
                #[trigger] final(out)@[f],
            ),
        final(queue)@ == left_over(old(queue)@, 2 * (old(out)@.len() as int)),
{
    let ghost before = queue@;
    let len = out.len();
    let mut f: usize = 0;
    proof {
        lemma_left_over_step(before, 0);
    }
    while f < len
        invariant
            f <= len,
            out@.len() == len,
            queue@ == left_over(before, 2 * f),
            forall|a: u32, b: u32| call_requires(*average, (a, b)),
            forall|k: int|
                0 <= k < f ==> call_ensures(
                    *average,
                    (taken(before, 2 * len)[2 * k], taken(before, 2 * len)[2 * k + 1]),
                    #[trigger] out@[k],
                ),
        decreases len - f,
    {
        proof {
            lemma_left_over_step(before, 2 * f);
            lemma_left_over_step(before, 2 * f + 1);
        }
        let left = pop_one(queue);
        let right = pop_one(queue);
        let sample = average(left, right);
        out.set(f, sample);
        f = f + 1;
    }
}

impl InputEndpoint {
    /// Fills a buffer of the node from the queue of the device; two channels are averaged
    /// to one by the given function. Says whether something was missing.
    pub fn read<F: Fn(u32, u32) -> u32>(&mut self, out: &mut Vec<u32>, average: &F) -> (r: bool)
        requires
            forall|a: u32, b: u32| call_requires(*average, (a, b)),
        ensures
            input_read(*old(self), *final(self), old(out)@, final(out)@, *average),
            r == read_misses(*old(self), old(out)@.len() as int),
    {
        let ghost start = *self;
        let ghost first = out@;
        let len = out.len();
        let queued = self.queue.len();
        let device = self.link.device_channels;
        let node = self.node_channels;
        let mut missing = false;
        if !self.link.phase.is_connected() {
            silence(out);
            missing = true;
        } else {
            let mut frames: usize = 0;
            if device == node {
                missing = pop_samples(&mut self.queue, out);
                let got = if len < queued {
                    len
                } else {
                    queued
                };
                frames = if node > 1 {
                    got / node
                } else {
                    got
                };
                proof {
                    if node > 1 {
                        assert((got as int) / (node as int) <= got) by (nonlinear_arith)
                            requires
                                node > 1,
                                got >= 0,
                        ;
                    }
                }
            } else if device == 1 && node == 2 {
                read_copied(&mut self.queue, out);
                missing = len / 2 > queued;
                frames = if len / 2 < queued {
                    len / 2
                } else {
                    queued
                };
            } else if device == 2 && node == 1 {
                read_averaged(&mut self.queue, out, average);
                missing = len > queued / 2;
                frames = if len < queued / 2 {
                    len
                } else {
                    queued / 2
                };
            } else {
                silence(out);
                missing = true;
                assert(self.queue@ =~= left_over(start.queue@, 0));
            }
            self.ingested_frames = count_up(self.ingested_frames, frames as u64);
        }
        self.underrun_count = count_if(self.underrun_count, missing);
        self.xrun_count = count_if(self.xrun_count, missing);
        missing
    }
}

// ---------------------------------------------------------------------------
// Writing

/// What a write of node samples becomes for the device.
pub open spec fn write_gives<F: Fn(u32, u32) -> u32>(
    node: usize,
    device: usize,
    data: Seq<u32>,
    converted: Seq<u32>,
    average: F,
) -> bool {
    if node == device {
        converted == data
    } else if node == 1 && device == 2 {
        converted == Seq::new(2 * data.len(), |i: int| data[i / 2])
    } else if node == 2 && device == 1 {
        &&& converted.len() == data.len() / 2
        &&& forall|f: int|
            0 <= f < converted.len() ==> call_ensures(
                average,
                (data[2 * f], data[2 * f + 1]),
                #[trigger] converted[f],
            )
    } else {
        converted == Seq::<u32>::empty()
    }
}

/// Whether a write pushes something out, or has nowhere to go.
pub open spec fn write_overruns(e: OutputEndpoint, converted: Seq<u32>) -> bool {
    ||| e.link.phase != EndpointPhase::Connected
    ||| !convertible(e.node_channels, e.link.device_channels)
    ||| overflows(e.queue@, converted, e.link.max_samples as int)
}

/// A write to an endpoint. Where the endpoint is not connected nothing is written.
pub open spec fn output_written<F: Fn(u32, u32) -> u32>(
    e: OutputEndpoint,
    after: OutputEndpoint,
    data: Seq<u32>,
    average: F,
    overrun: bool,
) -> bool {
    &&& exists|converted: Seq<u32>| #[trigger]
        write_gives(e.node_channels, e.link.device_channels, data, converted, average) && overrun
            == write_overruns(e, converted) && after.queue@ == if e.link.phase
            == EndpointPhase::Connected {
            filled(e.queue@, converted, e.link.max_samples as int)
        } else {
            e.queue@
        }
    &&& after.node_id == e.node_id
    &&& after.uid == e.uid
    &&& after.node_channels == e.node_channels
    &&& after.link == e.link
}

fn convert_for_device<F: Fn(u32, u32) -> u32>(
    node: usize,
    device: usize,
    data: &Vec<u32>,
    average: &F,
) -> (r: Vec<u32>)
    requires
        forall|a: u32, b: u32| call_requires(*average, (a, b)),
    ensures
        write_gives(node, device, data@, r@, *average),
{
    let mut converted: Vec<u32> = Vec::new();
    if node == device {
        let mut i: usize = 0;
        while i < data.len()
            invariant
                i <= data.len(),
                converted@ =~= data@.take(i as int),
            decreases data.len() - i,
        {
            converted.push(data[i]);
            i = i + 1;
        }
        assert(converted@ =~= data@);
    } else if node == 1 && device == 2 {
        let mut i: usize = 0;
        while i < data.len()
            invariant
                i <= data.len(),
                converted@ =~= Seq::new((2 * i) as nat, |k: int| data@[k / 2]),
            decreases data.len() - i,
        {
            converted.push(data[i]);
            converted.push(data[i]);
            i = i + 1;
        }
    } else if node == 2 && device == 1 {
        let frames = data.len() / 2;
        let mut f: usize = 0;
        while f < frames
            invariant
                f <= frames,
                frames == data.len() / 2,
                converted@.len() == f,
                forall|a: u32, b: u32| call_requires(*average, (a, b)),
                forall|k: int|
                    0 <= k < f ==> call_ensures(
                        *average,
                        (data@[2 * k], data@[2 * k + 1]),
                        #[trigger] converted@[k],
                    ),
            decreases frames - f,
        {
            converted.push(average(data[2 * f], data[2 * f + 1]));
            f = f + 1;
        }
    }
    assert(!convertible(node, device) ==> converted@ =~= Seq::<u32>::empty());
    converted
}

impl OutputEndpoint {
    /// Puts samples of the node into the queue of the device; two channels are averaged to
    /// one by the given function. Says whether something was lost.
    pub fn write<F: Fn(u32, u32) -> u32>(&mut self, data: &Vec<u32>, average: &F) -> (r: bool)
        requires
            forall|a: u32, b: u32| call_requires(*average, (a, b)),
        ensures
            output_written(*old(self), *final(self), data@, *average, r),
    {
        let ghost start = *self;
        let node = self.node_channels;
        let device = self.link.device_channels;
        let converted = convert_for_device(node, device, data, average);
        if !self.link.phase.is_connected() {
            return true;
        }
        let convertible = node == device || (node == 1 && device == 2) || (node == 2 && device
            == 1);
        let overrun = push_samples(&mut self.queue, &converted, self.link.max_samples);
        overrun || !convertible
    }
}

// ---------------------------------------------------------------------------
// Losing and regaining a device

/// How long to wait before the first try, in milliseconds.
pub const RECOVERY_BASE_BACKOFF_MS: u64 = 250;

/// The longest wait without jitter, in milliseconds.
pub const RECOVERY_MAX_BACKOFF_MS: u64 = 10_000;

/// The most jitter, in milliseconds.
pub const RECOVERY_JITTER_MAX_MS: u64 = 200;

/// The wait before a try without jitter: it doubles with every attempt, up to a limit.
pub open spec fn base_backoff(attempts: int) -> int
    decreases attempts,
{
    if attempts <= 1 {
        RECOVERY_BASE_BACKOFF_MS as int
    } else if 2 * base_backoff(attempts - 1) > RECOVERY_MAX_BACKOFF_MS {
        RECOVERY_MAX_BACKOFF_MS as int
    } else {
        2 * base_backoff(attempts - 1)
    }
}

proof fn lemma_base_backoff_settles(attempts: int)
    requires
        attempts >= 7,
    ensures
        base_backoff(attempts) == RECOVERY_MAX_BACKOFF_MS,
    decreases attempts,
{
    if attempts > 7 {
        lemma_base_backoff_settles(attempts - 1);
    } else {
        reveal_with_fuel(base_backoff, 8);
    }
}

/// The wait before a try, in milliseconds; the jitter comes from a clock in milliseconds.
pub fn reconnect_backoff(attempts: u32, clock_ms: u64) -> (r: u64)
    ensures
        r == base_backoff(attempts as int) + clock_ms % 201,
{
    let mut base: u64 = RECOVERY_BASE_BACKOFF_MS;
    let steps: u32 = if attempts > 7 {
        7
    } else {
        attempts
    };
    let mut n: u32 = 1;
    while n < steps
        invariant
            1 <= n,
            steps <= 7,
            n <= steps || steps == 0,
            steps == 0 ==> n == 1,
            base == base_backoff(n as int),
            base <= RECOVERY_MAX_BACKOFF_MS,
        decreases steps - n,
    {
        base = if 2 * base > RECOVERY_MAX_BACKOFF_MS {
            RECOVERY_MAX_BACKOFF_MS
        } else {
            2 * base
        };
        n = n + 1;
    }
    proof {
        if attempts > 7 {
            lemma_base_backoff_settles(attempts as int);
            lemma_base_backoff_settles(7);
        }
    }
    base + clock_ms % (RECOVERY_JITTER_MAX_MS + 1)
}

/// The wait never gets shorter with more attempts, and stays within its limits.
pub proof fn law_backoff_grows(a: int, b: int)
    requires
        a <= b,
    ensures
        base_backoff(a) <= base_backoff(b),
        RECOVERY_BASE_BACKOFF_MS <= base_backoff(a) <= RECOVERY_MAX_BACKOFF_MS,
        RECOVERY_BASE_BACKOFF_MS <= base_backoff(b) <= RECOVERY_MAX_BACKOFF_MS,
    decreases b,
{
    if b > 1 {
        if a < b {
            law_backoff_grows(a, b - 1);
        } else {
            law_backoff_grows(a - 1, b - 1);
        }
    }
}

/// A connection that was lost, at a time in milliseconds: the next try comes after a wait
/// that grows with the attempts.
pub open spec fn degraded_link(
    link: Link,
    attempts: Option<u32>,
    now_ms: u64,
    clock_ms: u64,
) -> Link {
    let made = match attempts {
        Some(n) => n as int,
        None => if link.attempts == u32::MAX {
            u32::MAX as int
        } else {
            link.attempts + 1
        },
    };
    let count = if made < 1 {
        1
    } else {
        made
    };
    Link {
        device_channels: link.device_channels,
        max_samples: link.max_samples,
        phase: EndpointPhase::Degraded,
        attempts: count as u32,
        next_retry_at: Some(
            saturated(now_ms as int + base_backoff(count) + (clock_ms % 201) as int),
        ),
    }
}

/// A time, or the last one that there is.
pub open spec fn saturated(ms: int) -> u64 {
    if ms > u64::MAX {
        u64::MAX
    } else {
        ms as u64
    }
}

/// Notes that a connection was lost.
pub fn mark_degraded(link: &mut Link, attempts: Option<u32>, now_ms: u64, clock_ms: u64)
    ensures
        *final(link) == degraded_link(*old(link), attempts, now_ms, clock_ms),
{
    let made: u32 = match attempts {
        Some(n) => n,
        None => link.attempts.saturating_add(1),
    };
    let count: u32 = if made < 1 {
        1
    } else {
        made
    };
    let wait = reconnect_backoff(count, clock_ms);
    link.phase = EndpointPhase::Degraded;
    link.attempts = count;
    link.next_retry_at = Some(now_ms.saturating_add(wait));
}

/// Whether it is time to try again.
pub open spec fn retry_due(link: Link, now_ms: u64) -> bool {
    link.phase == EndpointPhase::Degraded && (link.next_retry_at matches Some(at) && at <= now_ms)
}

/// Whether it is time to try again.
pub fn is_retry_due(link: &Link, now_ms: u64) -> (r: bool)
    ensures
        r == retry_due(*link, now_ms),
{
    link.phase == EndpointPhase::Degraded && match link.next_retry_at {
        Some(at) => at <= now_ms,
        None => false,
    }
}

/// The size of a queue: sixteen buffers of the device.
pub open spec fn queue_limit(buffer_frames: u32, device_channels: usize) -> int {
    capped_product(
        capped_product(buffer_frames as int, EXTERNAL_QUEUE_PERIODS as int),
        if device_channels > 1 {
            device_channels as int
        } else {
            1
        },
    )
}

/// The size of a queue: sixteen buffers of the device.
pub fn queue_capacity(buffer_frames: u32, device_channels: usize) -> (r: usize)
    ensures
        r == queue_limit(buffer_frames, device_channels),
{
    let channels = if device_channels > 1 {
        device_channels
    } else {
        1
    };
    saturating_product(saturating_product(buffer_frames as usize, EXTERNAL_QUEUE_PERIODS), channels)
}

/// A connection that was made.
pub open spec fn connected_link(device_channels: usize, buffer_frames: u32) -> Link {
    Link {
        device_channels,
        max_samples: queue_limit(buffer_frames, device_channels) as usize,
        phase: EndpointPhase::Connected,
        attempts: 0,
        next_retry_at: None,
    }
}

fn make_link(device_channels: usize, buffer_frames: u32) -> (r: Link)
    ensures
        r == connected_link(device_channels, buffer_frames),
{
    Link {
        device_channels,
        max_samples: queue_capacity(buffer_frames, device_channels),
        phase: EndpointPhase::Connected,
        attempts: 0,
        next_retry_at: None,
    }
}

// ---------------------------------------------------------------------------
// All endpoints

/// All external endpoints, by the ids of their nodes.
#[derive(Debug)]
pub struct ExternalIoRuntime {
    pub buffer_frames: u32,
    pub input_endpoints: StringMap<InputEndpoint>,
    pub output_endpoints: StringMap<OutputEndpoint>,
    pub stream_errors: VecDeque<String>,
    pub restart_attempts: u64,
    pub underrun_count: u64,
    pub overrun_count: u64,
    pub xrun_count: u64,
}

/// An input endpoint that was just connected.
pub open spec fn fresh_input(
    e: InputEndpoint,
    config: ExternalEndpointConfig,
    device_channels: usize,
    buffer_frames: u32,
) -> bool {
    &&& e.node_id == config.node_id
    &&& e.uid == config.uid
    &&& e.node_channels == config.channels
    &&& e.link == connected_link(device_channels, buffer_frames)
    &&& e.queue@.len() == 0
    &&& e.ingested_frames == 0
    &&& e.underrun_count == 0
    &&& e.overrun_count == 0
    &&& e.xrun_count == 0
    &&& e.restart_attempts == 0
    &&& e.errors@.len() == 0
}

/// An output endpoint that was just connected.
pub open spec fn fresh_output(
    e: OutputEndpoint,
    config: ExternalEndpointConfig,
    device_channels: usize,
    buffer_frames: u32,
) -> bool {
    &&& e.node_id == config.node_id
    &&& e.uid == config.uid
    &&& e.node_channels == config.channels
    &&& e.link == connected_link(device_channels, buffer_frames)
    &&& e.queue@.len() == 0
}

/// What the errors of an endpoint grow to.
pub open spec fn errors_with(errors: Seq<String>, after: Seq<String>, message: Seq<char>, capacity: int) -> bool {
    exists|text: String| #[trigger] text@ == message && after == last_of(errors.push(text), capacity)
}

/// An input endpoint that differs only in its connection, counters and errors.
pub open spec fn same_input(a: InputEndpoint, b: InputEndpoint) -> bool {
    &&& a.node_id == b.node_id
    &&& a.uid == b.uid
    &&& a.node_channels == b.node_channels
    &&& a.queue == b.queue
    &&& a.ingested_frames == b.ingested_frames
    &&& a.underrun_count == b.underrun_count
    &&& a.overrun_count == b.overrun_count
}

/// An output endpoint that differs only in its connection.
pub open spec fn same_output(a: OutputEndpoint, b: OutputEndpoint) -> bool {
    &&& a.node_id == b.node_id
    &&& a.uid == b.uid
    &&& a.node_channels == b.node_channels
    &&& a.queue == b.queue
}

/// The place of a node among the keys.
pub open spec fn place_of<V>(map: StringMap<V>, id: Seq<char>) -> int {
    map.keys().index_of(id)
}

impl ExternalIoRuntime {
    /// The maps are in order, and no ring of errors is over its capacity.
    pub open spec fn wf(self) -> bool {
        &&& self.input_endpoints.wf()
        &&& self.output_endpoints.wf()
        &&& self.stream_errors@.len() <= STREAM_ERROR_RING_CAPACITY
        &&& forall|i: int|
            0 <= i < self.input_endpoints.values().len() ==> (
            #[trigger] self.input_endpoints.values()[i]).errors@.len()
                <= ENDPOINT_ERROR_RING_CAPACITY
    }

    /// A runtime without endpoints.
    pub fn new(buffer_frames: u32) -> (r: ExternalIoRuntime)
        ensures
            r.wf(),
            r.buffer_frames == buffer_frames,
            r.input_endpoints.keys().len() == 0,
            r.output_endpoints.keys().len() == 0,
            r.stream_errors@.len() == 0,
            r.restart_attempts == 0,
            r.underrun_count == 0,
            r.overrun_count == 0,
            r.xrun_count == 0,
    {
        ExternalIoRuntime {
            buffer_frames,
            input_endpoints: StringMap::new(),
            output_endpoints: StringMap::new(),
            stream_errors: VecDeque::new(),
            restart_attempts: 0,
            underrun_count: 0,
            overrun_count: 0,
            xrun_count: 0,
        }
    }

    /// Adds an input endpoint whose device was connected; it takes the place of one with the
    /// same id.
    pub fn add_input(&mut self, config: &ExternalEndpointConfig, device_channels: usize)
        requires
            old(self).wf(),
        ensures
            final(self).wf(),
            final(self).input_endpoints@.dom() == old(self).input_endpoints@.dom().insert(
                config.node_id@,
            ),
            fresh_input(
                final(self).input_endpoints@[config.node_id@],
                *config,
                device_channels,
                old(self).buffer_frames,
            ),
            forall|id: Seq<char>|
                id != config.node_id@ && old(self).input_endpoints@.dom().contains(id)
                    ==> #[trigger] final(self).input_endpoints@[id]
                    == old(self).input_endpoints@[id],
            final(self).buffer_frames == old(self).buffer_frames,
            final(self).output_endpoints == old(self).output_endpoints,
            final(self).stream_errors == old(self).stream_errors,
            final(self).underrun_count == old(self).underrun_count,
            final(self).overrun_count == old(self).overrun_count,
            final(self).xrun_count == old(self).xrun_count,
            final(self).restart_attempts == old(self).restart_attempts,
    {
        let ghost before = *self;
        let endpoint = InputEndpoint {
            node_id: config.node_id.clone(),
            uid: config.uid.clone(),
            node_channels: config.channels as usize,
            link: make_link(device_channels, self.buffer_frames),
            queue: VecDeque::new(),
            ingested_frames: 0,
            underrun_count: 0,
            overrun_count: 0,
            xrun_count: 0,
            restart_attempts: 0,
            errors: VecDeque::new(),
        };
        self.input_endpoints.insert(config.node_id.clone(), endpoint);
        proof {
            assert forall|i: int| 0 <= i < self.input_endpoints.values().len() implies (
            #[trigger] self.input_endpoints.values()[i]).errors@.len()
                <= ENDPOINT_ERROR_RING_CAPACITY by {
                let id = self.input_endpoints.keys()[i];
                self.input_endpoints.lemma_entry(i);
                if id != config.node_id@ {
                    assert(before.input_endpoints@.dom().contains(id));
                    let k = before.input_endpoints.keys().index_of(id);
                    before.input_endpoints.lemma_entry(k);
                }
            }
            assert(self.input_endpoints@.dom() =~= before.input_endpoints@.dom().insert(
                config.node_id@,
            ));
        }
    }

    /// Adds an output endpoint whose device was connected; it takes the place of one with
    /// the same id.
    pub fn add_output(&mut self, config: &ExternalEndpointConfig, device_channels: usize)
        requires
            old(self).wf(),
        ensures
            final(self).wf(),
            final(self).output_endpoints@.dom() == old(self).output_endpoints@.dom().insert(
                config.node_id@,
            ),
            fresh_output(
                final(self).output_endpoints@[config.node_id@],
                *config,
                device_channels,
                old(self).buffer_frames,
            ),
            forall|id: Seq<char>|
                id != config.node_id@ && old(self).output_endpoints@.dom().contains(id)
                    ==> #[trigger] final(self).output_endpoints@[id]
                    == old(self).output_endpoints@[id],
            final(self).buffer_frames == old(self).buffer_frames,
            final(self).input_endpoints == old(self).input_endpoints,
            final(self).stream_errors == old(self).stream_errors,
            final(self).underrun_count == old(self).underrun_count,
            final(self).overrun_count == old(self).overrun_count,
            final(self).xrun_count == old(self).xrun_count,
            final(self).restart_attempts == old(self).restart_attempts,
    {
        let ghost before = *self;
        let endpoint = OutputEndpoint {
            node_id: config.node_id.clone(),
            uid: config.uid.clone(),
            node_channels: config.channels as usize,
            link: make_link(device_channels, self.buffer_frames),
            queue: VecDeque::new(),
        };
        self.output_endpoints.insert(config.node_id.clone(), endpoint);
        proof {
            assert(self.output_endpoints@.dom() =~= before.output_endpoints@.dom().insert(
                config.node_id@,
            ));
        }
    }

    /// Fills a buffer from the endpoint of a node; says whether there is such an endpoint.
    /// Without one nothing happens.
    pub fn read_input_into<F: Fn(u32, u32) -> u32>(
        &mut self,
        node_id: &str,
        out: &mut Vec<u32>,
        average: &F,
    ) -> (r: bool)
        requires
            old(self).wf(),
            forall|a: u32, b: u32| call_requires(*average, (a, b)),
        ensures
            final(self).wf(),
            r == old(self).input_endpoints.has(node_id@),
            !r ==> *final(self) == *old(self) && final(out)@ == old(out)@,
            r ==> {
                let place = place_of(old(self).input_endpoints, node_id@);
                let before = old(self).input_endpoints.values()[place];
                let after = final(self).input_endpoints.values()[place];
                let misses = read_misses(before, old(out)@.len() as int);
                &&& input_read(before, after, old(out)@, final(out)@, *average)
                &&& final(self).input_endpoints.keys() == old(self).input_endpoints.keys()
                &&& final(self).input_endpoints.values()
                    == old(self).input_endpoints.values().update(place, after)
                &&& final(self).underrun_count == counted_if(old(self).underrun_count, misses)
                &&& final(self).xrun_count == counted_if(old(self).xrun_count, misses)
                &&& final(self).overrun_count == old(self).overrun_count
                &&& final(self).buffer_frames == old(self).buffer_frames
                &&& final(self).output_endpoints == old(self).output_endpoints
                &&& final(self).stream_errors == old(self).stream_errors
                &&& final(self).restart_attempts == old(self).restart_attempts
            },
    {
        match self.input_endpoints.find(node_id) {
            None => false,
            Some(i) => {
                proof {
                    let keys = self.input_endpoints.keys();
                    crate::string_map::lemma_increasing_places(
                        keys,
                        i as int,
                        keys.index_of(node_id@),
                    );
                }
                let endpoint = self.input_endpoints.value_mut(i);
                let missing = endpoint.read(out, average);
                self.underrun_count = count_if(self.underrun_count, missing);
                self.xrun_count = count_if(self.xrun_count, missing);
                true
            },
        }
    }

    /// Writes a buffer to the endpoint of a node; says whether there is such an endpoint.
    /// Without one nothing happens.
    pub fn write_output_from<F: Fn(u32, u32) -> u32>(
        &mut self,
        node_id: &str,
        data: &Vec<u32>,
        average: &F,
    ) -> (r: bool)
        requires
            old(self).wf(),
            forall|a: u32, b: u32| call_requires(*average, (a, b)),
        ensures
            final(self).wf(),
            r == old(self).output_endpoints.has(node_id@),
            !r ==> *final(self) == *old(self),
            r ==> {
                let place = place_of(old(self).output_endpoints, node_id@);
                let before = old(self).output_endpoints.values()[place];
                let after = final(self).output_endpoints.values()[place];
                exists|overrun: bool|
                    {
                        &&& #[trigger] output_written(before, after, data@, *average, overrun)
                        &&& final(self).output_endpoints.keys() == old(
                            self,
                        ).output_endpoints.keys()
                        &&& final(self).output_endpoints.values() == old(
                            self,
                        ).output_endpoints.values().update(place, after)
                        &&& final(self).overrun_count == counted_if(
                            old(self).overrun_count,
                            overrun,
                        )
                        &&& final(self).xrun_count == counted_if(old(self).xrun_count, overrun)
                        &&& final(self).underrun_count == old(self).underrun_count
                        &&& final(self).buffer_frames == old(self).buffer_frames
                        &&& final(self).input_endpoints == old(self).input_endpoints
                        &&& final(self).stream_errors == old(self).stream_errors
                        &&& final(self).restart_attempts == old(self).restart_attempts
                    }
            },
    {
        match self.output_endpoints.find(node_id) {
            None => false,
            Some(i) => {
                proof {
                    let keys = self.output_endpoints.keys();
                    crate::string_map::lemma_increasing_places(
                        keys,
                        i as int,
                        keys.index_of(node_id@),
                    );
                }
                let ghost before = self.output_endpoints.values()[i as int];
                let endpoint = self.output_endpoints.value_mut(i);
                let overrun = endpoint.write(data, average);
                self.overrun_count = count_if(self.overrun_count, overrun);
                self.xrun_count = count_if(self.xrun_count, overrun);
                assert(output_written(
                    before,
                    self.output_endpoints.values()[i as int],
                    data@,
                    *average,
                    overrun,
                ));
                true
            },
        }
    }

    /// Takes in what a device captured; what the queue cannot hold pushes out the oldest.
    pub fn accept_captured(&mut self, index: usize, samples: &Vec<u32>)
        requires
            old(self).wf(),
            index < old(self).input_endpoints.values().len(),
        ensures
            final(self).wf(),
            final(self).input_endpoints.keys() == old(self).input_endpoints.keys(),
            ({
                let before = old(self).input_endpoints.values()[index as int];
                let after = final(self).input_endpoints.values()[index as int];
                let overrun = overflows(before.queue@, samples@, before.link.max_samples as int);
                &&& final(self).input_endpoints.values()
                    == old(self).input_endpoints.values().update(index as int, after)
                &&& after.queue@ == filled(
                    before.queue@,
                    samples@,
                    before.link.max_samples as int,
                )
                &&& after.overrun_count == counted_if(before.overrun_count, overrun)
                &&& after.xrun_count == counted_if(before.xrun_count, overrun)
                &&& after.link == before.link
                &&& after.errors == before.errors
                &&& after.node_id == before.node_id
                &&& after.uid == before.uid
                &&& after.node_channels == before.node_channels
                &&& after.ingested_frames == before.ingested_frames
                &&& after.underrun_count == before.underrun_count
                &&& after.restart_attempts == before.restart_attempts
                &&& final(self).overrun_count == counted_if(old(self).overrun_count, overrun)
                &&& final(self).xrun_count == counted_if(old(self).xrun_count, overrun)
            }),
            final(self).output_endpoints == old(self).output_endpoints,
            final(self).underrun_count == old(self).underrun_count,
            final(self).buffer_frames == old(self).buffer_frames,
            final(self).stream_errors == old(self).stream_errors,
            final(self).restart_attempts == old(self).restart_attempts,
    {
        let endpoint = self.input_endpoints.value_mut(index);
        let overrun = push_samples(&mut endpoint.queue, samples, endpoint.link.max_samples);
        endpoint.overrun_count = count_if(endpoint.overrun_count, overrun);
        endpoint.xrun_count = count_if(endpoint.xrun_count, overrun);
        self.overrun_count = count_if(self.overrun_count, overrun);
        self.xrun_count = count_if(self.xrun_count, overrun);
    }

    /// Hands a device what it is to play; silence stands for what the queue lacks.
    pub fn supply_playback(&mut self, index: usize, out: &mut Vec<u32>)
        requires
            old(self).wf(),
            index < old(self).output_endpoints.values().len(),
        ensures
            final(self).wf(),
            final(self).output_endpoints.keys() == old(self).output_endpoints.keys(),
            ({
                let before = old(self).output_endpoints.values()[index as int];
                let after = final(self).output_endpoints.values()[index as int];
                let underrun = before.queue@.len() < old(out)@.len();
                &&& final(self).output_endpoints.values()
                    == old(self).output_endpoints.values().update(index as int, after)
                &&& final(out)@ == taken(before.queue@, old(out)@.len() as int)
                &&& after.queue@ == left_over(before.queue@, old(out)@.len() as int)
                &&& after.link == before.link
                &&& after.node_id == before.node_id
                &&& after.uid == before.uid
                &&& after.node_channels == before.node_channels
                &&& final(self).underrun_count == counted_if(old(self).underrun_count, underrun)
                &&& final(self).xrun_count == counted_if(old(self).xrun_count, underrun)
            }),
            final(self).input_endpoints == old(self).input_endpoints,
            final(self).overrun_count == old(self).overrun_count,
            final(self).buffer_frames == old(self).buffer_frames,
            final(self).stream_errors == old(self).stream_errors,
            final(self).restart_attempts == old(self).restart_attempts,
    {
        let endpoint = self.output_endpoints.value_mut(index);
        let underrun = pop_samples(&mut endpoint.queue, out);
        self.underrun_count = count_if(self.underrun_count, underrun);
        self.xrun_count = count_if(self.xrun_count, underrun);
    }
}

// ---------------------------------------------------------------------------
// The supervisor

/// What the supervisor waits for.
#[derive(Debug)]
pub enum RecoveryEvent {
    /// The stream of an endpoint broke.
    StreamError { kind: EndpointKind, node_id: String },
    /// The runtime is to end.
    StopRequested,
    /// Nothing happened for a while.
    Timeout,
    /// Nothing can happen any more.
    Disconnected,
}

/// The text about a stream that broke.
pub open spec fn stream_error_text(kind: EndpointKind, uid: Seq<char>, error: Seq<char>) -> Seq<char> {
    (match kind {
        EndpointKind::Input => "external input stream error for '"@,
        EndpointKind::Output => "external output stream error for '"@,
    }) + uid + "': "@ + error
}

/// The text about an endpoint that could not be connected again.
pub open spec fn reconnect_error_text(
    kind: EndpointKind,
    uid: Seq<char>,
    error: Seq<char>,
) -> Seq<char> {
    (match kind {
        EndpointKind::Input => "external input reconnect failed for '"@,
        EndpointKind::Output => "external output reconnect failed for '"@,
    }) + uid + "': "@ + error
}

fn quoted(head: &str, uid: &str, error: &str) -> (r: String)
    ensures
        r@ == head@ + uid@ + "': "@ + error@,
{
    let mut text = String::from_str(head);
    text.append(uid);
    text.append("': ");
    text.append(error);
    text
}

/// Whether an endpoint of the list, from a place on, is due; the first such.
pub open spec fn first_due_input(endpoints: Seq<InputEndpoint>, from: int, now_ms: u64) -> Option<int> {
    crate::sequences::first_place(
        |i: int| retry_due(endpoints[i].link, now_ms),
        from,
        endpoints.len() as int,
    )
}

/// Whether an endpoint of the list, from a place on, is due; the first such.
pub open spec fn first_due_output(endpoints: Seq<OutputEndpoint>, from: int, now_ms: u64) -> Option<
    int,
> {
    crate::sequences::first_place(
        |i: int| retry_due(endpoints[i].link, now_ms),
        from,
        endpoints.len() as int,
    )
}

/// A connection that is being made again.
pub open spec fn reconnecting(link: Link) -> Link {
    Link {
        device_channels: link.device_channels,
        max_samples: link.max_samples,
        phase: EndpointPhase::Reconnecting,
        attempts: link.attempts,
        next_retry_at: link.next_retry_at,
    }
}

/// A connection whose attempt failed.
pub open spec fn failed_again(link: Link, now_ms: u64, clock_ms: u64) -> Link {
    degraded_link(
        link,
        Some(
            if link.attempts == u32::MAX {
                u32::MAX
            } else {
                (link.attempts + 1) as u32
            },
        ),
        now_ms,
        clock_ms,
    )
}

impl ExternalIoRuntime {
    /// Notes the error that a stream of an input reported.
    pub fn note_input_error(&mut self, index: usize, error: &str)
        requires
            old(self).wf(),
            index < old(self).input_endpoints.values().len(),
        ensures
            final(self).wf(),
            final(self).input_endpoints.keys() == old(self).input_endpoints.keys(),
            ({
                let before = old(self).input_endpoints.values()[index as int];
                let after = final(self).input_endpoints.values()[index as int];
                let text = stream_error_text(EndpointKind::Input, before.uid@, error@);
                &&& final(self).input_endpoints.values()
                    == old(self).input_endpoints.values().update(index as int, after)
                &&& same_input(after, before)
                &&& after.link == before.link
                &&& after.restart_attempts == before.restart_attempts
                &&& after.xrun_count == counted(before.xrun_count, 1)
                &&& errors_with(
                    before.errors@,
                    after.errors@,
                    text,
                    ENDPOINT_ERROR_RING_CAPACITY as int,
                )
                &&& errors_with(
                    old(self).stream_errors@,
                    final(self).stream_errors@,
                    text,
                    STREAM_ERROR_RING_CAPACITY as int,
                )
            }),
            final(self).xrun_count == counted(old(self).xrun_count, 1),
            final(self).output_endpoints == old(self).output_endpoints,
            final(self).buffer_frames == old(self).buffer_frames,
            final(self).underrun_count == old(self).underrun_count,
            final(self).overrun_count == old(self).overrun_count,
            final(self).restart_attempts == old(self).restart_attempts,
    {
        self.xrun_count = count_up(self.xrun_count, 1);
        let endpoint = self.input_endpoints.value_mut(index);
        let message = quoted("external input stream error for '", endpoint.uid.as_str(), error);
        push_bounded_error_with_capacity(
            &mut endpoint.errors,
            message.clone(),
            ENDPOINT_ERROR_RING_CAPACITY,
        );
        endpoint.xrun_count = count_up(endpoint.xrun_count, 1);
        push_bounded_error_with_capacity(
            &mut self.stream_errors,
            message,
            STREAM_ERROR_RING_CAPACITY,
        );
    }

    /// Notes the error that a stream of an output reported.
    pub fn note_output_error(&mut self, index: usize, error: &str)
        requires
            old(self).wf(),
            index < old(self).output_endpoints.values().len(),
        ensures
            final(self).wf(),
            final(self).output_endpoints == old(self).output_endpoints,
            final(self).input_endpoints == old(self).input_endpoints,
            final(self).xrun_count == counted(old(self).xrun_count, 1),
            final(self).buffer_frames == old(self).buffer_frames,
            final(self).underrun_count == old(self).underrun_count,
            final(self).overrun_count == old(self).overrun_count,
            final(self).restart_attempts == old(self).restart_attempts,
            errors_with(
                old(self).stream_errors@,
                final(self).stream_errors@,
                stream_error_text(
                    EndpointKind::Output,
                    old(self).output_endpoints.values()[index as int].uid@,
                    error@,
                ),
                STREAM_ERROR_RING_CAPACITY as int,
            ),
    {
        self.xrun_count = count_up(self.xrun_count, 1);
        let uid = &self.output_endpoints.value_at(index).uid;
        let message = quoted("external output stream error for '", uid.as_str(), error);
        push_bounded_error_with_capacity(
            &mut self.stream_errors,
            message,
            STREAM_ERROR_RING_CAPACITY,
        );
    }

    /// Takes in an event; says whether to go on. An endpoint whose stream broke is to be
    /// connected again after a wait.
    pub fn handle_event(&mut self, event: RecoveryEvent, now_ms: u64, clock_ms: u64) -> (r: bool)
        requires
            old(self).wf(),
        ensures
            final(self).wf(),
            r == (event is StreamError || event is Timeout),
            final(self).input_endpoints.keys() == old(self).input_endpoints.keys(),
            final(self).output_endpoints.keys() == old(self).output_endpoints.keys(),
            match event {
                RecoveryEvent::StreamError { kind: EndpointKind::Input, node_id } => {
                    &&& final(self).output_endpoints == old(self).output_endpoints
                    &&& if old(self).input_endpoints.has(node_id@) {
                        let place = place_of(old(self).input_endpoints, node_id@);
                        let before = old(self).input_endpoints.values()[place];
                        let after = final(self).input_endpoints.values()[place];
                        &&& final(self).input_endpoints.values()
                            == old(self).input_endpoints.values().update(place, after)
                        &&& same_input(after, before)
                        &&& after.xrun_count == before.xrun_count
                        &&& after.restart_attempts == before.restart_attempts
                        &&& after.errors == before.errors
                        &&& after.link == degraded_link(before.link, None, now_ms, clock_ms)
                    } else {
                        final(self).input_endpoints.values() == old(self).input_endpoints.values()
                    }
                },
                RecoveryEvent::StreamError { kind: EndpointKind::Output, node_id } => {
                    &&& final(self).input_endpoints == old(self).input_endpoints
                    &&& if old(self).output_endpoints.has(node_id@) {
                        let place = place_of(old(self).output_endpoints, node_id@);
                        let before = old(self).output_endpoints.values()[place];
                        let after = final(self).output_endpoints.values()[place];
                        &&& final(self).output_endpoints.values()
                            == old(self).output_endpoints.values().update(place, after)
                        &&& same_output(after, before)
                        &&& after.link == degraded_link(before.link, None, now_ms, clock_ms)
                    } else {
                        final(self).output_endpoints.values()
                            == old(self).output_endpoints.values()
                    }
                },
                _ => *final(self) == *old(self),
            },
            final(self).stream_errors == old(self).stream_errors,
            final(self).restart_attempts == old(self).restart_attempts,
            final(self).buffer_frames == old(self).buffer_frames,
            final(self).underrun_count == old(self).underrun_count,
            final(self).overrun_count == old(self).overrun_count,
            final(self).xrun_count == old(self).xrun_count,
    {
        match event {
            RecoveryEvent::StopRequested => false,
            RecoveryEvent::Disconnected => false,
            RecoveryEvent::Timeout => true,
            RecoveryEvent::StreamError { kind: EndpointKind::Input, node_id } => {
                if let Some(i) = self.input_endpoints.find(node_id.as_str()) {
                    proof {
                        let keys = self.input_endpoints.keys();
                        crate::string_map::lemma_increasing_places(
                            keys,
                            i as int,
                            keys.index_of(node_id@),
                        );
                    }
                    let endpoint = self.input_endpoints.value_mut(i);
                    mark_degraded(&mut endpoint.link, None, now_ms, clock_ms);
                }
                true
            },
            RecoveryEvent::StreamError { kind: EndpointKind::Output, node_id } => {
                if let Some(i) = self.output_endpoints.find(node_id.as_str()) {
                    proof {
                        let keys = self.output_endpoints.keys();
                        crate::string_map::lemma_increasing_places(
                            keys,
                            i as int,
                            keys.index_of(node_id@),
                        );
                    }
                    let endpoint = self.output_endpoints.value_mut(i);
                    mark_degraded(&mut endpoint.link, None, now_ms, clock_ms);
                }
                true
            },
        }
    }

    /// The next input, from a place on, that is to be connected again. It is marked so, and
    /// the attempt is counted.
    pub fn next_input_retry(&mut self, from: usize, now_ms: u64) -> (r: Option<usize>)
        requires
            old(self).wf(),
        ensures
            final(self).wf(),
            final(self).input_endpoints.keys() == old(self).input_endpoints.keys(),
            final(self).output_endpoints == old(self).output_endpoints,
            final(self).stream_errors == old(self).stream_errors,
            final(self).buffer_frames == old(self).buffer_frames,
            final(self).underrun_count == old(self).underrun_count,
            final(self).overrun_count == old(self).overrun_count,
            final(self).xrun_count == old(self).xrun_count,
            match r {
                None => first_due_input(
                    old(self).input_endpoints.values(),
                    from as int,
                    now_ms,
                ) is None && *final(self) == *old(self),
                Some(i) => {
                    let before = old(self).input_endpoints.values()[i as int];
                    let after = final(self).input_endpoints.values()[i as int];
                    &&& first_due_input(
                        old(self).input_endpoints.values(),
                        from as int,
                        now_ms,
                    ) == Some(i as int)
                    &&& from <= i < old(self).input_endpoints.values().len()
                    &&& final(self).input_endpoints.values()
                        == old(self).input_endpoints.values().update(i as int, after)
                    &&& same_input(after, before)
                    &&& after.xrun_count == before.xrun_count
                    &&& after.errors == before.errors
                    &&& after.link == reconnecting(before.link)
                    &&& after.restart_attempts == counted(before.restart_attempts, 1)
                    &&& final(self).restart_attempts == counted(old(self).restart_attempts, 1)
                },
            },
    {
        let ghost all = self.input_endpoints.values();
        let ghost due = |i: int| retry_due(all[i].link, now_ms);
        let mut i: usize = from;
        while i < self.input_endpoints.len()
            invariant
                *self == *old(self),
                self.wf(),
                from <= i,
                all == self.input_endpoints.values(),
                due == |i: int| retry_due(all[i].link, now_ms),
                first_due_input(all, from as int, now_ms) == crate::sequences::first_place(
                    due,
                    i as int,
                    all.len() as int,
                ),
            decreases self.input_endpoints.values().len() - i,
        {
            let link = self.input_endpoints.value_at(i).link;
            if is_retry_due(&link, now_ms) {
                let endpoint = self.input_endpoints.value_mut(i);
                endpoint.link.phase = EndpointPhase::Reconnecting;
                endpoint.restart_attempts = count_up(endpoint.restart_attempts, 1);
                self.restart_attempts = count_up(self.restart_attempts, 1);
                return Some(i);
            }
            i = i + 1;
        }
        None
    }

    /// The next output, from a place on, that is to be connected again. It is marked so, and
    /// the attempt is counted.
    pub fn next_output_retry(&mut self, from: usize, now_ms: u64) -> (r: Option<usize>)
        requires
            old(self).wf(),
        ensures
            final(self).wf(),
            final(self).output_endpoints.keys() == old(self).output_endpoints.keys(),
            final(self).input_endpoints == old(self).input_endpoints,
            final(self).stream_errors == old(self).stream_errors,
            final(self).buffer_frames == old(self).buffer_frames,
            final(self).underrun_count == old(self).underrun_count,
            final(self).overrun_count == old(self).overrun_count,
            final(self).xrun_count == old(self).xrun_count,
            match r {
                None => first_due_output(
                    old(self).output_endpoints.values(),
                    from as int,
                    now_ms,
                ) is None && *final(self) == *old(self),
                Some(i) => {
                    let before = old(self).output_endpoints.values()[i as int];
                    let after = final(self).output_endpoints.values()[i as int];
                    &&& first_due_output(
                        old(self).output_endpoints.values(),
                        from as int,
                        now_ms,
                    ) == Some(i as int)
                    &&& from <= i < old(self).output_endpoints.values().len()
                    &&& final(self).output_endpoints.values()
                        == old(self).output_endpoints.values().update(i as int, after)
                    &&& same_output(after, before)
                    &&& after.link == reconnecting(before.link)
                    &&& final(self).restart_attempts == counted(old(self).restart_attempts, 1)
                },
            },
    {
        let ghost all = self.output_endpoints.values();
        let ghost due = |i: int| retry_due(all[i].link, now_ms);
        let mut i: usize = from;
        while i < self.output_endpoints.len()
            invariant
                *self == *old(self),
                self.wf(),
                from <= i,
                all == self.output_endpoints.values(),
                due == |i: int| retry_due(all[i].link, now_ms),
                first_due_output(all, from as int, now_ms) == crate::sequences::first_place(
                    due,
                    i as int,
                    all.len() as int,
                ),
            decreases self.output_endpoints.values().len() - i,
        {
            let link = self.output_endpoints.value_at(i).link;
            if is_retry_due(&link, now_ms) {
                let endpoint = self.output_endpoints.value_mut(i);
                endpoint.link.phase = EndpointPhase::Reconnecting;
                self.restart_attempts = count_up(self.restart_attempts, 1);
                return Some(i);
            }
            i = i + 1;
        }
        None
    }

    /// Notes what came of connecting an input again: the channels of its device, or an error.
    pub fn finish_input_retry(
        &mut self,
        index: usize,
        outcome: Result<usize, String>,
        now_ms: u64,
        clock_ms: u64,
    )
        requires
            old(self).wf(),
            index < old(self).input_endpoints.values().len(),
        ensures
            final(self).wf(),
            final(self).input_endpoints.keys() == old(self).input_endpoints.keys(),
            final(self).output_endpoints == old(self).output_endpoints,
            final(self).restart_attempts == old(self).restart_attempts,
            final(self).buffer_frames == old(self).buffer_frames,
            final(self).underrun_count == old(self).underrun_count,
            final(self).overrun_count == old(self).overrun_count,
            final(self).xrun_count == old(self).xrun_count,
            ({
                let before = old(self).input_endpoints.values()[index as int];
                let after = final(self).input_endpoints.values()[index as int];
                &&& final(self).input_endpoints.values()
                    == old(self).input_endpoints.values().update(index as int, after)
                &&& same_input(after, before)
                &&& after.restart_attempts == before.restart_attempts
                &&& match outcome {
                    Ok(channels) => {
                        &&& after.link == connected_link(channels, old(self).buffer_frames)
                        &&& after.errors == before.errors
                        &&& after.xrun_count == before.xrun_count
                        &&& final(self).stream_errors == old(self).stream_errors
                    },
                    Err(error) => {
                        &&& after.link == failed_again(before.link, now_ms, clock_ms)
                        &&& after.xrun_count == counted(before.xrun_count, 1)
                        &&& errors_with(
                            before.errors@,
                            after.errors@,
                            "reconnect failed for '"@ + before.uid@ + "': "@ + error@,
                            ENDPOINT_ERROR_RING_CAPACITY as int,
                        )
                        &&& errors_with(
                            old(self).stream_errors@,
                            final(self).stream_errors@,
                            reconnect_error_text(EndpointKind::Input, before.uid@, error@),
                            STREAM_ERROR_RING_CAPACITY as int,
                        )
                    },
                }
            }),
    {
        let buffer_frames = self.buffer_frames;
        let endpoint = self.input_endpoints.value_mut(index);
        match outcome {
            Ok(channels) => {
                endpoint.link = make_link(channels, buffer_frames);
            },
            Err(error) => {
                let message = quoted(
                    "external input reconnect failed for '",
                    endpoint.uid.as_str(),
                    error.as_str(),
                );
                let short = quoted("reconnect failed for '", endpoint.uid.as_str(), error.as_str());
                push_bounded_error_with_capacity(
                    &mut endpoint.errors,
                    short,
                    ENDPOINT_ERROR_RING_CAPACITY,
                );
                endpoint.xrun_count = count_up(endpoint.xrun_count, 1);
                let attempts = endpoint.link.attempts.saturating_add(1);
                mark_degraded(&mut endpoint.link, Some(attempts), now_ms, clock_ms);
                push_bounded_error_with_capacity(
                    &mut self.stream_errors,
                    message,
                    STREAM_ERROR_RING_CAPACITY,
                );
            },
        }
    }

    /// Notes what came of connecting an output again: the channels of its device, or an
    /// error.
    pub fn finish_output_retry(
        &mut self,
        index: usize,
        outcome: Result<usize, String>,
        now_ms: u64,
        clock_ms: u64,
    )
        requires
            old(self).wf(),
            index < old(self).output_endpoints.values().len(),
        ensures
            final(self).wf(),
            final(self).output_endpoints.keys() == old(self).output_endpoints.keys(),
            final(self).input_endpoints == old(self).input_endpoints,
            final(self).restart_attempts == old(self).restart_attempts,
            final(self).buffer_frames == old(self).buffer_frames,
            final(self).underrun_count == old(self).underrun_count,
            final(self).overrun_count == old(self).overrun_count,
            final(self).xrun_count == old(self).xrun_count,
            ({
                let before = old(self).output_endpoints.values()[index as int];
                let after = final(self).output_endpoints.values()[index as int];
                &&& final(self).output_endpoints.values()
                    == old(self).output_endpoints.values().update(index as int, after)
                &&& same_output(after, before)
                &&& match outcome {
                    Ok(channels) => {
                        &&& after.link == connected_link(channels, old(self).buffer_frames)
                        &&& final(self).stream_errors == old(self).stream_errors
                    },
                    Err(error) => {
                        &&& after.link == failed_again(before.link, now_ms, clock_ms)
                        &&& errors_with(
                            old(self).stream_errors@,
                            final(self).stream_errors@,
                            reconnect_error_text(EndpointKind::Output, before.uid@, error@),
                            STREAM_ERROR_RING_CAPACITY as int,
                        )
                    },
                }
            }),
    {
        let buffer_frames = self.buffer_frames;
        let endpoint = self.output_endpoints.value_mut(index);
        match outcome {
            Ok(channels) => {
                endpoint.link = make_link(channels, buffer_frames);
            },
            Err(error) => {
                let message = quoted(
                    "external output reconnect failed for '",
                    endpoint.uid.as_str(),
                    error.as_str(),
                );
                let attempts = endpoint.link.attempts.saturating_add(1);
                mark_degraded(&mut endpoint.link, Some(attempts), now_ms, clock_ms);
                push_bounded_error_with_capacity(
                    &mut self.stream_errors,
                    message,
                    STREAM_ERROR_RING_CAPACITY,
                );
            },
        }
    }
}

/// Where connecting again keeps failing, every attempt is counted on the connection and the
/// endpoint stays degraded with a time for the next try.
pub proof fn law_failed_retry_is_rescheduled(link: Link, now_ms: u64, clock_ms: u64)
    requires
        link.attempts < u32::MAX,
        now_ms <= u64::MAX - RECOVERY_MAX_BACKOFF_MS - RECOVERY_JITTER_MAX_MS,
    ensures
        failed_again(reconnecting(link), now_ms, clock_ms).phase == EndpointPhase::Degraded,
        failed_again(reconnecting(link), now_ms, clock_ms).attempts == link.attempts + 1,
        !retry_due(failed_again(reconnecting(link), now_ms, clock_ms), now_ms),
        retry_due(
            failed_again(reconnecting(link), now_ms, clock_ms),
            (now_ms + RECOVERY_MAX_BACKOFF_MS + RECOVERY_JITTER_MAX_MS) as u64,
        ),
{
    law_backoff_grows((link.attempts + 1) as int, (link.attempts + 1) as int);
}

// ---------------------------------------------------------------------------
// Snapshots

/// How many inputs are in a phase that satisfies a condition.
pub open spec fn inputs_in(
    endpoints: Seq<InputEndpoint>,
    phase: spec_fn(EndpointPhase) -> bool,
    n: int,
) -> nat {
    kept(|i: int| phase(endpoints[i].link.phase), n).len()
}

/// How many outputs are in a phase that satisfies a condition.
pub open spec fn outputs_in(
    endpoints: Seq<OutputEndpoint>,
    phase: spec_fn(EndpointPhase) -> bool,
    n: int,
) -> nat {
    kept(|i: int| phase(endpoints[i].link.phase), n).len()
}

/// The state of an input endpoint.
pub open spec fn snapshot_of(s: ExternalInputEndpointSnapshot, e: InputEndpoint) -> bool {
    &&& s.node_id == e.node_id
    &&& s.uid == e.uid
    &&& s.health == e.link.phase.health()
    &&& s.ingested_frames == e.ingested_frames
    &&& s.underrun_count == e.underrun_count
    &&& s.overrun_count == e.overrun_count
    &&& s.xrun_count == e.xrun_count
    &&& s.restart_attempts == e.restart_attempts
    &&& s.error_ring@ == e.errors@
}

fn copy_ring(ring: &VecDeque<String>) -> (r: Vec<String>)
    ensures
        r@ == ring@,
{
    let mut list: Vec<String> = Vec::new();
    let mut i: usize = 0;
    while i < ring.len()
        invariant
            i <= ring@.len(),
            list@ =~= ring@.take(i as int),
        decreases ring@.len() - i,
    {
        list.push(ring[i].clone());
        i = i + 1;
    }
    assert(list@ =~= ring@);
    list
}

impl ExternalIoRuntime {
    /// The state of all endpoints.
    #[must_use]
    pub fn snapshot(&self) -> (r: ExternalRuntimeSnapshot)
        requires
            self.wf(),
        ensures
            ({
                let inputs = self.input_endpoints.values();
                let outputs = self.output_endpoints.values();
                let connected = |p: EndpointPhase| p == EndpointPhase::Connected;
                let degraded = |p: EndpointPhase| p.degraded();
                &&& r.status.connected_inputs == inputs_in(inputs, connected, inputs.len() as int)
                &&& r.status.degraded_inputs == inputs_in(inputs, degraded, inputs.len() as int)
                &&& r.status.connected_outputs == outputs_in(
                    outputs,
                    connected,
                    outputs.len() as int,
                )
                &&& r.status.degraded_outputs == outputs_in(outputs, degraded, outputs.len() as int)
                &&& r.input_endpoints@.len() == inputs.len()
                &&& forall|i: int|
                    0 <= i < inputs.len() ==> snapshot_of(
                        #[trigger] r.input_endpoints@[i],
                        inputs[i],
                    )
            }),
            r.status.restart_attempts == self.restart_attempts,
            r.status.stream_errors@ == self.stream_errors@,
            r.counters.underrun_count == self.underrun_count,
            r.counters.overrun_count == self.overrun_count,
            r.counters.xrun_count == self.xrun_count,
    {
        let ghost inputs = self.input_endpoints.values();
        let ghost outputs = self.output_endpoints.values();
        let ghost connected = |p: EndpointPhase| p == EndpointPhase::Connected;
        let ghost degraded = |p: EndpointPhase| p.degraded();
        let mut connected_inputs: usize = 0;
        let mut degraded_inputs: usize = 0;
        let mut list: Vec<ExternalInputEndpointSnapshot> = Vec::new();
        let mut i: usize = 0;
        while i < self.input_endpoints.len()
            invariant
                self.wf(),
                i <= inputs.len(),
                inputs == self.input_endpoints.values(),
                connected == |p: EndpointPhase| p == EndpointPhase::Connected,
                degraded == |p: EndpointPhase| p.degraded(),
                connected_inputs == inputs_in(inputs, connected, i as int),
                degraded_inputs == inputs_in(inputs, degraded, i as int),
                connected_inputs <= i,
                degraded_inputs <= i,
                list@.len() == i,
                forall|k: int| 0 <= k < i ==> snapshot_of(#[trigger] list@[k], inputs[k]),
            decreases inputs.len() - i,
        {
            let endpoint = self.input_endpoints.value_at(i);
            let phase = endpoint.link.phase;
            if phase.is_connected() {
                connected_inputs = connected_inputs + 1;
            } else if phase.is_degraded() {
                degraded_inputs = degraded_inputs + 1;
            }
            list.push(
                ExternalInputEndpointSnapshot {
                    node_id: endpoint.node_id.clone(),
                    uid: endpoint.uid.clone(),
                    health: phase.into_health(),
                    ingested_frames: endpoint.ingested_frames,
                    underrun_count: endpoint.underrun_count,
                    overrun_count: endpoint.overrun_count,
                    xrun_count: endpoint.xrun_count,
                    restart_attempts: endpoint.restart_attempts,
                    error_ring: copy_ring(&endpoint.errors),
                },
            );
            i = i + 1;
        }
        let mut connected_outputs: usize = 0;
        let mut degraded_outputs: usize = 0;
        i = 0;
        while i < self.output_endpoints.len()
            invariant
                self.wf(),
                i <= outputs.len(),
                outputs == self.output_endpoints.values(),
                connected == |p: EndpointPhase| p == EndpointPhase::Connected,
                degraded == |p: EndpointPhase| p.degraded(),
                connected_outputs == outputs_in(outputs, connected, i as int),
                degraded_outputs == outputs_in(outputs, degraded, i as int),
                connected_outputs <= i,
                degraded_outputs <= i,
            decreases outputs.len() - i,
        {
            let phase = self.output_endpoints.value_at(i).link.phase;
            if phase.is_connected() {
                connected_outputs = connected_outputs + 1;
            } else if phase.is_degraded() {
                degraded_outputs = degraded_outputs + 1;
            }
            i = i + 1;
        }
        ExternalRuntimeSnapshot {
            status: ExternalRuntimeStatus {
                connected_inputs,
                connected_outputs,
                degraded_inputs,
                degraded_outputs,
                restart_attempts: self.restart_attempts,
                stream_errors: copy_ring(&self.stream_errors),
            },
            counters: ExternalRuntimeCounters {
                underrun_count: self.underrun_count,
                overrun_count: self.overrun_count,
                xrun_count: self.xrun_count,
            },
            input_endpoints: list,
        }
    }
}

// ---------------------------------------------------------------------------
// Laws of endpoints

/// The wait before a retry begins with a quarter of a second and doubles with each attempt, up to
/// ten seconds.
pub proof fn law_backoff_doubles(attempts: int)
    requires
        attempts >= 1,
    ensures
        base_backoff(1) == 250,
        2 * base_backoff(attempts) <= 10_000 ==> base_backoff(attempts + 1) == 2 * base_backoff(
            attempts,
        ),
        2 * base_backoff(attempts) > 10_000 ==> base_backoff(attempts + 1) == 10_000,
{
}

/// A connection that is lost is tried again after the wait of its attempts, and at most a fifth of
/// a second later; each loss counts as one attempt more.
pub proof fn law_lost_connections_wait(link: Link, now_ms: u64, clock_ms: u64)
    requires
        link.attempts < u32::MAX,
        now_ms <= u64::MAX - 20_000,
    ensures
        ({
            let lost = degraded_link(link, None, now_ms, clock_ms);
            let wait = base_backoff(link.attempts + 1);
            &&& lost.phase == EndpointPhase::Degraded
            &&& lost.attempts == link.attempts + 1
            &&& lost.device_channels == link.device_channels
            &&& lost.max_samples == link.max_samples
            &&& lost.next_retry_at is Some
            &&& now_ms + wait <= lost.next_retry_at->0 <= now_ms + wait + 200
        }),
{
    law_backoff_grows(link.attempts + 1, link.attempts + 1);
}

/// A retry is due exactly where a connection is lost and the time of its retry has come.
pub proof fn law_retries_are_due_in_time(link: Link, now_ms: u64)
    ensures
        retry_due(link, now_ms) <==> link.phase == EndpointPhase::Degraded && link.next_retry_at
            is Some && link.next_retry_at->0 <= now_ms,
        retry_due(link, now_ms) ==> reconnecting(link).phase == EndpointPhase::Reconnecting
            && !retry_due(reconnecting(link), now_ms),
{
}

/// A connection that is made begins anew: no attempts, no retry, and a queue with room for
/// sixteen buffers of the device.
pub proof fn law_connections_begin_anew(device_channels: usize, buffer_frames: u32)
    ensures
        ({
            let link = connected_link(device_channels, buffer_frames);
            &&& link.phase == EndpointPhase::Connected
            &&& link.attempts == 0
            &&& link.next_retry_at is None
            &&& link.device_channels == device_channels
            &&& device_channels >= 1 && buffer_frames * 16 * device_channels <= usize::MAX
                ==> link.max_samples == buffer_frames * 16 * device_channels
        }),
{
    if device_channels >= 1 && buffer_frames * 16 * device_channels <= usize::MAX {
        assert(buffer_frames * 16 <= buffer_frames * 16 * device_channels) by (nonlinear_arith)
            requires
                device_channels >= 1,
                buffer_frames >= 0,
        ;
    }
}

/// What is read from a device that has as many channels as the node comes as it was captured; one
/// channel is heard on both of two, and two are averaged, left with right, to one. A device that
/// is not connected is silent, and that is counted.
pub proof fn law_inputs_are_converted<F: Fn(u32, u32) -> u32>(
    e: InputEndpoint,
    after: InputEndpoint,
    out_before: Seq<u32>,
    out_after: Seq<u32>,
    average: F,
    f: int,
)
    requires
        input_read(e, after, out_before, out_after, average),
        0 <= f,
    ensures
        out_after.len() == out_before.len(),
        e.link.phase != EndpointPhase::Connected && f < out_before.len() ==> out_after[f] == 0,
        e.link.phase != EndpointPhase::Connected ==> after.queue@ == e.queue@,
        e.link.phase == EndpointPhase::Connected && e.link.device_channels == e.node_channels && f
            < out_before.len() && f < e.queue@.len() ==> out_after[f] == e.queue@[f],
        e.link.phase == EndpointPhase::Connected && e.link.device_channels == 1 && e.node_channels
            == 2 && 2 * f + 1 < out_before.len() && f < e.queue@.len() ==> out_after[2 * f]
            == e.queue@[f] && out_after[2 * f + 1] == e.queue@[f],
        e.link.phase == EndpointPhase::Connected && e.link.device_channels == 2 && e.node_channels
            == 1 && f < out_before.len() && 2 * f + 1 < e.queue@.len() ==> call_ensures(
            average,
            (e.queue@[2 * f], e.queue@[2 * f + 1]),
            out_after[f],
        ),
        e.link.phase != EndpointPhase::Connected && e.underrun_count < u64::MAX
            ==> after.underrun_count == e.underrun_count + 1,
        e.link.phase != EndpointPhase::Connected && e.xrun_count < u64::MAX ==> after.xrun_count
            == e.xrun_count + 1,
        e.link.phase == EndpointPhase::Connected && e.link.device_channels == e.node_channels
            && e.queue@.len() >= out_before.len() ==> after.underrun_count == e.underrun_count
            && after.xrun_count == e.xrun_count && after.queue@ == e.queue@.skip(
            out_before.len() as int,
        ),
{
    let len = out_before.len() as int;
    let got = taken(e.queue@, samples_needed(e.link.device_channels, e.node_channels, len));
    if e.link.phase == EndpointPhase::Connected && e.link.device_channels == 1 && e.node_channels
        == 2 && 2 * f + 1 < len {
        assert(out_after[2 * f] == got[f]);
        assert(out_after[2 * f + 1] == got[f]);
    }
    if e.link.phase == EndpointPhase::Connected && e.link.device_channels == e.node_channels
        && e.queue@.len() >= len {
        assert(left_over(e.queue@, len) =~= e.queue@.skip(len));
    }
}

/// How many frames came in is counted by what was there: as many whole frames of the node as the
/// queue of the device gave.
pub proof fn law_frames_that_came_in_are_counted(node: usize, len: int, queued: int)
    requires
        0 <= len,
        0 <= queued,
        node >= 1,
    ensures
        len <= queued ==> frames_taken(node, node, len, queued) == len / (node as int),
        queued < len ==> frames_taken(node, node, len, queued) == queued / (node as int),
        frames_taken(1, 2, len, queued) == if len / 2 < queued {
            len / 2
        } else {
            queued
        },
        2 * len <= queued ==> frames_taken(2, 1, len, queued) == len,
{
}

/// What is written to a device that has as many channels as the node goes out as it is; one
/// channel goes to both of two, and two are averaged, left with right, to one. It goes behind
/// what is queued, and a device that is not connected takes nothing, which is an overrun.
pub proof fn law_outputs_are_converted<F: Fn(u32, u32) -> u32>(
    e: OutputEndpoint,
    after: OutputEndpoint,
    data: Seq<u32>,
    average: F,
    overrun: bool,
    f: int,
)
    requires
        output_written(e, after, data, average, overrun),
        0 <= f < data.len(),
    ensures
        e.link.phase != EndpointPhase::Connected ==> overrun && after.queue@ == e.queue@,
        e.link.phase == EndpointPhase::Connected && e.node_channels == e.link.device_channels
            && e.queue@.len() + data.len() <= e.link.max_samples ==> !overrun && after.queue@
            == e.queue@ + data,
        e.link.phase == EndpointPhase::Connected && e.node_channels == 1 && e.link.device_channels
            == 2 && e.queue@.len() + 2 * data.len() <= e.link.max_samples ==> !overrun
            && after.queue@.len() == e.queue@.len() + 2 * data.len() && after.queue@[e.queue@.len()
            + 2 * f] == data[f] && after.queue@[e.queue@.len() + 2 * f + 1] == data[f],
        e.link.phase == EndpointPhase::Connected && e.node_channels == 2 && e.link.device_channels
            == 1 && e.queue@.len() + data.len() / 2 <= e.link.max_samples && 2 * f + 1
            < data.len() ==> !overrun && after.queue@.len() == e.queue@.len() + data.len() / 2
            && call_ensures(
            average,
            (data[2 * f], data[2 * f + 1]),
            after.queue@[e.queue@.len() + f],
        ),
        e.link.phase == EndpointPhase::Connected && e.node_channels == e.link.device_channels
            && e.queue@.len() + data.len() > e.link.max_samples ==> overrun && after.queue@.len()
            == e.link.max_samples && (e.link.max_samples > 0 ==> after.queue@.last()
            == data.last()),
{
    let converted = choose|converted: Seq<u32>| #[trigger]
        write_gives(e.node_channels, e.link.device_channels, data, converted, average) && overrun
            == write_overruns(e, converted) && after.queue@ == if e.link.phase
            == EndpointPhase::Connected {
            filled(e.queue@, converted, e.link.max_samples as int)
        } else {
            e.queue@
        };
    if e.node_channels == 2 && e.link.device_channels == 1 && 2 * f + 1 < data.len() {
        assert(converted.len() == data.len() / 2);
        assert(call_ensures(average, (data[2 * f], data[2 * f + 1]), converted[f]));
        if e.link.phase == EndpointPhase::Connected && e.queue@.len() + data.len() / 2
            <= e.link.max_samples {
            assert(after.queue@ == e.queue@ + converted);
        }
    }
}

/// Every endpoint is counted as what it is: where all of them are connected, as many are as there
/// are endpoints, and none is degraded.
pub proof fn law_endpoints_are_counted(
    inputs: Seq<InputEndpoint>,
    phase: spec_fn(EndpointPhase) -> bool,
    n: int,
)
    requires
        0 <= n < inputs.len(),
    ensures
        inputs_in(inputs, phase, 0) == 0,
        inputs_in(inputs, phase, n + 1) == inputs_in(inputs, phase, n) + if phase(
            inputs[n].link.phase,
        ) {
            1int
        } else {
            0int
        },
{
}

/// The wait before a retry is that of its attempts, and at most a fifth of a second longer.
pub proof fn law_waits_are_spread(attempts: u32, clock_ms: u64, wait: u64)
    requires
        call_ensures(reconnect_backoff, (attempts, clock_ms), wait),
    ensures
        base_backoff(attempts as int) <= wait <= base_backoff(attempts as int) + 200,
        250 <= wait <= 10_200,
{
    law_backoff_grows(attempts as int, attempts as int);
}

/// The endpoint that is tried next is the first one that is due, from a place on.
pub proof fn law_first_due_comes_next(endpoints: Seq<InputEndpoint>, from: int, now_ms: u64)
    requires
        0 <= from,
    ensures
        match first_due_input(endpoints, from, now_ms) {
            Some(i) => from <= i < endpoints.len() && retry_due(endpoints[i].link, now_ms) && (
            forall|k: int| from <= k < i ==> !retry_due((#[trigger] endpoints[k]).link, now_ms)),
            None => forall|k: int|
                from <= k < endpoints.len() ==> !retry_due((#[trigger] endpoints[k]).link, now_ms),
        },
    decreases endpoints.len() - from,
{
    if from < endpoints.len() {
        law_first_due_comes_next(endpoints, from + 1, now_ms);
    }
}

} // verus!
