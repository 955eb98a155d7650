//! Audio to and from external devices: bounded queues, channel conversion, counters.

use std::collections::VecDeque;
use vstd::prelude::*;

verus! {

/// How many buffers a queue holds.
pub const EXTERNAL_QUEUE_PERIODS: usize = 16;

/// How many errors of all streams are kept.
pub const STREAM_ERROR_RING_CAPACITY: usize = 64;

/// How many errors of one endpoint are kept.
pub const ENDPOINT_ERROR_RING_CAPACITY: usize = 32;

/// An endpoint to connect.
#[derive(Debug, PartialEq, Eq)]
pub struct ExternalEndpointConfig {
    pub node_id: String,
    pub uid: String,
    pub channels: u16,
}

/// What is counted over all endpoints.
#[derive(Debug, Clone, Copy, PartialEq, Eq)]
pub struct ExternalRuntimeCounters {
    pub underrun_count: u64,
    pub overrun_count: u64,
    pub xrun_count: u64,
}

/// How an endpoint fares, as others see it.
#[derive(Debug, Clone, Copy, PartialEq, Eq, Structural)]
pub enum ExternalEndpointHealth {
    Connected,
    Degraded,
    Reconnecting,
    Stopped,
}

impl Default for ExternalEndpointHealth {
    fn default() -> (r: ExternalEndpointHealth)
        ensures
            r == ExternalEndpointHealth::Stopped,
    {
        ExternalEndpointHealth::Stopped
    }
}

/// The state of an input endpoint at one moment.
#[derive(Debug, PartialEq, Eq)]
pub struct ExternalInputEndpointSnapshot {
    pub node_id: String,
    pub uid: String,
    pub health: ExternalEndpointHealth,
    pub ingested_frames: u64,
    pub underrun_count: u64,
    pub overrun_count: u64,
    pub xrun_count: u64,
    pub restart_attempts: u64,
    pub error_ring: Vec<String>,
}

/// The state of all endpoints in numbers.
#[derive(Debug, Clone, PartialEq, Eq)]
pub struct ExternalRuntimeStatus {
    pub connected_inputs: usize,
    pub connected_outputs: usize,
    pub degraded_inputs: usize,
    pub degraded_outputs: usize,
    pub restart_attempts: u64,
    pub stream_errors: Vec<String>,
}

/// The state of all endpoints at one moment.
#[derive(Debug)]
pub struct ExternalRuntimeSnapshot {
    pub status: ExternalRuntimeStatus,
    pub counters: ExternalRuntimeCounters,
    pub input_endpoints: Vec<ExternalInputEndpointSnapshot>,
}

/// The kinds of endpoint.
#[derive(Debug, Clone, Copy, PartialEq, Eq, Structural)]
pub enum EndpointKind {
    Input,
    Output,
}

/// How an endpoint fares.
#[derive(Debug, Clone, Copy, PartialEq, Eq, Structural)]
pub enum EndpointPhase {
    Connected,
    Degraded,
    Reconnecting,
    Stopped,
}

impl EndpointPhase {
    /// How the phase looks to others.
    pub open spec fn health(self) -> ExternalEndpointHealth {
        match self {
            EndpointPhase::Connected => ExternalEndpointHealth::Connected,
            EndpointPhase::Degraded => ExternalEndpointHealth::Degraded,
            EndpointPhase::Reconnecting => ExternalEndpointHealth::Reconnecting,
            EndpointPhase::Stopped => ExternalEndpointHealth::Stopped,
        }
    }

    /// Whether the stream is there but interrupted.
    pub open spec fn degraded(self) -> bool {
        self == EndpointPhase::Degraded || self == EndpointPhase::Reconnecting
    }

    /// Whether the stream runs.
    pub fn is_connected(self) -> (r: bool)
        ensures
            r == (self == EndpointPhase::Connected),
    {
        matches!(self, EndpointPhase::Connected)
    }

    /// Whether the stream is there but interrupted.
    pub fn is_degraded(self) -> (r: bool)
        ensures
            r == self.degraded(),
    {
        matches!(self, EndpointPhase::Degraded | EndpointPhase::Reconnecting)
    }

    /// How the phase looks to others.
    pub fn into_health(self) -> (r: ExternalEndpointHealth)
        ensures
            r == self.health(),
    {
        match self {
            EndpointPhase::Connected => ExternalEndpointHealth::Connected,
            EndpointPhase::Degraded => ExternalEndpointHealth::Degraded,
            EndpointPhase::Reconnecting => ExternalEndpointHealth::Reconnecting,
            EndpointPhase::Stopped => ExternalEndpointHealth::Stopped,
        }
    }
}

// ---------------------------------------------------------------------------
// Counters

/// A counter after it has grown; it starts again behind its largest value.
pub open spec fn counted(count: u64, by: u64) -> u64 {
    if count + by > u64::MAX {
        (count + by - u64::MAX - 1) as u64
    } else {
        (count + by) as u64
    }
}

/// A counter after it has grown; it starts again behind its largest value.
pub fn count_up(count: u64, by: u64) -> (r: u64)
    ensures
        r == counted(count, by),
{
    count.wrapping_add(by)
}

// ---------------------------------------------------------------------------
// Queues

/// The last `n` things of a list.
pub open spec fn last_of<T>(list: Seq<T>, n: int) -> Seq<T> {
    if list.len() <= n {
        list
    } else {
        list.skip(list.len() - n)
    }
}

/// The queue after samples were put in: where there is anything to put in, only the last
/// `limit` are kept.
pub open spec fn filled<T>(queue: Seq<T>, samples: Seq<T>, limit: int) -> Seq<T> {
    if samples.len() == 0 {
        queue
    } else {
        last_of(queue + samples, limit)
    }
}

/// Whether putting samples in pushes others out.
pub open spec fn overflows<T>(queue: Seq<T>, samples: Seq<T>, limit: int) -> bool {
    samples.len() > 0 && queue.len() + samples.len() > limit
}

fn push_bounded(queue: &mut VecDeque<u32>, sample: u32, limit: usize) -> (r: bool)
    ensures
        final(queue)@ == filled(old(queue)@, seq![sample], limit as int),
        r == overflows(old(queue)@, seq![sample], limit as int),
{
    let ghost all = queue@ + seq![sample];
    let mut overrun = false;
    queue.push_back(sample);
    assert(queue@ =~= all.skip(0));
    let ghost mut gone: int = 0;
    while queue.len() > limit
        invariant
            0 <= gone <= all.len(),
            queue@ == all.skip(gone),
            overrun == (gone > 0),
            gone > 0 ==> all.len() - gone >= limit,
        decreases queue.len(),
    {
        let _ = queue.pop_front();
        proof {
            assert(all.skip(gone).skip(1) =~= all.skip(gone + 1));
            assert(queue@ =~= all.skip(gone + 1));
            gone = gone + 1;
        }
        overrun = true;
    }
    proof {
        if all.len() <= limit {
            assert(gone == 0);
            assert(all.skip(0) =~= all);
        } else {
            assert(all.len() - gone == limit);
        }
    }
    overrun
}

proof fn lemma_filled_step<T>(queue: Seq<T>, samples: Seq<T>, sample: T, limit: int)
    requires
        0 <= limit,
    ensures
        filled(filled(queue, samples, limit), seq![sample], limit) == filled(
            queue,
            samples.push(sample),
            limit,
        ),
        overflows(queue, samples.push(sample), limit) <==> overflows(queue, samples, limit)
            || overflows(filled(queue, samples, limit), seq![sample], limit),
{
    let before = filled(queue, samples, limit);
    assert(queue + samples.push(sample) =~= (queue + samples) + seq![sample]);
    if samples.len() == 0 {
        assert(samples.push(sample) =~= seq![sample]);
    } else {
        assert(filled(before, seq![sample], limit) =~= last_of(
            queue + samples.push(sample),
            limit,
        ));
    }
}

/// Puts samples into a queue that keeps the last `max_samples`; says whether others were
/// pushed out.
pub fn push_samples(queue: &mut VecDeque<u32>, samples: &Vec<u32>, max_samples: usize) -> (r: bool)
    ensures
        final(queue)@ == filled(old(queue)@, samples@, max_samples as int),
        r == overflows(old(queue)@, samples@, max_samples as int),
{
    let ghost before = queue@;
    let mut overrun = false;
    let mut i: usize = 0;
    while i < samples.len()
        invariant
            i <= samples.len(),
            queue@ == filled(before, samples@.take(i as int), max_samples as int),
            overrun == overflows(before, samples@.take(i as int), max_samples as int),
        decreases samples.len() - i,
    {
        proof {
            assert(samples@.take(i + 1) =~= samples@.take(i as int).push(samples@[i as int]));
            lemma_filled_step(
                before,
                samples@.take(i as int),
                samples@[i as int],
                max_samples as int,
            );
        }
        if push_bounded(queue, samples[i], max_samples) {
            overrun = true;
        }
        i = i + 1;
    }
    assert(samples@.take(i as int) =~= samples@);
    overrun
}

/// What taking `n` samples from a queue gives: those that are there, then silence.
pub open spec fn taken(queue: Seq<u32>, n: int) -> Seq<u32> {
    Seq::new(
        n as nat,
        |i: int|
            if i < queue.len() {
                queue[i]
            } else {
                0u32
            },
    )
}

/// The queue without its first `n` samples.
pub open spec fn left_over(queue: Seq<u32>, n: int) -> Seq<u32> {
    if n >= queue.len() {
        Seq::empty()
    } else {
        queue.skip(n)
    }
}

fn pop_or_silence(queue: &mut VecDeque<u32>) -> (r: (u32, bool))
    ensures
        r.0 == taken(old(queue)@, 1)[0],
        r.1 == (old(queue)@.len() > 0),
        final(queue)@ == left_over(old(queue)@, 1),
{
    let ghost before = queue@;
    match queue.pop_front() {
        Some(sample) => {
            assert(queue@ =~= left_over(before, 1));
            (sample, true)
        },
        None => {
            assert(queue@ =~= left_over(before, 1));
            (0, false)
        },
    }
}

proof fn lemma_left_over(queue: Seq<u32>, a: int, b: int)
    requires
        0 <= a,
        0 <= b,
    ensures
        left_over(left_over(queue, a), b) == left_over(queue, a + b),
{
    assert(left_over(left_over(queue, a), b) =~= left_over(queue, a + b));
}

/// Fills a buffer from a queue, with silence where the queue runs out; says whether it did.
pub fn pop_samples(queue: &mut VecDeque<u32>, out: &mut Vec<u32>) -> (r: bool)
    ensures
        final(out)@ == taken(old(queue)@, old(out)@.len() as int),
        final(queue)@ == left_over(old(queue)@, old(out)@.len() as int),
        r == (old(queue)@.len() < old(out)@.len()),
{
    let ghost before = queue@;
    let ghost len = out@.len();
    assert(before =~= left_over(before, 0) || before.len() == 0);
    let mut underrun = false;
    let mut i: usize = 0;
    while i < out.len()
        invariant
            i <= out.len(),
            out@.len() == len,
            queue@ == left_over(before, i as int),
            forall|k: int| 0 <= k < i ==> out@[k] == taken(before, len as int)[k],
            underrun == (before.len() < i),
        decreases out.len() - i,
    {
        proof {
            lemma_left_over(before, i as int, 1);
        }
        let (sample, found) = pop_or_silence(queue);
        out.set(i, sample);
        if !found {
            underrun = true;
        }
        i = i + 1;
    }
    assert(out@ =~= taken(before, len as int));
    underrun
}

/// Puts a message into a ring of errors that keeps the last `capacity`.
pub fn push_bounded_error_with_capacity(
    errors: &mut VecDeque<String>,
    message: String,
    capacity: usize,
)
    requires
        capacity > 0,
        old(errors)@.len() <= capacity,
    ensures
        final(errors)@ == last_of(old(errors)@.push(message), capacity as int),
        final(errors)@.len() <= capacity,
{
    let ghost before = errors@;
    if errors.len() >= capacity {
        let _ = errors.pop_front();
    }
    errors.push_back(message);
    assert(errors@ =~= last_of(before.push(message), capacity as int));
}

/// The queue never grows beyond its limit, and of what was put in the newest is kept: the
/// end of the queue is the end of what came in.
pub proof fn law_queue_keeps_newest<T>(queue: Seq<T>, samples: Seq<T>, limit: int)
    requires
        0 <= limit,
        queue.len() <= limit,
    ensures
        filled(queue, samples, limit).len() <= limit,
        samples.len() <= limit ==> last_of(filled(queue, samples, limit), samples.len() as int)
            == samples,
        samples.len() > limit ==> filled(queue, samples, limit) == last_of(samples, limit),
        !overflows(queue, samples, limit) ==> filled(queue, samples, limit) == queue + samples,
{
    let all = queue + samples;
    if samples.len() == 0 {
        assert(all =~= queue);
        assert(last_of(queue, 0) =~= samples);
    } else if samples.len() <= limit {
        assert(last_of(filled(queue, samples, limit), samples.len() as int) =~= samples);
    } else {
        assert(filled(queue, samples, limit) =~= last_of(samples, limit));
    }
}

/// What is read from a queue is what was put in, in order, as long as nothing overflows
/// and the queue does not run out.
pub proof fn law_queue_first_in_first_out(samples: Seq<u32>, more: Seq<u32>, limit: int)
    requires
        samples.len() + more.len() <= limit,
    ensures
        taken(filled(filled(Seq::<u32>::empty(), samples, limit), more, limit), samples.len() as int)
            == samples,
        left_over(
            filled(filled(Seq::<u32>::empty(), samples, limit), more, limit),
            samples.len() as int,
        ) == more,
{
    let first = filled(Seq::<u32>::empty(), samples, limit);
    assert(first =~= samples);
    assert(filled(first, more, limit) =~= samples + more);
    assert(taken(samples + more, samples.len() as int) =~= samples);
    assert(left_over(samples + more, samples.len() as int) =~= more);
}

/// A counter goes up by what is counted, and starts over where it has no room left.
pub proof fn law_counters_go_up(count: u64, by: u64)
    ensures
        count + by <= u64::MAX ==> counted(count, by) == count + by,
        count + by > u64::MAX ==> counted(count, by) == count + by - 0x1_0000_0000_0000_0000,
{
}

/// What is taken from a queue is its beginning, and what is left is the rest; a queue that is
/// too short gives all it has and then silence.
pub proof fn law_queue_gives_its_beginning(queue: Seq<u32>, n: int, i: int)
    requires
        0 <= n,
    ensures
        taken(queue, n).len() == n,
        n <= queue.len() ==> taken(queue, n) + left_over(queue, n) == queue,
        n > queue.len() ==> left_over(queue, n).len() == 0,
        0 <= i < n && i < queue.len() ==> taken(queue, n)[i] == queue[i],
        queue.len() <= i < n ==> taken(queue, n)[i] == 0,
{
    if n <= queue.len() {
        assert(taken(queue, n) + left_over(queue, n) =~= queue);
    }
}

/// A bounded list keeps what came last, as much as it has room for, in order.
pub proof fn law_bounded_lists_keep_the_last<T>(list: Seq<T>, n: int, i: int)
    requires
        0 <= n,
    ensures
        last_of(list, n).len() == if list.len() < n {
            list.len() as int
        } else {
            n
        },
        0 <= i < last_of(list, n).len() ==> last_of(list, n)[last_of(list, n).len() - 1 - i]
            == list[list.len() - 1 - i],
{
}

/// What does not fit in a queue is told: exactly where something comes in and the queue with it
/// is longer than it may be.
pub proof fn law_overflow_is_told<T>(queue: Seq<T>, samples: Seq<T>, limit: int)
    requires
        0 <= limit,
    ensures
        overflows(queue, samples, limit) <==> samples.len() > 0 && queue.len() + samples.len()
            > limit,
        overflows(queue, samples, limit) ==> filled(queue, samples, limit).len() == limit,
        !overflows(queue, samples, limit) && samples.len() > 0 ==> filled(queue, samples, limit)
            == queue + samples,
        samples.len() == 0 ==> filled(queue, samples, limit) == queue,
{
}

/// Every phase of an endpoint is told as it is, and an endpoint is degraded while it is lost or
/// being found again.
pub proof fn law_phases_are_told_as_they_are(p: EndpointPhase)
    ensures
        p == EndpointPhase::Connected <==> p.health() == ExternalEndpointHealth::Connected,
        p == EndpointPhase::Degraded <==> p.health() == ExternalEndpointHealth::Degraded,
        p == EndpointPhase::Reconnecting <==> p.health() == ExternalEndpointHealth::Reconnecting,
        p == EndpointPhase::Stopped <==> p.health() == ExternalEndpointHealth::Stopped,
        p.degraded() <==> p == EndpointPhase::Degraded || p == EndpointPhase::Reconnecting,
{
}

} // verus!
