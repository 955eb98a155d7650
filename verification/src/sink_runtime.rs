//! The recordings and streams while audio runs: a bounded queue of batches, and how each
//! sink fares.

use crate::json::{json_text, value_text};
use crate::profile::{
    channels_or, default_channels, FileSink, FileSinkFormat, Profile, StreamSink,
};
use crate::sequences::{kept, lemma_views_push, views};
use crate::string_map::StringMap;
use std::collections::VecDeque;
use vstd::prelude::*;
use vstd::string::*;

verus! {

broadcast use lemma_views_push;

/// What a sink writes to.
#[derive(Debug, Clone, PartialEq, Eq)]
pub enum SinkBindingKind {
    File { path: String, format: FileSinkFormat },
    Stream { transport: String, endpoint: String, options_json: String },
}

/// A sink and the node that feeds it.
#[derive(Debug, Clone, PartialEq, Eq)]
pub struct SinkBinding {
    pub id: String,
    pub source: String,
    pub channels: u16,
    pub kind: SinkBindingKind,
}

/// The kinds of sink.
#[derive(Debug, Clone, Copy, PartialEq, Eq, Structural)]
pub enum SinkRuntimeKind {
    File,
    Stream,
}

/// How a sink fares.
#[derive(Debug, Clone, Copy, PartialEq, Eq, Structural)]
pub enum SinkRuntimeHealth {
    Healthy,
    Degraded,
    Failed,
}

/// The state of one sink.
#[derive(Debug, PartialEq, Eq)]
pub struct SinkRuntimeSinkStatus {
    pub id: String,
    pub source: String,
    pub kind: SinkRuntimeKind,
    pub health: SinkRuntimeHealth,
    pub written_frames: u64,
    pub dropped_batches: u64,
    pub last_error: Option<String>,
}

impl Clone for SinkRuntimeSinkStatus {
    fn clone(&self) -> (r: SinkRuntimeSinkStatus)
        ensures
            r == *self,
    {
        SinkRuntimeSinkStatus {
            id: self.id.clone(),
            source: self.source.clone(),
            kind: self.kind,
            health: self.health,
            written_frames: self.written_frames,
            dropped_batches: self.dropped_batches,
            last_error: self.last_error.clone(),
        }
    }
}

/// The state of all sinks.
#[derive(Debug, PartialEq, Eq)]
pub struct SinkRuntimeStatus {
    pub queue_capacity: usize,
    pub queued_batches: usize,
    pub dropped_batches: u64,
    pub dropped_samples: u64,
    pub write_errors: u64,
    pub active_file_sinks: usize,
    pub active_stream_sinks: usize,
    pub sinks: Vec<SinkRuntimeSinkStatus>,
}

/// Samples on their way to a sink, by their bit patterns.
#[derive(Debug)]
pub struct SinkBatch {
    pub sink_id: String,
    pub frames: usize,
    pub samples: Vec<u32>,
}

/// What a batch is.
pub struct BatchView {
    pub sink_id: Seq<char>,
    pub frames: usize,
    pub samples: Seq<u32>,
}

impl View for SinkBatch {
    type V = BatchView;

    open spec fn view(&self) -> BatchView {
        BatchView { sink_id: self.sink_id@, frames: self.frames, samples: self.samples@ }
    }
}

/// What is known of a sink.
pub struct SinkView {
    pub source: Seq<char>,
    pub kind: SinkRuntimeKind,
    pub health: SinkRuntimeHealth,
    pub written_frames: u64,
    pub dropped_batches: u64,
    pub last_error: Option<Seq<char>>,
}

impl View for SinkRuntimeSinkStatus {
    type V = SinkView;

    open spec fn view(&self) -> SinkView {
        SinkView {
            source: self.source@,
            kind: self.kind,
            health: self.health,
            written_frames: self.written_frames,
            dropped_batches: self.dropped_batches,
            last_error: match self.last_error {
                Some(text) => Some(text@),
                None => None,
            },
        }
    }
}

/// The sinks and their queue, seen as a whole.
pub struct SinksView {
    pub queue: Seq<BatchView>,
    pub dropped_batches: u64,
    pub dropped_samples: u64,
    pub write_errors: u64,
    pub sinks: Map<Seq<char>, SinkView>,
}

/// A sum that stops at its largest value.
pub open spec fn capped(a: u64, b: int) -> u64 {
    if a + b > u64::MAX {
        u64::MAX
    } else {
        (a + b) as u64
    }
}

// ---------------------------------------------------------------------------
// Changes

/// A sink that failed.
pub open spec fn sink_failed(v: SinksView, id: Seq<char>, error: Seq<char>) -> SinksView {
    SinksView {
        write_errors: capped(v.write_errors, 1),
        sinks: if v.sinks.dom().contains(id) {
            v.sinks.insert(
                id,
                SinkView {
                    health: SinkRuntimeHealth::Failed,
                    last_error: Some(error),
                    ..v.sinks[id]
                },
            )
        } else {
            v.sinks
        },
        ..v
    }
}

/// A sink that lacks something.
pub open spec fn sink_degraded(v: SinksView, id: Seq<char>, error: Seq<char>) -> SinksView {
    SinksView {
        sinks: if v.sinks.dom().contains(id) {
            v.sinks.insert(
                id,
                SinkView {
                    health: SinkRuntimeHealth::Degraded,
                    last_error: Some(error),
                    ..v.sinks[id]
                },
            )
        } else {
            v.sinks
        },
        ..v
    }
}

/// A batch that was dropped.
pub open spec fn batch_dropped(v: SinksView, id: Seq<char>, samples: nat) -> SinksView {
    SinksView {
        dropped_batches: capped(v.dropped_batches, 1),
        dropped_samples: capped(v.dropped_samples, samples as int),
        sinks: if v.sinks.dom().contains(id) {
            v.sinks.insert(
                id,
                SinkView {
                    dropped_batches: capped(v.sinks[id].dropped_batches, 1),
                    health: if v.sinks[id].health == SinkRuntimeHealth::Healthy {
                        SinkRuntimeHealth::Degraded
                    } else {
                        v.sinks[id].health
                    },
                    ..v.sinks[id]
                },
            )
        } else {
            v.sinks
        },
        ..v
    }
}

/// A batch that was written.
pub open spec fn batch_written(v: SinksView, id: Seq<char>, frames: usize) -> SinksView {
    SinksView {
        sinks: if v.sinks.dom().contains(id) {
            v.sinks.insert(
                id,
                SinkView {
                    written_frames: capped(v.sinks[id].written_frames, frames as int),
                    health: if v.sinks[id].health == SinkRuntimeHealth::Degraded {
                        SinkRuntimeHealth::Healthy
                    } else {
                        v.sinks[id].health
                    },
                    ..v.sinks[id]
                },
            )
        } else {
            v.sinks
        },
        ..v
    }
}

/// What submitting the audio of a node to one sink does: without that audio the sink is
/// degraded; a full queue drops it; without a worker the sink has failed.
pub open spec fn submitted_one(
    v: SinksView,
    binding: SinkBinding,
    rendered: Map<Seq<char>, Vec<u32>>,
    frames: usize,
    capacity: usize,
    connected: bool,
) -> SinksView {
    if !rendered.dom().contains(binding.source@) {
        sink_degraded(
            v,
            binding.id@,
            "missing rendered source '"@ + binding.source@ + "'"@,
        )
    } else {
        let samples = rendered[binding.source@]@;
        if !connected {
            batch_dropped(
                sink_failed(v, binding.id@, "sink runtime worker disconnected"@),
                binding.id@,
                samples.len(),
            )
        } else if v.queue.len() >= capacity {
            batch_dropped(v, binding.id@, samples.len())
        } else {
            SinksView {
                queue: v.queue.push(BatchView { sink_id: binding.id@, frames, samples }),
                ..v
            }
        }
    }
}

/// What submitting rendered audio to the first `n` sinks does.
pub open spec fn submitted(
    v: SinksView,
    bindings: Seq<SinkBinding>,
    rendered: Map<Seq<char>, Vec<u32>>,
    frames: usize,
    capacity: usize,
    connected: bool,
    n: int,
) -> SinksView
    decreases n,
{
    if n <= 0 {
        v
    } else {
        submitted_one(
            submitted(v, bindings, rendered, frames, capacity, connected, n - 1),
            bindings[n - 1],
            rendered,
            frames,
            capacity,
            connected,
        )
    }
}

/// The sinks, their queue and whether someone works it off.
#[derive(Debug)]
pub struct SinkRuntime {
    pub bindings: Vec<SinkBinding>,
    pub queue_capacity: usize,
    pub queue: VecDeque<SinkBatch>,
    pub worker_connected: bool,
    pub dropped_batches: u64,
    pub dropped_samples: u64,
    pub write_errors: u64,
    pub sinks: StringMap<SinkRuntimeSinkStatus>,
}

/// The kind of a sink.
pub open spec fn kind_of(kind: SinkBindingKind) -> SinkRuntimeKind {
    match kind {
        SinkBindingKind::File { .. } => SinkRuntimeKind::File,
        SinkBindingKind::Stream { .. } => SinkRuntimeKind::Stream,
    }
}

/// A sink to which nothing was written.
pub open spec fn fresh_sink(binding: SinkBinding) -> SinkView {
    SinkView {
        source: binding.source@,
        kind: kind_of(binding.kind),
        health: SinkRuntimeHealth::Healthy,
        written_frames: 0,
        dropped_batches: 0,
        last_error: None,
    }
}

/// The text about a stream, for which there is no writer.
pub open spec fn stream_text(transport: Seq<char>, endpoint: Seq<char>, options: Seq<char>) -> Seq<
    char,
> {
    "stream sink not implemented for transport="@ + transport + ", endpoint="@ + endpoint
        + ", options="@ + options
}

/// The first `n` sinks, all fresh; of several with one id the last.
pub open spec fn fresh_sinks(bindings: Seq<SinkBinding>, n: int) -> Map<Seq<char>, SinkView>
    decreases n,
{
    if n <= 0 {
        Map::empty()
    } else {
        fresh_sinks(bindings, n - 1).insert(bindings[n - 1].id@, fresh_sink(bindings[n - 1]))
    }
}

/// The sinks after the first `n` were opened: a file that could not be opened and every
/// stream have failed.
pub open spec fn opened(
    v: SinksView,
    bindings: Seq<SinkBinding>,
    files: Seq<Result<(), String>>,
    n: int,
) -> SinksView
    decreases n,
{
    if n <= 0 {
        v
    } else {
        let before = opened(v, bindings, files, n - 1);
        let binding = bindings[n - 1];
        match binding.kind {
            SinkBindingKind::Stream { transport, endpoint, options_json } => sink_failed(
                before,
                binding.id@,
                stream_text(transport@, endpoint@, options_json@),
            ),
            SinkBindingKind::File { .. } => match files[n - 1] {
                Ok(()) => before,
                Err(error) => sink_failed(before, binding.id@, error@),
            },
        }
    }
}

/// What is known of all sinks.
pub open spec fn sink_map(sinks: StringMap<SinkRuntimeSinkStatus>) -> Map<Seq<char>, SinkView> {
    Map::new(|id: Seq<char>| sinks.has(id), |id: Seq<char>| sinks.at(id)@)
}

impl SinkRuntime {
    /// The sinks and their queue, seen as a whole.
    pub open spec fn view(self) -> SinksView {
        SinksView {
            queue: views(self.queue@),
            dropped_batches: self.dropped_batches,
            dropped_samples: self.dropped_samples,
            write_errors: self.write_errors,
            sinks: sink_map(self.sinks),
        }
    }

    /// The map is in order, every sink stands under its id, and the queue is within its
    /// capacity.
    pub open spec fn wf(self) -> bool {
        &&& self.sinks.wf()
        &&& self.queue_capacity >= 1
        &&& self.queue@.len() <= self.queue_capacity
        &&& forall|i: int|
            0 <= i < self.sinks.keys().len() ==> (#[trigger] self.sinks.values()[i]).id@
                == self.sinks.keys()[i]
    }

    /// Everything that stays the same while audio runs.
    pub open spec fn same_setup(self, other: SinkRuntime) -> bool {
        &&& self.bindings == other.bindings
        &&& self.queue_capacity == other.queue_capacity
        &&& self.worker_connected == other.worker_connected
    }

    fn mark_sink(&mut self, id: &str, health: SinkRuntimeHealth, error: String)
        requires
            old(self).wf(),
        ensures
            final(self).wf(),
            final(self).same_setup(*old(self)),
            final(self).queue == old(self).queue,
            final(self).dropped_batches == old(self).dropped_batches,
            final(self).dropped_samples == old(self).dropped_samples,
            final(self).write_errors == old(self).write_errors,
            sink_map(final(self).sinks) == if sink_map(old(self).sinks).dom().contains(id@) {
                sink_map(old(self).sinks).insert(
                    id@,
                    SinkView {
                        health,
                        last_error: Some(error@),
                        ..sink_map(old(self).sinks)[id@]
                    },
                )
            } else {
                sink_map(old(self).sinks)
            },
    {
        let ghost before = *self;
        match self.sinks.find(id) {
            None => {},
            Some(i) => {
                let record = self.sinks.value_mut(i);
                record.health = health;
                record.last_error = Some(error);
                proof {
                    lemma_sink_changed(before.sinks, self.sinks, i as int);
                }
            },
        }
    }

    fn mark_sink_failed(&mut self, id: &str, error: String)
        requires
            old(self).wf(),
        ensures
            final(self).wf(),
            final(self).same_setup(*old(self)),
            final(self)@ == sink_failed(old(self)@, id@, error@),
    {
        self.write_errors = self.write_errors.saturating_add(1);
        self.mark_sink(id, SinkRuntimeHealth::Failed, error);
    }

    fn mark_drop(&mut self, id: &str, samples: usize)
        requires
            old(self).wf(),
        ensures
            final(self).wf(),
            final(self).same_setup(*old(self)),
            final(self)@ == batch_dropped(old(self)@, id@, samples as nat),
    {
        let ghost before = *self;
        self.dropped_batches = self.dropped_batches.saturating_add(1);
        self.dropped_samples = self.dropped_samples.saturating_add(samples as u64);
        match self.sinks.find(id) {
            None => {},
            Some(i) => {
                let record = self.sinks.value_mut(i);
                record.dropped_batches = record.dropped_batches.saturating_add(1);
                if record.health == SinkRuntimeHealth::Healthy {
                    record.health = SinkRuntimeHealth::Degraded;
                }
                proof {
                    lemma_sink_changed(before.sinks, self.sinks, i as int);
                }
            },
        }
    }
}

proof fn lemma_sink_changed(
    before: StringMap<SinkRuntimeSinkStatus>,
    after: StringMap<SinkRuntimeSinkStatus>,
    i: int,
)
    requires
        before.wf(),
        after.keys() == before.keys(),
        0 <= i < before.keys().len(),
        after.values() == before.values().update(i, after.values()[i]),
    ensures
        after.wf(),
        sink_map(after) == sink_map(before).insert(before.keys()[i], after.values()[i]@),
{
    before.lemma_entry(i);
    assert forall|id: Seq<char>| before.has(id) implies #[trigger] sink_map(after)[id] == sink_map(
        before,
    ).insert(before.keys()[i], after.values()[i]@)[id] by {
        let j = before.keys().index_of(id);
        assert(before.keys()[j] == id);
        crate::string_map::lemma_increasing_places(before.keys(), i, j);
    }
    assert(sink_map(after) =~= sink_map(before).insert(before.keys()[i], after.values()[i]@));
}

impl SinkRuntime {
    /// Sets the sinks up with a queue of at least one batch. For each sink the outcome of
    /// opening its file is given; that of a stream is not looked at.
    pub fn start(
        bindings: Vec<SinkBinding>,
        queue_capacity: usize,
        files: Vec<Result<(), String>>,
    ) -> (r: SinkRuntime)
        requires
            files@.len() == bindings@.len(),
        ensures
            r.wf(),
            r.bindings == bindings,
            r.queue_capacity == if queue_capacity > 1 {
                queue_capacity
            } else {
                1
            },
            r.worker_connected,
            r@ == opened(
                SinksView {
                    queue: Seq::empty(),
                    dropped_batches: 0,
                    dropped_samples: 0,
                    write_errors: 0,
                    sinks: fresh_sinks(bindings@, bindings@.len() as int),
                },
                bindings@,
                files@,
                bindings@.len() as int,
            ),
    {
        let ghost all = bindings@;
        let mut sinks: StringMap<SinkRuntimeSinkStatus> = StringMap::new();
        assert(sink_map(sinks) =~= fresh_sinks(all, 0));
        let mut i: usize = 0;
        while i < bindings.len()
            invariant
                i <= bindings.len(),
                all == bindings@,
                sinks.wf(),
                sink_map(sinks) == fresh_sinks(all, i as int),
                forall|k: int|
                    0 <= k < sinks.keys().len() ==> (#[trigger] sinks.values()[k]).id@
                        == sinks.keys()[k],
            decreases bindings.len() - i,
        {
            let binding = &bindings[i];
            let kind = match &binding.kind {
                SinkBindingKind::File { .. } => SinkRuntimeKind::File,
                SinkBindingKind::Stream { .. } => SinkRuntimeKind::Stream,
            };
            let ghost before = sinks;
            let record = SinkRuntimeSinkStatus {
                id: binding.id.clone(),
                source: binding.source.clone(),
                kind,
                health: SinkRuntimeHealth::Healthy,
                written_frames: 0,
                dropped_batches: 0,
                last_error: None,
            };
            let ghost fresh = record;
            sinks.insert(binding.id.clone(), record);
            proof {
                lemma_sink_inserted(before, sinks, binding.id@, fresh);
                assert forall|k: int| 0 <= k < sinks.keys().len() implies (
                #[trigger] sinks.values()[k]).id@ == sinks.keys()[k] by {
                    sinks.lemma_entry(k);
                    let id = sinks.keys()[k];
                    if id != binding.id@ {
                        assert(before@.dom().contains(id));
                        let j = before.keys().index_of(id);
                        before.lemma_entry(j);
                    }
                }
            }
            i = i + 1;
        }
        let mut runtime = SinkRuntime {
            bindings,
            queue_capacity: if queue_capacity > 1 {
                queue_capacity
            } else {
                1
            },
            queue: VecDeque::new(),
            worker_connected: true,
            dropped_batches: 0,
            dropped_samples: 0,
            write_errors: 0,
            sinks,
        };
        let ghost start = runtime;
        let ghost fresh = runtime@;
        assert(fresh.queue =~= Seq::<BatchView>::empty());
        i = 0;
        while i < runtime.bindings.len()
            invariant
                i <= runtime.bindings.len(),
                runtime.wf(),
                runtime.same_setup(start),
                runtime.bindings@ == all,
                files@.len() == all.len(),
                runtime@ == opened(fresh, all, files@, i as int),
            decreases runtime.bindings.len() - i,
        {
            let id = runtime.bindings[i].id.clone();
            let message: Option<String> = match &runtime.bindings[i].kind {
                SinkBindingKind::Stream { transport, endpoint, options_json } => {
                    let mut text = String::from_str("stream sink not implemented for transport=");
                    text.append(transport.as_str());
                    text.append(", endpoint=");
                    text.append(endpoint.as_str());
                    text.append(", options=");
                    text.append(options_json.as_str());
                    Some(text)
                },
                SinkBindingKind::File { .. } => match &files[i] {
                    Ok(()) => None,
                    Err(error) => Some(error.clone()),
                },
            };
            match message {
                Some(text) => {
                    runtime.mark_sink_failed(id.as_str(), text);
                },
                None => {},
            }
            i = i + 1;
        }
        runtime
    }

    /// Submits rendered audio to every sink.
    pub fn submit_rendered_sinks(&mut self, rendered: &StringMap<Vec<u32>>, frames: usize)
        requires
            old(self).wf(),
            rendered.wf(),
        ensures
            final(self).wf(),
            final(self).same_setup(*old(self)),
            final(self)@ == submitted(
                old(self)@,
                old(self).bindings@,
                rendered@,
                frames,
                old(self).queue_capacity,
                old(self).worker_connected,
                old(self).bindings@.len() as int,
            ),
    {
        let ghost start = *self;
        let ghost all = self.bindings@;
        let mut i: usize = 0;
        while i < self.bindings.len()
            invariant
                i <= self.bindings.len(),
                self.wf(),
                self.same_setup(start),
                self.bindings@ == all,
                start.bindings@ == all,
                rendered.wf(),
                self@ == submitted(
                    start@,
                    all,
                    rendered@,
                    frames,
                    start.queue_capacity,
                    start.worker_connected,
                    i as int,
                ),
            decreases self.bindings.len() - i,
        {
            let id = self.bindings[i].id.clone();
            let ghost before = self@;
            match rendered.get(self.bindings[i].source.as_str()) {
                None => {
                    let mut text = String::from_str("missing rendered source '");
                    text.append(self.bindings[i].source.as_str());
                    text.append("'");
                    self.mark_sink(id.as_str(), SinkRuntimeHealth::Degraded, text);
                },
                Some(data) => {
                    if !self.worker_connected {
                        self.mark_sink_failed(
                            id.as_str(),
                            String::from_str("sink runtime worker disconnected"),
                        );
                        self.mark_drop(id.as_str(), data.len());
                    } else if self.queue.len() >= self.queue_capacity {
                        self.mark_drop(id.as_str(), data.len());
                    } else {
                        let mut samples: Vec<u32> = Vec::new();
                        let mut k: usize = 0;
                        while k < data.len()
                            invariant
                                k <= data.len(),
                                samples@ =~= data@.take(k as int),
                            decreases data.len() - k,
                        {
                            samples.push(data[k]);
                            k = k + 1;
                        }
                        assert(samples@ =~= data@);
                        self.queue.push_back(SinkBatch { sink_id: id, frames, samples });
                    }
                },
            }
            i = i + 1;
        }
    }

    /// The next batch to be written.
    pub fn next_batch(&mut self) -> (r: Option<SinkBatch>)
        requires
            old(self).wf(),
        ensures
            final(self).wf(),
            final(self).same_setup(*old(self)),
            match r {
                None => old(self)@.queue.len() == 0 && final(self)@ == old(self)@,
                Some(batch) => old(self)@.queue.len() > 0 && batch@ == old(self)@.queue[0]
                    && final(self)@ == (SinksView {
                    queue: old(self)@.queue.skip(1),
                    ..old(self)@
                }),
            },
    {
        let ghost before = views(self.queue@);
        let batch = self.queue.pop_front();
        proof {
            if batch is Some {
                assert(views(self.queue@) =~= before.skip(1));
            }
        }
        batch
    }

    /// Notes what came of writing a batch; nothing is known where the sink has no writer.
    pub fn finish_batch(&mut self, sink_id: &str, frames: usize, outcome: Option<Result<(), String>>)
        requires
            old(self).wf(),
        ensures
            final(self).wf(),
            final(self).same_setup(*old(self)),
            final(self)@ == (match outcome {
                None => sink_failed(old(self)@, sink_id@, "sink writer unavailable"@),
                Some(Ok(())) => batch_written(old(self)@, sink_id@, frames),
                Some(Err(error)) => sink_failed(old(self)@, sink_id@, error@),
            }),
    {
        match outcome {
            None => {
                self.mark_sink_failed(sink_id, String::from_str("sink writer unavailable"));
            },
            Some(Err(error)) => {
                self.mark_sink_failed(sink_id, error);
            },
            Some(Ok(())) => {
                let ghost before = *self;
                match self.sinks.find(sink_id) {
                    None => {},
                    Some(i) => {
                        let record = self.sinks.value_mut(i);
                        record.written_frames = record.written_frames.saturating_add(frames as u64);
                        if record.health == SinkRuntimeHealth::Degraded {
                            record.health = SinkRuntimeHealth::Healthy;
                        }
                        proof {
                            lemma_sink_changed(before.sinks, self.sinks, i as int);
                        }
                    },
                }
            },
        }
    }

    /// Whether the worker may end: it was told to stop, and the queue is empty.
    pub fn may_stop(&self, stop_requested: bool) -> (r: bool)
        ensures
            r == (stop_requested && self@.queue.len() == 0),
    {
        stop_requested && self.queue.len() == 0
    }

    /// The state of all sinks, in the order of their ids.
    pub fn status(&self) -> (r: SinkRuntimeStatus)
        requires
            self.wf(),
        ensures
            r.queue_capacity == self.queue_capacity,
            r.queued_batches == self.queue@.len(),
            r.dropped_batches == self.dropped_batches,
            r.dropped_samples == self.dropped_samples,
            r.write_errors == self.write_errors,
            r.sinks@ == self.sinks.values(),
            r.active_file_sinks == active_sinks(r.sinks@, SinkRuntimeKind::File),
            r.active_stream_sinks == active_sinks(r.sinks@, SinkRuntimeKind::Stream),
    {
        let mut sinks: Vec<SinkRuntimeSinkStatus> = Vec::new();
        let mut i: usize = 0;
        while i < self.sinks.len()
            invariant
                self.wf(),
                i <= self.sinks.values().len(),
                sinks@ =~= self.sinks.values().take(i as int),
            decreases self.sinks.values().len() - i,
        {
            sinks.push(self.sinks.value_at(i).clone());
            i = i + 1;
        }
        assert(sinks@ =~= self.sinks.values());
        let active_file_sinks = count_active(&sinks, SinkRuntimeKind::File);
        let active_stream_sinks = count_active(&sinks, SinkRuntimeKind::Stream);
        SinkRuntimeStatus {
            queue_capacity: self.queue_capacity,
            queued_batches: self.queue.len(),
            dropped_batches: self.dropped_batches,
            dropped_samples: self.dropped_samples,
            write_errors: self.write_errors,
            active_file_sinks,
            active_stream_sinks,
            sinks,
        }
    }
}

/// How many healthy sinks of a kind there are.
pub open spec fn active_sinks(sinks: Seq<SinkRuntimeSinkStatus>, kind: SinkRuntimeKind) -> nat {
    kept(
        |i: int| sinks[i].kind == kind && sinks[i].health == SinkRuntimeHealth::Healthy,
        sinks.len() as int,
    ).len()
}

fn count_active(sinks: &Vec<SinkRuntimeSinkStatus>, kind: SinkRuntimeKind) -> (r: usize)
    ensures
        r == active_sinks(sinks@, kind),
{
    let ghost active = |i: int|
        sinks@[i].kind == kind && sinks@[i].health == SinkRuntimeHealth::Healthy;
    let mut count: usize = 0;
    let mut i: usize = 0;
    while i < sinks.len()
        invariant
            i <= sinks.len(),
            active == |i: int|
                sinks@[i].kind == kind && sinks@[i].health == SinkRuntimeHealth::Healthy,
            count == kept(active, i as int).len(),
            count <= i,
        decreases sinks.len() - i,
    {
        if sinks[i].kind == kind && sinks[i].health == SinkRuntimeHealth::Healthy {
            count = count + 1;
        }
        i = i + 1;
    }
    count
}

proof fn lemma_sink_inserted(
    before: StringMap<SinkRuntimeSinkStatus>,
    after: StringMap<SinkRuntimeSinkStatus>,
    id: Seq<char>,
    record: SinkRuntimeSinkStatus,
)
    requires
        before.wf(),
        after.wf(),
        after@ == before@.insert(id, record),
    ensures
        sink_map(after) == sink_map(before).insert(id, record@),
{
    assert forall|x: Seq<char>| after.has(x) <==> before.has(x) || x == id by {
        assert(after@.dom().contains(x) == after.has(x));
        assert(before@.dom().contains(x) == before.has(x));
    }
    assert forall|x: Seq<char>| after.has(x) implies #[trigger] sink_map(after)[x] == sink_map(
        before,
    ).insert(id, record@)[x] by {
        assert(after@[x] == after.at(x));
        if x != id {
            assert(before@.dom().contains(x));
            assert(before@[x] == before.at(x));
        }
    }
    assert(sink_map(after) =~= sink_map(before).insert(id, record@));
}

// ---------------------------------------------------------------------------
// Laws of sinks

/// Opening files and streams changes no sink that it does not name, and a sink that was
/// marked as failed stays so.
proof fn lemma_opened_keeps_failures(
    v: SinksView,
    bindings: Seq<SinkBinding>,
    files: Seq<Result<(), String>>,
    n: int,
    id: Seq<char>,
)
    requires
        v.sinks.dom().contains(id),
    ensures
        opened(v, bindings, files, n).sinks.dom().contains(id),
    decreases n,
{
    if n > 0 {
        lemma_opened_keeps_failures(v, bindings, files, n - 1, id);
    }
}

proof fn lemma_fresh_has(bindings: Seq<SinkBinding>, n: int, i: int)
    requires
        0 <= i < n <= bindings.len(),
    ensures
        fresh_sinks(bindings, n).dom().contains(bindings[i].id@),
    decreases n,
{
    if i < n - 1 {
        lemma_fresh_has(bindings, n - 1, i);
    }
}

/// After the start every stream sink is shown as failed, with the reason.
pub proof fn law_streams_fail_at_start(
    bindings: Seq<SinkBinding>,
    files: Seq<Result<(), String>>,
    v: SinksView,
    i: int,
    n: int,
)
    requires
        0 <= i < n <= bindings.len(),
        v.sinks == fresh_sinks(bindings, bindings.len() as int),
        bindings[i].kind is Stream,
    ensures
        ({
            let sink = opened(v, bindings, files, n).sinks[bindings[i].id@];
            &&& sink.health == SinkRuntimeHealth::Failed
            &&& sink.last_error is Some
        }),
    decreases n,
{
    lemma_fresh_has(bindings, bindings.len() as int, i);
    lemma_opened_keeps_failures(v, bindings, files, n - 1, bindings[i].id@);
    if i < n - 1 {
        law_streams_fail_at_start(bindings, files, v, i, n - 1);
    }
}

/// Submitting never makes the queue longer than its capacity, and what stood in the queue
/// stays at its front.
pub proof fn law_queue_is_bounded(
    v: SinksView,
    bindings: Seq<SinkBinding>,
    rendered: Map<Seq<char>, Vec<u32>>,
    frames: usize,
    capacity: usize,
    connected: bool,
    n: int,
)
    requires
        v.queue.len() <= capacity,
    ensures
        submitted(v, bindings, rendered, frames, capacity, connected, n).queue.len() <= capacity,
        v.queue.is_prefix_of(
            submitted(v, bindings, rendered, frames, capacity, connected, n).queue,
        ),
    decreases n,
{
    if n > 0 {
        law_queue_is_bounded(v, bindings, rendered, frames, capacity, connected, n - 1);
        let before = submitted(v, bindings, rendered, frames, capacity, connected, n - 1);
        let after = submitted(v, bindings, rendered, frames, capacity, connected, n);
        assert(before.queue.is_prefix_of(after.queue));
        assert(v.queue =~= after.queue.take(v.queue.len() as int));
    } else {
        assert(v.queue =~= v.queue.take(v.queue.len() as int));
    }
}

/// A sink that was degraded by dropped audio is healthy again once a batch is written.
pub proof fn law_writing_heals(v: SinksView, id: Seq<char>, dropped: nat, frames: usize)
    requires
        v.sinks.dom().contains(id),
        v.sinks[id].health == SinkRuntimeHealth::Healthy,
    ensures
        batch_dropped(v, id, dropped).sinks[id].health == SinkRuntimeHealth::Degraded,
        batch_written(batch_dropped(v, id, dropped), id, frames).sinks[id].health
            == SinkRuntimeHealth::Healthy,
{
}

// ---------------------------------------------------------------------------
// The sinks of a profile

/// Whether a binding is that of a file sink.
pub open spec fn binds_file(binding: SinkBinding, sink: FileSink, default: u16) -> bool {
    &&& binding.id@ == sink.id@
    &&& binding.source@ == sink.source@
    &&& binding.channels == channels_or(sink.channels, default)
    &&& binding.kind matches SinkBindingKind::File { path, format } && path@ == sink.path@
        && format == sink.format
}

/// Whether a binding is that of a stream sink.
pub open spec fn binds_stream(binding: SinkBinding, sink: StreamSink, default: u16) -> bool {
    &&& binding.id@ == sink.id@
    &&& binding.source@ == sink.source@
    &&& binding.channels == channels_or(sink.channels, default)
    &&& binding.kind matches SinkBindingKind::Stream { transport, endpoint, options_json }
        && transport@ == sink.transport@ && endpoint@ == sink.endpoint@ && options_json@
        == json_text(sink.options)
}

/// The sinks of a profile: the files, then the streams.
pub fn sink_bindings(profile: &Profile) -> (r: Vec<SinkBinding>)
    ensures
        r@.len() == profile.sinks.files@.len() + profile.sinks.streams@.len(),
        forall|i: int|
            0 <= i < profile.sinks.files@.len() ==> binds_file(
                #[trigger] r@[i],
                profile.sinks.files@[i],
                default_channels(*profile),
            ),
        forall|i: int|
            profile.sinks.files@.len() <= i < r@.len() ==> binds_stream(
                #[trigger] r@[i],
                profile.sinks.streams@[i - profile.sinks.files@.len()],
                default_channels(*profile),
            ),
{
    let default = profile.default_channels();
    let files = &profile.sinks.files;
    let streams = &profile.sinks.streams;
    let mut bindings: Vec<SinkBinding> = Vec::new();
    let mut i: usize = 0;
    while i < files.len()
        invariant
            i <= files.len(),
            bindings@.len() == i,
            forall|k: int|
                0 <= k < i ==> binds_file(#[trigger] bindings@[k], files@[k], default),
        decreases files.len() - i,
    {
        let sink = &files[i];
        bindings.push(
            SinkBinding {
                id: sink.id.clone(),
                source: sink.source.clone(),
                channels: sink.channels.unwrap_or(default),
                kind: SinkBindingKind::File { path: sink.path.clone(), format: sink.format },
            },
        );
        i = i + 1;
    }
    let mut j: usize = 0;
    while j < streams.len()
        invariant
            j <= streams.len(),
            bindings@.len() == files@.len() + j,
            forall|k: int|
                0 <= k < files@.len() ==> binds_file(#[trigger] bindings@[k], files@[k], default),
            forall|k: int|
                files@.len() <= k < bindings@.len() ==> binds_stream(
                    #[trigger] bindings@[k],
                    streams@[k - files@.len()],
                    default,
                ),
        decreases streams.len() - j,
    {
        let sink = &streams[j];
        bindings.push(
            SinkBinding {
                id: sink.id.clone(),
                source: sink.source.clone(),
                channels: sink.channels.unwrap_or(default),
                kind: SinkBindingKind::Stream {
                    transport: sink.transport.clone(),
                    endpoint: sink.endpoint.clone(),
                    options_json: value_text(&sink.options),
                },
            },
        );
        j = j + 1;
    }
    bindings
}

// ---------------------------------------------------------------------------
// Laws of sinks

/// What is handed to a sink: the rendered audio of the node that it takes from, behind what
/// waits already. Where there is no room it is dropped and counted, with all of its samples;
/// where nothing was rendered for it the sink is degraded, and nothing waits.
pub proof fn law_sinks_get_the_audio_of_their_source(
    v: SinksView,
    binding: SinkBinding,
    rendered: Map<Seq<char>, Vec<u32>>,
    frames: usize,
    capacity: usize,
)
    requires
        v.sinks.dom().contains(binding.id@),
        v.dropped_batches < u64::MAX,
        v.sinks[binding.id@].dropped_batches < u64::MAX,
        rendered.dom().contains(binding.source@) ==> v.dropped_samples
            + rendered[binding.source@]@.len() <= u64::MAX,
    ensures
        ({
            let after = submitted_one(v, binding, rendered, frames, capacity, true);
            let sink = after.sinks[binding.id@];
            &&& after.write_errors == v.write_errors
            &&& rendered.dom().contains(binding.source@) && v.queue.len() < capacity ==> {
                &&& after.queue.len() == v.queue.len() + 1
                &&& after.queue.drop_last() == v.queue
                &&& after.queue.last().sink_id == binding.id@
                &&& after.queue.last().frames == frames
                &&& after.queue.last().samples == rendered[binding.source@]@
                &&& after.dropped_batches == v.dropped_batches
                &&& after.dropped_samples == v.dropped_samples
                &&& after.sinks == v.sinks
            }
            &&& rendered.dom().contains(binding.source@) && v.queue.len() >= capacity ==> {
                &&& after.queue == v.queue
                &&& after.dropped_batches == v.dropped_batches + 1
                &&& after.dropped_samples == v.dropped_samples + rendered[binding.source@]@.len()
                &&& sink.dropped_batches == v.sinks[binding.id@].dropped_batches + 1
                &&& sink.health == if v.sinks[binding.id@].health == SinkRuntimeHealth::Failed {
                    SinkRuntimeHealth::Failed
                } else {
                    SinkRuntimeHealth::Degraded
                }
            }
            &&& !rendered.dom().contains(binding.source@) ==> {
                &&& after.queue == v.queue
                &&& after.dropped_batches == v.dropped_batches
                &&& sink.health == SinkRuntimeHealth::Degraded
                &&& sink.last_error == Some("missing rendered source '"@ + binding.source@ + "'"@)
            }
        }),
{
    let after = submitted_one(v, binding, rendered, frames, capacity, true);
    if rendered.dom().contains(binding.source@) && v.queue.len() < capacity {
        assert(after.queue.drop_last() =~= v.queue);
    }
}

/// Where there is room for all, every sink whose source was rendered gets a batch of it.
pub proof fn law_every_sink_is_served(
    v: SinksView,
    bindings: Seq<SinkBinding>,
    rendered: Map<Seq<char>, Vec<u32>>,
    frames: usize,
    capacity: usize,
    n: int,
    i: int,
)
    requires
        0 <= i < n <= bindings.len(),
        v.queue.len() + n <= capacity,
        rendered.dom().contains(bindings[i].source@),
    ensures
        submitted(v, bindings, rendered, frames, capacity, true, n).queue.len() <= v.queue.len() + n,
        submitted(v, bindings, rendered, frames, capacity, true, n).queue.contains(
            (BatchView {
                sink_id: bindings[i].id@,
                frames,
                samples: rendered[bindings[i].source@]@,
            }),
        ),
    decreases n,
{
    let before = submitted(v, bindings, rendered, frames, capacity, true, n - 1);
    let after = submitted(v, bindings, rendered, frames, capacity, true, n);
    let batch = BatchView {
        sink_id: bindings[i].id@,
        frames,
        samples: rendered[bindings[i].source@]@,
    };
    lemma_queue_grows(v, bindings, rendered, frames, capacity, n - 1);
    if i == n - 1 {
        assert(after.queue.last() == batch);
    } else {
        law_every_sink_is_served(v, bindings, rendered, frames, capacity, n - 1, i);
        let k = before.queue.index_of(batch);
        assert(after.queue[k] == batch);
    }
}

proof fn lemma_queue_grows(
    v: SinksView,
    bindings: Seq<SinkBinding>,
    rendered: Map<Seq<char>, Vec<u32>>,
    frames: usize,
    capacity: usize,
    n: int,
)
    requires
        0 <= n,
    ensures
        submitted(v, bindings, rendered, frames, capacity, true, n).queue.len() <= v.queue.len() + n,
    decreases n,
{
    if n > 0 {
        lemma_queue_grows(v, bindings, rendered, frames, capacity, n - 1);
    }
}

/// A batch that was written counts its frames; a sink that was degraded is healthy again, and one
/// that failed stays so. A batch that could not be written makes its sink fail, with the reason,
/// and is counted; other sinks do not change.
pub proof fn law_written_batches_are_counted(
    v: SinksView,
    id: Seq<char>,
    other: Seq<char>,
    frames: usize,
    error: Seq<char>,
)
    requires
        v.sinks.dom().contains(id),
        v.sinks.dom().contains(other),
        other != id,
        v.sinks[id].written_frames + frames <= u64::MAX,
        v.write_errors < u64::MAX,
    ensures
        ({
            let written = batch_written(v, id, frames);
            let failed = sink_failed(v, id, error);
            &&& written.sinks[id].written_frames == v.sinks[id].written_frames + frames
            &&& written.sinks[id].health == if v.sinks[id].health == SinkRuntimeHealth::Failed {
                SinkRuntimeHealth::Failed
            } else {
                SinkRuntimeHealth::Healthy
            }
            &&& written.sinks[other] == v.sinks[other]
            &&& written.write_errors == v.write_errors
            &&& written.queue == v.queue
            &&& failed.sinks[id].health == SinkRuntimeHealth::Failed
            &&& failed.sinks[id].last_error == Some(error)
            &&& failed.sinks[id].written_frames == v.sinks[id].written_frames
            &&& failed.sinks[other] == v.sinks[other]
            &&& failed.write_errors == v.write_errors + 1
            &&& failed.queue == v.queue
        }),
{
}

/// A sink begins healthy with nothing written, unless its file could not be opened; it tells its
/// source and whether it is a file or a stream.
pub proof fn law_sinks_begin_with_nothing(binding: SinkBinding)
    ensures
        fresh_sink(binding).source == binding.source@,
        fresh_sink(binding).kind == SinkRuntimeKind::File <==> binding.kind is File,
        fresh_sink(binding).health == SinkRuntimeHealth::Healthy,
        fresh_sink(binding).written_frames == 0,
        fresh_sink(binding).dropped_batches == 0,
        fresh_sink(binding).last_error is None,
{
}

/// The sinks of a profile take from the nodes that they name: recordings at their paths and in
/// their formats, then streams, each with the channels that it names or those of the profile.
pub proof fn law_bindings_follow_the_profile(profile: Profile, r: Vec<SinkBinding>, i: int)
    requires
        call_ensures(sink_bindings, (&profile,), r),
        0 <= i < r@.len(),
    ensures
        r@.len() == profile.sinks.files@.len() + profile.sinks.streams@.len(),
        i < profile.sinks.files@.len() ==> {
            let sink = profile.sinks.files@[i];
            &&& r@[i].id@ == sink.id@
            &&& r@[i].source@ == sink.source@
            &&& r@[i].kind is File
            &&& r@[i].kind->path@ == sink.path@
            &&& r@[i].kind->format == sink.format
            &&& sink.channels is Some ==> r@[i].channels == sink.channels->0
            &&& sink.channels is None ==> r@[i].channels == default_channels(profile)
        },
        i >= profile.sinks.files@.len() ==> {
            let sink = profile.sinks.streams@[i - profile.sinks.files@.len()];
            &&& r@[i].id@ == sink.id@
            &&& r@[i].source@ == sink.source@
            &&& r@[i].kind is Stream
            &&& r@[i].kind->transport@ == sink.transport@
            &&& r@[i].kind->endpoint@ == sink.endpoint@
            &&& sink.channels is Some ==> r@[i].channels == sink.channels->0
            &&& sink.channels is None ==> r@[i].channels == default_channels(profile)
        },
{
}

/// A sink counts as active where it is healthy and of the kind that is asked for.
pub proof fn law_active_sinks_are_healthy(
    sinks: Seq<SinkRuntimeSinkStatus>,
    last: SinkRuntimeSinkStatus,
    kind: SinkRuntimeKind,
)
    ensures
        active_sinks(Seq::empty(), kind) == 0,
        active_sinks(sinks.push(last), kind) == active_sinks(sinks, kind) + if last.kind == kind
            && last.health == SinkRuntimeHealth::Healthy {
            1int
        } else {
            0int
        },
{
    let more = sinks.push(last);
    crate::sequences::lemma_kept_same(
        |i: int| more[i].kind == kind && more[i].health == SinkRuntimeHealth::Healthy,
        |i: int| sinks[i].kind == kind && sinks[i].health == SinkRuntimeHealth::Healthy,
        sinks.len() as int,
    );
}

} // verus!
