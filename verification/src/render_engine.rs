//! The engine: what it renders, the processors on the way, and how they are controlled.

use crate::daemon::{no_counts, RuntimeCounters};
use crate::engine::{silence, EngineError, SampleMath};
use crate::engine_state::{
    as_places, cycle_rendered, source_error, start_state, EngineState, SinkBuffer,
};
use crate::graph::{valid_graph, RoutingGraph};
use crate::processors::{
    all_requests, all_totals, host_at, schedule_of, shifts_fit, without_request, PluginRequest,
    ProcessorControl, ProcessorRuntimeStats, ProcessorSchedule, ProcessorState, ScheduleContext,
    ScheduledProcessor, ShiftFrames,
};
use crate::render_loop::capped_product;
use crate::sequences::views;
use crate::string_map::{lemma_increasing_places, StringMap};
use vstd::prelude::*;

verus! {

/// What the engine renders.
#[derive(Debug)]
pub struct EngineSnapshot {
    pub graph: RoutingGraph,
    pub sample_rate: u32,
    pub buffer_frames: u32,
}

/// What comes out of a buffer: the audio at the sinks, by the bit patterns of its samples.
#[derive(Debug)]
pub struct RenderOutput {
    pub sinks: StringMap<Vec<u32>>,
    pub counters: RuntimeCounters,
}

/// The engine.
#[derive(Debug)]
pub struct Engine {
    pub snapshot: EngineSnapshot,
    pub state: EngineState,
    pub processor_controls: StringMap<ProcessorControl>,
}

/// A state before the first buffer: all delays hold silence, and all processors are ready.
pub open spec fn fresh_state(
    state: EngineState,
    snapshot: EngineSnapshot,
    delay_frames: Seq<usize>,
    shifts: Map<Seq<char>, ShiftFrames>,
) -> bool {
    let graph = snapshot.graph;
    &&& state.fits(graph)
    &&& forall|k: int|
        0 <= k < state.routes@.len() ==> (#[trigger] state.routes@[k]).delay_line.pending()
            == silence(
            capped_product(
                delay_frames[k] as int,
                graph.route_plan.routes@[k].destination_channels as int,
            ),
        )
    &&& forall|i: int|
        0 <= i < state.node_buffers.values().len() ==> (
        #[trigger] state.node_buffers.values()[i])@.len() == 0
    &&& schedule_of(
        graph,
        ScheduleContext {
            sample_rate: snapshot.sample_rate,
            buffer_frames: snapshot.buffer_frames,
            shifts,
        },
        state.schedule.route_chains@,
        graph.route_plan.routes@.len() as int,
    )
}

/// The sinks of a buffer by their ids.
pub open spec fn sinks_by_id(sinks: Map<Seq<char>, Vec<u32>>, out: Seq<SinkBuffer>) -> bool {
    &&& forall|i: int|
        0 <= i < out.len() ==> #[trigger] sinks.dom().contains(out[i].id@) && sinks[out[i].id@]
            == out[i].samples
    &&& forall|id: Seq<char>| #[trigger]
        sinks.dom().contains(id) ==> exists|i: int|
            0 <= i < out.len() && (#[trigger] out[i]).id@ == id
}

/// Whether the ids of the sinks are distinct.
pub open spec fn distinct_sinks(out: Seq<SinkBuffer>) -> bool {
    forall|i: int, j: int|
        0 <= i < j < out.len() ==> (#[trigger] out[i]).id@ != (#[trigger] out[j]).id@
}

/// No two sinks of a buffer have one id.
pub proof fn lemma_sinks_distinct<M: SampleMath>(
    math: &M,
    c: crate::engine_state::RenderContext,
    order: Seq<int>,
    frames: usize,
    start: crate::engine_state::RenderState,
    out: Seq<SinkBuffer>,
    after: crate::engine_state::RenderState,
)
    requires
        c.graph.nodes.wf(),
        cycle_rendered(math, c, order, frames, start, out, after),
    ensures
        distinct_sinks(out),
{
    let g = c.graph;
    let sinks = crate::engine_state::sink_places(g);
    crate::sequences::lemma_kept(
        |i: int| g.nodes.values()[i].kind.sink(),
        g.nodes.values().len() as int,
    );
    assert forall|i: int, j: int| 0 <= i < j < out.len() implies (#[trigger] out[i]).id@ != (
    #[trigger] out[j]).id@ by {
        assert(sinks[i] < sinks[j]);
        lemma_increasing_places(g.nodes.keys(), sinks[i], sinks[j]);
    }
}

fn copy_samples(samples: &Vec<u32>, target: &mut Vec<u32>)
    requires
        samples@.len() == old(target)@.len(),
    ensures
        final(target)@ == samples@,
{
    let mut i: usize = 0;
    while i < samples.len()
        invariant
            i <= samples.len(),
            target@.len() == samples@.len(),
            forall|k: int| 0 <= k < i ==> target@[k] == samples@[k],
        decreases samples.len() - i,
    {
        target.set(i, samples[i]);
        i = i + 1;
    }
    assert(target@ =~= samples@);
}

/// A prepared buffer after a buffer was rendered: it takes over the audio of its sink where
/// there is one and the lengths agree, else it stays as it was.
pub open spec fn taken_over(before: Seq<u32>, id: Seq<char>, out: Seq<SinkBuffer>, n: int) -> Seq<u32>
    decreases n,
{
    if n <= 0 {
        before
    } else if out[n - 1].id@ == id && out[n - 1].samples@.len() == before.len() {
        out[n - 1].samples@
    } else {
        taken_over(before, id, out, n - 1)
    }
}

proof fn lemma_taken_over_len(before: Seq<u32>, id: Seq<char>, out: Seq<SinkBuffer>, n: int)
    requires
        n <= out.len(),
    ensures
        taken_over(before, id, out, n).len() == before.len(),
    decreases n,
{
    if n > 0 {
        lemma_taken_over_len(before, id, out, n - 1);
    }
}

impl Engine {
    /// The state belongs to what is rendered.
    pub open spec fn wf(self) -> bool {
        &&& valid_graph(self.snapshot.graph)
        &&& self.state.fits(self.snapshot.graph)
        &&& self.processor_controls.wf()
    }

    /// An engine before its first buffer, without controls. The delay of each route, and how
    /// far each processor shifts, is given in frames.
    #[must_use]
    pub fn new(
        snapshot: EngineSnapshot,
        delay_frames: &Vec<usize>,
        shifts: &StringMap<ShiftFrames>,
    ) -> (r: Engine)
        requires
            valid_graph(snapshot.graph),
            delay_frames@.len() == snapshot.graph.route_plan.routes@.len(),
            shifts.wf(),
            shifts_fit(shifts@),
        ensures
            r.wf(),
            r.snapshot == snapshot,
            fresh_state(r.state, snapshot, delay_frames@, shifts@),
            r.processor_controls@ == Map::<Seq<char>, ProcessorControl>::empty(),
    {
        let state = EngineState::from_snapshot(
            &snapshot.graph,
            snapshot.sample_rate,
            snapshot.buffer_frames,
            delay_frames,
            shifts,
        );
        Engine { snapshot, state, processor_controls: StringMap::new() }
    }

    /// Renders something else from now on: all delays and all processors start anew, the
    /// controls stay.
    pub fn swap_snapshot(
        &mut self,
        snapshot: EngineSnapshot,
        delay_frames: &Vec<usize>,
        shifts: &StringMap<ShiftFrames>,
    )
        requires
            old(self).wf(),
            valid_graph(snapshot.graph),
            delay_frames@.len() == snapshot.graph.route_plan.routes@.len(),
            shifts.wf(),
            shifts_fit(shifts@),
        ensures
            final(self).wf(),
            final(self).snapshot == snapshot,
            fresh_state(final(self).state, snapshot, delay_frames@, shifts@),
            final(self).processor_controls == old(self).processor_controls,
    {
        self.state = EngineState::from_snapshot(
            &snapshot.graph,
            snapshot.sample_rate,
            snapshot.buffer_frames,
            delay_frames,
            shifts,
        );
        self.snapshot = snapshot;
    }

    /// Uses other processors from now on.
    pub fn swap_processor_schedule(&mut self, schedule: ProcessorSchedule)
        requires
            old(self).wf(),
            schedule.wf(),
        ensures
            final(self).wf(),
            final(self).snapshot == old(self).snapshot,
            final(self).state == (EngineState { schedule, ..old(self).state }),
            final(self).processor_controls == old(self).processor_controls,
    {
        self.state.schedule = schedule;
    }

    /// Uses other controls from now on.
    pub fn replace_processor_controls(&mut self, controls: StringMap<ProcessorControl>)
        requires
            old(self).wf(),
            controls.wf(),
        ensures
            final(self).wf(),
            final(self).snapshot == old(self).snapshot,
            final(self).state == old(self).state,
            final(self).processor_controls == controls,
    {
        self.processor_controls = controls;
    }

    /// Controls one processor otherwise from now on.
    pub fn update_processor_control(&mut self, processor_id: String, control: ProcessorControl)
        requires
            old(self).wf(),
        ensures
            final(self).wf(),
            final(self).snapshot == old(self).snapshot,
            final(self).state == old(self).state,
            final(self).processor_controls@ == old(self).processor_controls@.insert(
                processor_id@,
                control,
            ),
    {
        self.processor_controls.insert(processor_id, control);
    }

    /// The counters of all processors, by their ids.
    #[must_use]
    pub fn processor_runtime_stats(&self) -> (r: StringMap<ProcessorRuntimeStats>)
        requires
            self.wf(),
        ensures
            r.wf(),
            r@ == all_totals(
                self.state.schedule.route_chains.values(),
                self.state.schedule.route_chains.values().len() as int,
            ),
    {
        self.state.schedule.stats()
    }

    /// Hands a plugin processor what its host gave back; says whether there is such a one.
    pub fn deliver_plugin_result(&mut self, route_id: &str, place: usize, samples: Vec<u32>) -> (r:
        bool)
        requires
            old(self).wf(),
        ensures
            final(self).wf(),
            final(self).snapshot == old(self).snapshot,
            final(self).processor_controls == old(self).processor_controls,
            final(self).state == (EngineState {
                schedule: final(self).state.schedule,
                ..old(self).state
            }),
            final(self).state.schedule.route_chains.keys()
                == old(self).state.schedule.route_chains.keys(),
            r == host_at(
                old(self).state.schedule.route_chains.keys(),
                old(self).state.schedule.route_chains.values(),
                route_id@,
                place as int,
            ),
            !r ==> final(self).state.schedule == old(self).state.schedule,
            r ==> {
                let at = old(self).state.schedule.route_chains.keys().index_of(route_id@);
                let chain = old(self).state.schedule.route_chains.values()[at]@;
                let after = final(self).state.schedule.route_chains.values()[at];
                &&& final(self).state.schedule.route_chains.values()
                    == old(self).state.schedule.route_chains.values().update(at, after)
                &&& after@ == chain.update(
                    place as int,
                    ScheduledProcessor {
                        state: ProcessorState::Host {
                            latest: Some(samples),
                            request: chain[place as int].state->Host_request,
                        },
                        ..chain[place as int]
                    },
                )
            },
    {
        self.state.schedule.deliver_result(route_id, place, samples)
    }

    /// Hands out what is to go to the plugin hosts: by the ids of the routes, then by place.
    pub fn take_plugin_requests(&mut self) -> (r: Vec<PluginRequest>)
        requires
            old(self).wf(),
        ensures
            final(self).wf(),
            final(self).snapshot == old(self).snapshot,
            final(self).processor_controls == old(self).processor_controls,
            final(self).state == (EngineState {
                schedule: final(self).state.schedule,
                ..old(self).state
            }),
            final(self).state.schedule.route_chains.keys()
                == old(self).state.schedule.route_chains.keys(),
            views(r@) == all_requests(
                old(self).state.schedule.route_chains.keys(),
                old(self).state.schedule.route_chains.values(),
                old(self).state.schedule.route_chains.values().len() as int,
            ),
            final(self).state.schedule.route_chains.values().len()
                == old(self).state.schedule.route_chains.values().len(),
            forall|i: int|
                0 <= i < old(self).state.schedule.route_chains.values().len() ==> (
                #[trigger] final(self).state.schedule.route_chains.values()[i])@ == old(
                    self,
                ).state.schedule.route_chains.values()[i]@.map_values(
                    |p: ScheduledProcessor| without_request(p),
                ),
    {
        self.state.schedule.take_requests()
    }

    /// Renders one buffer and gives the audio of each sink, in the order of their ids.
    pub fn render_cycle_with<M: SampleMath>(
        &mut self,
        frames: usize,
        sources: &StringMap<Vec<u32>>,
        math: &M,
    ) -> (r: Result<Vec<SinkBuffer>, EngineError>)
        requires
            old(self).wf(),
            sources.wf(),
            frames * 64 <= usize::MAX,
        ensures
            final(self).wf(),
            final(self).snapshot == old(self).snapshot,
            final(self).processor_controls == old(self).processor_controls,
            final(self).state.schedule.route_chains.keys()
                == old(self).state.schedule.route_chains.keys(),
            cycle_outcome(math, *old(self), *final(self), frames, *sources, r),
    {
        self.state.render_cycle(
            &self.snapshot.graph,
            frames,
            sources,
            &self.processor_controls,
            math,
        )
    }

    /// Renders one buffer and gives the audio of all sinks by their ids.
    pub fn render_cycle<M: SampleMath>(
        &mut self,
        frames: usize,
        sources: &StringMap<Vec<u32>>,
        math: &M,
    ) -> (r: Result<RenderOutput, EngineError>)
        requires
            old(self).wf(),
            sources.wf(),
            frames * 64 <= usize::MAX,
        ensures
            final(self).wf(),
            final(self).snapshot == old(self).snapshot,
            final(self).processor_controls == old(self).processor_controls,
            final(self).state.schedule.route_chains.keys()
                == old(self).state.schedule.route_chains.keys(),
            match r {
                Err(e) => cycle_outcome(math, *old(self), *final(self), frames, *sources, Err(e)),
                Ok(output) => {
                    &&& output.sinks.wf()
                    &&& output.counters == no_counts()
                    &&& exists|out: Vec<SinkBuffer>|
                        sinks_by_id(output.sinks@, out@) && #[trigger] cycle_outcome(
                            math,
                            *old(self),
                            *final(self),
                            frames,
                            *sources,
                            Ok(out),
                        )
                },
            },
    {
        let ghost start = *self;
        let out = match self.render_cycle_with(frames, sources, math) {
            Err(e) => {
                return Err(e);
            },
            Ok(out) => out,
        };
        let ghost all = out;
        proof {
            lemma_sinks_distinct(
                math,
                start.state.context(start.snapshot.graph, start.processor_controls@),
                as_places(start.state.order@),
                frames,
                start_state(start.snapshot.graph, start.state.audio(), *sources, frames),
                out@,
                self.state.audio(),
            );
        }
        let mut sinks: StringMap<Vec<u32>> = StringMap::new();
        let mut left = out;
        let ghost n = left@.len();
        assert(left@ =~= all@.take(n as int));
        while left.len() > 0
            invariant
                sinks.wf(),
                distinct_sinks(all@),
                n <= all@.len(),
                left@.len() <= n,
                n == all@.len(),
                left@ == all@.take(left@.len() as int),
                forall|i: int|
                    left@.len() <= i < n ==> #[trigger] sinks@.dom().contains(all@[i].id@)
                        && sinks@[all@[i].id@] == all@[i].samples,
                forall|id: Seq<char>| #[trigger]
                    sinks@.dom().contains(id) ==> exists|i: int|
                        left@.len() <= i < n && (#[trigger] all@[i]).id@ == id,
            decreases left@.len(),
        {
            let ghost before = sinks@;
            let ghost count = left@.len();
            match left.pop() {
                Some(sink) => {
                    assert(sink == all@[count - 1]);
                    let ghost sink_view = sink;
                    sinks.insert(sink.id, sink.samples);
                    proof {
                        assert(left@ =~= all@.take(count - 1));
                        assert forall|i: int| count - 1 <= i < n implies #[trigger] sinks@.dom().contains(
                            all@[i].id@,
                        ) && sinks@[all@[i].id@] == all@[i].samples by {
                            if i >= count {
                                assert(all@[count - 1].id@ != all@[i].id@);
                                assert(before.dom().contains(all@[i].id@));
                            }
                        }
                        assert forall|id: Seq<char>| #[trigger] sinks@.dom().contains(id) implies exists|
                            i: int,
                        |
                            count - 1 <= i < n && (#[trigger] all@[i]).id@ == id by {
                            if id == sink_view.id@ {
                                assert(all@[count - 1].id@ == id);
                            } else {
                                assert(before.dom().contains(id));
                                let i = choose|i: int|
                                    count <= i < n && (#[trigger] all@[i]).id@ == id;
                                assert(all@[i].id@ == id);
                            }
                        }
                    }
                },
                None => {},
            }
        }
        proof {
            assert(sinks_by_id(sinks@, all@));
            assert(cycle_outcome(math, start, *self, frames, *sources, Ok(all)));
        }
        Ok(
            RenderOutput {
                sinks,
                counters: RuntimeCounters {
                    underrun_count: 0,
                    overrun_count: 0,
                    xrun_count: 0,
                    last_callback_ns: 0,
                    deadline_miss_count: 0,
                    last_cycle_ns: 0,
                    max_cycle_ns: 0,
                },
            },
        )
    }

    /// Renders one buffer into prepared buffers; those without a sink, or of another length
    /// than its audio, stay as they are.
    pub fn render_cycle_into<M: SampleMath>(
        &mut self,
        frames: usize,
        sources: &StringMap<Vec<u32>>,
        sink_outputs: &mut StringMap<Vec<u32>>,
        math: &M,
    ) -> (r: Result<RuntimeCounters, EngineError>)
        requires
            old(self).wf(),
            sources.wf(),
            old(sink_outputs).wf(),
            frames * 64 <= usize::MAX,
        ensures
            final(self).wf(),
            final(self).snapshot == old(self).snapshot,
            final(self).processor_controls == old(self).processor_controls,
            final(self).state.schedule.route_chains.keys()
                == old(self).state.schedule.route_chains.keys(),
            final(sink_outputs).wf(),
            final(sink_outputs).keys() == old(sink_outputs).keys(),
            match r {
                Err(e) => {
                    &&& cycle_outcome(math, *old(self), *final(self), frames, *sources, Err(e))
                    &&& final(sink_outputs).values() == old(sink_outputs).values()
                },
                Ok(counters) => {
                    &&& counters == no_counts()
                    &&& exists|out: Vec<SinkBuffer>|
                        taken_all(
                            old(sink_outputs).keys(),
                            old(sink_outputs).values(),
                            final(sink_outputs).values(),
                            out@,
                        ) && #[trigger] cycle_outcome(
                            math,
                            *old(self),
                            *final(self),
                            frames,
                            *sources,
                            Ok(out),
                        )
                },
            },
    {
        let ghost start = *self;
        let ghost keys = sink_outputs.keys();
        let ghost first = sink_outputs.values();
        let out = match self.render_cycle_with(frames, sources, math) {
            Err(e) => {
                return Err(e);
            },
            Ok(out) => out,
        };
        let count = out.len();
        let mut n: usize = 0;
        while n < count
            invariant
                count == out@.len(),
                n <= count,
                sink_outputs.wf(),
                sink_outputs.keys() == keys,
                first.len() == keys.len(),
                sink_outputs.values().len() == keys.len(),
                forall|i: int|
                    0 <= i < keys.len() ==> (#[trigger] sink_outputs.values()[i])@ == taken_over(
                        first[i]@,
                        keys[i],
                        out@,
                        n as int,
                    ),
            decreases count - n,
        {
            let ghost before = sink_outputs.values();
            let sink = &out[n];
            match sink_outputs.find(sink.id.as_str()) {
                None => {
                    proof {
                        assert forall|i: int| 0 <= i < keys.len() implies (
                        #[trigger] sink_outputs.values()[i])@ == taken_over(
                            first[i]@,
                            keys[i],
                            out@,
                            n + 1,
                        ) by {
                            assert(keys.contains(keys[i]));
                        }
                    }
                },
                Some(place) => {
                    let target: &mut Vec<u32> = sink_outputs.value_mut(place);
                    if target.len() == sink.samples.len() {
                        copy_samples(&sink.samples, target);
                    }
                    proof {
                        assert forall|i: int| 0 <= i < keys.len() implies (
                        #[trigger] sink_outputs.values()[i])@ == taken_over(
                            first[i]@,
                            keys[i],
                            out@,
                            n + 1,
                        ) by {
                            lemma_increasing_places(keys, i, place as int);
                            lemma_taken_over_len(first[i]@, keys[i], out@, n as int);
                            assert(before[i]@ == taken_over(first[i]@, keys[i], out@, n as int));
                        }
                    }
                },
            }
            n = n + 1;
        }
        proof {
            assert(taken_all(keys, first, sink_outputs.values(), out@));
            assert(cycle_outcome(math, start, *self, frames, *sources, Ok(out)));
        }
        Ok(
            RuntimeCounters {
                underrun_count: 0,
                overrun_count: 0,
                xrun_count: 0,
                last_callback_ns: 0,
                deadline_miss_count: 0,
                last_cycle_ns: 0,
                max_cycle_ns: 0,
            },
        )
    }
}

/// All prepared buffers after a buffer was rendered.
pub open spec fn taken_all(
    ids: Seq<Seq<char>>,
    before: Seq<Vec<u32>>,
    after: Seq<Vec<u32>>,
    out: Seq<SinkBuffer>,
) -> bool {
    &&& after.len() == before.len()
    &&& forall|i: int|
        0 <= i < after.len() ==> (#[trigger] after[i])@ == taken_over(
            before[i]@,
            ids[i],
            out,
            out.len() as int,
        )
}

/// What rendering one buffer comes to: an error where there are no frames or a source does
/// not fit its node, else all routes rendered in order and the audio of all sinks. The
/// processors stay those of the same routes.
pub open spec fn cycle_outcome<M: SampleMath>(
    math: &M,
    before: Engine,
    after: Engine,
    frames: usize,
    sources: StringMap<Vec<u32>>,
    r: Result<Vec<SinkBuffer>, EngineError>,
) -> bool {
    match r {
        Err(e) => if frames == 0 {
            e == EngineError::InvalidFrames && after == before
        } else {
            &&& source_error(before.snapshot.graph, sources) == Some(e)
            &&& after.state.audio().pending == before.state.audio().pending
            &&& after.state.schedule == before.state.schedule
        },
        Ok(out) => {
            &&& frames > 0
            &&& source_error(before.snapshot.graph, sources) is None
            &&& after.state.schedule.route_chains.keys()
                == before.state.schedule.route_chains.keys()
            &&& cycle_rendered(
                math,
                before.state.context(before.snapshot.graph, before.processor_controls@),
                as_places(before.state.order@),
                frames,
                start_state(before.snapshot.graph, before.state.audio(), sources, frames),
                out@,
                after.state.audio(),
            )
        },
    }
}

} // verus!
