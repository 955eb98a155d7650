//! The processors of routes: which run where, when they run, and what they count.

use crate::au_host::{
    choose_output, chosen_output, AuProcessRequest, PluginHostHealth, PluginHostInstanceStatus,
};
use crate::delay::{made_ready_shift, shifted, TimeShiftState};
use crate::engine::SampleMath;
use crate::external_io::{count_up, counted};
use crate::graph::{CompiledProcessor, CompiledProcessorChain, CompiledRoute, RoutingGraph};
use crate::number::Real32;
use crate::profile::ProcessorKind;
use crate::sequences::{kept, last_place, lemma_views_push, views};
use crate::string_map::{lemma_increasing_places, StringMap};
use vstd::prelude::*;

verus! {

broadcast use lemma_views_push;

/// How a processor is controlled while audio runs.
#[derive(Debug, Clone)]
pub struct ProcessorControl {
    pub bypass: bool,
    pub generation: u64,
    pub params: StringMap<Real32>,
}

/// What a processor counts.
#[derive(Debug, Clone, Copy, PartialEq, Eq, Structural)]
pub struct ProcessorRuntimeStats {
    pub prepare_calls: u64,
    pub process_calls: u64,
    pub reset_calls: u64,
    pub last_generation: u64,
}

/// What a processor is made ready for.
#[derive(Debug, Clone, Copy, PartialEq, Eq, Structural)]
pub struct ProcessorPrepareContext {
    pub channels: usize,
    pub sample_rate: u32,
    pub max_frames: usize,
}

/// How far a processor shifts audio in time, and how far it could, in frames.
#[derive(Debug, Clone, Copy, PartialEq, Eq, Structural)]
pub struct ShiftFrames {
    pub delay: usize,
    pub longest: usize,
}

/// What a processor holds of the audio.
#[derive(Debug)]
pub enum ProcessorState {
    /// What a filter remembers, in bit patterns.
    Filter { memory: Vec<u32> },
    TimeShift(TimeShiftState),
    /// What a plugin host gave back last, and what is to go to it.
    Host { latest: Option<Vec<u32>>, request: Option<AuProcessRequest> },
}

/// A processor of a route.
#[derive(Debug)]
pub struct ScheduledProcessor {
    pub id: String,
    pub kind: ProcessorKind,
    pub config_json: String,
    pub context: ProcessorPrepareContext,
    pub prepared: bool,
    pub state: ProcessorState,
    pub stats: ProcessorRuntimeStats,
}

/// Whether a processor of a kind holds nothing.
pub open spec fn holds_nothing(kind: ProcessorKind, state: ProcessorState) -> bool {
    match kind {
        ProcessorKind::TimeShift => state matches ProcessorState::TimeShift(shift)
            && shift.is_unprepared(),
        ProcessorKind::Au => state == (ProcessorState::Host { latest: None, request: None }),
        _ => state matches ProcessorState::Filter { memory } && memory@.len() == 0,
    }
}

/// Whether a processor of a kind holds what it holds when it was just made ready: silence, as
/// long as it shifts, or nothing.
pub open spec fn holds_silence(
    kind: ProcessorKind,
    state: ProcessorState,
    context: ProcessorPrepareContext,
    shift: ShiftFrames,
) -> bool {
    if kind == ProcessorKind::TimeShift {
        state matches ProcessorState::TimeShift(held) && held.wf() && made_ready_shift(
            held,
            context.channels,
            shift.delay,
            shift.longest,
        )
    } else {
        holds_nothing(kind, state)
    }
}

/// What happens to samples that come to a processor.
#[derive(Debug, Clone, Copy, PartialEq, Eq, Structural)]
pub enum Admission {
    /// Nothing, and nothing is counted.
    Ignored,
    /// They pass unchanged, and that is counted.
    Passed,
    /// They are processed, and that is counted.
    Processed,
}

/// What happens to samples that come to a processor. An equaliser counts samples without
/// channels and passes them; a plugin counts samples that it is told to pass.
pub open spec fn admission(
    kind: ProcessorKind,
    prepared: bool,
    bypass: bool,
    channels: usize,
    frames: usize,
) -> Admission {
    match kind {
        ProcessorKind::Au => if !prepared || channels == 0 || frames == 0 {
            Admission::Ignored
        } else if bypass {
            Admission::Passed
        } else {
            Admission::Processed
        },
        ProcessorKind::Eq => if bypass || !prepared {
            Admission::Ignored
        } else if channels == 0 {
            Admission::Passed
        } else {
            Admission::Processed
        },
        _ => if bypass || !prepared || channels == 0 {
            Admission::Ignored
        } else {
            Admission::Processed
        },
    }
}

/// The counters after samples came.
pub open spec fn stats_after(
    stats: ProcessorRuntimeStats,
    admitted: Admission,
    control: Option<ProcessorControl>,
) -> ProcessorRuntimeStats {
    if admitted == Admission::Ignored {
        stats
    } else {
        ProcessorRuntimeStats {
            prepare_calls: stats.prepare_calls,
            process_calls: counted(stats.process_calls, 1),
            reset_calls: stats.reset_calls,
            last_generation: match control {
                Some(c) => c.generation,
                None => stats.last_generation,
            },
        }
    }
}

/// The value behind an optional reference.
pub open spec fn deref_control(control: Option<&ProcessorControl>) -> Option<ProcessorControl> {
    match control {
        Some(c) => Some(*c),
        None => None,
    }
}

impl ScheduledProcessor {
    /// It is the same processor, whatever it holds and counts.
    pub open spec fn same_processor(self, other: ScheduledProcessor) -> bool {
        self.id == other.id && self.kind == other.kind && self.config_json == other.config_json
    }

    /// A processor holds what its kind holds.
    pub open spec fn wf(self) -> bool {
        match self.kind {
            ProcessorKind::TimeShift => self.state matches ProcessorState::TimeShift(shift)
                && shift.wf(),
            ProcessorKind::Au => self.state is Host,
            _ => self.state is Filter,
        }
    }

    /// Makes the processor ready.
    pub fn prepare(&mut self, context: ProcessorPrepareContext, shift: ShiftFrames)
        requires
            (shift.longest + 2) * (context.channels + 1) <= usize::MAX,
        ensures
            final(self).same_processor(*old(self)),
            final(self).wf(),
            final(self).context == context,
            final(self).prepared,
            holds_silence(final(self).kind, final(self).state, context, shift),
            final(self).stats == (ProcessorRuntimeStats {
                prepare_calls: counted(old(self).stats.prepare_calls, 1),
                ..old(self).stats
            }),
    {
        self.state =
        match self.kind {
            ProcessorKind::TimeShift => ProcessorState::TimeShift(
                TimeShiftState::prepare(context.channels, shift.delay, shift.longest),
            ),
            ProcessorKind::Au => ProcessorState::Host { latest: None, request: None },
            _ => ProcessorState::Filter { memory: Vec::new() },
        };
        self.context = context;
        self.prepared = true;
        self.stats.prepare_calls = count_up(self.stats.prepare_calls, 1);
    }

    /// Decides over samples and counts them.
    pub fn accept(
        &mut self,
        control: Option<&ProcessorControl>,
        bypass: bool,
        channels: usize,
        frames: usize,
    ) -> (r: Admission)
        ensures
            r == admission(old(self).kind, old(self).prepared, bypass, channels, frames),
            final(self).same_processor(*old(self)),
            final(self).context == old(self).context,
            final(self).state == old(self).state,
            final(self).prepared == old(self).prepared,
            final(self).stats == stats_after(old(self).stats, r, deref_control(control)),
    {
        let admitted = match self.kind {
            ProcessorKind::Au => if !self.prepared || channels == 0 || frames == 0 {
                Admission::Ignored
            } else if bypass {
                Admission::Passed
            } else {
                Admission::Processed
            },
            ProcessorKind::Eq => if bypass || !self.prepared {
                Admission::Ignored
            } else if channels == 0 {
                Admission::Passed
            } else {
                Admission::Processed
            },
            _ => if bypass || !self.prepared || channels == 0 {
                Admission::Ignored
            } else {
                Admission::Processed
            },
        };
        if admitted != Admission::Ignored {
            if let Some(c) = control {
                self.stats.last_generation = c.generation;
            }
            self.stats.process_calls = count_up(self.stats.process_calls, 1);
        }
        admitted
    }

    /// Makes the processor unready, and lets go what it holds; says whether it was ready, which
    /// is then counted.
    pub fn reset(&mut self) -> (r: bool)
        ensures
            r == old(self).prepared,
            final(self).same_processor(*old(self)),
            final(self).context == old(self).context,
            !final(self).prepared,
            if old(self).prepared {
                holds_nothing(final(self).kind, final(self).state)
            } else {
                final(self).state == old(self).state
            },
            final(self).stats == if old(self).prepared {
                ProcessorRuntimeStats {
                    reset_calls: counted(old(self).stats.reset_calls, 1),
                    ..old(self).stats
                }
            } else {
                old(self).stats
            },
    {
        let was = self.prepared;
        self.prepared = false;
        if was {
            self.state =
            match self.kind {
                ProcessorKind::TimeShift => ProcessorState::TimeShift(TimeShiftState::unprepared()),
                ProcessorKind::Au => ProcessorState::Host { latest: None, request: None },
                _ => ProcessorState::Filter { memory: Vec::new() },
            };
            self.stats.reset_calls = count_up(self.stats.reset_calls, 1);
        }
        was
    }
}

/// Whether samples are to pass a processor, and its control, from the controls by ids.
pub fn control_of<'a>(controls: &'a StringMap<ProcessorControl>, id: &str) -> (r: (
    Option<&'a ProcessorControl>,
    bool,
))
    requires
        controls.wf(),
    ensures
        r.0 is Some <==> controls@.dom().contains(id@),
        r.0 matches Some(c) ==> *c == controls@[id@],
        r.1 == (controls@.dom().contains(id@) && controls@[id@].bypass),
{
    let control = controls.get(id);
    let bypass = match control {
        Some(c) => c.bypass,
        None => false,
    };
    (control, bypass)
}

// ---------------------------------------------------------------------------
// The schedule

/// The processors of each route that has a chain, by the ids of the routes.
#[derive(Debug)]
pub struct ProcessorSchedule {
    pub route_chains: StringMap<Vec<ScheduledProcessor>>,
}

/// How far a processor shifts: not at all where nothing is said of it.
pub open spec fn shift_of(shifts: Map<Seq<char>, ShiftFrames>, id: Seq<char>) -> ShiftFrames {
    if shifts.dom().contains(id) {
        shifts[id]
    } else {
        ShiftFrames { delay: 0, longest: 0 }
    }
}

/// Whether what is held for shifting fits into memory, for every number of channels.
pub open spec fn shifts_fit(shifts: Map<Seq<char>, ShiftFrames>) -> bool {
    forall|id: Seq<char>| #[trigger]
        shifts.dom().contains(id) ==> (shifts[id].longest + 2) * 0x1_0000 <= usize::MAX
}

/// What the processors of a route are made ready for.
pub open spec fn context_of(route: CompiledRoute, sample_rate: u32, buffer_frames: u32) -> ProcessorPrepareContext {
    ProcessorPrepareContext {
        channels: route.destination_channels as usize,
        sample_rate,
        max_frames: buffer_frames as usize,
    }
}

/// A processor that was just made ready.
pub open spec fn fresh_processor(
    p: ScheduledProcessor,
    c: CompiledProcessor,
    context: ProcessorPrepareContext,
    shifts: Map<Seq<char>, ShiftFrames>,
) -> bool {
    &&& p.id == c.id
    &&& p.kind == c.kind
    &&& p.config_json == c.config_json
    &&& p.context == context
    &&& p.prepared
    &&& p.wf()
    &&& holds_silence(p.kind, p.state, context, shift_of(shifts, c.id@))
    &&& p.stats == (ProcessorRuntimeStats {
        prepare_calls: 1,
        process_calls: 0,
        reset_calls: 0,
        last_generation: 0,
    })
}

/// The processors of a chain, each made ready.
pub open spec fn fresh_chain(
    processors: Seq<ScheduledProcessor>,
    chain: CompiledProcessorChain,
    context: ProcessorPrepareContext,
    shifts: Map<Seq<char>, ShiftFrames>,
) -> bool {
    &&& processors.len() == chain.processors@.len()
    &&& forall|i: int|
        0 <= i < processors.len() ==> fresh_processor(
            #[trigger] processors[i],
            chain.processors@[i],
            context,
            shifts,
        )
}

/// Whether a route has a chain that there is.
pub open spec fn has_chain(g: RoutingGraph, route: CompiledRoute) -> bool {
    route.chain matches Some(chain) && g.processor_plan.chains@.dom().contains(chain@)
}

/// The last of the first `n` routes with an id that has a chain.
pub open spec fn chained_route(g: RoutingGraph, id: Seq<char>, n: int) -> Option<int> {
    last_place(
        |k: int| g.route_plan.routes@[k].id@ == id && has_chain(g, g.route_plan.routes@[k]),
        n,
    )
}

/// What a schedule is made for.
pub struct ScheduleContext {
    pub sample_rate: u32,
    pub buffer_frames: u32,
    pub shifts: Map<Seq<char>, ShiftFrames>,
}

/// The schedule of the first `n` routes of a graph.
pub open spec fn schedule_of(
    g: RoutingGraph,
    c: ScheduleContext,
    chains: Map<Seq<char>, Vec<ScheduledProcessor>>,
    n: int,
) -> bool {
    &&& forall|id: Seq<char>| #[trigger]
        chains.dom().contains(id) <==> chained_route(g, id, n) is Some
    &&& forall|id: Seq<char>| #[trigger]
        chains.dom().contains(id) ==> fresh_chain(
            chains[id]@,
            g.processor_plan.chains@[g.route_plan.routes@[chained_route(g, id, n)->0].chain->0@],
            context_of(
                g.route_plan.routes@[chained_route(g, id, n)->0],
                c.sample_rate,
                c.buffer_frames,
            ),
            c.shifts,
        )
}

fn make_chain(
    chain: &CompiledProcessorChain,
    context: ProcessorPrepareContext,
    shifts: &StringMap<ShiftFrames>,
) -> (r: Vec<ScheduledProcessor>)
    requires
        shifts.wf(),
        shifts_fit(shifts@),
        context.channels < 0x1_0000,
    ensures
        fresh_chain(r@, *chain, context, shifts@),
{
    let mut processors: Vec<ScheduledProcessor> = Vec::new();
    let mut i: usize = 0;
    while i < chain.processors.len()
        invariant
            i <= chain.processors.len(),
            shifts.wf(),
            shifts_fit(shifts@),
            context.channels < 0x1_0000,
            processors@.len() == i,
            forall|k: int|
                0 <= k < i ==> fresh_processor(
                    #[trigger] processors@[k],
                    chain.processors@[k],
                    context,
                    shifts@,
                ),
        decreases chain.processors.len() - i,
    {
        let compiled = &chain.processors[i];
        let mut processor = ScheduledProcessor {
            id: compiled.id.clone(),
            kind: compiled.kind,
            config_json: compiled.config_json.clone(),
            context,
            prepared: false,
            state: ProcessorState::Filter { memory: Vec::new() },
            stats: ProcessorRuntimeStats {
                prepare_calls: 0,
                process_calls: 0,
                reset_calls: 0,
                last_generation: 0,
            },
        };
        let shift = match shifts.get(compiled.id.as_str()) {
            Some(shift) => *shift,
            None => ShiftFrames { delay: 0, longest: 0 },
        };
        proof {
            assert((shift.longest + 2) * 0x1_0000 <= usize::MAX);
            assert((shift.longest + 2) * (context.channels + 1) <= (shift.longest + 2) * 0x1_0000)
                by (nonlinear_arith)
                requires
                    0 <= shift.longest,
                    context.channels + 1 <= 0x1_0000,
            ;
        }
        processor.prepare(context, shift);
        processors.push(processor);
        i = i + 1;
    }
    processors
}

impl ProcessorSchedule {
    /// The processors of the routes of a graph, each made ready.
    #[must_use]
    pub fn from_snapshot(
        graph: &RoutingGraph,
        sample_rate: u32,
        buffer_frames: u32,
        shifts: &StringMap<ShiftFrames>,
    ) -> (r: ProcessorSchedule)
        requires
            graph.processor_plan.chains.wf(),
            shifts.wf(),
            shifts_fit(shifts@),
        ensures
            r.wf(),
            schedule_of(
                *graph,
                ScheduleContext { sample_rate, buffer_frames, shifts: shifts@ },
                r.route_chains@,
                graph.route_plan.routes@.len() as int,
            ),
    {
        let ghost c = ScheduleContext { sample_rate, buffer_frames, shifts: shifts@ };
        let routes = &graph.route_plan.routes;
        let mut route_chains: StringMap<Vec<ScheduledProcessor>> = StringMap::new();
        let mut k: usize = 0;
        while k < routes.len()
            invariant
                k <= routes.len(),
                routes@ == graph.route_plan.routes@,
                graph.processor_plan.chains.wf(),
                shifts.wf(),
                shifts_fit(shifts@),
                c == (ScheduleContext { sample_rate, buffer_frames, shifts: shifts@ }),
                route_chains.wf(),
                schedule_of(*graph, c, route_chains@, k as int),
            decreases routes.len() - k,
        {
            let route = &routes[k];
            let ghost before = route_chains@;
            let mut scheduled = false;
            if let Some(chain_id) = &route.chain {
                if let Some(chain) = graph.processor_plan.chains.get(chain_id.as_str()) {
                    let context = ProcessorPrepareContext {
                        channels: route.destination_channels as usize,
                        sample_rate,
                        max_frames: buffer_frames as usize,
                    };
                    route_chains.insert(route.id.clone(), make_chain(chain, context, shifts));
                    scheduled = true;
                }
            }
            proof {
                assert(scheduled == has_chain(*graph, *route));
                assert forall|id: Seq<char>| #[trigger]
                    chained_route(*graph, id, k + 1) == (if id == route.id@ && scheduled {
                        Some(k as int)
                    } else {
                        chained_route(*graph, id, k as int)
                    }) by {}
                assert forall|id: Seq<char>| #[trigger]
                    route_chains@.dom().contains(id) implies fresh_chain(
                    route_chains@[id]@,
                    graph.processor_plan.chains@[graph.route_plan.routes@[chained_route(
                        *graph,
                        id,
                        k + 1,
                    )->0].chain->0@],
                    context_of(
                        graph.route_plan.routes@[chained_route(*graph, id, k + 1)->0],
                        sample_rate,
                        buffer_frames,
                    ),
                    shifts@,
                ) by {
                    if !(id == route.id@ && scheduled) {
                        assert(before.dom().contains(id));
                    }
                }
            }
            k = k + 1;
        }
        proof {
            assert forall|i: int| 0 <= i < route_chains.values().len() implies chain_wf(
                #[trigger] route_chains.values()[i]@,
            ) by {
                route_chains.lemma_entry(i);
                let id = route_chains.keys()[i];
                assert(route_chains@.dom().contains(id));
            }
        }
        ProcessorSchedule { route_chains }
    }
}

/// Every processor of a chain holds what its kind holds.
pub open spec fn chain_wf(chain: Seq<ScheduledProcessor>) -> bool {
    forall|k: int| 0 <= k < chain.len() ==> (#[trigger] chain[k]).wf()
}

impl ProcessorSchedule {
    /// The chains are in order, and every processor holds what its kind holds.
    pub open spec fn wf(self) -> bool {
        &&& self.route_chains.wf()
        &&& forall|i: int|
            0 <= i < self.route_chains.values().len() ==> chain_wf(
                #[trigger] self.route_chains.values()[i]@,
            )
    }
}

// ---------------------------------------------------------------------------
// Statistics

/// The counters of two processors with one id together.
pub open spec fn stats_joined(a: ProcessorRuntimeStats, b: ProcessorRuntimeStats) -> ProcessorRuntimeStats {
    ProcessorRuntimeStats {
        prepare_calls: counted(a.prepare_calls, b.prepare_calls),
        process_calls: counted(a.process_calls, b.process_calls),
        reset_calls: counted(a.reset_calls, b.reset_calls),
        last_generation: if a.last_generation > b.last_generation {
            a.last_generation
        } else {
            b.last_generation
        },
    }
}

/// Counters that counted nothing.
pub open spec fn no_stats() -> ProcessorRuntimeStats {
    ProcessorRuntimeStats {
        prepare_calls: 0,
        process_calls: 0,
        reset_calls: 0,
        last_generation: 0,
    }
}

/// The counters with one processor more, by ids.
pub open spec fn stats_with(
    totals: Map<Seq<char>, ProcessorRuntimeStats>,
    p: ScheduledProcessor,
) -> Map<Seq<char>, ProcessorRuntimeStats> {
    totals.insert(
        p.id@,
        stats_joined(
            if totals.dom().contains(p.id@) {
                totals[p.id@]
            } else {
                no_stats()
            },
            p.stats,
        ),
    )
}

/// The counters of the first `n` processors of a chain added to others.
pub open spec fn chain_totals(
    totals: Map<Seq<char>, ProcessorRuntimeStats>,
    chain: Seq<ScheduledProcessor>,
    n: int,
) -> Map<Seq<char>, ProcessorRuntimeStats>
    decreases n,
{
    if n <= 0 {
        totals
    } else {
        stats_with(chain_totals(totals, chain, n - 1), chain[n - 1])
    }
}

/// The counters of all processors of the first `n` chains, by the ids of the processors.
pub open spec fn all_totals(chains: Seq<Vec<ScheduledProcessor>>, n: int) -> Map<
    Seq<char>,
    ProcessorRuntimeStats,
>
    decreases n,
{
    if n <= 0 {
        Map::empty()
    } else {
        chain_totals(all_totals(chains, n - 1), chains[n - 1]@, chains[n - 1]@.len() as int)
    }
}

fn join_stats(a: &ProcessorRuntimeStats, b: &ProcessorRuntimeStats) -> (r: ProcessorRuntimeStats)
    ensures
        r == stats_joined(*a, *b),
{
    ProcessorRuntimeStats {
        prepare_calls: count_up(a.prepare_calls, b.prepare_calls),
        process_calls: count_up(a.process_calls, b.process_calls),
        reset_calls: count_up(a.reset_calls, b.reset_calls),
        last_generation: if a.last_generation > b.last_generation {
            a.last_generation
        } else {
            b.last_generation
        },
    }
}

impl ProcessorSchedule {
    /// The counters of all processors, by their ids; those with one id together.
    pub fn stats(&self) -> (r: StringMap<ProcessorRuntimeStats>)
        requires
            self.wf(),
        ensures
            r.wf(),
            r@ == all_totals(
                self.route_chains.values(),
                self.route_chains.values().len() as int,
            ),
    {
        let mut totals: StringMap<ProcessorRuntimeStats> = StringMap::new();
        let mut i: usize = 0;
        while i < self.route_chains.len()
            invariant
                self.route_chains.wf(),
                i <= self.route_chains.values().len(),
                totals.wf(),
                totals@ == all_totals(self.route_chains.values(), i as int),
            decreases self.route_chains.values().len() - i,
        {
            let chain = self.route_chains.value_at(i);
            let ghost before = totals@;
            let mut k: usize = 0;
            while k < chain.len()
                invariant
                    k <= chain.len(),
                    totals.wf(),
                    totals@ == chain_totals(before, chain@, k as int),
                decreases chain.len() - k,
            {
                let processor = &chain[k];
                let current = match totals.get(processor.id.as_str()) {
                    Some(found) => *found,
                    None => ProcessorRuntimeStats {
                        prepare_calls: 0,
                        process_calls: 0,
                        reset_calls: 0,
                        last_generation: 0,
                    },
                };
                let joined_stats = join_stats(&current, &processor.stats);
                totals.insert(processor.id.clone(), joined_stats);
                k = k + 1;
            }
            i = i + 1;
        }
        totals
    }
}

// ---------------------------------------------------------------------------
// Running the processors of a route

/// Whether a filter turns some samples into others.
pub open spec fn filtered<M: SampleMath>(
    math: &M,
    kind: ProcessorKind,
    config_json: String,
    sample_rate: u32,
    memory: Vec<u32>,
    channels: usize,
    samples: Vec<u32>,
    result: (Vec<u32>, Vec<u32>),
) -> bool {
    call_ensures(
        M::process,
        (math, kind, &config_json, sample_rate, &memory, &samples, channels),
        result,
    )
}

/// The control of a processor, if it has one.
pub open spec fn control_in(controls: Map<Seq<char>, ProcessorControl>, id: Seq<char>) -> Option<
    ProcessorControl,
> {
    if controls.dom().contains(id) {
        Some(controls[id])
    } else {
        None
    }
}

/// What happens to the samples of a route at a processor.
pub open spec fn admitted_at(
    p: ScheduledProcessor,
    controls: Map<Seq<char>, ProcessorControl>,
    channels: usize,
    frames: usize,
) -> Admission {
    admission(
        p.kind,
        p.prepared,
        control_in(controls, p.id@) matches Some(c) && c.bypass,
        channels,
        frames,
    )
}

/// What a processor does to the samples of a route, and what it holds then. A filter is
/// left to the arithmetic; a shift gives what it held; a plugin host gives what it gave back
/// last, where that has the right length, and is to get the samples.
pub open spec fn processor_ran<M: SampleMath>(
    math: &M,
    p: ScheduledProcessor,
    held_after: ProcessorState,
    admitted: Admission,
    channels: usize,
    frames: usize,
    before: Seq<u32>,
    after: Seq<u32>,
) -> bool {
    if admitted != Admission::Processed {
        after == before && held_after == p.state
    } else {
        match p.state {
            ProcessorState::Filter { memory } => exists|
                input: Vec<u32>,
                result: (Vec<u32>, Vec<u32>),
            | #[trigger]
                filtered(
                    math,
                    p.kind,
                    p.config_json,
                    p.context.sample_rate,
                    memory,
                    channels,
                    input,
                    result,
                ) && input@ == before
                    && result.1@ == after && held_after == (ProcessorState::Filter {
                    memory: result.0,
                }),
            ProcessorState::TimeShift(shift) => {
                held_after matches ProcessorState::TimeShift(next) && shifted(
                    shift,
                    next,
                    channels,
                    before,
                    after,
                )
            },
            ProcessorState::Host { latest, request: _ } => {
                &&& after == chosen_output(before, latest)
                &&& held_after matches ProcessorState::Host { latest: None, request: Some(sent) }
                    && sent.samples@ == before && sent.channels == channels && sent.frames
                    == frames
            },
        }
    }
}

/// What the first `n` processors of a chain do to the samples of a route, one after another.
pub open spec fn chain_ran<M: SampleMath>(
    math: &M,
    chain: Seq<ScheduledProcessor>,
    chain_after: Seq<ScheduledProcessor>,
    controls: Map<Seq<char>, ProcessorControl>,
    channels: usize,
    frames: usize,
    n: int,
    before: Seq<u32>,
    after: Seq<u32>,
) -> bool
    decreases n,
{
    if n <= 0 {
        after == before
    } else {
        exists|middle: Seq<u32>| #[trigger]
            processor_ran(
                math,
                chain[n - 1],
                chain_after[n - 1].state,
                admitted_at(chain[n - 1], controls, channels, frames),
                channels,
                frames,
                middle,
                after,
            ) && chain_ran(
                math,
                chain,
                chain_after,
                controls,
                channels,
                frames,
                n - 1,
                before,
                middle,
            )
    }
}

/// A processor after samples came to it: they are counted.
pub open spec fn counted_at(
    p: ScheduledProcessor,
    before: ScheduledProcessor,
    controls: Map<Seq<char>, ProcessorControl>,
    channels: usize,
    frames: usize,
) -> bool {
    &&& p.same_processor(before)
    &&& p.context == before.context
    &&& p.prepared == before.prepared
    &&& p.wf()
    &&& p.stats == stats_after(
        before.stats,
        admitted_at(before, controls, channels, frames),
        control_in(controls, before.id@),
    )
}

/// What the processors of a route do to its samples, and to what is counted of them: a route
/// without a chain leaves the samples as they are.
pub open spec fn route_ran<M: SampleMath>(
    math: &M,
    ids: Seq<Seq<char>>,
    controls: Map<Seq<char>, ProcessorControl>,
    route_id: Seq<char>,
    channels: usize,
    frames: usize,
    chains: Seq<Vec<ScheduledProcessor>>,
    chains_after: Seq<Vec<ScheduledProcessor>>,
    before: Seq<u32>,
    after: Seq<u32>,
) -> bool {
    if !ids.contains(route_id) {
        after == before && chains_after == chains
    } else {
        let place = ids.index_of(route_id);
        let chain = chains[place]@;
        let chain_after = chains_after[place];
        &&& chains_after == chains.update(place, chain_after)
        &&& chain_after@.len() == chain.len()
        &&& forall|k: int|
            0 <= k < chain.len() ==> counted_at(
                #[trigger] chain_after@[k],
                chain[k],
                controls,
                channels,
                frames,
            )
        &&& chain_ran(
            math,
            chain,
            chain_after@,
            controls,
            channels,
            frames,
            chain.len() as int,
            before,
            after,
        )
    }
}

impl ScheduledProcessor {
    /// Takes samples that are to be processed; gives back what comes out.
    fn run<M: SampleMath>(&mut self, math: &M, samples: Vec<u32>, channels: usize, frames: usize) -> (r:
        Vec<u32>)
        requires
            old(self).wf(),
        ensures
            final(self).wf(),
            final(self).same_processor(*old(self)),
            final(self).context == old(self).context,
            final(self).prepared == old(self).prepared,
            final(self).stats == old(self).stats,
            processor_ran(
                math,
                *old(self),
                final(self).state,
                Admission::Processed,
                channels,
                frames,
                samples@,
                r@,
            ),
    {
        let ghost before = *self;
        match &mut self.state {
            ProcessorState::Filter { memory } => {
                let result = math.process(
                    self.kind,
                    &self.config_json,
                    self.context.sample_rate,
                    memory,
                    &samples,
                    channels,
                );
                proof {
                    assert(filtered(
                        math,
                        before.kind,
                        before.config_json,
                        before.context.sample_rate,
                        before.state->Filter_memory,
                        channels,
                        samples,
                        result,
                    ));
                }
                let (next, output) = result;
                *memory = next;
                output
            },
            ProcessorState::TimeShift(shift) => {
                let mut samples = samples;
                shift.process(&mut samples, channels);
                samples
            },
            ProcessorState::Host { latest, request } => {
                let mut given: Option<Vec<u32>> = None;
                core::mem::swap(&mut given, latest);
                let output = choose_output(&samples, given);
                *request = Some(AuProcessRequest { frames, channels, samples });
                output
            },
        }
    }
}

fn run_chain<M: SampleMath>(
    math: &M,
    chain: &mut Vec<ScheduledProcessor>,
    samples: Vec<u32>,
    channels: usize,
    frames: usize,
    controls: &StringMap<ProcessorControl>,
) -> (r: Vec<u32>)
    requires
        controls.wf(),
        chain_wf(old(chain)@),
    ensures
        final(chain)@.len() == old(chain)@.len(),
        chain_wf(final(chain)@),
        forall|k: int|
            0 <= k < old(chain)@.len() ==> counted_at(
                #[trigger] final(chain)@[k],
                old(chain)@[k],
                controls@,
                channels,
                frames,
            ),
        chain_ran(
            math,
            old(chain)@,
            final(chain)@,
            controls@,
            channels,
            frames,
            old(chain)@.len() as int,
            samples@,
            r@,
        ),
{
    let ghost start = chain@;
    let ghost first = samples@;
    let mut current = samples;
    let count = chain.len();
    let mut k: usize = 0;
    while k < count
        invariant
            controls.wf(),
            chain_wf(start),
            k <= count,
            count == start.len(),
            chain@.len() == start.len(),
            forall|j: int|
                0 <= j < k ==> counted_at(
                    #[trigger] chain@[j],
                    start[j],
                    controls@,
                    channels,
                    frames,
                ),
            forall|j: int| k <= j < start.len() ==> #[trigger] chain@[j] == start[j],
            chain_ran(
                math,
                start,
                chain@,
                controls@,
                channels,
                frames,
                k as int,
                first,
                current@,
            ),
        decreases count - k,
    {
        let ghost middle = current@;
        let ghost chain_before = chain@;
        let (control, bypass) = control_of(controls, chain[k].id.as_str());
        let processor: &mut ScheduledProcessor = &mut chain[k];
        assert(start[k as int].wf());
        let admitted = processor.accept(control, bypass, channels, frames);
        if admitted == Admission::Processed {
            current = processor.run(math, current, channels, frames);
        }
        proof {
            lemma_chain_ran_same(
                math,
                start,
                chain_before,
                chain@,
                controls@,
                channels,
                frames,
                k as int,
                first,
                middle,
            );
            assert(processor_ran(
                math,
                start[k as int],
                chain@[k as int].state,
                admitted_at(start[k as int], controls@, channels, frames),
                channels,
                frames,
                middle,
                current@,
            ));
        }
        k = k + 1;
    }
    current
}

proof fn lemma_chain_ran_same<M: SampleMath>(
    math: &M,
    chain: Seq<ScheduledProcessor>,
    a: Seq<ScheduledProcessor>,
    b: Seq<ScheduledProcessor>,
    controls: Map<Seq<char>, ProcessorControl>,
    channels: usize,
    frames: usize,
    n: int,
    before: Seq<u32>,
    after: Seq<u32>,
)
    requires
        chain_ran(math, chain, a, controls, channels, frames, n, before, after),
        forall|k: int| 0 <= k < n ==> #[trigger] a[k] == b[k],
    ensures
        chain_ran(math, chain, b, controls, channels, frames, n, before, after),
    decreases n,
{
    if n > 0 {
        let middle = choose|middle: Seq<u32>| #[trigger]
            processor_ran(
                math,
                chain[n - 1],
                a[n - 1].state,
                admitted_at(chain[n - 1], controls, channels, frames),
                channels,
                frames,
                middle,
                after,
            ) && chain_ran(math, chain, a, controls, channels, frames, n - 1, before, middle);
        assert(a[n - 1] == b[n - 1]);
        lemma_chain_ran_same(
            math,
            chain,
            a,
            b,
            controls,
            channels,
            frames,
            n - 1,
            before,
            middle,
        );
        assert(processor_ran(
            math,
            chain[n - 1],
            b[n - 1].state,
            admitted_at(chain[n - 1], controls, channels, frames),
            channels,
            frames,
            middle,
            after,
        ));
    }
}

impl ProcessorSchedule {
    /// Runs the processors of a route over its samples; a route without a chain leaves them
    /// as they are.
    pub fn process_route<M: SampleMath>(
        &mut self,
        math: &M,
        route_id: &String,
        samples: Vec<u32>,
        channels: usize,
        frames: usize,
        controls: &StringMap<ProcessorControl>,
    ) -> (r: Vec<u32>)
        requires
            old(self).wf(),
            controls.wf(),
        ensures
            final(self).wf(),
            final(self).route_chains.keys() == old(self).route_chains.keys(),
            route_ran(
                math,
                old(self).route_chains.keys(),
                controls@,
                route_id@,
                channels,
                frames,
                old(self).route_chains.values(),
                final(self).route_chains.values(),
                samples@,
                r@,
            ),
    {
        let ghost start = self.route_chains;
        match self.route_chains.find(route_id.as_str()) {
            None => samples,
            Some(place) => {
                proof {
                    let found = start.keys().index_of(route_id@);
                    assert(start.keys()[found] == route_id@);
                    lemma_increasing_places(start.keys(), found, place as int);
                }
                let chain: &mut Vec<ScheduledProcessor> = self.route_chains.value_mut(place);
                let output = run_chain(math, chain, samples, channels, frames, controls);
                proof {
                    assert forall|i: int| 0 <= i < self.route_chains.values().len() implies chain_wf(
                        #[trigger] self.route_chains.values()[i]@,
                    ) by {
                        if i != place {
                            assert(self.route_chains.values()[i] == start.values()[i]);
                        }
                    }
                }
                output
            },
        }
    }
}

/// A processor that is told to let samples pass does not touch them, and holds what it held.
pub proof fn law_bypass_keeps_samples<M: SampleMath>(
    math: &M,
    p: ScheduledProcessor,
    held_after: ProcessorState,
    controls: Map<Seq<char>, ProcessorControl>,
    channels: usize,
    frames: usize,
    before: Seq<u32>,
    after: Seq<u32>,
)
    requires
        controls.dom().contains(p.id@),
        controls[p.id@].bypass,
        processor_ran(
            math,
            p,
            held_after,
            admitted_at(p, controls, channels, frames),
            channels,
            frames,
            before,
            after,
        ),
    ensures
        after == before,
        held_after == p.state,
{
}

// ---------------------------------------------------------------------------
// What goes to plugin hosts and comes from them

/// Whether the processor at a place of the chain of a route is a plugin.
pub open spec fn host_at(
    ids: Seq<Seq<char>>,
    chains: Seq<Vec<ScheduledProcessor>>,
    route_id: Seq<char>,
    place: int,
) -> bool {
    &&& ids.contains(route_id)
    &&& 0 <= place < chains[ids.index_of(route_id)]@.len()
    &&& chains[ids.index_of(route_id)]@[place].state is Host
}

/// What is to go to a plugin host.
#[derive(Debug)]
pub struct PluginRequest {
    pub route_id: String,
    pub place: usize,
    pub request: AuProcessRequest,
}

/// What is to go to a plugin host: to which, and what.
#[verifier::ext_equal]
pub struct PluginRequestView {
    pub route_id: Seq<char>,
    pub place: int,
    pub frames: usize,
    pub channels: usize,
    pub samples: Seq<u32>,
}

impl View for PluginRequest {
    type V = PluginRequestView;

    open spec fn view(&self) -> PluginRequestView {
        PluginRequestView {
            route_id: self.route_id@,
            place: self.place as int,
            frames: self.request.frames,
            channels: self.request.channels,
            samples: self.request.samples@,
        }
    }
}

/// What is to go to the host of a processor, if anything.
pub open spec fn request_of(p: ScheduledProcessor, route_id: Seq<char>, place: int) -> Seq<
    PluginRequestView,
> {
    match p.state {
        ProcessorState::Host { latest: _, request: Some(request) } => seq![
            PluginRequestView {
                route_id,
                place,
                frames: request.frames,
                channels: request.channels,
                samples: request.samples@,
            },
        ],
        _ => Seq::empty(),
    }
}

/// What is to go to the hosts of the first `n` processors of a chain.
pub open spec fn chain_requests(route_id: Seq<char>, chain: Seq<ScheduledProcessor>, n: int) -> Seq<
    PluginRequestView,
>
    decreases n,
{
    if n <= 0 {
        Seq::empty()
    } else {
        chain_requests(route_id, chain, n - 1) + request_of(chain[n - 1], route_id, n - 1)
    }
}

/// What is to go to the hosts of the first `n` chains.
pub open spec fn all_requests(
    ids: Seq<Seq<char>>,
    chains: Seq<Vec<ScheduledProcessor>>,
    n: int,
) -> Seq<PluginRequestView>
    decreases n,
{
    if n <= 0 {
        Seq::empty()
    } else {
        all_requests(ids, chains, n - 1) + chain_requests(
            ids[n - 1],
            chains[n - 1]@,
            chains[n - 1]@.len() as int,
        )
    }
}

/// A processor from which nothing is to go to a host any more.
pub open spec fn without_request(p: ScheduledProcessor) -> ScheduledProcessor {
    match p.state {
        ProcessorState::Host { latest, request: _ } => ScheduledProcessor {
            state: ProcessorState::Host { latest, request: None },
            ..p
        },
        _ => p,
    }
}

fn take_chain_requests(
    route_id: &String,
    chain: &mut Vec<ScheduledProcessor>,
    requests: &mut Vec<PluginRequest>,
)
    requires
        chain_wf(old(chain)@),
    ensures
        chain_wf(final(chain)@),
        final(chain)@ == old(chain)@.map_values(|p: ScheduledProcessor| without_request(p)),
        views(final(requests)@) == views(old(requests)@) + chain_requests(
            route_id@,
            old(chain)@,
            old(chain)@.len() as int,
        ),
{
    let ghost start = chain@;
    let ghost first = views(requests@);
    let count = chain.len();
    let mut k: usize = 0;
    assert(first + chain_requests(route_id@, start, 0) =~= first);
    while k < count
        invariant
            k <= count,
            count == start.len(),
            chain_wf(start),
            chain@.len() == start.len(),
            forall|j: int| 0 <= j < k ==> #[trigger] chain@[j] == without_request(start[j]),
            forall|j: int| k <= j < start.len() ==> #[trigger] chain@[j] == start[j],
            views(requests@) == first + chain_requests(route_id@, start, k as int),
        decreases count - k,
    {
        let processor: &mut ScheduledProcessor = &mut chain[k];
        let mut taken: Option<AuProcessRequest> = None;
        assert(*processor == start[k as int]);
        match &mut processor.state {
            ProcessorState::Host { latest: _, request } => {
                core::mem::swap(&mut taken, request);
            },
            _ => {},
        }
        let ghost sent = taken;
        let ghost before = views(requests@);
        match taken {
            Some(request) => {
                requests.push(PluginRequest { route_id: route_id.clone(), place: k, request });
                assert(views(requests@) =~= before + request_of(
                    start[k as int],
                    route_id@,
                    k as int,
                ));
            },
            None => {
                assert(request_of(start[k as int], route_id@, k as int) =~= Seq::empty());
                assert(views(requests@) =~= before + request_of(
                    start[k as int],
                    route_id@,
                    k as int,
                ));
            },
        }
        assert(views(requests@) =~= first + chain_requests(route_id@, start, k + 1));
        k = k + 1;
    }
    assert(chain@ =~= start.map_values(|p: ScheduledProcessor| without_request(p)));
    assert forall|j: int| 0 <= j < chain@.len() implies (#[trigger] chain@[j]).wf() by {
        assert(start[j].wf());
    }
}

impl ProcessorSchedule {
    /// Hands a plugin processor what its host gave back; says whether there is such a one.
    pub fn deliver_result(&mut self, route_id: &str, place: usize, samples: Vec<u32>) -> (r: bool)
        requires
            old(self).wf(),
        ensures
            final(self).wf(),
            final(self).route_chains.keys() == old(self).route_chains.keys(),
            r == host_at(
                old(self).route_chains.keys(),
                old(self).route_chains.values(),
                route_id@,
                place as int,
            ),
            !r ==> *final(self) == *old(self),
            r ==> {
                let at = old(self).route_chains.keys().index_of(route_id@);
                let chain = old(self).route_chains.values()[at]@;
                let after = final(self).route_chains.values()[at];
                &&& final(self).route_chains.values() == old(self).route_chains.values().update(
                    at,
                    after,
                )
                &&& after@ == chain.update(
                    place as int,
                    ScheduledProcessor {
                        state: ProcessorState::Host {
                            latest: Some(samples),
                            request: chain[place as int].state->Host_request,
                        },
                        ..chain[place as int]
                    },
                )
            },
    {
        let ghost start = self.route_chains;
        match self.route_chains.find(route_id) {
            None => false,
            Some(at) => {
                proof {
                    let found = start.keys().index_of(route_id@);
                    assert(start.keys()[found] == route_id@);
                    lemma_increasing_places(start.keys(), found, at as int);
                }
                if place >= self.route_chains.value_at(at).len() {
                    return false;
                }
                let is_host = matches!(
                    self.route_chains.value_at(at)[place].state,
                    ProcessorState::Host { .. }
                );
                if !is_host {
                    return false;
                }
                let ghost chain = start.values()[at as int]@;
                let chain_now: &mut Vec<ScheduledProcessor> = self.route_chains.value_mut(at);
                let processor: &mut ScheduledProcessor = &mut chain_now[place];
                match &mut processor.state {
                    ProcessorState::Host { latest, request: _ } => {
                        *latest = Some(samples);
                    },
                    _ => {},
                }
                proof {
                    assert(self.route_chains.values()[at as int]@ =~= chain.update(
                        place as int,
                        ScheduledProcessor {
                            state: ProcessorState::Host {
                                latest: Some(samples),
                                request: chain[place as int].state->Host_request,
                            },
                            ..chain[place as int]
                        },
                    ));
                    assert(chain_wf(chain));
                    assert(chain[place as int].wf());
                    assert forall|i: int| 0 <= i < self.route_chains.values().len() implies chain_wf(
                        #[trigger] self.route_chains.values()[i]@,
                    ) by {
                        if i != at {
                            assert(self.route_chains.values()[i] == start.values()[i]);
                        }
                    }
                }
                true
            },
        }
    }

    /// Hands out what is to go to the plugin hosts: by the ids of the routes, then by place.
    pub fn take_requests(&mut self) -> (r: Vec<PluginRequest>)
        requires
            old(self).wf(),
        ensures
            final(self).wf(),
            final(self).route_chains.keys() == old(self).route_chains.keys(),
            views(r@) == all_requests(
                old(self).route_chains.keys(),
                old(self).route_chains.values(),
                old(self).route_chains.values().len() as int,
            ),
            final(self).route_chains.values().len() == old(self).route_chains.values().len(),
            forall|i: int|
                0 <= i < old(self).route_chains.values().len() ==> (
                #[trigger] final(self).route_chains.values()[i])@ == old(
                    self,
                ).route_chains.values()[i]@.map_values(
                    |p: ScheduledProcessor| without_request(p),
                ),
    {
        let ghost start = self.route_chains;
        let mut requests: Vec<PluginRequest> = Vec::new();
        let count = self.route_chains.len();
        let mut i: usize = 0;
        assert(views(requests@) =~= all_requests(start.keys(), start.values(), 0));
        while i < count
            invariant
                i <= count,
                count == start.values().len(),
                count == start.keys().len(),
                start.wf(),
                forall|j: int| 0 <= j < count ==> chain_wf(#[trigger] start.values()[j]@),
                self.route_chains.wf(),
                self.route_chains.keys() == start.keys(),
                self.route_chains.values().len() == count,
                forall|j: int|
                    0 <= j < count ==> chain_wf(#[trigger] self.route_chains.values()[j]@),
                forall|j: int|
                    0 <= j < i ==> (#[trigger] self.route_chains.values()[j])@
                        == start.values()[j]@.map_values(
                        |p: ScheduledProcessor| without_request(p),
                    ),
                forall|j: int|
                    i <= j < count ==> #[trigger] self.route_chains.values()[j]
                        == start.values()[j],
                views(requests@) == all_requests(start.keys(), start.values(), i as int),
            decreases count - i,
        {
            let ghost before = self.route_chains;
            let id = self.route_chains.key_at(i).clone();
            let chain: &mut Vec<ScheduledProcessor> = self.route_chains.value_mut(i);
            take_chain_requests(&id, chain, &mut requests);
            proof {
                assert forall|j: int| 0 <= j < count && j != i implies
                    #[trigger] self.route_chains.values()[j] == before.values()[j] by {}
            }
            i = i + 1;
        }
        requests
    }
}

// ---------------------------------------------------------------------------
// Plugin hosts

/// The state of all plugin hosts.
#[derive(Debug, PartialEq, Eq)]
pub struct PluginHostRuntimeStatus {
    pub active_instances: usize,
    pub failed_instances: usize,
    pub timeout_count: u64,
    pub error_count: u64,
    pub restart_count: u64,
    pub instances: Vec<PluginHostInstanceStatus>,
}

/// A sum that stops at its largest value.
pub open spec fn capped_sum(f: spec_fn(int) -> u64, n: int) -> u64
    decreases n,
{
    if n <= 0 {
        0
    } else if capped_sum(f, n - 1) + f(n - 1) > u64::MAX {
        u64::MAX
    } else {
        (capped_sum(f, n - 1) + f(n - 1)) as u64
    }
}

/// Whether a plugin host is at work.
pub open spec fn host_active(s: PluginHostInstanceStatus) -> bool {
    s.loaded && s.health != PluginHostHealth::Failed
}

/// The state of all plugin hosts from those of each.
pub fn plugin_runtime_status(instances: Vec<PluginHostInstanceStatus>) -> (r: PluginHostRuntimeStatus)
    ensures
        r.instances == instances,
        r.active_instances == kept(
            |i: int| host_active(instances@[i]),
            instances@.len() as int,
        ).len(),
        r.failed_instances == kept(
            |i: int| instances@[i].health == PluginHostHealth::Failed,
            instances@.len() as int,
        ).len(),
        r.timeout_count == capped_sum(
            |i: int| instances@[i].timeout_count,
            instances@.len() as int,
        ),
        r.error_count == capped_sum(|i: int| instances@[i].error_count, instances@.len() as int),
        r.restart_count == capped_sum(
            |i: int| instances@[i].restart_count,
            instances@.len() as int,
        ),
{
    let ghost active = |i: int| host_active(instances@[i]);
    let ghost failed = |i: int| instances@[i].health == PluginHostHealth::Failed;
    let ghost timeouts = |i: int| instances@[i].timeout_count;
    let ghost errors = |i: int| instances@[i].error_count;
    let ghost restarts = |i: int| instances@[i].restart_count;
    let mut active_instances: usize = 0;
    let mut failed_instances: usize = 0;
    let mut timeout_count: u64 = 0;
    let mut error_count: u64 = 0;
    let mut restart_count: u64 = 0;
    let mut i: usize = 0;
    while i < instances.len()
        invariant
            i <= instances.len(),
            active == |i: int| host_active(instances@[i]),
            failed == |i: int| instances@[i].health == PluginHostHealth::Failed,
            timeouts == |i: int| instances@[i].timeout_count,
            errors == |i: int| instances@[i].error_count,
            restarts == |i: int| instances@[i].restart_count,
            active_instances == kept(active, i as int).len(),
            failed_instances == kept(failed, i as int).len(),
            active_instances <= i,
            failed_instances <= i,
            timeout_count == capped_sum(timeouts, i as int),
            error_count == capped_sum(errors, i as int),
            restart_count == capped_sum(restarts, i as int),
        decreases instances.len() - i,
    {
        let status = &instances[i];
        timeout_count = timeout_count.saturating_add(status.timeout_count);
        error_count = error_count.saturating_add(status.error_count);
        restart_count = restart_count.saturating_add(status.restart_count);
        if status.loaded && status.health != PluginHostHealth::Failed {
            active_instances = active_instances + 1;
        }
        if status.health == PluginHostHealth::Failed {
            failed_instances = failed_instances + 1;
        }
        i = i + 1;
    }
    PluginHostRuntimeStatus {
        active_instances,
        failed_instances,
        timeout_count,
        error_count,
        restart_count,
        instances,
    }
}

// ---------------------------------------------------------------------------
// What processors do

/// The processors of a chain run in the order of the chain, each on what the one before it gave.
pub proof fn law_chain_runs_in_order<M: SampleMath>(
    math: &M,
    chain: Seq<ScheduledProcessor>,
    chain_after: Seq<ScheduledProcessor>,
    controls: Map<Seq<char>, ProcessorControl>,
    channels: usize,
    frames: usize,
    n: int,
    before: Seq<u32>,
    after: Seq<u32>,
) -> (stages: Seq<Seq<u32>>)
    requires
        0 <= n <= chain.len(),
        chain_ran(math, chain, chain_after, controls, channels, frames, n, before, after),
    ensures
        stages.len() == n + 1,
        stages[0] == before,
        stages[n] == after,
        forall|k: int, next: int|
            #![trigger stages[k], stages[next]]
            0 <= k < n && next == k + 1 ==> processor_ran(
                math,
                chain[k],
                chain_after[k].state,
                admitted_at(chain[k], controls, channels, frames),
                channels,
                frames,
                stages[k],
                stages[next],
            ),
    decreases n,
{
    if n <= 0 {
        seq![before]
    } else {
        let middle = choose|middle: Seq<u32>| #[trigger]
            processor_ran(
                math,
                chain[n - 1],
                chain_after[n - 1].state,
                admitted_at(chain[n - 1], controls, channels, frames),
                channels,
                frames,
                middle,
                after,
            ) && chain_ran(
                math,
                chain,
                chain_after,
                controls,
                channels,
                frames,
                n - 1,
                before,
                middle,
            );
        let rest = law_chain_runs_in_order(
            math,
            chain,
            chain_after,
            controls,
            channels,
            frames,
            n - 1,
            before,
            middle,
        );
        let stages = rest.push(after);
        assert forall|k: int, next: int|
            #![trigger stages[k], stages[next]]
            0 <= k < n && next == k + 1 implies processor_ran(
            math,
            chain[k],
            chain_after[k].state,
            admitted_at(chain[k], controls, channels, frames),
            channels,
            frames,
            stages[k],
            stages[next],
        ) by {
            if k < n - 1 {
                assert(rest[k] == stages[k] && rest[next] == stages[next]);
            } else {
                assert(stages[k] == middle && stages[next] == after);
            }
        }
        stages
    }
}

/// A processor that is bypassed, or was not made ready, changes nothing. One that is ready, is not
/// bypassed and gets audio works on it: a filter by its own kind, settings, sample rate and
/// memory, a shift by what it holds; a plugin gives what its host gave back, where that is as
/// long as the samples, and hands the samples to the host.
pub proof fn law_ready_processors_work<M: SampleMath>(
    math: &M,
    p: ScheduledProcessor,
    held_after: ProcessorState,
    controls: Map<Seq<char>, ProcessorControl>,
    channels: usize,
    frames: usize,
    before: Seq<u32>,
    after: Seq<u32>,
)
    requires
        p.wf(),
        processor_ran(
            math,
            p,
            held_after,
            admitted_at(p, controls, channels, frames),
            channels,
            frames,
            before,
            after,
        ),
    ensures
        !p.prepared || channels == 0 || (controls.dom().contains(p.id@)
            && controls[p.id@].bypass) ==> after == before && held_after == p.state,
        p.prepared && channels > 0 && frames > 0 && !(controls.dom().contains(p.id@)
            && controls[p.id@].bypass) ==> match p.kind {
            ProcessorKind::TimeShift => p.state is TimeShift && held_after is TimeShift && shifted(
                p.state->TimeShift_0,
                held_after->TimeShift_0,
                channels,
                before,
                after,
            ),
            ProcessorKind::Au => {
                &&& p.state is Host
                &&& after == match p.state->latest {
                    Some(given) => if given@.len() == before.len() {
                        given@
                    } else {
                        before
                    },
                    None => before,
                }
                &&& held_after is Host
                &&& held_after->latest is None
                &&& held_after->request matches Some(sent) && sent.samples@ == before
                    && sent.channels == channels && sent.frames == frames
            },
            _ => exists|memory: Vec<u32>, input: Vec<u32>, result: (Vec<u32>, Vec<u32>)|
                {
                    &&& #[trigger] filtered(
                        math,
                        p.kind,
                        p.config_json,
                        p.context.sample_rate,
                        memory,
                        channels,
                        input,
                        result,
                    )
                    &&& call_ensures(
                        M::process,
                        (
                            math,
                            p.kind,
                            &p.config_json,
                            p.context.sample_rate,
                            &memory,
                            &input,
                            channels,
                        ),
                        result,
                    )
                    &&& p.state == (ProcessorState::Filter { memory })
                    &&& input@ == before
                    &&& after == result.1@
                    &&& held_after == (ProcessorState::Filter { memory: result.0 })
                },
        },
{
    if p.prepared && channels > 0 && frames > 0 && !(controls.dom().contains(p.id@)
        && controls[p.id@].bypass) {
        if let ProcessorState::Filter { memory } = p.state {
            let (input, result) = choose|input: Vec<u32>, result: (Vec<u32>, Vec<u32>)| #[trigger]
                filtered(
                    math,
                    p.kind,
                    p.config_json,
                    p.context.sample_rate,
                    memory,
                    channels,
                    input,
                    result,
                ) && input@ == before && result.1@ == after && held_after == (
                ProcessorState::Filter { memory: result.0 });
            assert(filtered(
                math,
                p.kind,
                p.config_json,
                p.context.sample_rate,
                memory,
                channels,
                input,
                result,
            ));
        }
    }
}

/// What a processor counts: every buffer that it works on, once, with the generation of its
/// control. It counts nothing where it is not ready, and a bypassed one counts only where it is
/// a plugin.
pub proof fn law_processors_count_their_work(
    p: ScheduledProcessor,
    before: ScheduledProcessor,
    controls: Map<Seq<char>, ProcessorControl>,
    channels: usize,
    frames: usize,
)
    requires
        counted_at(p, before, controls, channels, frames),
        before.stats.process_calls < u64::MAX,
    ensures
        p.stats.prepare_calls == before.stats.prepare_calls,
        p.stats.reset_calls == before.stats.reset_calls,
        ({
            let bypassed = controls.dom().contains(before.id@) && controls[before.id@].bypass;
            &&& !before.prepared ==> p.stats == before.stats
            &&& bypassed && before.kind != ProcessorKind::Au ==> p.stats == before.stats
            &&& before.prepared && channels > 0 && frames > 0 && (!bypassed || before.kind
                == ProcessorKind::Au) ==> {
                &&& p.stats.process_calls == before.stats.process_calls + 1
                &&& p.stats.last_generation == if controls.dom().contains(before.id@) {
                    controls[before.id@].generation
                } else {
                    before.stats.last_generation
                }
            }
        }),
{
}

/// A route that names a chain gets the processors of that chain, in its order, each ready for
/// the channels of the route, the sample rate and the largest buffer.
pub proof fn law_routes_get_their_chains(
    g: RoutingGraph,
    c: ScheduleContext,
    chains: Map<Seq<char>, Vec<ScheduledProcessor>>,
    r: int,
    k: int,
)
    requires
        schedule_of(g, c, chains, g.route_plan.routes@.len() as int),
        0 <= r < g.route_plan.routes@.len(),
        g.route_plan.routes@[r].chain matches Some(chain) && g.processor_plan.chains@.dom().contains(
            chain@,
        ) && 0 <= k < g.processor_plan.chains@[chain@].processors@.len(),
        forall|j: int|
            0 <= j < g.route_plan.routes@.len() && j != r ==> (
            #[trigger] g.route_plan.routes@[j]).id@ != g.route_plan.routes@[r].id@,
    ensures
        ({
            let route = g.route_plan.routes@[r];
            let wanted = g.processor_plan.chains@[route.chain->0@].processors@;
            &&& chains.dom().contains(route.id@)
            &&& chains[route.id@]@.len() == wanted.len()
            &&& chains[route.id@]@[k].id == wanted[k].id
            &&& chains[route.id@]@[k].kind == wanted[k].kind
            &&& chains[route.id@]@[k].config_json == wanted[k].config_json
            &&& chains[route.id@]@[k].prepared
            &&& chains[route.id@]@[k].context.channels == route.destination_channels
            &&& chains[route.id@]@[k].context.sample_rate == c.sample_rate
            &&& chains[route.id@]@[k].context.max_frames == c.buffer_frames
            &&& chains[route.id@]@[k].stats.process_calls == 0
        }),
{
    let id = g.route_plan.routes@[r].id@;
    let n = g.route_plan.routes@.len() as int;
    lemma_chained_route(g, id, r, n);
    assert(chains.dom().contains(id));
    assert(fresh_processor(
        chains[id]@[k],
        g.processor_plan.chains@[g.route_plan.routes@[r].chain->0@].processors@[k],
        context_of(g.route_plan.routes@[r], c.sample_rate, c.buffer_frames),
        c.shifts,
    ));
}

proof fn lemma_chained_route(g: RoutingGraph, id: Seq<char>, r: int, n: int)
    requires
        0 <= r < n <= g.route_plan.routes@.len(),
        g.route_plan.routes@[r].id@ == id,
        has_chain(g, g.route_plan.routes@[r]),
        forall|j: int|
            0 <= j < g.route_plan.routes@.len() && j != r ==> (
            #[trigger] g.route_plan.routes@[j]).id@ != id,
    ensures
        chained_route(g, id, n) == Some(r),
    decreases n,
{
    if r < n - 1 {
        assert(g.route_plan.routes@[n - 1].id@ != id);
        lemma_chained_route(g, id, r, n - 1);
    }
}

/// A time shift that was made ready holds silence as long as it shifts, at most as long as its
/// longest shift; a filter and a plugin hold nothing.
pub proof fn law_ready_processors_hold_silence(
    kind: ProcessorKind,
    state: ProcessorState,
    context: ProcessorPrepareContext,
    shift: ShiftFrames,
    frame: int,
    channel: int,
)
    requires
        holds_silence(kind, state, context, shift),
        context.channels > 0,
        0 < shift.delay <= shift.longest,
        0 <= frame < shift.delay,
        0 <= channel < context.channels,
    ensures
        kind == ProcessorKind::TimeShift ==> {
            &&& state is TimeShift
            &&& state->TimeShift_0.delay_frames == shift.delay
            &&& state->TimeShift_0.channels == context.channels
            &&& state->TimeShift_0.pending().len() == shift.delay
            &&& state->TimeShift_0.pending()[frame][channel] == 0
        },
        kind == ProcessorKind::Au ==> state is Host && state->latest is None && state->request
            is None,
        kind != ProcessorKind::TimeShift && kind != ProcessorKind::Au ==> state is Filter
            && state->memory@.len() == 0,
{
    if kind == ProcessorKind::TimeShift {
        let t = state->TimeShift_0;
        let place = crate::delay::ring_place(
            t.write_frame as int,
            t.ring_frames as int,
            t.delay_frames - frame,
        );
        let n = t.channels as int;
        assert(0 <= place < t.ring_frames);
        assert(place * n >= 0 && place * n + n <= t.ring_frames * n) by (nonlinear_arith)
            requires
                0 <= place < t.ring_frames,
                n > 0,
        ;
        assert(t.pending()[frame] == crate::delay::frame_at(t.ring@, n, place));
        assert(t.pending()[frame][channel] == t.ring@[place * n + channel]);
    }
}

proof fn lemma_chain_request(
    route_id: Seq<char>,
    chain: Seq<ScheduledProcessor>,
    n: int,
    k: int,
)
    requires
        0 <= k < n <= chain.len(),
        chain[k].state is Host,
        chain[k].state->request is Some,
    ensures
        chain_requests(route_id, chain, n).contains(
            (PluginRequestView {
                route_id,
                place: k,
                frames: chain[k].state->request->0.frames,
                channels: chain[k].state->request->0.channels,
                samples: chain[k].state->request->0.samples@,
            }),
        ),
    decreases n,
{
    let rest = chain_requests(route_id, chain, n - 1);
    let last = request_of(chain[n - 1], route_id, n - 1);
    let all = chain_requests(route_id, chain, n);
    if k == n - 1 {
        assert(all[rest.len() as int] == last[0]);
    } else {
        lemma_chain_request(route_id, chain, n - 1, k);
        let wanted = PluginRequestView {
            route_id,
            place: k,
            frames: chain[k].state->request->0.frames,
            channels: chain[k].state->request->0.channels,
            samples: chain[k].state->request->0.samples@,
        };
        assert(all[rest.index_of(wanted)] == wanted);
    }
}

/// Whatever is to go to a plugin host is handed out, with the route and the place of its
/// processor, and is not handed out again.
pub proof fn law_requests_are_handed_out(
    ids: Seq<Seq<char>>,
    chains: Seq<Vec<ScheduledProcessor>>,
    n: int,
    i: int,
    k: int,
)
    requires
        0 <= i < n <= chains.len(),
        chains.len() == ids.len(),
        0 <= k < chains[i]@.len(),
        chains[i]@[k].state is Host,
        chains[i]@[k].state->request is Some,
    ensures
        all_requests(ids, chains, n).contains(
            (PluginRequestView {
                route_id: ids[i],
                place: k,
                frames: chains[i]@[k].state->request->0.frames,
                channels: chains[i]@[k].state->request->0.channels,
                samples: chains[i]@[k].state->request->0.samples@,
            }),
        ),
        without_request(chains[i]@[k]).state is Host,
        without_request(chains[i]@[k]).state->request is None,
        without_request(chains[i]@[k]).state->latest == chains[i]@[k].state->latest,
    decreases n,
{
    let rest = all_requests(ids, chains, n - 1);
    let last = chain_requests(ids[n - 1], chains[n - 1]@, chains[n - 1]@.len() as int);
    let all = all_requests(ids, chains, n);
    let wanted = PluginRequestView {
        route_id: ids[i],
        place: k,
        frames: chains[i]@[k].state->request->0.frames,
        channels: chains[i]@[k].state->request->0.channels,
        samples: chains[i]@[k].state->request->0.samples@,
    };
    if i == n - 1 {
        lemma_chain_request(ids[i], chains[i]@, chains[i]@.len() as int, k);
        assert(all[rest.len() + last.index_of(wanted)] == wanted);
    } else {
        law_requests_are_handed_out(ids, chains, n - 1, i, k);
        assert(all[rest.index_of(wanted)] == wanted);
    }
}

/// The counters of a processor that occurs more than once are added up, and the latest generation
/// counts.
pub proof fn law_counters_are_added_up(
    totals: Map<Seq<char>, ProcessorRuntimeStats>,
    p: ScheduledProcessor,
    other: Seq<char>,
)
    requires
        totals.dom().contains(p.id@),
        other != p.id@,
        totals[p.id@].process_calls + p.stats.process_calls <= u64::MAX,
        totals[p.id@].prepare_calls + p.stats.prepare_calls <= u64::MAX,
        totals[p.id@].reset_calls + p.stats.reset_calls <= u64::MAX,
    ensures
        ({
            let sum = stats_with(totals, p)[p.id@];
            &&& sum.process_calls == totals[p.id@].process_calls + p.stats.process_calls
            &&& sum.prepare_calls == totals[p.id@].prepare_calls + p.stats.prepare_calls
            &&& sum.reset_calls == totals[p.id@].reset_calls + p.stats.reset_calls
            &&& sum.last_generation >= totals[p.id@].last_generation
            &&& sum.last_generation >= p.stats.last_generation
            &&& sum.last_generation == totals[p.id@].last_generation || sum.last_generation
                == p.stats.last_generation
        }),
        totals.dom().contains(other) ==> stats_with(totals, p)[other] == totals[other],
{
}

} // verus!
