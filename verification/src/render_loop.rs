//! The cycles of the render loop: what is read, rendered and written, and when to sleep.

use crate::external_io::ExternalEndpointConfig;
use crate::render::{RenderEndpoint, RenderRuntimeConfig};
use crate::sequences::views;
use crate::string_map::StringMap;
use crate::text::{decimal, decimal_text};
use vstd::prelude::*;
use vstd::string::*;

verus! {

// ---------------------------------------------------------------------------
// Starting and stopping

/// Whether two configurations are equal.
pub open spec fn config_same(a: RenderRuntimeConfig, b: RenderRuntimeConfig) -> bool {
    &&& a.sample_rate == b.sample_rate
    &&& a.buffer_frames == b.buffer_frames
    &&& views(a.vout_sources@) == views(b.vout_sources@)
    &&& views(a.vin_sinks@) == views(b.vin_sinks@)
    &&& views(a.external_inputs@) == views(b.external_inputs@)
    &&& views(a.external_outputs@) == views(b.external_outputs@)
}

fn endpoints_same(a: &Vec<RenderEndpoint>, b: &Vec<RenderEndpoint>) -> (r: bool)
    ensures
        r == (views(a@) == views(b@)),
{
    if a.len() != b.len() {
        assert(views(a@).len() != views(b@).len());
        return false;
    }
    let mut i: usize = 0;
    while i < a.len()
        invariant
            a.len() == b.len(),
            i <= a.len(),
            forall|k: int| 0 <= k < i ==> views(a@)[k] == views(b@)[k],
        decreases a.len() - i,
    {
        if a[i].node_id != b[i].node_id || a[i].uid != b[i].uid || a[i].channels != b[i].channels {
            assert(views(a@)[i as int] != views(b@)[i as int]);
            return false;
        }
        i = i + 1;
    }
    assert(views(a@) =~= views(b@));
    true
}

/// Whether two configurations are equal.
pub fn configs_same(a: &RenderRuntimeConfig, b: &RenderRuntimeConfig) -> (r: bool)
    ensures
        r == config_same(*a, *b),
{
    a.sample_rate == b.sample_rate && a.buffer_frames == b.buffer_frames && endpoints_same(
        &a.vout_sources,
        &b.vout_sources,
    ) && endpoints_same(&a.vin_sinks, &b.vin_sinks) && endpoints_same(
        &a.external_inputs,
        &b.external_inputs,
    ) && endpoints_same(&a.external_outputs, &b.external_outputs)
}

/// What to do with the running loop.
#[derive(Debug, Clone, Copy, PartialEq, Eq, Structural)]
pub enum SyncAction {
    /// Leave it as it is.
    Keep,
    /// Stop it, if it runs.
    Stop,
    /// Stop it, if it runs, and start one with the wanted configuration.
    Start,
}

/// Brings the loop in line with the state: it runs where there is an engine and something
/// to run on, with exactly that configuration.
pub fn sync_action(
    engine_present: bool,
    wanted: Option<&RenderRuntimeConfig>,
    running: Option<&RenderRuntimeConfig>,
) -> (r: SyncAction)
    ensures
        r == (match (engine_present, wanted) {
            (true, Some(config)) => match running {
                Some(existing) if config_same(*existing, *config) => SyncAction::Keep,
                _ => SyncAction::Start,
            },
            _ => SyncAction::Stop,
        }),
{
    if !engine_present {
        return SyncAction::Stop;
    }
    match wanted {
        None => SyncAction::Stop,
        Some(config) => match running {
            None => SyncAction::Start,
            Some(existing) => if configs_same(existing, config) {
                SyncAction::Keep
            } else {
                SyncAction::Start
            },
        },
    }
}

/// Whether the configuration asks for external devices.
pub fn needs_external_runtime(config: &RenderRuntimeConfig) -> (r: bool)
    ensures
        r == (config.external_inputs@.len() > 0 || config.external_outputs@.len() > 0),
{
    config.external_inputs.len() > 0 || config.external_outputs.len() > 0
}

/// The endpoints to connect for those of the render loop.
pub fn external_endpoint_configs(endpoints: &Vec<RenderEndpoint>) -> (r: Vec<ExternalEndpointConfig>)
    ensures
        r@.len() == endpoints@.len(),
        forall|i: int|
            0 <= i < r@.len() ==> (#[trigger] r@[i]).node_id@ == endpoints@[i].node_id@ && r@[i].uid@
                == endpoints@[i].uid@ && r@[i].channels == endpoints@[i].channels,
{
    let mut configs: Vec<ExternalEndpointConfig> = Vec::new();
    let mut i: usize = 0;
    while i < endpoints.len()
        invariant
            i <= endpoints.len(),
            configs@.len() == i,
            forall|k: int|
                0 <= k < i ==> (#[trigger] configs@[k]).node_id@ == endpoints@[k].node_id@
                    && configs@[k].uid@ == endpoints@[k].uid@ && configs@[k].channels
                    == endpoints@[k].channels,
        decreases endpoints.len() - i,
    {
        configs.push(
            ExternalEndpointConfig {
                node_id: endpoints[i].node_id.clone(),
                uid: endpoints[i].uid.clone(),
                channels: endpoints[i].channels,
            },
        );
        i = i + 1;
    }
    configs
}

/// The text that says which external devices are missing.
pub open spec fn readiness_text(
    subject: Seq<char>,
    expected_inputs: usize,
    expected_outputs: usize,
    inputs: usize,
    outputs: usize,
) -> Seq<char> {
    subject + " readiness failed: expected inputs="@ + decimal(expected_inputs as nat)
        + " outputs="@ + decimal(expected_outputs as nat) + ", got inputs="@ + decimal(
        inputs as nat,
    ) + " outputs="@ + decimal(outputs as nat)
}

/// All external devices have to be connected; the error says which are not. The subject
/// is what is being checked, such as `external runtime`.
pub fn check_external_readiness(
    subject: &str,
    expected_inputs: usize,
    expected_outputs: usize,
    inputs: usize,
    outputs: usize,
) -> (r: Result<(), String>)
    ensures
        r is Ok <==> inputs == expected_inputs && outputs == expected_outputs,
        r matches Err(text) ==> text@ == readiness_text(
            subject@,
            expected_inputs,
            expected_outputs,
            inputs,
            outputs,
        ),
{
    if inputs == expected_inputs && outputs == expected_outputs {
        return Ok(());
    }
    let mut text = String::from_str(subject);
    text.append(" readiness failed: expected inputs=");
    text.append(decimal_text(expected_inputs as u64).as_str());
    text.append(" outputs=");
    text.append(decimal_text(expected_outputs as u64).as_str());
    text.append(", got inputs=");
    text.append(decimal_text(inputs as u64).as_str());
    text.append(" outputs=");
    text.append(decimal_text(outputs as u64).as_str());
    Err(text)
}

// ---------------------------------------------------------------------------
// Buffers

/// The product, or the largest number where it does not fit.
pub open spec fn capped_product(a: int, b: int) -> int {
    if a * b > usize::MAX {
        usize::MAX as int
    } else {
        a * b
    }
}

/// The product, or the largest number where it does not fit.
pub fn saturating_product(a: usize, b: usize) -> (r: usize)
    ensures
        r == capped_product(a as int, b as int),
{
    match a.checked_mul(b) {
        Some(r) => r,
        None => usize::MAX,
    }
}

/// A buffer of zeros for a node, as bit patterns of samples.
pub fn silent_buffer(frames: u32, channels: u16) -> (r: Vec<u32>)
    ensures
        r@ == Seq::new(capped_product(frames as int, channels as int) as nat, |i: int| 0u32),
{
    let len = saturating_product(frames as usize, channels as usize);
    let mut r: Vec<u32> = Vec::new();
    r.resize(len, 0);
    assert(r@ =~= Seq::new(len as nat, |i: int| 0u32));
    r
}

/// What goes to a node that audio is sent to: its rendered samples, or silence where nothing
/// was rendered for it.
pub fn sink_samples(
    rendered: &StringMap<Vec<u32>>,
    node_id: &str,
    frames: u32,
    channels: u16,
) -> (r: Vec<u32>)
    requires
        rendered.wf(),
    ensures
        r@ == if rendered@.dom().contains(node_id@) {
            rendered@[node_id@]@
        } else {
            Seq::new(capped_product(frames as int, channels as int) as nat, |i: int| 0u32)
        },
{
    match rendered.get(node_id) {
        Some(samples) => {
            let mut r: Vec<u32> = Vec::new();
            let mut i: usize = 0;
            while i < samples.len()
                invariant
                    i <= samples.len(),
                    r@ == samples@.take(i as int),
                decreases samples.len() - i,
            {
                r.push(samples[i]);
                i = i + 1;
                assert(r@ =~= samples@.take(i as int));
            }
            assert(r@ =~= samples@);
            r
        },
        None => silent_buffer(frames, channels),
    }
}

/// What came of reading from a shared ring.
#[derive(Debug, Clone, Copy, PartialEq, Eq, Structural)]
pub enum RingRead {
    /// The ring is not open.
    Unavailable,
    /// Reading failed.
    Failed,
    /// So many frames were read.
    Frames(usize),
}

/// How many samples of the buffer hold what was read.
pub open spec fn samples_read(outcome: RingRead, channels: u16) -> int {
    match outcome {
        RingRead::Frames(frames) => capped_product(frames as int, channels as int),
        _ => 0,
    }
}

/// Silences what a read did not fill.
pub fn settle_source(samples: &mut Vec<u32>, outcome: RingRead, channels: u16)
    ensures
        final(samples)@ == Seq::new(
            old(samples)@.len(),
            |i: int|
                if i < samples_read(outcome, channels) {
                    old(samples)@[i]
                } else {
                    0u32
                },
        ),
{
    let keep = match outcome {
        RingRead::Frames(frames) => saturating_product(frames, channels as usize),
        _ => 0,
    };
    let ghost before = samples@;
    let mut i: usize = if keep < samples.len() {
        keep
    } else {
        samples.len()
    };
    while i < samples.len()
        invariant
            i <= samples.len(),
            samples@.len() == before.len(),
            keep < samples.len() ==> keep <= i,
            keep >= samples.len() ==> i == samples.len(),
            forall|k: int|
                0 <= k < samples@.len() ==> samples@[k] == if keep <= k < i {
                    0u32
                } else {
                    before[k]
                },
        decreases samples.len() - i,
    {
        samples.set(i, 0);
        i = i + 1;
    }
    assert(samples@ =~= Seq::new(
        before.len(),
        |i: int|
            if i < keep {
                before[i]
            } else {
                0u32
            },
    ));
}

// ---------------------------------------------------------------------------
// Shared rings

/// Which way audio flows through a shared ring.
#[derive(Debug, Clone, Copy, PartialEq, Eq, Structural)]
pub enum RingDirection {
    Vout,
    Vin,
}

/// The name of the ring of a device.
pub open spec fn ring_name(direction: RingDirection, uid: Seq<char>) -> Seq<char> {
    match direction {
        RingDirection::Vout => "mars.vout."@ + uid,
        RingDirection::Vin => "mars.vin."@ + uid,
    }
}

/// The name of the ring of a device.
pub fn stream_name(direction: RingDirection, uid: &str) -> (r: String)
    ensures
        r@ == ring_name(direction, uid@),
{
    let mut name = match direction {
        RingDirection::Vout => String::from_str("mars.vout."),
        RingDirection::Vin => String::from_str("mars.vin."),
    };
    name.append(uid);
    name
}

/// The shape of a shared ring.
#[derive(Debug, Clone, Copy, PartialEq, Eq, Structural)]
pub struct RingSpec {
    pub sample_rate: u32,
    pub channels: u16,
    pub capacity_frames: u32,
}

/// The shape of the ring of an endpoint: it holds eight buffers.
pub fn ring_spec(config: &RenderRuntimeConfig, endpoint: &RenderEndpoint) -> (r: RingSpec)
    ensures
        r.sample_rate == config.sample_rate,
        r.channels == endpoint.channels,
        r.capacity_frames == if config.buffer_frames * 8 > u32::MAX {
            u32::MAX as int
        } else {
            config.buffer_frames * 8
        },
{
    let capacity_frames: u32 = match config.buffer_frames.checked_mul(8) {
        Some(frames) => frames,
        None => u32::MAX,
    };
    RingSpec { sample_rate: config.sample_rate, channels: endpoint.channels, capacity_frames }
}

// ---------------------------------------------------------------------------
// The steps of a cycle

/// One thing to do in a cycle; the numbers are places in the lists of the configuration.
#[derive(Debug, Clone, Copy, PartialEq, Eq, Structural)]
pub enum RenderStep {
    /// Try to open the ring of a source.
    OpenSource(usize),
    /// Read a source, or silence it where its ring is not open.
    ReadSource(usize),
    /// Read an external input, or silence it without an external runtime.
    ReadExternal(usize),
    /// Render one buffer.
    Render,
    /// Try to open the ring of a sink.
    OpenSink(usize),
    /// Write a sink.
    WriteSink(usize),
    /// Write an external output.
    WriteExternal(usize),
    /// Note the state of the external runtime.
    RecordExternal,
    /// Account for the time the cycle took.
    Finish,
}

/// What the steps of a cycle depend on.
#[derive(Debug)]
pub struct CycleState {
    /// For each source, whether its ring is open.
    pub sources_open: Vec<bool>,
    /// For each sink, whether its ring is open.
    pub sinks_open: Vec<bool>,
    pub external_inputs: usize,
    pub external_outputs: usize,
    /// Whether there is an external runtime.
    pub external_runtime: bool,
}

/// From the source at a place on: open it if need be, read it.
pub open spec fn at_source(s: CycleState, i: int) -> RenderStep {
    if i < s.sources_open.len() {
        if s.sources_open@[i] {
            RenderStep::ReadSource(i as usize)
        } else {
            RenderStep::OpenSource(i as usize)
        }
    } else {
        at_external_input(s, 0)
    }
}

/// From the external input at a place on: read it, then render.
pub open spec fn at_external_input(s: CycleState, i: int) -> RenderStep {
    if i < s.external_inputs {
        RenderStep::ReadExternal(i as usize)
    } else {
        RenderStep::Render
    }
}

/// From the sink at a place on: open it if need be, write it.
pub open spec fn at_sink(s: CycleState, i: int) -> RenderStep {
    if i < s.sinks_open.len() {
        if s.sinks_open@[i] {
            RenderStep::WriteSink(i as usize)
        } else {
            RenderStep::OpenSink(i as usize)
        }
    } else {
        at_external_output(s, 0)
    }
}

/// From the external output at a place on: write it, where there is an external runtime.
pub open spec fn at_external_output(s: CycleState, i: int) -> RenderStep {
    if s.external_runtime && i < s.external_outputs {
        RenderStep::WriteExternal(i as usize)
    } else {
        at_close(s)
    }
}

/// The end of the cycle.
pub open spec fn at_close(s: CycleState) -> RenderStep {
    if s.external_runtime {
        RenderStep::RecordExternal
    } else {
        RenderStep::Finish
    }
}

/// What follows a step; the flag says whether the step succeeded. A source is read even
/// where it could not be opened; a sink is passed over. Where rendering fails nothing is
/// written.
pub open spec fn step_after(s: CycleState, step: RenderStep, ok: bool) -> RenderStep {
    match step {
        RenderStep::OpenSource(i) => RenderStep::ReadSource(i),
        RenderStep::ReadSource(i) => at_source(s, i + 1),
        RenderStep::ReadExternal(i) => at_external_input(s, i + 1),
        RenderStep::Render => if ok {
            at_sink(s, 0)
        } else {
            at_close(s)
        },
        RenderStep::OpenSink(i) => if ok {
            RenderStep::WriteSink(i)
        } else {
            at_sink(s, i + 1)
        },
        RenderStep::WriteSink(i) => at_sink(s, i + 1),
        RenderStep::WriteExternal(i) => at_external_output(s, i + 1),
        RenderStep::RecordExternal => RenderStep::Finish,
        RenderStep::Finish => RenderStep::Finish,
    }
}

/// The state after a step: an opened ring stays open.
pub open spec fn state_after(
    sources: Seq<bool>,
    sinks: Seq<bool>,
    step: RenderStep,
    ok: bool,
) -> (Seq<bool>, Seq<bool>) {
    match step {
        RenderStep::OpenSource(i) if ok => (sources.update(i as int, true), sinks),
        RenderStep::OpenSink(i) if ok => (sources, sinks.update(i as int, true)),
        _ => (sources, sinks),
    }
}

/// Whether the step names a place that there is.
pub open spec fn step_valid(s: CycleState, step: RenderStep) -> bool {
    match step {
        RenderStep::OpenSource(i) => i < s.sources_open.len(),
        RenderStep::ReadSource(i) => i < s.sources_open.len(),
        RenderStep::ReadExternal(i) => i < s.external_inputs,
        RenderStep::OpenSink(i) => i < s.sinks_open.len(),
        RenderStep::WriteSink(i) => i < s.sinks_open.len(),
        RenderStep::WriteExternal(i) => i < s.external_outputs,
        _ => true,
    }
}

impl CycleState {
    /// The state before the first cycle: no ring is open.
    pub fn new(config: &RenderRuntimeConfig, external_runtime: bool) -> (r: CycleState)
        ensures
            r.sources_open@ == Seq::new(config.vout_sources@.len(), |i: int| false),
            r.sinks_open@ == Seq::new(config.vin_sinks@.len(), |i: int| false),
            r.external_inputs == config.external_inputs@.len(),
            r.external_outputs == config.external_outputs@.len(),
            r.external_runtime == external_runtime,
    {
        let mut sources_open: Vec<bool> = Vec::new();
        sources_open.resize(config.vout_sources.len(), false);
        let mut sinks_open: Vec<bool> = Vec::new();
        sinks_open.resize(config.vin_sinks.len(), false);
        assert(sources_open@ =~= Seq::new(config.vout_sources@.len(), |i: int| false));
        assert(sinks_open@ =~= Seq::new(config.vin_sinks@.len(), |i: int| false));
        CycleState {
            sources_open,
            sinks_open,
            external_inputs: config.external_inputs.len(),
            external_outputs: config.external_outputs.len(),
            external_runtime,
        }
    }

    fn source_step(&self, i: usize) -> (r: RenderStep)
        ensures
            r == at_source(*self, i as int),
    {
        if i < self.sources_open.len() {
            if self.sources_open[i] {
                RenderStep::ReadSource(i)
            } else {
                RenderStep::OpenSource(i)
            }
        } else {
            self.external_input_step(0)
        }
    }

    fn external_input_step(&self, i: usize) -> (r: RenderStep)
        ensures
            r == at_external_input(*self, i as int),
    {
        if i < self.external_inputs {
            RenderStep::ReadExternal(i)
        } else {
            RenderStep::Render
        }
    }

    fn sink_step(&self, i: usize) -> (r: RenderStep)
        ensures
            r == at_sink(*self, i as int),
    {
        if i < self.sinks_open.len() {
            if self.sinks_open[i] {
                RenderStep::WriteSink(i)
            } else {
                RenderStep::OpenSink(i)
            }
        } else {
            self.external_output_step(0)
        }
    }

    fn external_output_step(&self, i: usize) -> (r: RenderStep)
        ensures
            r == at_external_output(*self, i as int),
    {
        if self.external_runtime && i < self.external_outputs {
            RenderStep::WriteExternal(i)
        } else {
            self.close_step()
        }
    }

    fn close_step(&self) -> (r: RenderStep)
        ensures
            r == at_close(*self),
    {
        if self.external_runtime {
            RenderStep::RecordExternal
        } else {
            RenderStep::Finish
        }
    }

    /// The first step of a cycle.
    pub fn first_step(&self) -> (r: RenderStep)
        ensures
            r == at_source(*self, 0),
            step_valid(*self, r),
    {
        self.source_step(0)
    }

    /// Notes the outcome of a step and says what to do next.
    pub fn advance(&mut self, step: RenderStep, ok: bool) -> (r: RenderStep)
        requires
            step_valid(*old(self), step),
        ensures
            r == step_after(*final(self), step, ok),
            step_valid(*final(self), r),
            (final(self).sources_open@, final(self).sinks_open@) == state_after(
                old(self).sources_open@,
                old(self).sinks_open@,
                step,
                ok,
            ),
            final(self).external_inputs == old(self).external_inputs,
            final(self).external_outputs == old(self).external_outputs,
            final(self).external_runtime == old(self).external_runtime,
    {
        match step {
            RenderStep::OpenSource(i) => {
                if ok {
                    self.sources_open.set(i, true);
                }
                RenderStep::ReadSource(i)
            },
            RenderStep::ReadSource(i) => self.source_step(i + 1),
            RenderStep::ReadExternal(i) => self.external_input_step(i + 1),
            RenderStep::Render => if ok {
                self.sink_step(0)
            } else {
                self.close_step()
            },
            RenderStep::OpenSink(i) => if ok {
                self.sinks_open.set(i, true);
                RenderStep::WriteSink(i)
            } else {
                self.sink_step(i + 1)
            },
            RenderStep::WriteSink(i) => self.sink_step(i + 1),
            RenderStep::WriteExternal(i) => self.external_output_step(i + 1),
            RenderStep::RecordExternal => RenderStep::Finish,
            RenderStep::Finish => RenderStep::Finish,
        }
    }
}

/// How far a step is from the end of the cycle.
pub open spec fn steps_left(s: CycleState, step: RenderStep) -> int {
    let tail = 2int;
    let outputs = s.external_outputs as int;
    let sinks = 2 * s.sinks_open.len();
    let inputs = s.external_inputs as int;
    let sources = 2 * s.sources_open.len();
    match step {
        RenderStep::Finish => 0,
        RenderStep::RecordExternal => 1,
        RenderStep::WriteExternal(i) => tail + outputs - i - 1,
        RenderStep::WriteSink(i) => tail + outputs + sinks - 2 * i - 2,
        RenderStep::OpenSink(i) => tail + outputs + sinks - 2 * i - 1,
        RenderStep::Render => tail + outputs + sinks,
        RenderStep::ReadExternal(i) => tail + outputs + sinks + inputs - i,
        RenderStep::ReadSource(i) => tail + outputs + sinks + inputs + sources - 2 * i - 1,
        RenderStep::OpenSource(i) => tail + outputs + sinks + inputs + sources - 2 * i,
    }
}

/// Every cycle ends: each step brings it nearer to its end, whatever came of it.
pub proof fn law_cycle_ends(s: CycleState, step: RenderStep, ok: bool)
    requires
        step_valid(s, step),
        step != RenderStep::Finish,
    ensures
        0 <= steps_left(s, step_after(s, step, ok)) < steps_left(s, step),
{
}

/// Every source is settled before rendering: reading the source at a place leads to the
/// next one, and only the last leads on to the external inputs.
pub proof fn law_sources_precede_rendering(s: CycleState, i: usize, ok: bool)
    requires
        i < s.sources_open.len(),
    ensures
        step_after(s, RenderStep::OpenSource(i), ok) == RenderStep::ReadSource(i),
        i + 1 < s.sources_open.len() ==> (step_after(s, RenderStep::ReadSource(i), ok)
            == RenderStep::ReadSource((i + 1) as usize) || step_after(
            s,
            RenderStep::ReadSource(i),
            ok,
        ) == RenderStep::OpenSource((i + 1) as usize)),
        i + 1 == s.sources_open.len() ==> step_after(s, RenderStep::ReadSource(i), ok)
            == at_external_input(s, 0),
{
}

// ---------------------------------------------------------------------------
// Accounting

/// What the loop counts.
#[derive(Debug, Clone, Copy)]
pub struct RenderMetrics {
    pub deadline_miss_count: u64,
    pub last_cycle_ns: u64,
    pub max_cycle_ns: u64,
}

/// Raises a maximum to a value.
pub fn update_max_atomic(cell: &mut u64, value: u64)
    ensures
        *final(cell) == if value > *old(cell) {
            value
        } else {
            *old(cell)
        },
{
    if value > *cell {
        *cell = value;
    }
}

impl RenderMetrics {
    /// Nothing counted yet.
    pub fn new() -> (r: RenderMetrics)
        ensures
            r.deadline_miss_count == 0,
            r.last_cycle_ns == 0,
            r.max_cycle_ns == 0,
    {
        RenderMetrics { deadline_miss_count: 0, last_cycle_ns: 0, max_cycle_ns: 0 }
    }

    /// Accounts for a cycle and says how many nanoseconds to sleep: a cycle that took longer
    /// than the period misses its deadline, any other waits for the rest of the period.
    pub fn finish_cycle(&mut self, cycle_ns: u64, period_ns: u64) -> (r: u64)
        ensures
            final(self).last_cycle_ns == cycle_ns,
            final(self).max_cycle_ns == if cycle_ns > old(self).max_cycle_ns {
                cycle_ns
            } else {
                old(self).max_cycle_ns
            },
            cycle_ns > period_ns ==> r == 0 && final(self).deadline_miss_count
                == if old(self).deadline_miss_count == u64::MAX {
                0
            } else {
                old(self).deadline_miss_count + 1
            },
            cycle_ns <= period_ns ==> r == period_ns - cycle_ns
                && final(self).deadline_miss_count == old(self).deadline_miss_count,
    {
        self.last_cycle_ns = cycle_ns;
        update_max_atomic(&mut self.max_cycle_ns, cycle_ns);
        if cycle_ns > period_ns {
            self.deadline_miss_count = self.deadline_miss_count.wrapping_add(1);
            0
        } else {
            period_ns - cycle_ns
        }
    }
}

// ---------------------------------------------------------------------------
// Laws

/// A product is exact where it fits.
pub proof fn law_products_are_exact_where_they_fit(a: int, b: int)
    ensures
        a * b <= usize::MAX ==> capped_product(a, b) == a * b,
        a * b > usize::MAX ==> capped_product(a, b) == usize::MAX,
{
}

/// What runs is kept exactly where it is wanted as it is: with the same rate, buffer and
/// endpoints. Without an engine or anything wanted it is stopped, else started anew.
pub proof fn law_what_runs_is_kept_where_nothing_changed(
    engine_present: bool,
    wanted: Option<&RenderRuntimeConfig>,
    running: Option<&RenderRuntimeConfig>,
    r: SyncAction,
)
    requires
        call_ensures(sync_action, (engine_present, wanted, running), r),
    ensures
        r == SyncAction::Stop <==> !engine_present || wanted is None,
        r == SyncAction::Keep <==> engine_present && wanted is Some && running is Some
            && wanted->0.sample_rate == running->0.sample_rate && wanted->0.buffer_frames
            == running->0.buffer_frames && views(wanted->0.vout_sources@) == views(
            running->0.vout_sources@,
        ) && views(wanted->0.vin_sinks@) == views(running->0.vin_sinks@) && views(
            wanted->0.external_inputs@,
        ) == views(running->0.external_inputs@) && views(wanted->0.external_outputs@) == views(
            running->0.external_outputs@,
        ),
{
}

/// External devices are ready exactly where as many inputs and as many outputs are connected as
/// are expected.
pub proof fn law_external_devices_are_ready(
    subject: &str,
    expected_inputs: usize,
    expected_outputs: usize,
    inputs: usize,
    outputs: usize,
    r: Result<(), String>,
)
    requires
        call_ensures(
            check_external_readiness,
            (subject, expected_inputs, expected_outputs, inputs, outputs),
            r,
        ),
    ensures
        r is Ok <==> inputs == expected_inputs && outputs == expected_outputs,
{
}

/// An external runtime is needed exactly where some external device takes part.
pub proof fn law_external_runtime_is_needed(config: RenderRuntimeConfig, r: bool)
    requires
        call_ensures(needs_external_runtime, (&config,), r),
    ensures
        r <==> config.external_inputs@.len() + config.external_outputs@.len() > 0,
{
}

/// What goes to a sink is what was rendered for it, or as much silence as a buffer holds.
pub proof fn law_sinks_play_what_was_rendered(
    rendered: StringMap<Vec<u32>>,
    node_id: &str,
    frames: u32,
    channels: u16,
    r: Vec<u32>,
    i: int,
)
    requires
        call_ensures(sink_samples, (&rendered, node_id, frames, channels), r),
        0 <= i < r@.len(),
    ensures
        rendered@.dom().contains(node_id@) ==> r@ == rendered@[node_id@]@,
        !rendered@.dom().contains(node_id@) ==> r@[i] == 0,
        !rendered@.dom().contains(node_id@) && frames * channels <= usize::MAX ==> r@.len()
            == frames * channels,
{
}

/// Of a ring that was read, as many samples count as frames came; of one that was not open or
/// failed, none.
pub proof fn law_what_was_read_counts(outcome: RingRead, channels: u16)
    ensures
        outcome is Unavailable || outcome is Failed ==> samples_read(outcome, channels) == 0,
        outcome matches RingRead::Frames(frames) ==> (frames * channels <= usize::MAX
            ==> samples_read(outcome, channels) == frames * channels),
{
}

/// The rings of the two directions have names of their own.
pub proof fn law_rings_have_their_own_names(a: Seq<char>, b: Seq<char>)
    ensures
        ring_name(RingDirection::Vout, a) == "mars.vout."@ + a,
        ring_name(RingDirection::Vin, a) == "mars.vin."@ + a,
        ring_name(RingDirection::Vout, a) != ring_name(RingDirection::Vin, b),
{
    reveal_strlit("mars.vout.");
    reveal_strlit("mars.vin.");
    assert(ring_name(RingDirection::Vout, a)[6] == 'o');
    assert(ring_name(RingDirection::Vin, b)[6] == 'i');
}

/// A ring holds eight buffers of its endpoint, at the rate of what runs.
pub proof fn law_rings_hold_eight_buffers(
    config: RenderRuntimeConfig,
    endpoint: RenderEndpoint,
    r: RingSpec,
)
    requires
        call_ensures(ring_spec, (&config, &endpoint), r),
    ensures
        r.sample_rate == config.sample_rate,
        r.channels == endpoint.channels,
        config.buffer_frames * 8 <= u32::MAX ==> r.capacity_frames == 8 * config.buffer_frames,
{
}

/// A cycle goes on in order: all sources and external inputs are read before it renders; what was
/// rendered is written to all sinks, then to all external outputs, where there is a runtime for
/// them; then the cycle ends. Where rendering failed nothing is written.
pub proof fn law_cycles_go_in_order(s: CycleState, i: usize, ok: bool)
    ensures
        ({
            let sources = s.sources_open.len();
            let sinks = s.sinks_open.len();
            let end = if s.external_runtime {
                RenderStep::RecordExternal
            } else {
                RenderStep::Finish
            };
            let outputs = if s.external_runtime && s.external_outputs > 0 {
                RenderStep::WriteExternal(0)
            } else {
                end
            };
            &&& i + 1 == sources && s.external_inputs == 0 ==> step_after(
                s,
                RenderStep::ReadSource(i),
                ok,
            ) == RenderStep::Render
            &&& i + 1 == sources && s.external_inputs > 0 ==> step_after(
                s,
                RenderStep::ReadSource(i),
                ok,
            ) == RenderStep::ReadExternal(0)
            &&& i + 1 < s.external_inputs ==> step_after(s, RenderStep::ReadExternal(i), ok)
                == RenderStep::ReadExternal((i + 1) as usize)
            &&& i + 1 == s.external_inputs ==> step_after(s, RenderStep::ReadExternal(i), ok)
                == RenderStep::Render
            &&& step_after(s, RenderStep::Render, false) == end
            &&& sinks > 0 && s.sinks_open@[0] ==> step_after(s, RenderStep::Render, true)
                == RenderStep::WriteSink(0)
            &&& sinks > 0 && !s.sinks_open@[0] ==> step_after(s, RenderStep::Render, true)
                == RenderStep::OpenSink(0)
            &&& sinks == 0 ==> step_after(s, RenderStep::Render, true) == outputs
            &&& step_after(s, RenderStep::OpenSink(i), true) == RenderStep::WriteSink(i)
            &&& i + 1 < sinks && s.sinks_open@[i + 1] ==> step_after(
                s,
                RenderStep::WriteSink(i),
                ok,
            ) == RenderStep::WriteSink((i + 1) as usize)
            &&& i + 1 < sinks && !s.sinks_open@[i + 1] ==> step_after(
                s,
                RenderStep::WriteSink(i),
                ok,
            ) == RenderStep::OpenSink((i + 1) as usize)
            &&& i + 1 < sinks ==> step_after(s, RenderStep::OpenSink(i), false) == step_after(
                s,
                RenderStep::WriteSink(i),
                ok,
            )
            &&& i + 1 == sinks ==> step_after(s, RenderStep::WriteSink(i), ok) == outputs
                && step_after(s, RenderStep::OpenSink(i), false) == outputs
            &&& s.external_runtime && i + 1 < s.external_outputs ==> step_after(
                s,
                RenderStep::WriteExternal(i),
                ok,
            ) == RenderStep::WriteExternal((i + 1) as usize)
            &&& i + 1 == s.external_outputs ==> step_after(s, RenderStep::WriteExternal(i), ok)
                == end
            &&& step_after(s, RenderStep::RecordExternal, ok) == RenderStep::Finish
        }),
{
}

/// A cycle begins with the first source, or without sources with the external inputs, and a ring
/// is open once it was opened, and not before.
pub proof fn law_cycles_begin_with_their_sources(s: CycleState, first: RenderStep, i: usize)
    requires
        call_ensures(CycleState::first_step, (&s,), first),
        i < s.sources_open.len(),
    ensures
        s.sources_open@[0] ==> first == RenderStep::ReadSource(0),
        !s.sources_open@[0] ==> first == RenderStep::OpenSource(0),
        state_after(s.sources_open@, s.sinks_open@, RenderStep::OpenSource(i), true).0[i as int],
        state_after(s.sources_open@, s.sinks_open@, RenderStep::OpenSource(i), false).0
            == s.sources_open@,
        state_after(s.sources_open@, s.sinks_open@, RenderStep::OpenSource(i), true).1
            == s.sinks_open@,
{
}

} // verus!
