use std::collections::HashMap;
use std::f32::consts::{FRAC_1_SQRT_2, FRAC_PI_4, PI};

use mars::au_host::{plugin_status, AuPluginApi, AuWorkerState, PluginHostHealth};
use mars::delay::{DelayLine, TimeShiftState};
use mars::engine::{EngineError, SampleMath};
use mars::graph::{build_routing_graph, RoutingGraph};
use mars::number::Real32;
use mars::processors::{
    ProcessorControl, ProcessorRuntimeStats, ProcessorSchedule, ShiftFrames,
};
use mars::profile::{
    Bus, MixConfig, MixMode, Pipe, ProcessorChain, ProcessorDefinition, ProcessorKind, Profile,
    Route, RouteMatrix, VirtualInputDevice, VirtualOutputDevice,
};
use mars::render_engine::{Engine, EngineSnapshot};
use mars::render_loop::{stream_name, RingDirection, RingSpec};
use mars::ring::{check_format, Ring};
use mars::string_map::StringMap;

fn number(value: f32) -> Real32 {
    Real32::from_bits(value.to_bits())
}

fn matrix(rows: Vec<Vec<f32>>) -> Vec<Vec<Real32>> {
    rows.iter()
        .map(|row| row.iter().map(|value| number(*value)).collect())
        .collect()
}

fn value_of(bits: u32) -> f32 {
    f32::from_bits(bits)
}

fn to_bits(samples: &[f32]) -> Vec<u32> {
    samples.iter().map(|sample| sample.to_bits()).collect()
}

fn to_reals(samples: &[u32]) -> Vec<f32> {
    samples.iter().map(|sample| f32::from_bits(*sample)).collect()
}

struct Arithmetic;

impl SampleMath for Arithmetic {
    fn multiply_add(&self, sum: u32, sample: u32, factor: u32) -> u32 {
        (value_of(sum) + value_of(sample) * value_of(factor)).to_bits()
    }

    fn plus(&self, a: u32, b: u32) -> u32 {
        (value_of(a) + value_of(b)).to_bits()
    }

    fn times(&self, sample: u32, factor: u32) -> u32 {
        (value_of(sample) * value_of(factor)).to_bits()
    }

    fn gain_factor(&self, gain_db: u32) -> u32 {
        10_f32.powf(value_of(gain_db) / 20.0).to_bits()
    }

    fn pan_factors(&self, pan: u32) -> (u32, u32) {
        let theta = (value_of(pan) + 1.0) * FRAC_PI_4;
        (theta.cos().to_bits(), theta.sin().to_bits())
    }

    fn divided(&self, sample: u32, count: usize) -> u32 {
        (value_of(sample) / count as f32).to_bits()
    }

    fn limited(&self, sample: u32, limit_dbfs: u32) -> u32 {
        let limit = 10_f32.powf(value_of(limit_dbfs) / 20.0).clamp(0.0001, 1.0);
        let normalized = (value_of(sample) / limit).clamp(-6.0, 6.0);
        (normalized.tanh() * limit).to_bits()
    }

    fn process(
        &self,
        _kind: ProcessorKind,
        _config_json: &String,
        _sample_rate: u32,
        memory: &Vec<u32>,
        samples: &Vec<u32>,
        _channels: usize,
    ) -> (Vec<u32>, Vec<u32>) {
        let mut next = memory.clone();
        next.push(1);
        (next, samples.clone())
    }
}

struct Player {
    engine: Engine,
    arithmetic: Arithmetic,
}

struct Sources {
    map: StringMap<Vec<u32>>,
}

impl Sources {
    fn new() -> Sources {
        Sources {
            map: StringMap::new(),
        }
    }

    fn insert(&mut self, id: String, samples: Vec<f32>) {
        self.map.insert(id, to_bits(&samples));
    }
}

struct Played {
    sinks: HashMap<String, Vec<f32>>,
}

fn delays(graph: &RoutingGraph, sample_rate: u32) -> Vec<usize> {
    graph
        .compiled_route_plan()
        .routes
        .iter()
        .map(|route| {
            ((value_of(route.delay_ms.to_bits()) / 1000.0) * sample_rate as f32)
                .round()
                .max(0.0) as usize
        })
        .collect()
}

fn shifts(graph: &RoutingGraph, sample_rate: u32) -> StringMap<ShiftFrames> {
    let frames = |ms: f64| ((ms / 1000.0) * sample_rate as f64).round() as usize;
    let mut shifts = StringMap::new();
    for route in &graph.compiled_route_plan().routes {
        let Some(chain_id) = route.chain.as_ref() else {
            continue;
        };
        let Some(chain) = graph.processor_plan().chains.get(chain_id) else {
            continue;
        };
        for processor in &chain.processors {
            if processor.kind == ProcessorKind::TimeShift {
                let config: serde_json::Value =
                    serde_json::from_str(&processor.config_json).expect("config");
                shifts.insert(
                    processor.id.clone(),
                    ShiftFrames {
                        delay: frames(config["delay_ms"].as_f64().expect("delay")),
                        longest: frames(config["max_delay_ms"].as_f64().expect("largest delay")),
                    },
                );
            }
        }
    }
    shifts
}

impl Player {
    fn new(snapshot: EngineSnapshot) -> Player {
        let delays = delays(&snapshot.graph, snapshot.sample_rate);
        let shifts = shifts(&snapshot.graph, snapshot.sample_rate);
        Player {
            engine: Engine::new(snapshot, &delays, &shifts),
            arithmetic: Arithmetic,
        }
    }

    fn swap_snapshot(&mut self, snapshot: EngineSnapshot) {
        let delays = delays(&snapshot.graph, snapshot.sample_rate);
        let shifts = shifts(&snapshot.graph, snapshot.sample_rate);
        self.engine.swap_snapshot(snapshot, &delays, &shifts);
    }

    fn render_cycle(&mut self, frames: usize, sources: &Sources) -> Result<Played, EngineError> {
        let output = self
            .engine
            .render_cycle(frames, &sources.map, &self.arithmetic)?;
        let mut sinks = HashMap::new();
        for place in 0..output.sinks.len() {
            sinks.insert(
                output.sinks.key_at(place).clone(),
                to_reals(output.sinks.value_at(place)),
            );
        }
        Ok(Played { sinks })
    }

    fn update_processor_control(&mut self, id: &str, control: ProcessorControl) {
        self.engine.update_processor_control(id.to_string(), control);
    }

    fn swap_processor_schedule(&mut self, schedule: ProcessorSchedule) {
        self.engine.swap_processor_schedule(schedule);
    }

    fn processor_runtime_stats(&self) -> StringMap<ProcessorRuntimeStats> {
        self.engine.processor_runtime_stats()
    }
}

fn time_shift_config(delay_ms: f64, max_delay_ms: f64) -> serde_json::Value {
    let mut config = serde_json::Map::new();
    config.insert("delay_ms".to_string(), serde_json::Value::from(delay_ms));
    config.insert(
        "max_delay_ms".to_string(),
        serde_json::Value::from(max_delay_ms),
    );
    serde_json::Value::Object(config)
}

fn test_engine() -> Player {
    let mut profile = Profile::default();
    profile.virtual_devices.outputs.push(VirtualOutputDevice {
        id: "app".to_string(),
        name: "App".to_string(),
        channels: Some(2),
        uid: None,
        hidden: false,
    });
    profile.virtual_devices.inputs.push(VirtualInputDevice {
        id: "mix".to_string(),
        name: "Mix".to_string(),
        channels: Some(2),
        uid: None,
        mix: Some(MixConfig {
            limiter: false,
            limit_dbfs: number(-1.0),
            mode: MixMode::Sum,
        }),
    });
    profile.pipes.push(Pipe {
        from: "app".to_string(),
        to: "mix".to_string(),
        enabled: true,
        gain_db: number(-6.0),
        mute: false,
        pan: number(0.0),
        delay_ms: number(0.0),
    });
    let graph = build_routing_graph(&profile).expect("graph");

    Player::new(EngineSnapshot {
        graph,
        sample_rate: 48_000,
        buffer_frames: 256,
    })
}

fn stereo_identity_matrix() -> RouteMatrix {
    RouteMatrix {
        rows: 2,
        cols: 2,
        coefficients: matrix(vec![vec![1.0, 0.0], vec![0.0, 1.0]]),
    }
}

#[test]
fn applies_gain() {
    let mut engine = test_engine();
    let mut sources = Sources::new();
    sources.insert("app".to_string(), vec![1.0, 1.0, 1.0, 1.0]);

    let output = engine.render_cycle(2, &sources).expect("render");
    let sink = output.sinks.get("mix").expect("sink");
    assert!(sink[0] < 1.0);
    assert!(sink[0] > 0.3);
}

#[test]
fn matrix_route_keeps_legacy_stereo_equivalence() {
    let mut legacy_profile = Profile::default();
    legacy_profile
        .virtual_devices
        .outputs
        .push(VirtualOutputDevice {
            id: "app".to_string(),
            name: "App".to_string(),
            channels: Some(2),
            uid: None,
            hidden: false,
        });
    legacy_profile
        .virtual_devices
        .inputs
        .push(VirtualInputDevice {
            id: "mix".to_string(),
            name: "Mix".to_string(),
            channels: Some(2),
            uid: None,
            mix: None,
        });
    legacy_profile.pipes.push(Pipe {
        from: "app".to_string(),
        to: "mix".to_string(),
        enabled: true,
        gain_db: number(-3.0),
        mute: false,
        pan: number(0.25),
        delay_ms: number(0.0),
    });

    let mut matrix_profile = Profile::default();
    matrix_profile.virtual_devices = legacy_profile.virtual_devices.clone();
    matrix_profile.routes.push(Route {
        id: "route-main".to_string(),
        from: "app".to_string(),
        to: "mix".to_string(),
        enabled: true,
        matrix: stereo_identity_matrix(),
        chain: None,
        gain_db: number(-3.0),
        mute: false,
        pan: number(0.25),
        delay_ms: number(0.0),
    });

    let mut legacy_engine = Player::new(EngineSnapshot {
        graph: build_routing_graph(&legacy_profile).expect("legacy graph"),
        sample_rate: 48_000,
        buffer_frames: 256,
    });
    let mut matrix_engine = Player::new(EngineSnapshot {
        graph: build_routing_graph(&matrix_profile).expect("matrix graph"),
        sample_rate: 48_000,
        buffer_frames: 256,
    });

    let mut sources = Sources::new();
    let source = (0..(256 * 2))
        .map(|index| ((index as f32) * 0.003).sin())
        .collect::<Vec<_>>();
    sources.insert("app".to_string(), source);

    let legacy_output = legacy_engine
        .render_cycle(256, &sources)
        .expect("legacy render");
    let matrix_output = matrix_engine
        .render_cycle(256, &sources)
        .expect("matrix render");
    let legacy_sink = legacy_output.sinks.get("mix").expect("legacy sink");
    let matrix_sink = matrix_output.sinks.get("mix").expect("matrix sink");

    assert_eq!(legacy_sink.len(), matrix_sink.len());
    for (legacy, matrix) in legacy_sink.iter().zip(matrix_sink.iter()) {
        assert!((*legacy - *matrix).abs() < 1e-6);
    }
}

fn processor_chain_profile(chain_id: &str, processor_id: &str) -> Profile {
    let mut profile = Profile::default();
    profile.virtual_devices.outputs.push(VirtualOutputDevice {
        id: "app".to_string(),
        name: "App".to_string(),
        channels: Some(2),
        uid: None,
        hidden: false,
    });
    profile.virtual_devices.inputs.push(VirtualInputDevice {
        id: "mix".to_string(),
        name: "Mix".to_string(),
        channels: Some(2),
        uid: None,
        mix: None,
    });
    profile.processors.push(ProcessorDefinition {
        id: processor_id.to_string(),
        kind: ProcessorKind::Eq,
        config: serde_json::Value::default(),
    });
    profile.processor_chains.push(ProcessorChain {
        id: chain_id.to_string(),
        processors: vec![processor_id.to_string()],
    });
    profile.routes.push(Route {
        id: "main-route".to_string(),
        from: "app".to_string(),
        to: "mix".to_string(),
        enabled: true,
        matrix: stereo_identity_matrix(),
        chain: Some(chain_id.to_string()),
        gain_db: number(0.0),
        mute: false,
        pan: number(0.0),
        delay_ms: number(0.0),
    });
    profile
}

fn single_processor_profile(
    processor_kind: ProcessorKind,
    processor_config: serde_json::Value,
    sample_rate: u32,
    buffer_frames: u32,
) -> Player {
    let mut profile = Profile::default();
    profile.virtual_devices.outputs.push(VirtualOutputDevice {
        id: "src".to_string(),
        name: "Src".to_string(),
        channels: Some(1),
        uid: None,
        hidden: false,
    });
    profile.virtual_devices.inputs.push(VirtualInputDevice {
        id: "sink".to_string(),
        name: "Sink".to_string(),
        channels: Some(1),
        uid: None,
        mix: None,
    });
    profile.processors.push(ProcessorDefinition {
        id: "proc-1".to_string(),
        kind: processor_kind,
        config: processor_config,
    });
    profile.processor_chains.push(ProcessorChain {
        id: "chain-1".to_string(),
        processors: vec!["proc-1".to_string()],
    });
    profile.routes.push(Route {
        id: "route-1".to_string(),
        from: "src".to_string(),
        to: "sink".to_string(),
        enabled: true,
        matrix: RouteMatrix {
            rows: 1,
            cols: 1,
            coefficients: matrix(vec![vec![1.0]]),
        },
        chain: Some("chain-1".to_string()),
        gain_db: number(0.0),
        mute: false,
        pan: number(0.0),
        delay_ms: number(0.0),
    });

    let graph = build_routing_graph(&profile).expect("graph");
    Player::new(EngineSnapshot {
        graph,
        sample_rate,
        buffer_frames,
    })
}

#[test]
fn time_shift_matches_configured_latency() {
    let sample_rate = 1_000u32;
    let frames = 20usize;
    let delay_frames = 60usize;
    let mut engine = single_processor_profile(
        ProcessorKind::TimeShift,
        time_shift_config(delay_frames as f64, 200.0),
        sample_rate,
        frames as u32,
    );

    let mut captured = Vec::new();
    for cycle in 0..6 {
        let mut sources = Sources::new();
        let mut input = vec![0.0_f32; frames];
        if cycle == 0 {
            input[0] = 1.0;
        }
        sources.insert("src".to_string(), input);
        let output = engine.render_cycle(frames, &sources).expect("render");
        captured.extend_from_slice(output.sinks.get("sink").expect("sink"));
    }

    assert!(
        captured
            .iter()
            .take(delay_frames)
            .all(|sample| sample.abs() < 1e-9)
    );
    assert!((captured[delay_frames] - 1.0).abs() < 1e-6);
    assert!(
        captured
            .iter()
            .enumerate()
            .all(|(index, sample)| index == delay_frames || sample.abs() < 1e-5)
    );
}

#[test]
fn time_shift_state_resets_on_snapshot_swap() {
    let sample_rate = 1_000u32;
    let frames = 10usize;
    let mut profile = Profile::default();
    profile.virtual_devices.outputs.push(VirtualOutputDevice {
        id: "src".to_string(),
        name: "Src".to_string(),
        channels: Some(1),
        uid: None,
        hidden: false,
    });
    profile.virtual_devices.inputs.push(VirtualInputDevice {
        id: "sink".to_string(),
        name: "Sink".to_string(),
        channels: Some(1),
        uid: None,
        mix: None,
    });
    profile.processors.push(ProcessorDefinition {
        id: "ts".to_string(),
        kind: ProcessorKind::TimeShift,
        config: time_shift_config(20.0, 200.0),
    });
    profile.processor_chains.push(ProcessorChain {
        id: "chain".to_string(),
        processors: vec!["ts".to_string()],
    });
    profile.routes.push(Route {
        id: "route".to_string(),
        from: "src".to_string(),
        to: "sink".to_string(),
        enabled: true,
        matrix: RouteMatrix {
            rows: 1,
            cols: 1,
            coefficients: matrix(vec![vec![1.0]]),
        },
        chain: Some("chain".to_string()),
        gain_db: number(0.0),
        mute: false,
        pan: number(0.0),
        delay_ms: number(0.0),
    });
    let snapshot = || EngineSnapshot {
        graph: build_routing_graph(&profile).expect("graph"),
        sample_rate,
        buffer_frames: frames as u32,
    };
    let mut engine = Player::new(snapshot());

    let mut cycle1 = Sources::new();
    let mut impulse = vec![0.0_f32; frames];
    impulse[0] = 1.0;
    cycle1.insert("src".to_string(), impulse);
    let out1 = engine.render_cycle(frames, &cycle1).expect("cycle1");
    assert!(out1.sinks["sink"].iter().all(|sample| sample.abs() < 1e-9));

    let mut silence = Sources::new();
    silence.insert("src".to_string(), vec![0.0_f32; frames]);
    let out2 = engine.render_cycle(frames, &silence).expect("cycle2");
    assert!(out2.sinks["sink"].iter().all(|sample| sample.abs() < 1e-9));

    engine.swap_snapshot(snapshot());
    let out3 = engine.render_cycle(frames, &silence).expect("cycle3");
    let out4 = engine.render_cycle(frames, &silence).expect("cycle4");
    assert!(out3.sinks["sink"].iter().all(|sample| sample.abs() < 1e-9));
    assert!(out4.sinks["sink"].iter().all(|sample| sample.abs() < 1e-9));
}

#[test]
fn processor_chain_executes_and_supports_bypass_control() {
    let profile = processor_chain_profile("voice", "proc-a");
    let graph = build_routing_graph(&profile).expect("graph");
    let mut engine = Player::new(EngineSnapshot {
        graph,
        sample_rate: 48_000,
        buffer_frames: 256,
    });

    let mut sources = Sources::new();
    sources.insert("app".to_string(), vec![0.25; 256 * 2]);

    for _ in 0..8 {
        engine.render_cycle(256, &sources).expect("render");
    }
    let before = engine
        .processor_runtime_stats()
        .get("proc-a")
        .expect("processor stats")
        .process_calls;
    assert!(before > 0);

    engine.update_processor_control(
        "proc-a",
        ProcessorControl {
            bypass: true,
            generation: 3,
            params: StringMap::new(),
        },
    );
    for _ in 0..8 {
        engine.render_cycle(256, &sources).expect("render");
    }
    let after = engine
        .processor_runtime_stats()
        .get("proc-a")
        .expect("processor stats")
        .process_calls;
    assert_eq!(before, after);
}

#[test]
fn processor_schedule_hot_swap_rebinds_active_chain() {
    let profile_a = processor_chain_profile("voice-a", "proc-a");
    let graph_a = build_routing_graph(&profile_a).expect("graph a");
    let profile_b = processor_chain_profile("voice-b", "proc-b");
    let graph_b = build_routing_graph(&profile_b).expect("graph b");

    let mut engine = Player::new(EngineSnapshot {
        graph: graph_a,
        sample_rate: 48_000,
        buffer_frames: 256,
    });
    let mut sources = Sources::new();
    sources.insert("app".to_string(), vec![0.2; 256 * 2]);

    for _ in 0..4 {
        engine.render_cycle(256, &sources).expect("render");
    }
    let before = engine.processor_runtime_stats();
    assert!(
        before
            .get("proc-a")
            .map(|item| item.process_calls)
            .unwrap_or(0)
            > 0
    );

    engine.swap_processor_schedule(ProcessorSchedule::from_snapshot(
        &graph_b,
        48_000,
        256,
        &StringMap::new(),
    ));
    for _ in 0..4 {
        engine.render_cycle(256, &sources).expect("render");
    }

    let after = engine.processor_runtime_stats();
    assert!(
        after
            .get("proc-b")
            .map(|item| item.process_calls)
            .unwrap_or(0)
            > 0
    );
    assert_eq!(
        after
            .get("proc-a")
            .map(|item| item.process_calls)
            .unwrap_or(0),
        0
    );
}

#[test]
fn delay_outputs_silence_first_cycle() {
    let mut profile = Profile::default();
    profile.virtual_devices.outputs.push(VirtualOutputDevice {
        id: "app".to_string(),
        name: "App".to_string(),
        channels: Some(1),
        uid: None,
        hidden: false,
    });
    profile.virtual_devices.inputs.push(VirtualInputDevice {
        id: "mix".to_string(),
        name: "Mix".to_string(),
        channels: Some(1),
        uid: None,
        mix: None,
    });
    profile.pipes.push(Pipe {
        from: "app".to_string(),
        to: "mix".to_string(),
        enabled: true,
        gain_db: number(0.0),
        mute: false,
        pan: number(0.0),
        delay_ms: number(10.0),
    });
    let graph = build_routing_graph(&profile).expect("graph");
    let mut engine = Player::new(EngineSnapshot {
        graph,
        sample_rate: 100,
        buffer_frames: 1,
    });

    let mut sources = Sources::new();
    sources.insert("app".to_string(), vec![1.0]);
    let output = engine.render_cycle(1, &sources).expect("render");
    assert_eq!(output.sinks["mix"][0], 0.0);
}

#[test]
fn sine_gain_matches_expected_rms_and_peak() {
    let mut profile = Profile::default();
    profile.virtual_devices.outputs.push(VirtualOutputDevice {
        id: "osc".to_string(),
        name: "Osc".to_string(),
        channels: Some(1),
        uid: None,
        hidden: false,
    });
    profile.virtual_devices.inputs.push(VirtualInputDevice {
        id: "mix".to_string(),
        name: "Mix".to_string(),
        channels: Some(1),
        uid: None,
        mix: None,
    });
    profile.pipes.push(Pipe {
        from: "osc".to_string(),
        to: "mix".to_string(),
        enabled: true,
        gain_db: number(-6.0),
        mute: false,
        pan: number(0.0),
        delay_ms: number(0.0),
    });

    let graph = build_routing_graph(&profile).expect("graph");
    let mut engine = Player::new(EngineSnapshot {
        graph,
        sample_rate: 48_000,
        buffer_frames: 256,
    });

    let frames = 256usize;
    let freq_hz = 1_000.0f32;
    let sample_rate = 48_000.0f32;
    let mut sine = vec![0.0_f32; frames];
    for (index, sample) in sine.iter_mut().enumerate() {
        let phase = 2.0 * PI * freq_hz * (index as f32 / sample_rate);
        *sample = phase.sin();
    }

    let mut sources = Sources::new();
    sources.insert("osc".to_string(), sine);
    let output = engine.render_cycle(frames, &sources).expect("render");
    let sink = output.sinks.get("mix").expect("sink");

    let rms =
        (sink.iter().map(|sample| sample * sample).sum::<f32>() / sink.len() as f32).sqrt();
    let peak = sink
        .iter()
        .fold(0.0_f32, |acc, sample| acc.max(sample.abs()));

    // input RMS for full-scale sine is ~0.7071; after -6 dB it is ~0.354.
    assert!((rms - 0.354).abs() < 0.03);
    // input peak is 1.0; after -6 dB it is ~0.501.
    assert!((peak - 0.501).abs() < 0.03);
}

#[test]
fn limiter_caps_peak_to_configured_dbfs() {
    let mut profile = Profile::default();
    profile.virtual_devices.outputs.push(VirtualOutputDevice {
        id: "loud".to_string(),
        name: "Loud".to_string(),
        channels: Some(2),
        uid: None,
        hidden: false,
    });
    profile.virtual_devices.inputs.push(VirtualInputDevice {
        id: "mix".to_string(),
        name: "Mix".to_string(),
        channels: Some(2),
        uid: None,
        mix: Some(MixConfig {
            limiter: true,
            limit_dbfs: number(-1.0),
            mode: MixMode::Sum,
        }),
    });
    profile.pipes.push(Pipe {
        from: "loud".to_string(),
        to: "mix".to_string(),
        enabled: true,
        gain_db: number(12.0),
        mute: false,
        pan: number(0.0),
        delay_ms: number(0.0),
    });

    let graph = build_routing_graph(&profile).expect("graph");
    let mut engine = Player::new(EngineSnapshot {
        graph,
        sample_rate: 48_000,
        buffer_frames: 8,
    });

    let mut sources = Sources::new();
    sources.insert("loud".to_string(), vec![1.0_f32; 16]);
    let output = engine.render_cycle(8, &sources).expect("render");
    let sink = output.sinks.get("mix").expect("sink");
    let peak = sink
        .iter()
        .fold(0.0_f32, |acc, sample| acc.max(sample.abs()));

    // -1 dBFS ~= 0.891.
    assert!(peak <= 0.92);
}

#[test]
fn near_e2e_multisource_multioutput_mixes_as_expected() {
    let mut profile = Profile::default();
    profile.virtual_devices.outputs.push(VirtualOutputDevice {
        id: "music".to_string(),
        name: "Music".to_string(),
        channels: Some(2),
        uid: None,
        hidden: false,
    });
    profile.virtual_devices.outputs.push(VirtualOutputDevice {
        id: "voice".to_string(),
        name: "Voice".to_string(),
        channels: Some(1),
        uid: None,
        hidden: false,
    });
    profile.virtual_devices.outputs.push(VirtualOutputDevice {
        id: "fx".to_string(),
        name: "FX".to_string(),
        channels: Some(2),
        uid: None,
        hidden: false,
    });
    profile.buses.push(Bus {
        id: "main".to_string(),
        channels: Some(2),
        mix: None,
    });
    profile.virtual_devices.inputs.push(VirtualInputDevice {
        id: "stream".to_string(),
        name: "Stream".to_string(),
        channels: Some(2),
        uid: None,
        mix: Some(MixConfig {
            limiter: false,
            limit_dbfs: number(-1.0),
            mode: MixMode::Sum,
        }),
    });
    profile.virtual_devices.inputs.push(VirtualInputDevice {
        id: "monitor".to_string(),
        name: "Monitor".to_string(),
        channels: Some(2),
        uid: None,
        mix: Some(MixConfig {
            limiter: false,
            limit_dbfs: number(-1.0),
            mode: MixMode::Average,
        }),
    });

    profile.pipes.push(Pipe {
        from: "music".to_string(),
        to: "main".to_string(),
        enabled: true,
        gain_db: number(0.0),
        mute: false,
        pan: number(0.0),
        delay_ms: number(0.0),
    });
    profile.pipes.push(Pipe {
        from: "voice".to_string(),
        to: "main".to_string(),
        enabled: true,
        gain_db: number(0.0),
        mute: false,
        pan: number(0.0),
        delay_ms: number(0.0),
    });
    profile.pipes.push(Pipe {
        from: "fx".to_string(),
        to: "main".to_string(),
        enabled: true,
        gain_db: number(0.0),
        mute: false,
        pan: number(0.0),
        delay_ms: number(0.0),
    });
    profile.pipes.push(Pipe {
        from: "main".to_string(),
        to: "stream".to_string(),
        enabled: true,
        gain_db: number(0.0),
        mute: false,
        pan: number(0.0),
        delay_ms: number(0.0),
    });
    profile.pipes.push(Pipe {
        from: "main".to_string(),
        to: "monitor".to_string(),
        enabled: true,
        gain_db: number(0.0),
        mute: false,
        pan: number(0.0),
        delay_ms: number(0.0),
    });
    profile.pipes.push(Pipe {
        from: "music".to_string(),
        to: "monitor".to_string(),
        enabled: true,
        gain_db: number(0.0),
        mute: false,
        pan: number(0.0),
        delay_ms: number(0.0),
    });

    let graph = build_routing_graph(&profile).expect("graph");
    let mut engine = Player::new(EngineSnapshot {
        graph,
        sample_rate: 48_000,
        buffer_frames: 4,
    });

    let mut sources = Sources::new();
    sources.insert("music".to_string(), vec![1.0_f32; 8]);
    sources.insert("voice".to_string(), vec![0.5_f32; 4]);
    sources.insert("fx".to_string(), vec![0.25_f32; 8]);

    let output = engine.render_cycle(4, &sources).expect("render");
    let stream = output.sinks.get("stream").expect("stream sink");
    let monitor = output.sinks.get("monitor").expect("monitor sink");

    assert_eq!(stream.len(), 8);
    assert_eq!(monitor.len(), 8);

    let expected_stream = 1.75 * FRAC_1_SQRT_2 * FRAC_1_SQRT_2;
    let expected_monitor = (expected_stream + (1.0 * FRAC_1_SQRT_2)) / 2.0;
    for sample in stream {
        assert!((*sample - expected_stream).abs() < 1e-5);
    }
    for sample in monitor {
        assert!((*sample - expected_monitor).abs() < 1e-5);
    }
}

#[test]
fn near_e2e_delay_path_keeps_state_across_cycles() {
    let mut profile = Profile::default();
    profile.virtual_devices.outputs.push(VirtualOutputDevice {
        id: "pulse".to_string(),
        name: "Pulse".to_string(),
        channels: Some(1),
        uid: None,
        hidden: false,
    });
    profile.virtual_devices.outputs.push(VirtualOutputDevice {
        id: "bed".to_string(),
        name: "Bed".to_string(),
        channels: Some(1),
        uid: None,
        hidden: false,
    });
    profile.buses.push(Bus {
        id: "mix".to_string(),
        channels: Some(1),
        mix: None,
    });
    profile.virtual_devices.inputs.push(VirtualInputDevice {
        id: "out".to_string(),
        name: "Out".to_string(),
        channels: Some(1),
        uid: None,
        mix: None,
    });

    profile.pipes.push(Pipe {
        from: "pulse".to_string(),
        to: "mix".to_string(),
        enabled: true,
        gain_db: number(0.0),
        mute: false,
        pan: number(0.0),
        delay_ms: number(20.0),
    });
    profile.pipes.push(Pipe {
        from: "bed".to_string(),
        to: "mix".to_string(),
        enabled: true,
        gain_db: number(0.0),
        mute: false,
        pan: number(0.0),
        delay_ms: number(0.0),
    });
    profile.pipes.push(Pipe {
        from: "mix".to_string(),
        to: "out".to_string(),
        enabled: true,
        gain_db: number(0.0),
        mute: false,
        pan: number(0.0),
        delay_ms: number(0.0),
    });

    let graph = build_routing_graph(&profile).expect("graph");
    let mut engine = Player::new(EngineSnapshot {
        graph,
        sample_rate: 100,
        buffer_frames: 1,
    });

    let mut cycle1 = Sources::new();
    cycle1.insert("pulse".to_string(), vec![1.0_f32]);
    cycle1.insert("bed".to_string(), vec![0.2_f32]);
    let out1 = engine.render_cycle(1, &cycle1).expect("cycle1");

    let mut cycle2 = Sources::new();
    cycle2.insert("pulse".to_string(), vec![0.0_f32]);
    cycle2.insert("bed".to_string(), vec![0.2_f32]);
    let out2 = engine.render_cycle(1, &cycle2).expect("cycle2");

    let mut cycle3 = Sources::new();
    cycle3.insert("pulse".to_string(), vec![0.0_f32]);
    cycle3.insert("bed".to_string(), vec![0.2_f32]);
    let out3 = engine.render_cycle(1, &cycle3).expect("cycle3");

    assert!((out1.sinks["out"][0] - 0.2).abs() < 1e-6);
    assert!((out2.sinks["out"][0] - 0.2).abs() < 1e-6);
    assert!((out3.sinks["out"][0] - 1.2).abs() < 1e-6);
}

#[test]
fn rendering_refuses_no_frames_and_ragged_sources() {
    let mut engine = test_engine();
    let mut sources = Sources::new();
    assert_eq!(
        engine.render_cycle(0, &sources).err(),
        Some(EngineError::InvalidFrames)
    );
    sources.insert("app".to_string(), vec![1.0, 1.0, 1.0]);
    let error = engine.render_cycle(2, &sources).err().expect("ragged source");
    assert_eq!(
        error,
        EngineError::InvalidSourceSampleCount {
            id: "app".to_string(),
            channels: 2
        }
    );
    assert_eq!(
        error.message(),
        "source 'app' sample count is not aligned with channels 2"
    );
    assert_eq!(
        EngineError::InvalidFrames.message(),
        "render frames must be > 0"
    );
}

#[test]
fn sources_of_unknown_nodes_are_passed_over() {
    let mut engine = test_engine();
    let mut sources = Sources::new();
    sources.insert("nobody".to_string(), vec![1.0, 1.0, 1.0]);
    let output = engine.render_cycle(2, &sources).expect("render");
    assert_eq!(output.sinks["mix"], vec![0.0; 4]);
}

#[test]
fn rendering_into_prepared_buffers_keeps_those_that_do_not_fit() {
    let mut engine = test_engine();
    let mut sources = Sources::new();
    sources.insert("app".to_string(), vec![1.0, 1.0, 1.0, 1.0]);
    let expected = engine.render_cycle(2, &sources).expect("render").sinks["mix"].clone();

    let mut outputs = StringMap::new();
    outputs.insert("mix".to_string(), vec![0; 4]);
    outputs.insert("other".to_string(), vec![7; 4]);
    let counters = engine
        .engine
        .render_cycle_into(2, &sources.map, &mut outputs, &engine.arithmetic)
        .expect("render");
    assert_eq!(counters.deadline_miss_count, 0);
    assert_eq!(to_reals(outputs.get("mix").expect("mix")), expected);
    assert_eq!(*outputs.get("other").expect("other"), vec![7; 4]);

    let mut short = StringMap::new();
    short.insert("mix".to_string(), vec![9; 3]);
    engine
        .engine
        .render_cycle_into(2, &sources.map, &mut short, &engine.arithmetic)
        .expect("render");
    assert_eq!(*short.get("mix").expect("mix"), vec![9; 3]);
}

#[test]
fn muted_pipes_are_silent() {
    let mut profile = Profile::default();
    profile.virtual_devices.outputs.push(VirtualOutputDevice {
        id: "app".to_string(),
        name: "App".to_string(),
        channels: Some(1),
        uid: None,
        hidden: false,
    });
    profile.virtual_devices.inputs.push(VirtualInputDevice {
        id: "mix".to_string(),
        name: "Mix".to_string(),
        channels: Some(1),
        uid: None,
        mix: None,
    });
    profile.pipes.push(Pipe {
        from: "app".to_string(),
        to: "mix".to_string(),
        enabled: true,
        gain_db: number(0.0),
        mute: true,
        pan: number(0.0),
        delay_ms: number(0.0),
    });
    let mut engine = Player::new(EngineSnapshot {
        graph: build_routing_graph(&profile).expect("graph"),
        sample_rate: 48_000,
        buffer_frames: 2,
    });
    let mut sources = Sources::new();
    sources.insert("app".to_string(), vec![1.0, -1.0]);
    let output = engine.render_cycle(2, &sources).expect("render");
    assert_eq!(output.sinks["mix"], vec![0.0, 0.0]);
}

#[test]
fn delay_lines_hand_out_what_they_took_in_order() {
    let mut line = DelayLine::new(2, 1);
    let mut samples = vec![1, 2, 3];
    line.process_in_place(&mut samples);
    assert_eq!(samples, vec![0, 0, 1]);
    let mut more = vec![4, 5];
    line.process_in_place(&mut more);
    assert_eq!(more, vec![2, 3]);
}

#[test]
fn bypassed_processors_count_nothing_and_keep_their_generation() {
    let profile = processor_chain_profile("voice", "proc-a");
    let mut engine = Player::new(EngineSnapshot {
        graph: build_routing_graph(&profile).expect("graph"),
        sample_rate: 48_000,
        buffer_frames: 4,
    });
    let mut sources = Sources::new();
    sources.insert("app".to_string(), vec![0.5; 8]);
    engine.update_processor_control(
        "proc-a",
        ProcessorControl {
            bypass: false,
            generation: 9,
            params: StringMap::new(),
        },
    );
    engine.render_cycle(4, &sources).expect("render");
    let stats = engine.processor_runtime_stats();
    let stats = stats.get("proc-a").expect("stats");
    assert_eq!(stats.prepare_calls, 1);
    assert_eq!(stats.process_calls, 1);
    assert_eq!(stats.last_generation, 9);

    let mut controls = StringMap::new();
    controls.insert(
        "proc-a".to_string(),
        ProcessorControl {
            bypass: true,
            generation: 10,
            params: StringMap::new(),
        },
    );
    engine.engine.replace_processor_controls(controls);
    engine.render_cycle(4, &sources).expect("render");
    let stats = engine.processor_runtime_stats();
    let stats = stats.get("proc-a").expect("stats");
    assert_eq!(stats.process_calls, 1);
    assert_eq!(stats.last_generation, 9);
}

fn pipe(from: &str, to: &str, gain_db: f32, pan: f32, delay_ms: f32) -> Pipe {
    Pipe {
        from: from.to_string(),
        to: to.to_string(),
        enabled: true,
        gain_db: number(gain_db),
        mute: false,
        pan: number(pan),
        delay_ms: number(delay_ms),
    }
}

fn profile_variant(master_to_stream_delay_ms: f32, stream_limiter: bool) -> Profile {
    let mut profile = Profile::default();
    for id in ["app1", "app2", "app3", "app4", "app5", "app6"] {
        profile.virtual_devices.outputs.push(VirtualOutputDevice {
            id: id.to_string(),
            name: id.to_string(),
            channels: Some(2),
            uid: None,
            hidden: false,
        });
    }
    for id in ["music", "voice", "master"] {
        profile.buses.push(Bus {
            id: id.to_string(),
            channels: Some(2),
            mix: None,
        });
    }
    for (id, name, limiter, mode) in [
        ("stream", "Stream", stream_limiter, MixMode::Sum),
        ("monitor", "Monitor", false, MixMode::Average),
        ("record", "Record", false, MixMode::Sum),
    ] {
        profile.virtual_devices.inputs.push(VirtualInputDevice {
            id: id.to_string(),
            name: name.to_string(),
            channels: Some(2),
            uid: None,
            mix: Some(MixConfig {
                limiter,
                limit_dbfs: number(-1.0),
                mode,
            }),
        });
    }
    for source in ["app1", "app2", "app3"] {
        profile.pipes.push(pipe(source, "music", -3.0, 0.0, 0.0));
    }
    for source in ["app4", "app5", "app6"] {
        profile.pipes.push(pipe(source, "voice", -6.0, 0.0, 0.0));
    }
    profile.pipes.push(pipe("music", "master", 0.0, -0.15, 0.0));
    profile.pipes.push(pipe("voice", "master", 0.0, 0.15, 0.0));
    profile
        .pipes
        .push(pipe("master", "stream", 0.0, 0.0, master_to_stream_delay_ms));
    profile.pipes.push(pipe("master", "monitor", 0.0, 0.0, 0.0));
    profile.pipes.push(pipe("master", "record", 0.0, 0.0, 0.0));
    profile
}

fn snapshot_from_profile(
    profile: &Profile,
    sample_rate: u32,
    buffer_frames: u32,
) -> EngineSnapshot {
    EngineSnapshot {
        graph: build_routing_graph(profile).expect("routing graph"),
        sample_rate,
        buffer_frames,
    }
}

fn make_sources(cycle: usize, frames: usize) -> Sources {
    let mut sources = Sources::new();
    for (idx, id) in ["app1", "app2", "app3", "app4", "app5", "app6"]
        .iter()
        .enumerate()
    {
        let phase = cycle as f32 * 0.01 + idx as f32;
        let samples = (0..frames * 2)
            .map(|i| ((i as f32 * 0.003) + phase).sin() * 0.5)
            .collect();
        sources.insert((*id).to_string(), samples);
    }
    sources
}

#[test]
fn soak_cycles_with_snapshot_swaps_keep_outputs_valid() {
    let profile_a = profile_variant(0.0, true);
    let profile_b = profile_variant(8.0, false);
    let mut engine = Player::new(snapshot_from_profile(&profile_a, 48_000, 256));
    let frames = 256;

    for cycle in 0..1_500_usize {
        if cycle > 0 && cycle % 150 == 0 {
            let next = if (cycle / 150) % 2 == 0 {
                &profile_a
            } else {
                &profile_b
            };
            engine.swap_snapshot(snapshot_from_profile(next, 48_000, 256));
        }

        let sources = make_sources(cycle, frames);
        let output = engine.render_cycle(frames, &sources).expect("render cycle");
        for sink_id in ["stream", "monitor", "record"] {
            let sink = output.sinks.get(sink_id).expect("sink must exist");
            assert_eq!(sink.len(), frames * 2);
            assert!(sink.iter().all(|sample| sample.is_finite()));
        }
    }
}

#[test]
fn mock_ring_buffers_feed_engine_cycle() {
    let mut profile = Profile::default();
    profile.audio.buffer_frames = 16;
    profile.virtual_devices.outputs.push(VirtualOutputDevice {
        id: "app".to_string(),
        name: "App".to_string(),
        channels: Some(2),
        uid: Some("com.mars.vout.app".to_string()),
        hidden: false,
    });
    profile.virtual_devices.inputs.push(VirtualInputDevice {
        id: "mix".to_string(),
        name: "Mix".to_string(),
        channels: Some(2),
        uid: Some("com.mars.vin.mix".to_string()),
        mix: None,
    });
    profile.pipes.push(pipe("app", "mix", 0.0, 0.0, 0.0));
    let mut engine = Player::new(snapshot_from_profile(&profile, 48_000, 16));

    let spec = RingSpec {
        sample_rate: 48_000,
        channels: 2,
        capacity_frames: 128,
    };
    let vout_name = stream_name(RingDirection::Vout, "com.mars.vout.app");
    let vin_name = stream_name(RingDirection::Vin, "com.mars.vin.mix");
    assert_ne!(vout_name, vin_name);
    let mut vout = Ring::new(spec);
    let mut vin = Ring::new(spec);

    let input = vec![0.2_f32; 32];
    vout.write_interleaved(&to_bits(&input))
        .expect("write source frames");

    let mut source_frames = vec![0; 32];
    vout.read_interleaved(&mut source_frames);

    let mut sources = Sources::new();
    sources.insert("app".to_string(), to_reals(&source_frames));
    let rendered = engine.render_cycle(16, &sources).expect("render");
    let sink = rendered.sinks.get("mix").expect("sink");
    vin.write_interleaved(&to_bits(sink))
        .expect("write rendered sink");

    let mut out = vec![0; 32];
    vin.read_interleaved(&mut out);
    assert!(to_reals(&out).iter().any(|sample| sample.abs() > 0.0));
}

#[test]
fn processors_without_a_worker_report_no_host() {
    let id = "au-main".to_string();
    let failed = plugin_status(&id, AuPluginApi::Auv2, true, None);
    assert_eq!(failed.health, PluginHostHealth::Failed);
    assert_eq!(failed.id, "au-main");
    assert!(!failed.loaded);
    let idle = plugin_status(&id, AuPluginApi::Auv2, false, None);
    assert_eq!(idle.health, PluginHostHealth::Degraded);
    let mut worker = AuWorkerState::new(&id, AuPluginApi::Auv2);
    let _ = worker.session_started(Ok(7));
    let running = plugin_status(&id, AuPluginApi::Auv2, true, Some(&worker));
    assert_eq!(running.health, PluginHostHealth::Healthy);
    assert_eq!(running.host_pid, Some(7));
}

#[test]
fn time_shifts_that_are_not_ready_keep_samples() {
    let mut shift = TimeShiftState::unprepared();
    let mut samples = vec![1, 2, 3, 4];
    shift.process(&mut samples, 2);
    assert_eq!(samples, vec![1, 2, 3, 4]);
}

#[test]
fn rings_give_back_what_fits() {
    let spec = RingSpec {
        sample_rate: 48_000,
        channels: 2,
        capacity_frames: 2,
    };
    let mut ring = Ring::new(spec);
    assert_eq!(
        ring.write_interleaved(&vec![1]),
        Err("sample count 1 is not aligned with 2 channels".to_string())
    );
    assert_eq!(ring.write_interleaved(&vec![1, 2, 3, 4, 5, 6]), Ok(2));
    assert_eq!(ring.write_idx, 2);
    let mut out = vec![9; 3];
    assert_eq!(ring.read_interleaved(&mut out), 1);
    assert_eq!(out, vec![1, 2, 9]);
    let mut out = vec![9; 6];
    assert_eq!(ring.read_interleaved(&mut out), 1);
    assert_eq!(out, vec![3, 4, 9, 9, 9, 9]);
    assert_eq!(ring.read_idx, 2);
    let other = RingSpec {
        channels: 1,
        ..spec
    };
    assert_eq!(
        check_format("mars.vin.x", spec, other),
        Err("ring 'mars.vin.x' exists with another format".to_string())
    );
    let roomier = RingSpec {
        capacity_frames: 9,
        ..spec
    };
    assert_eq!(check_format("mars.vin.x", spec, roomier), Ok(()));
}

#[test]
fn plugins_get_samples_and_give_back_what_their_hosts_made() {
    let mut player =
        single_processor_profile(ProcessorKind::Au, serde_json::Value::Null, 48_000, 4);
    let mut sources = Sources::new();
    sources.insert("src".to_string(), vec![0.5; 4]);

    let first = player.render_cycle(4, &sources).expect("render");
    assert_eq!(first.sinks.get("sink").expect("sink"), &vec![0.5; 4]);
    let requests = player.engine.take_plugin_requests();
    assert_eq!(requests.len(), 1);
    assert_eq!(requests[0].route_id, "route-1");
    assert_eq!(requests[0].place, 0);
    assert_eq!(requests[0].request.frames, 4);
    assert_eq!(requests[0].request.samples, to_bits(&[0.5; 4]));
    assert!(player.engine.take_plugin_requests().is_empty());

    assert!(!player
        .engine
        .deliver_plugin_result("route-1", 1, to_bits(&[0.25; 4])));
    assert!(player
        .engine
        .deliver_plugin_result("route-1", 0, to_bits(&[0.25; 4])));
    let second = player.render_cycle(4, &sources).expect("render");
    assert_eq!(second.sinks.get("sink").expect("sink"), &vec![0.25; 4]);

    assert!(player
        .engine
        .deliver_plugin_result("route-1", 0, to_bits(&[0.25; 3])));
    let third = player.render_cycle(4, &sources).expect("render");
    assert_eq!(third.sinks.get("sink").expect("sink"), &vec![0.5; 4]);
}

#[test]
fn pipes_and_identity_routes_render_the_same_buffer_by_buffer() {
    let build = |with_routes: bool| {
        let mut profile = Profile::default();
        profile.virtual_devices.outputs.push(VirtualOutputDevice {
            id: "app".to_string(),
            name: "App".to_string(),
            channels: Some(2),
            uid: None,
            hidden: false,
        });
        for id in ["left", "right"] {
            profile.virtual_devices.inputs.push(VirtualInputDevice {
                id: id.to_string(),
                name: id.to_string(),
                channels: Some(2),
                uid: None,
                mix: None,
            });
            let pipe = pipe("app", id, -3.0, if id == "left" { -0.5 } else { 0.5 }, 0.03);
            if with_routes {
                profile.routes.push(Route {
                    id: id.to_string(),
                    from: pipe.from,
                    to: pipe.to,
                    enabled: pipe.enabled,
                    matrix: stereo_identity_matrix(),
                    chain: None,
                    gain_db: pipe.gain_db,
                    mute: pipe.mute,
                    pan: pipe.pan,
                    delay_ms: pipe.delay_ms,
                });
            } else {
                profile.pipes.push(pipe);
            }
        }
        Player::new(EngineSnapshot {
            graph: build_routing_graph(&profile).expect("graph"),
            sample_rate: 48_000,
            buffer_frames: 4,
        })
    };
    let mut piped = build(false);
    let mut routed = build(true);
    let mut prepared = build(false);
    for cycle in 0..3 {
        let mut sources = Sources::new();
        let samples = (0..8).map(|k| (cycle * 8 + k) as f32 / 32.0).collect();
        sources.insert("app".to_string(), samples);
        let by_pipes = piped.render_cycle(4, &sources).expect("render");
        let by_routes = routed.render_cycle(4, &sources).expect("render");
        assert_eq!(by_pipes.sinks, by_routes.sinks);
        assert_ne!(by_pipes.sinks["left"], by_pipes.sinks["right"]);

        let mut outputs = StringMap::new();
        outputs.insert("left".to_string(), vec![0; 8]);
        outputs.insert("right".to_string(), vec![0; 8]);
        prepared
            .engine
            .render_cycle_into(4, &sources.map, &mut outputs, &prepared.arithmetic)
            .expect("render");
        for id in ["left", "right"] {
            assert_eq!(to_reals(outputs.get(id).expect("sink")), by_pipes.sinks[id]);
        }
    }
    let mut ragged = Sources::new();
    ragged.insert("app".to_string(), vec![0.0; 3]);
    let refused = piped.render_cycle(4, &ragged).err();
    assert!(refused.is_some());
    assert_eq!(refused, routed.render_cycle(4, &ragged).err());
}

#[test]
fn processors_stay_with_their_routes_from_buffer_to_buffer() {
    let profile = processor_chain_profile("chain", "eq");
    let mut player = Player::new(EngineSnapshot {
        graph: build_routing_graph(&profile).expect("graph"),
        sample_rate: 48_000,
        buffer_frames: 4,
    });
    let id = profile.routes[0].id.clone();
    let mut sources = Sources::new();
    sources.insert("app".to_string(), vec![0.5; 8]);
    let mut outputs = StringMap::new();
    for _ in 0..3 {
        player.render_cycle(4, &sources).expect("render");
        player
            .engine
            .render_cycle_into(4, &sources.map, &mut outputs, &player.arithmetic)
            .expect("render");
        let chains = &player.engine.state.schedule.route_chains;
        assert_eq!(chains.len(), 1);
        assert_eq!(*chains.key_at(0), id);
    }
}
