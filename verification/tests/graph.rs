use mars::graph::{build_routing_graph, channels_compatible, legacy_pipe_matrix, GraphError};
use mars::number::Real32;
use mars::profile::{
    check_profile_version,
    Bus, CaptureConfig, Pipe, ProcessTap, ProcessTapSelector, ProcessorChain, ProcessorDefinition,
    ProcessorKind, Profile, Route, RouteMatrix, VirtualInputDevice, VirtualOutputDevice,
};

fn number(value: f32) -> Real32 {
    Real32::from_bits(value.to_bits())
}

fn numbers(values: &[f32]) -> Vec<Real32> {
    values.iter().map(|value| number(*value)).collect()
}

fn matrix(rows: Vec<Vec<f32>>) -> Vec<Vec<Real32>> {
    rows.iter().map(|row| numbers(row)).collect()
}

#[test]
fn builds_simple_graph() {
    let mut profile = Profile::default();
    profile.virtual_devices.outputs.push(VirtualOutputDevice {
        id: "app".to_string(),
        name: "App".to_string(),
        channels: None,
        uid: None,
        hidden: false,
    });
    profile.virtual_devices.inputs.push(VirtualInputDevice {
        id: "mix".to_string(),
        name: "Mix".to_string(),
        channels: None,
        uid: None,
        mix: None,
    });
    profile.pipes.push(Pipe {
        from: "app".to_string(),
        to: "mix".to_string(),
        enabled: true,
        gain_db: number(0.0),
        mute: false,
        pan: number(0.0),
        delay_ms: number(0.0),
    });

    let graph = build_routing_graph(&profile).expect("valid graph");
    assert_eq!(graph.nodes.len(), 2);
    assert_eq!(graph.edges.len(), 1);
    assert_eq!(graph.compiled_route_plan().routes.len(), 1);
}

#[test]
fn builds_route_matrix_graph() {
    let mut profile = Profile::default();
    profile.virtual_devices.outputs.push(VirtualOutputDevice {
        id: "app".to_string(),
        name: "App".to_string(),
        channels: Some(2),
        uid: None,
        hidden: false,
    });
    profile.virtual_devices.inputs.push(VirtualInputDevice {
        id: "mix".to_string(),
        name: "Mix".to_string(),
        channels: Some(2),
        uid: None,
        mix: None,
    });
    profile.routes.push(Route {
        id: "route-main".to_string(),
        from: "app".to_string(),
        to: "mix".to_string(),
        enabled: true,
        matrix: RouteMatrix {
            rows: 2,
            cols: 2,
            coefficients: matrix(vec![vec![1.0, 0.0], vec![0.0, 1.0]]),
        },
        chain: None,
        gain_db: number(0.0),
        mute: false,
        pan: number(0.0),
        delay_ms: number(0.0),
    });

    let graph = build_routing_graph(&profile).expect("valid graph");
    assert_eq!(graph.edges.len(), 1);
    assert_eq!(graph.compiled_route_plan().routes.len(), 1);
    assert_eq!(
        graph.compiled_route_plan().routes[0].matrix,
        numbers(&[1.0, 0.0, 0.0, 1.0])
    );
}

#[test]
fn builds_graph_with_capture_tap_source_node() {
    let mut profile = Profile::default();
    profile.virtual_devices.inputs.push(VirtualInputDevice {
        id: "mix".to_string(),
        name: "Mix".to_string(),
        channels: Some(2),
        uid: None,
        mix: None,
    });
    profile.captures = CaptureConfig {
        process_taps: vec![ProcessTap {
            id: "tap-app".to_string(),
            selector: ProcessTapSelector::Pid { pid: 4242 },
            channels: Some(2),
        }],
        system_taps: Vec::new(),
    };
    profile.routes.push(Route {
        id: "route-main".to_string(),
        from: "tap-app".to_string(),
        to: "mix".to_string(),
        enabled: true,
        matrix: RouteMatrix {
            rows: 2,
            cols: 2,
            coefficients: matrix(vec![vec![1.0, 0.0], vec![0.0, 1.0]]),
        },
        chain: None,
        gain_db: number(0.0),
        mute: false,
        pan: number(0.0),
        delay_ms: number(0.0),
    });

    let graph = build_routing_graph(&profile).expect("valid graph");
    assert!(graph.nodes.contains_key("tap-app"));
    assert_eq!(graph.compiled_route_plan().routes.len(), 1);
    assert_eq!(graph.compiled_route_plan().routes[0].from, "tap-app");
}

#[test]
fn rejects_invalid_destination_type() {
    let mut profile = Profile::default();
    profile.virtual_devices.outputs.push(VirtualOutputDevice {
        id: "a".to_string(),
        name: "A".to_string(),
        channels: None,
        uid: None,
        hidden: false,
    });
    profile.buses.push(Bus {
        id: "b".to_string(),
        channels: Some(2),
        mix: None,
    });
    profile.pipes.push(Pipe {
        from: "a".to_string(),
        to: "b".to_string(),
        enabled: true,
        gain_db: number(0.0),
        mute: false,
        pan: number(0.0),
        delay_ms: number(0.0),
    });
    profile.pipes.push(Pipe {
        from: "b".to_string(),
        to: "a".to_string(),
        enabled: true,
        gain_db: number(0.0),
        mute: false,
        pan: number(0.0),
        delay_ms: number(0.0),
    });

    let err = build_routing_graph(&profile).expect_err("must fail");
    assert!(matches!(err, GraphError::InvalidDestinationType(_)));
}

#[test]
fn detects_duplicate_node_id() {
    let mut profile = Profile::default();
    profile.virtual_devices.outputs.push(VirtualOutputDevice {
        id: "dup".to_string(),
        name: "Output".to_string(),
        channels: None,
        uid: None,
        hidden: false,
    });
    profile.buses.push(Bus {
        id: "dup".to_string(),
        channels: None,
        mix: None,
    });

    let err = build_routing_graph(&profile).expect_err("must fail");
    assert!(matches!(err, GraphError::DuplicateNode(id) if id == "dup"));
}

#[test]
fn detects_unknown_source() {
    let mut profile = Profile::default();
    profile.virtual_devices.inputs.push(VirtualInputDevice {
        id: "mix".to_string(),
        name: "Mix".to_string(),
        channels: None,
        uid: None,
        mix: None,
    });
    profile.pipes.push(Pipe {
        from: "missing".to_string(),
        to: "mix".to_string(),
        enabled: true,
        gain_db: number(0.0),
        mute: false,
        pan: number(0.0),
        delay_ms: number(0.0),
    });

    let err = build_routing_graph(&profile).expect_err("must fail");
    assert!(matches!(err, GraphError::UnknownSource(id) if id == "missing"));
}

#[test]
fn detects_unknown_destination() {
    let mut profile = Profile::default();
    profile.virtual_devices.outputs.push(VirtualOutputDevice {
        id: "app".to_string(),
        name: "App".to_string(),
        channels: None,
        uid: None,
        hidden: false,
    });
    profile.pipes.push(Pipe {
        from: "app".to_string(),
        to: "missing".to_string(),
        enabled: true,
        gain_db: number(0.0),
        mute: false,
        pan: number(0.0),
        delay_ms: number(0.0),
    });

    let err = build_routing_graph(&profile).expect_err("must fail");
    assert!(matches!(err, GraphError::UnknownDestination(id) if id == "missing"));
}

#[test]
fn rejects_invalid_source_type() {
    let mut profile = Profile::default();
    profile.virtual_devices.inputs.push(VirtualInputDevice {
        id: "mix".to_string(),
        name: "Mix".to_string(),
        channels: None,
        uid: None,
        mix: None,
    });
    profile.buses.push(Bus {
        id: "bus".to_string(),
        channels: None,
        mix: None,
    });
    profile.pipes.push(Pipe {
        from: "mix".to_string(),
        to: "bus".to_string(),
        enabled: true,
        gain_db: number(0.0),
        mute: false,
        pan: number(0.0),
        delay_ms: number(0.0),
    });

    let err = build_routing_graph(&profile).expect_err("must fail");
    assert!(matches!(err, GraphError::InvalidSourceType(id) if id == "mix"));
}

#[test]
fn rejects_unsupported_channels_in_legacy_pipe_mode() {
    let mut profile = Profile::default();
    profile.virtual_devices.outputs.push(VirtualOutputDevice {
        id: "mono".to_string(),
        name: "Mono".to_string(),
        channels: Some(1),
        uid: None,
        hidden: false,
    });
    profile.virtual_devices.inputs.push(VirtualInputDevice {
        id: "quad".to_string(),
        name: "Quad".to_string(),
        channels: Some(4),
        uid: None,
        mix: None,
    });
    profile.pipes.push(Pipe {
        from: "mono".to_string(),
        to: "quad".to_string(),
        enabled: true,
        gain_db: number(0.0),
        mute: false,
        pan: number(0.0),
        delay_ms: number(0.0),
    });

    let err = build_routing_graph(&profile).expect_err("must fail");
    assert!(matches!(
        err,
        GraphError::UnsupportedChannels {
            from,
            from_channels: 1,
            to,
            to_channels: 4
        } if from == "mono" && to == "quad"
    ));
}

#[test]
fn rejects_invalid_node_channel_count() {
    let mut profile = Profile::default();
    profile.virtual_devices.outputs.push(VirtualOutputDevice {
        id: "too-many".to_string(),
        name: "Too Many".to_string(),
        channels: Some(65),
        uid: None,
        hidden: false,
    });

    let err = build_routing_graph(&profile).expect_err("must fail");
    assert!(matches!(
        err,
        GraphError::InvalidNodeChannels { id, channels: 65 } if id == "too-many"
    ));
}

#[test]
fn accepts_route_matrix_up_to_64_channels() {
    let mut profile = Profile::default();
    profile.virtual_devices.outputs.push(VirtualOutputDevice {
        id: "in64".to_string(),
        name: "In64".to_string(),
        channels: Some(64),
        uid: None,
        hidden: false,
    });
    profile.virtual_devices.inputs.push(VirtualInputDevice {
        id: "out64".to_string(),
        name: "Out64".to_string(),
        channels: Some(64),
        uid: None,
        mix: None,
    });

    let mut coefficients = vec![vec![0.0_f32; 64]; 64];
    for (index, row) in coefficients.iter_mut().enumerate() {
        row[index] = 1.0;
    }

    profile.routes.push(Route {
        id: "route64".to_string(),
        from: "in64".to_string(),
        to: "out64".to_string(),
        enabled: true,
        matrix: RouteMatrix {
            rows: 64,
            cols: 64,
            coefficients: matrix(coefficients),
        },
        chain: None,
        gain_db: number(0.0),
        mute: false,
        pan: number(0.0),
        delay_ms: number(0.0),
    });

    let graph = build_routing_graph(&profile).expect("route with 64 channels should compile");
    assert_eq!(graph.compiled_route_plan().routes.len(), 1);
    assert_eq!(graph.compiled_route_plan().routes[0].matrix.len(), 64 * 64);
}

#[test]
fn compiles_processor_plan_for_route_chain() {
    let mut profile = Profile::default();
    profile.virtual_devices.outputs.push(VirtualOutputDevice {
        id: "app".to_string(),
        name: "App".to_string(),
        channels: Some(2),
        uid: None,
        hidden: false,
    });
    profile.virtual_devices.inputs.push(VirtualInputDevice {
        id: "mix".to_string(),
        name: "Mix".to_string(),
        channels: Some(2),
        uid: None,
        mix: None,
    });
    profile.processors.push(ProcessorDefinition {
        id: "proc-eq".to_string(),
        kind: ProcessorKind::Eq,
        config: serde_json::Value::default(),
    });
    profile.processor_chains.push(ProcessorChain {
        id: "voice-chain".to_string(),
        processors: vec!["proc-eq".to_string()],
    });
    profile.routes.push(Route {
        id: "route-main".to_string(),
        from: "app".to_string(),
        to: "mix".to_string(),
        enabled: true,
        matrix: RouteMatrix {
            rows: 2,
            cols: 2,
            coefficients: matrix(vec![vec![1.0, 0.0], vec![0.0, 1.0]]),
        },
        chain: Some("voice-chain".to_string()),
        gain_db: number(0.0),
        mute: false,
        pan: number(0.0),
        delay_ms: number(0.0),
    });

    let graph = build_routing_graph(&profile).expect("must compile");
    let chain = graph
        .processor_plan()
        .chains
        .get("voice-chain")
        .expect("compiled chain");
    assert_eq!(chain.processors.len(), 1);
    assert_eq!(chain.processors[0].id, "proc-eq");
    assert_eq!(chain.processors[0].kind, ProcessorKind::Eq);
    assert_eq!(chain.processors[0].config_json, "null");
    assert_eq!(
        graph.compiled_route_plan().routes[0].chain.as_deref(),
        Some("voice-chain")
    );
}

#[test]
fn rejects_route_with_unknown_processor_chain() {
    let mut profile = Profile::default();
    profile.virtual_devices.outputs.push(VirtualOutputDevice {
        id: "app".to_string(),
        name: "App".to_string(),
        channels: Some(2),
        uid: None,
        hidden: false,
    });
    profile.virtual_devices.inputs.push(VirtualInputDevice {
        id: "mix".to_string(),
        name: "Mix".to_string(),
        channels: Some(2),
        uid: None,
        mix: None,
    });
    profile.routes.push(Route {
        id: "route-main".to_string(),
        from: "app".to_string(),
        to: "mix".to_string(),
        enabled: true,
        matrix: RouteMatrix {
            rows: 2,
            cols: 2,
            coefficients: matrix(vec![vec![1.0, 0.0], vec![0.0, 1.0]]),
        },
        chain: Some("missing-chain".to_string()),
        gain_db: number(0.0),
        mute: false,
        pan: number(0.0),
        delay_ms: number(0.0),
    });

    let err = build_routing_graph(&profile).expect_err("must fail");
    assert!(matches!(
        err,
        GraphError::UnknownRouteChain { route_id, chain_id }
            if route_id == "route-main" && chain_id == "missing-chain"
    ));
}

#[test]
fn rejects_route_matrix_shape_mismatch() {
    let mut profile = Profile::default();
    profile.virtual_devices.outputs.push(VirtualOutputDevice {
        id: "app".to_string(),
        name: "App".to_string(),
        channels: Some(2),
        uid: None,
        hidden: false,
    });
    profile.virtual_devices.inputs.push(VirtualInputDevice {
        id: "mix".to_string(),
        name: "Mix".to_string(),
        channels: Some(2),
        uid: None,
        mix: None,
    });
    profile.routes.push(Route {
        id: "bad-shape".to_string(),
        from: "app".to_string(),
        to: "mix".to_string(),
        enabled: true,
        matrix: RouteMatrix {
            rows: 2,
            cols: 2,
            coefficients: matrix(vec![vec![1.0, 0.0]]),
        },
        chain: None,
        gain_db: number(0.0),
        mute: false,
        pan: number(0.0),
        delay_ms: number(0.0),
    });

    let err = build_routing_graph(&profile).expect_err("must fail");
    assert!(matches!(
        err,
        GraphError::RouteMatrixShapeMismatch { route_id, .. } if route_id == "bad-shape"
    ));
}

#[test]
fn rejects_route_matrix_channel_mismatch() {
    let mut profile = Profile::default();
    profile.virtual_devices.outputs.push(VirtualOutputDevice {
        id: "app".to_string(),
        name: "App".to_string(),
        channels: Some(1),
        uid: None,
        hidden: false,
    });
    profile.virtual_devices.inputs.push(VirtualInputDevice {
        id: "mix".to_string(),
        name: "Mix".to_string(),
        channels: Some(2),
        uid: None,
        mix: None,
    });
    profile.routes.push(Route {
        id: "bad-channels".to_string(),
        from: "app".to_string(),
        to: "mix".to_string(),
        enabled: true,
        matrix: RouteMatrix {
            rows: 2,
            cols: 2,
            coefficients: matrix(vec![vec![1.0, 0.0], vec![0.0, 1.0]]),
        },
        chain: None,
        gain_db: number(0.0),
        mute: false,
        pan: number(0.0),
        delay_ms: number(0.0),
    });

    let err = build_routing_graph(&profile).expect_err("must fail");
    assert!(matches!(
        err,
        GraphError::RouteMatrixChannelMismatch { route_id, .. } if route_id == "bad-channels"
    ));
}

#[test]
fn rejects_route_matrix_with_non_finite_coefficient() {
    let mut profile = Profile::default();
    profile.virtual_devices.outputs.push(VirtualOutputDevice {
        id: "app".to_string(),
        name: "App".to_string(),
        channels: Some(1),
        uid: None,
        hidden: false,
    });
    profile.virtual_devices.inputs.push(VirtualInputDevice {
        id: "mix".to_string(),
        name: "Mix".to_string(),
        channels: Some(1),
        uid: None,
        mix: None,
    });
    profile.routes.push(Route {
        id: "bad-nan".to_string(),
        from: "app".to_string(),
        to: "mix".to_string(),
        enabled: true,
        matrix: RouteMatrix {
            rows: 1,
            cols: 1,
            coefficients: matrix(vec![vec![f32::NAN]]),
        },
        chain: None,
        gain_db: number(0.0),
        mute: false,
        pan: number(0.0),
        delay_ms: number(0.0),
    });

    let err = build_routing_graph(&profile).expect_err("must fail");
    assert!(matches!(
        err,
        GraphError::NonFiniteRouteMatrixCoefficient { route_id, .. } if route_id == "bad-nan"
    ));
}

#[test]
fn rejects_route_with_unknown_reference() {
    let mut profile = Profile::default();
    profile.virtual_devices.inputs.push(VirtualInputDevice {
        id: "mix".to_string(),
        name: "Mix".to_string(),
        channels: Some(2),
        uid: None,
        mix: None,
    });
    profile.routes.push(Route {
        id: "missing-src".to_string(),
        from: "app".to_string(),
        to: "mix".to_string(),
        enabled: true,
        matrix: RouteMatrix {
            rows: 2,
            cols: 2,
            coefficients: matrix(vec![vec![1.0, 0.0], vec![0.0, 1.0]]),
        },
        chain: None,
        gain_db: number(0.0),
        mute: false,
        pan: number(0.0),
        delay_ms: number(0.0),
    });

    let err = build_routing_graph(&profile).expect_err("must fail");
    assert!(matches!(err, GraphError::UnknownSource(id) if id == "app"));
}

#[test]
fn rejects_delay_out_of_range() {
    let mut profile = Profile::default();
    profile.virtual_devices.outputs.push(VirtualOutputDevice {
        id: "app".to_string(),
        name: "App".to_string(),
        channels: None,
        uid: None,
        hidden: false,
    });
    profile.virtual_devices.inputs.push(VirtualInputDevice {
        id: "mix".to_string(),
        name: "Mix".to_string(),
        channels: None,
        uid: None,
        mix: None,
    });
    profile.pipes.push(Pipe {
        from: "app".to_string(),
        to: "mix".to_string(),
        enabled: true,
        gain_db: number(0.0),
        mute: false,
        pan: number(0.0),
        delay_ms: number(2000.1),
    });

    let err = build_routing_graph(&profile).expect_err("must fail");
    assert!(
        matches!(err, GraphError::InvalidDelay(delay) if (f32::from_bits(delay.to_bits()) - 2000.1).abs() < f32::EPSILON)
    );
}

#[test]
fn ignores_disabled_pipe() {
    let mut profile = Profile::default();
    profile.virtual_devices.outputs.push(VirtualOutputDevice {
        id: "app".to_string(),
        name: "App".to_string(),
        channels: None,
        uid: None,
        hidden: false,
    });
    profile.virtual_devices.inputs.push(VirtualInputDevice {
        id: "mix".to_string(),
        name: "Mix".to_string(),
        channels: None,
        uid: None,
        mix: None,
    });
    profile.pipes.push(Pipe {
        from: "app".to_string(),
        to: "mix".to_string(),
        enabled: false,
        gain_db: number(0.0),
        mute: false,
        pan: number(0.0),
        delay_ms: number(0.0),
    });

    let graph = build_routing_graph(&profile).expect("graph should build");
    assert!(graph.edges.is_empty());
}

#[test]
fn detects_cycle_between_buses() {
    let mut profile = Profile::default();
    profile.buses.push(Bus {
        id: "a".to_string(),
        channels: Some(2),
        mix: None,
    });
    profile.buses.push(Bus {
        id: "b".to_string(),
        channels: Some(2),
        mix: None,
    });
    profile.pipes.push(Pipe {
        from: "a".to_string(),
        to: "b".to_string(),
        enabled: true,
        gain_db: number(0.0),
        mute: false,
        pan: number(0.0),
        delay_ms: number(0.0),
    });
    profile.pipes.push(Pipe {
        from: "b".to_string(),
        to: "a".to_string(),
        enabled: true,
        gain_db: number(0.0),
        mute: false,
        pan: number(0.0),
        delay_ms: number(0.0),
    });

    let err = build_routing_graph(&profile).expect_err("must fail");
    assert!(matches!(err, GraphError::CycleDetected));
}

#[test]
fn topological_order_is_deterministic() {
    let mut profile = Profile::default();
    profile.virtual_devices.outputs.push(VirtualOutputDevice {
        id: "b".to_string(),
        name: "B".to_string(),
        channels: Some(2),
        uid: None,
        hidden: false,
    });
    profile.virtual_devices.outputs.push(VirtualOutputDevice {
        id: "a".to_string(),
        name: "A".to_string(),
        channels: Some(2),
        uid: None,
        hidden: false,
    });
    profile.virtual_devices.inputs.push(VirtualInputDevice {
        id: "mix".to_string(),
        name: "Mix".to_string(),
        channels: Some(2),
        uid: None,
        mix: None,
    });
    profile.routes.push(Route {
        id: "ra".to_string(),
        from: "a".to_string(),
        to: "mix".to_string(),
        enabled: true,
        matrix: RouteMatrix {
            rows: 2,
            cols: 2,
            coefficients: matrix(vec![vec![1.0, 0.0], vec![0.0, 1.0]]),
        },
        chain: None,
        gain_db: number(0.0),
        mute: false,
        pan: number(0.0),
        delay_ms: number(0.0),
    });
    profile.routes.push(Route {
        id: "rb".to_string(),
        from: "b".to_string(),
        to: "mix".to_string(),
        enabled: true,
        matrix: RouteMatrix {
            rows: 2,
            cols: 2,
            coefficients: matrix(vec![vec![1.0, 0.0], vec![0.0, 1.0]]),
        },
        chain: None,
        gain_db: number(0.0),
        mute: false,
        pan: number(0.0),
        delay_ms: number(0.0),
    });

    let graph = build_routing_graph(&profile).expect("graph should compile");
    let first = graph.topological_order();
    let second = graph.topological_order();
    assert_eq!(first, second);
    assert_eq!(
        first,
        vec!["a".to_string(), "b".to_string(), "mix".to_string()]
    );
}

fn two_buses() -> Profile {
    let mut profile = Profile::default();
    for id in ["a", "b"] {
        profile.buses.push(Bus {
            id: id.to_string(),
            channels: Some(2),
            mix: None,
        });
    }
    profile
}

fn pipe(from: &str, to: &str) -> Pipe {
    Pipe {
        from: from.to_string(),
        to: to.to_string(),
        enabled: true,
        gain_db: number(0.0),
        mute: false,
        pan: number(0.0),
        delay_ms: number(0.0),
    }
}

#[test]
fn edges_are_found_by_their_ends() {
    let mut profile = two_buses();
    profile.pipes.push(pipe("a", "b"));
    let graph = build_routing_graph(&profile).expect("graph");
    assert_eq!(graph.outgoing("a").len(), 1);
    assert_eq!(graph.outgoing("a")[0].to, "b");
    assert!(graph.outgoing("b").is_empty());
    assert_eq!(graph.incoming("b")[0].from, "a");
    assert!(graph.incoming("a").is_empty());
}

#[test]
fn pipes_between_one_and_two_channels_have_their_matrices() {
    assert!(channels_compatible(1, 2));
    assert!(channels_compatible(2, 1));
    assert!(channels_compatible(5, 5));
    assert!(!channels_compatible(1, 3));
    assert_eq!(legacy_pipe_matrix(1, 2), numbers(&[1.0, 1.0]));
    assert_eq!(legacy_pipe_matrix(2, 1), numbers(&[0.5, 0.5]));
    assert_eq!(legacy_pipe_matrix(2, 2), numbers(&[1.0, 0.0, 0.0, 1.0]));
}

#[test]
fn routes_with_one_id_and_chains_with_unknown_processors_are_refused() {
    let route = |chain: Option<&str>| Route {
        id: "r".to_string(),
        from: "a".to_string(),
        to: "b".to_string(),
        enabled: true,
        matrix: RouteMatrix {
            rows: 2,
            cols: 2,
            coefficients: matrix(vec![vec![1.0, 0.0], vec![0.0, 1.0]]),
        },
        chain: chain.map(ToString::to_string),
        gain_db: number(0.0),
        mute: false,
        pan: number(0.0),
        delay_ms: number(0.0),
    };
    let mut twice = two_buses();
    twice.routes.push(route(None));
    twice.routes.push(route(None));
    assert!(matches!(
        build_routing_graph(&twice).expect_err("one id"),
        GraphError::DuplicateRouteId(id) if id == "r"
    ));

    let mut unknown = two_buses();
    unknown.processor_chains.push(ProcessorChain {
        id: "chain".to_string(),
        processors: vec!["nobody".to_string()],
    });
    unknown.routes.push(route(Some("chain")));
    let error = build_routing_graph(&unknown).expect_err("unknown processor");
    assert_eq!(
        error.message(""),
        "processor chain 'chain' references unknown processor 'nobody'"
    );
}

#[test]
fn refused_profiles_are_explained() {
    assert_eq!(
        GraphError::CycleDetected.message(""),
        "graph contains cycle"
    );
    assert_eq!(
        GraphError::InvalidDelay(number(2000.5)).message("2000.5"),
        "pipe/route delay must be in range [0, 2000], got 2000.5"
    );
    assert_eq!(
        GraphError::InvalidNodeChannels {
            id: "n".to_string(),
            channels: 65
        }
        .message(""),
        "node channel count must be in [1, 64], got 65 for 'n'"
    );
    assert_eq!(
        GraphError::RouteMatrixShapeMismatch {
            route_id: "r".to_string(),
            rows: 2,
            cols: 3,
            actual_rows: 1,
            actual_cols: 0
        }
        .message(""),
        "route 'r' matrix shape mismatch: declared rows=2, cols=3, actual_rows=1, actual_cols=0"
    );
}

#[test]
fn processor_configurations_are_kept_as_text() {
    let mut profile = two_buses();
    let mut config = serde_json::Map::new();
    config.insert("threshold".to_string(), serde_json::Value::from(3));
    profile.processors.push(ProcessorDefinition {
        id: "p".to_string(),
        kind: ProcessorKind::Dynamics,
        config: serde_json::Value::Object(config),
    });
    profile.processor_chains.push(ProcessorChain {
        id: "chain".to_string(),
        processors: vec!["p".to_string()],
    });
    let graph = build_routing_graph(&profile).expect("graph");
    let chain = graph.processor_plan().chains.get("chain").expect("chain");
    assert_eq!(chain.processors[0].config_json, "{\"threshold\":3}");
}

#[test]
fn only_the_current_profile_version_is_taken() {
    assert_eq!(check_profile_version(2), Ok(()));
    assert_eq!(
        check_profile_version(1),
        Err("unsupported profile version 1 (expected 2)".to_string())
    );
}

#[test]
fn disabled_routes_do_not_matter() {
    let route = |id: &str, enabled: bool, rows: u16| Route {
        id: id.to_string(),
        from: "a".to_string(),
        to: "b".to_string(),
        enabled,
        matrix: RouteMatrix {
            rows,
            cols: 2,
            coefficients: matrix(vec![vec![1.0, 0.0], vec![0.0, 1.0]]),
        },
        chain: None,
        gain_db: number(-3.0),
        mute: false,
        pan: number(0.0),
        delay_ms: number(0.0),
    };
    let mut lean = two_buses();
    lean.routes.push(route("main", true, 2));
    let mut full = two_buses();
    full.routes.push(route("main", false, 5));
    full.routes.push(route("main", true, 2));
    full.routes.push(route("spare", false, 0));

    let lean = build_routing_graph(&lean).expect("valid graph");
    let full = build_routing_graph(&full).expect("valid graph");
    assert_eq!(full.compiled_route_plan().routes.len(), 1);
    assert_eq!(format!("{:?}", full.edges), format!("{:?}", lean.edges));
    assert_eq!(
        format!("{:?}", full.compiled_route_plan()),
        format!("{:?}", lean.compiled_route_plan())
    );

    let mut refused = two_buses();
    refused.routes.push(route("spare", false, 0));
    refused.routes.push(route("main", true, 5));
    let mut refused_too = two_buses();
    refused_too.routes.push(route("main", true, 5));
    let with = build_routing_graph(&refused).expect_err("refused");
    let without = build_routing_graph(&refused_too).expect_err("refused");
    assert_eq!(with, without);
}
