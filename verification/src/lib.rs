//! Routing, planning and runtime rules of MARS, an audio router service.

pub mod answer_laws;
pub mod api;
pub mod apply;
pub mod au_host;
pub mod audio_file;
pub mod capture_runtime;
pub mod cli;
pub mod commands;
pub mod daemon;
pub mod daemon_laws;
pub mod delay;
pub mod devices;
pub mod driver;
pub mod engine;
pub mod engine_laws;
pub mod engine_state;
pub mod external_io;
pub mod external_runtime;
pub mod feedback;
pub mod file_sink;
pub mod graph;
pub mod graph_text;
pub mod hal_client;
pub mod intents;
pub mod json;
pub mod launcher;
pub mod logs;
pub mod matching;
pub mod number;
pub mod operation_laws;
pub mod plan;
pub mod probe;
pub mod processors;
pub mod profile;
pub mod profile_laws;
pub mod render;
pub mod render_engine;
pub mod render_laws;
pub mod render_loop;
pub mod ring;
pub mod ring_probe;
pub mod route_laws;
pub mod selftest;
pub mod sequences;
pub mod sink_runtime;
pub mod step_laws;
pub mod streams;
pub mod string_map;
pub mod tap;
pub mod text;
pub mod topology;

use vstd::prelude::*;

verus! {

} // verus!
