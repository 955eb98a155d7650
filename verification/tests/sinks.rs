use mars::audio_file::{check_sample_count, CafWriter, FilePatch, WavWriter};
use mars::file_sink::{
    directory_error, sink_directory, stage_error, FileSinkWriter, FileStage, HeaderField, HeaderPart,
};
use mars::profile::{FileSink, FileSinkFormat, Profile, StreamSink};
use mars::sink_runtime::{sink_bindings, SinkBinding, SinkBindingKind, SinkRuntime, SinkRuntimeHealth};
use mars::string_map::StringMap;

fn to_bits(samples: &[f32]) -> Vec<u32> {
    samples.iter().map(|sample| sample.to_bits()).collect()
}

fn patch(file: &mut [u8], patch: &FilePatch) {
    let start = patch.offset as usize;
    file[start..start + patch.bytes.len()].copy_from_slice(&patch.bytes);
}

fn wav(samples: &[f32]) -> Vec<u8> {
    let (mut writer, mut bytes) = WavWriter::open(48_000, 2);
    bytes.extend(writer.write_interleaved(&to_bits(samples)));
    for change in writer.finalize().expect("finalize") {
        patch(&mut bytes, &change);
    }
    bytes
}

#[test]
fn wav_writer_patches_header_sizes_on_finalize() {
    let bytes = wav(&[0.1, -0.1, 0.2, -0.2]);
    assert!(bytes.starts_with(b"RIFF"));
    assert_eq!(&bytes[8..12], b"WAVE");
    assert_eq!(&bytes[12..16], b"fmt ");
    assert_eq!(&bytes[36..40], b"data");

    let riff_size = u32::from_le_bytes(bytes[4..8].try_into().expect("riff size"));
    let data_size = u32::from_le_bytes(bytes[40..44].try_into().expect("data size"));
    assert_eq!(data_size, 16);
    assert_eq!(riff_size, 36 + data_size);
    assert_eq!(bytes.len() as u32, 44 + data_size);
}

#[test]
fn wav_files_hold_floats_in_little_endian_order() {
    let bytes = wav(&[0.1, -0.1]);
    let format = u16::from_le_bytes(bytes[20..22].try_into().expect("format"));
    assert_eq!(format, 3);
    let channels = u16::from_le_bytes(bytes[22..24].try_into().expect("channels"));
    assert_eq!(channels, 2);
    let rate = u32::from_le_bytes(bytes[24..28].try_into().expect("rate"));
    assert_eq!(rate, 48_000);
    let byte_rate = u32::from_le_bytes(bytes[28..32].try_into().expect("byte rate"));
    assert_eq!(byte_rate, 48_000 * 8);
    let first = f32::from_le_bytes(bytes[44..48].try_into().expect("sample"));
    assert_eq!(first, 0.1);
    let second = f32::from_le_bytes(bytes[48..52].try_into().expect("sample"));
    assert_eq!(second, -0.1);
}

#[test]
fn caf_writer_patches_data_chunk_size_on_finalize() {
    let (mut writer, mut bytes) = CafWriter::open(48_000, 1);
    bytes.extend(writer.write_interleaved(&to_bits(&[0.1, -0.1, 0.2])));
    patch(&mut bytes, &writer.finalize());

    assert!(bytes.starts_with(b"caff"));
    assert_eq!(&bytes[8..12], b"desc");
    assert_eq!(&bytes[52..56], b"data");
    let data_chunk_size = u64::from_be_bytes(bytes[56..64].try_into().expect("chunk size"));
    assert_eq!(data_chunk_size, 16);
    assert_eq!(bytes.len(), 68 + 12);
    let rate = f64::from_be_bytes(bytes[20..28].try_into().expect("rate"));
    assert_eq!(rate, 48_000.0);
}

#[test]
fn sample_rates_are_written_as_doubles() {
    for rate in [1, 2, 3, 44_100, 96_000, 192_000, u32::MAX] {
        let (_, bytes) = CafWriter::open(rate, 1);
        let written = f64::from_be_bytes(bytes[20..28].try_into().expect("rate"));
        assert_eq!(written, f64::from(rate));
    }
    let (_, bytes) = CafWriter::open(0, 1);
    assert_eq!(
        f64::from_be_bytes(bytes[20..28].try_into().expect("rate")),
        0.0
    );
}

#[test]
fn batches_have_a_sample_for_each_channel_of_each_frame() {
    assert!(check_sample_count(8, 4, 2).is_ok());
    assert_eq!(
        check_sample_count(7, 4, 2),
        Err("sink sample count mismatch: expected 8, got 7".to_string())
    );
}

fn file_binding() -> SinkBinding {
    SinkBinding {
        id: "sink-main".to_string(),
        source: "mix".to_string(),
        channels: 2,
        kind: SinkBindingKind::File {
            path: "/tmp/sink.wav".to_string(),
            format: FileSinkFormat::Wav,
        },
    }
}

fn rendered(value: f32, samples: usize) -> StringMap<Vec<u32>> {
    let mut rendered = StringMap::new();
    rendered.insert("mix".to_string(), vec![value.to_bits(); samples]);
    rendered
}

#[test]
fn sink_runtime_reports_backpressure_with_small_queue() {
    let mut runtime = SinkRuntime::start(vec![file_binding()], 2, vec![Ok(())]);
    let rendered = rendered(0.0, 256 * 2);

    for _ in 0..20_000 {
        runtime.submit_rendered_sinks(&rendered, 256);
    }

    let status = runtime.status();
    assert!(status.dropped_batches > 0);
    assert_eq!(status.queued_batches, 2);
    assert_eq!(status.dropped_batches, 19_998);
    assert_eq!(status.dropped_samples, 19_998 * 512);
}

#[test]
fn sink_runtime_stop_and_restart_preserve_wav_header_validity() {
    for _ in 0..2 {
        let mut runtime = SinkRuntime::start(vec![file_binding()], 128, vec![Ok(())]);
        let rendered = rendered(0.25, 128 * 2);
        let (mut writer, mut bytes) = WavWriter::open(48_000, 2);
        for _ in 0..256 {
            runtime.submit_rendered_sinks(&rendered, 128);
            while let Some(batch) = runtime.next_batch() {
                bytes.extend(writer.write_interleaved(&batch.samples));
                runtime.finish_batch(&batch.sink_id, batch.frames, Some(Ok(())));
            }
        }
        assert!(runtime.may_stop(true));
        assert!(!runtime.may_stop(false));
        assert_eq!(runtime.status().sinks[0].written_frames, 256 * 128);
        for change in writer.finalize().expect("finalize") {
            patch(&mut bytes, &change);
        }

        assert!(bytes.starts_with(b"RIFF"));
        let data_size = u32::from_le_bytes(bytes[40..44].try_into().expect("data size"));
        assert!(data_size > 0);
        assert_eq!(bytes.len() as u32, 44 + data_size);
    }
}

#[test]
fn stream_sinks_fail_and_say_why() {
    let stream = SinkBinding {
        id: "stream-main".to_string(),
        source: "mix".to_string(),
        channels: 2,
        kind: SinkBindingKind::Stream {
            transport: "rtp".to_string(),
            endpoint: "host".to_string(),
            options_json: "{}".to_string(),
        },
    };
    let runtime = SinkRuntime::start(
        vec![file_binding(), stream],
        4,
        vec![Err("denied".to_string()), Ok(())],
    );
    let status = runtime.status();
    assert_eq!(status.active_file_sinks, 0);
    assert_eq!(status.active_stream_sinks, 0);
    assert!(status
        .sinks
        .iter()
        .all(|sink| sink.health == SinkRuntimeHealth::Failed && sink.last_error.is_some()));
}

#[test]
fn a_write_heals_a_sink_that_dropped_but_not_one_that_failed() {
    let mut runtime = SinkRuntime::start(vec![file_binding()], 1, vec![Ok(())]);
    let rendered = rendered(0.5, 4);
    runtime.submit_rendered_sinks(&rendered, 2);
    runtime.submit_rendered_sinks(&rendered, 2);
    let status = runtime.status();
    assert_eq!(status.sinks[0].health, SinkRuntimeHealth::Degraded);
    assert_eq!(status.sinks[0].dropped_batches, 1);
    let batch = runtime.next_batch().expect("batch");
    runtime.finish_batch(&batch.sink_id, 2, Some(Ok(())));
    let status = runtime.status();
    assert_eq!(status.sinks[0].health, SinkRuntimeHealth::Healthy);
    assert_eq!(status.sinks[0].written_frames, 2);

    runtime.submit_rendered_sinks(&rendered, 2);
    let batch = runtime.next_batch().expect("batch");
    runtime.finish_batch(&batch.sink_id, 2, Some(Err("disk full".to_string())));
    let status = runtime.status();
    assert_eq!(status.write_errors, 1);
    assert_eq!(status.sinks[0].health, SinkRuntimeHealth::Failed);
    assert_eq!(status.sinks[0].last_error.as_deref(), Some("disk full"));
    runtime.submit_rendered_sinks(&rendered, 2);
    let batch = runtime.next_batch().expect("batch");
    runtime.finish_batch(&batch.sink_id, 2, Some(Ok(())));
    assert_eq!(runtime.status().sinks[0].health, SinkRuntimeHealth::Failed);
}

#[test]
fn profiles_bind_their_files_before_their_streams() {
    let mut profile = Profile::default();
    profile.sinks.files.push(FileSink {
        id: "tape".to_string(),
        source: "mix".to_string(),
        path: "/tmp/tape.wav".to_string(),
        format: FileSinkFormat::Wav,
        channels: None,
    });
    let mut options = serde_json::Map::new();
    options.insert("rate".to_string(), serde_json::Value::from(3));
    profile.sinks.streams.push(StreamSink {
        id: "air".to_string(),
        source: "mix".to_string(),
        transport: "rtp".to_string(),
        endpoint: "127.0.0.1:5004".to_string(),
        options: serde_json::Value::Object(options),
        channels: Some(1),
    });
    let bindings = sink_bindings(&profile);
    assert_eq!(bindings.len(), 2);
    assert_eq!(bindings[0].id, "tape");
    assert_eq!(bindings[0].channels, 2);
    assert_eq!(
        bindings[0].kind,
        SinkBindingKind::File {
            path: "/tmp/tape.wav".to_string(),
            format: FileSinkFormat::Wav,
        }
    );
    assert_eq!(bindings[1].id, "air");
    assert_eq!(bindings[1].channels, 1);
    assert_eq!(
        bindings[1].kind,
        SinkBindingKind::Stream {
            transport: "rtp".to_string(),
            endpoint: "127.0.0.1:5004".to_string(),
            options_json: "{\"rate\":3}".to_string(),
        }
    );
}

fn joined(parts: &[HeaderPart]) -> Vec<u8> {
    parts.iter().flat_map(|part| part.bytes.clone()).collect()
}

#[test]
fn file_sinks_are_written_batch_by_batch() {
    let none = FileSinkWriter::open(FileSinkFormat::Wav, 48_000, 0).expect_err("no channels");
    assert_eq!(none, "sink channels must be > 0");

    let samples = to_bits(&[0.1, -0.1, 0.2, -0.2]);
    let (writer, parts) =
        FileSinkWriter::open(FileSinkFormat::Wav, 48_000, 2).expect("wav recording");
    let mut bytes = joined(&parts);
    let (writer, data) = writer.write_interleaved(&samples, 2).expect("batch");
    bytes.extend(data);
    let wrong = writer.write_interleaved(&samples, 3).expect_err("too few");
    assert_eq!(wrong, "sink sample count mismatch: expected 6, got 4");
    for change in writer.finalize().expect("sizes") {
        patch(&mut bytes, &change);
    }
    assert_eq!(bytes, wav(&[0.1, -0.1, 0.2, -0.2]));

    let (writer, parts) =
        FileSinkWriter::open(FileSinkFormat::Caf, 48_000, 1).expect("caf recording");
    assert_eq!(joined(&parts), CafWriter::open(48_000, 1).1);
    let field = |field| {
        let part = parts.iter().find(|part| part.field == field).expect("part");
        part.bytes.clone()
    };
    assert_eq!(parts.len(), 13);
    assert_eq!(field(HeaderField::File), b"caff\x00\x01\x00\x00".to_vec());
    assert_eq!(
        field(HeaderField::SampleRate),
        48_000_f64.to_be_bytes().to_vec()
    );
    assert_eq!(field(HeaderField::Format), b"lpcm".to_vec());
    assert_eq!(
        field(HeaderField::ChannelsPerFrame),
        1_u32.to_be_bytes().to_vec()
    );
    assert_eq!(field(HeaderField::DataPosition), Vec::<u8>::new());
    assert_eq!(field(HeaderField::DataSize), vec![0; 8]);
    assert_eq!(field(HeaderField::EditCount), vec![0; 4]);
    let patches = writer.finalize().expect("size");
    assert_eq!(patches.len(), 1);
    assert_eq!(patches[0].offset, 56);
    assert_eq!(patches[0].bytes, 4_u64.to_be_bytes().to_vec());
}

#[test]
fn file_sinks_say_what_failed() {
    let text = |stage| stage_error(FileSinkFormat::Wav, stage, "a.wav", "full");
    assert_eq!(
        text(FileStage::CreateFile),
        "failed to create wav sink 'a.wav': full"
    );
    assert_eq!(
        text(FileStage::Patch { size: 1 }),
        "failed to patch wav data size: full"
    );
    assert_eq!(
        stage_error(FileSinkFormat::Caf, FileStage::Flush, "a.caf", "full"),
        "failed to flush caf sink: full"
    );
    let caf = |field| {
        let stage = FileStage::WriteHeader { field };
        stage_error(FileSinkFormat::Caf, stage, "a.caf", "full")
    };
    for (field, what) in [
        (HeaderField::File, "header"),
        (HeaderField::Description, "desc chunk"),
        (HeaderField::SampleRate, "desc sample rate"),
        (HeaderField::Format, "desc format"),
        (HeaderField::FormatFlags, "desc format flags"),
        (HeaderField::BytesPerPacket, "desc bytes per packet"),
        (HeaderField::FramesPerPacket, "desc frames per packet"),
        (HeaderField::ChannelsPerFrame, "desc channels per frame"),
        (HeaderField::BitsPerChannel, "desc bits per channel"),
        (HeaderField::Data, "data chunk"),
        (HeaderField::DataSize, "data chunk size"),
        (HeaderField::EditCount, "edit count"),
    ] {
        assert_eq!(caf(field), format!("failed to write caf {what}: full"));
    }
    assert_eq!(
        caf(HeaderField::DataPosition),
        "failed to read caf data chunk position: full"
    );
    assert_eq!(
        text(FileStage::WriteHeader {
            field: HeaderField::File
        }),
        "failed to write wav header: full"
    );
    assert_eq!(
        directory_error("/tape", "denied"),
        "failed to create sink directory '/tape': denied"
    );
    assert_eq!(sink_directory(Some(String::new())), None);
    assert_eq!(
        sink_directory(Some("/tape".to_string())),
        Some("/tape".to_string())
    );
}
