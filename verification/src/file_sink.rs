//! Recordings in files: which bytes are written when, and what is said where that fails.

use crate::audio_file::{
    big, byte_range, bytes_with, caf_header, check_sample_count, law_numbers_are_read_back,
    lemma_byte_lengths, lemma_caf_header_len, lemma_sample_bytes_len, lemma_wav_header_len, little,
    patched, read_big, read_little, sample_bytes, wav_header, CafWriter, FilePatch, WavWriter,
    CAF_DATA_SIZE_OFFSET,
};
use crate::profile::FileSinkFormat;
use crate::render_loop::capped_product;
use crate::text::decimal;
use vstd::prelude::*;
use vstd::string::*;

verus! {

/// The encoder of a recording.
#[derive(Debug)]
pub enum FileSinkInner {
    Wav(WavWriter),
    Caf(CafWriter),
}

/// A recording while it is written.
#[derive(Debug)]
pub struct FileSinkWriter {
    pub inner: FileSinkInner,
    pub channels: u16,
}

/// A part of what stands in front of the samples.
#[derive(Debug, Clone, Copy, PartialEq, Eq, Structural)]
pub enum HeaderField {
    /// What kind of file it is.
    File,
    /// The kind and the size of the description.
    Description,
    SampleRate,
    Format,
    FormatFlags,
    BytesPerPacket,
    FramesPerPacket,
    ChannelsPerFrame,
    BitsPerChannel,
    Data,
    /// Asking where the size of the data stands; nothing is written.
    DataPosition,
    DataSize,
    EditCount,
}

/// What can fail of a recording outside of it.
#[derive(Debug, Clone, Copy, PartialEq, Eq, Structural)]
pub enum FileStage {
    CreateFile,
    WriteHeader { field: HeaderField },
    WriteSamples,
    /// Writing out what is held back, before the sizes are written.
    Flush,
    /// Going to the place of a size, counted from zero.
    Seek { size: usize },
    /// Writing a size.
    Patch { size: usize },
    FlushFile,
}

/// What is said where a part of what stands in front of the samples of a CAF file fails, in
/// front of the cause.
pub open spec fn caf_field_lead(field: HeaderField) -> Seq<char> {
    match field {
        HeaderField::File => "failed to write caf header: "@,
        HeaderField::Description => "failed to write caf desc chunk: "@,
        HeaderField::SampleRate => "failed to write caf desc sample rate: "@,
        HeaderField::Format => "failed to write caf desc format: "@,
        HeaderField::FormatFlags => "failed to write caf desc format flags: "@,
        HeaderField::BytesPerPacket => "failed to write caf desc bytes per packet: "@,
        HeaderField::FramesPerPacket => "failed to write caf desc frames per packet: "@,
        HeaderField::ChannelsPerFrame => "failed to write caf desc channels per frame: "@,
        HeaderField::BitsPerChannel => "failed to write caf desc bits per channel: "@,
        HeaderField::Data => "failed to write caf data chunk: "@,
        HeaderField::DataPosition => "failed to read caf data chunk position: "@,
        HeaderField::DataSize => "failed to write caf data chunk size: "@,
        HeaderField::EditCount => "failed to write caf edit count: "@,
    }
}

fn describe_caf_field(field: HeaderField) -> (r: String)
    ensures
        r@ == caf_field_lead(field),
{
    match field {
        HeaderField::File => String::from_str("failed to write caf header: "),
        HeaderField::Description => String::from_str("failed to write caf desc chunk: "),
        HeaderField::SampleRate => String::from_str("failed to write caf desc sample rate: "),
        HeaderField::Format => String::from_str("failed to write caf desc format: "),
        HeaderField::FormatFlags => String::from_str("failed to write caf desc format flags: "),
        HeaderField::BytesPerPacket => {
            String::from_str("failed to write caf desc bytes per packet: ")
        },
        HeaderField::FramesPerPacket => {
            String::from_str("failed to write caf desc frames per packet: ")
        },
        HeaderField::ChannelsPerFrame => {
            String::from_str("failed to write caf desc channels per frame: ")
        },
        HeaderField::BitsPerChannel => {
            String::from_str("failed to write caf desc bits per channel: ")
        },
        HeaderField::Data => String::from_str("failed to write caf data chunk: "),
        HeaderField::DataPosition => String::from_str("failed to read caf data chunk position: "),
        HeaderField::DataSize => String::from_str("failed to write caf data chunk size: "),
        HeaderField::EditCount => String::from_str("failed to write caf edit count: "),
    }
}

/// What is said where a stage fails, in front of the cause.
pub open spec fn stage_lead(format: FileSinkFormat, stage: FileStage, path: Seq<char>) -> Seq<char> {
    match (format, stage) {
        (FileSinkFormat::Wav, FileStage::CreateFile) => "failed to create wav sink '"@ + path
            + "': "@,
        (FileSinkFormat::Wav, FileStage::WriteHeader { .. }) => "failed to write wav header: "@,
        (FileSinkFormat::Wav, FileStage::WriteSamples) => "failed to write wav samples: "@,
        (FileSinkFormat::Wav, FileStage::Flush) => "failed to flush wav sink: "@,
        (FileSinkFormat::Wav, FileStage::Seek { size }) => if size == 0 {
            "failed to seek wav header: "@
        } else {
            "failed to seek wav data size: "@
        },
        (FileSinkFormat::Wav, FileStage::Patch { size }) => if size == 0 {
            "failed to patch wav riff size: "@
        } else {
            "failed to patch wav data size: "@
        },
        (FileSinkFormat::Wav, FileStage::FlushFile) => "failed to flush wav sink file: "@,
        (FileSinkFormat::Caf, FileStage::CreateFile) => "failed to create caf sink '"@ + path
            + "': "@,
        (FileSinkFormat::Caf, FileStage::WriteHeader { field }) => caf_field_lead(field),
        (FileSinkFormat::Caf, FileStage::WriteSamples) => "failed to write caf samples: "@,
        (FileSinkFormat::Caf, FileStage::Flush) => "failed to flush caf sink: "@,
        (FileSinkFormat::Caf, FileStage::Seek { .. }) => "failed to seek caf data chunk size: "@,
        (FileSinkFormat::Caf, FileStage::Patch { .. }) => "failed to patch caf data chunk size: "@,
        (FileSinkFormat::Caf, FileStage::FlushFile) => "failed to flush caf sink file: "@,
    }
}

/// What is said where a stage fails.
pub fn stage_error(format: FileSinkFormat, stage: FileStage, path: &str, error: &str) -> (r: String)
    ensures
        r@ == stage_lead(format, stage, path@) + error@,
{
    let mut text = match (format, stage) {
        (FileSinkFormat::Wav, FileStage::CreateFile) => {
            String::from_str("failed to create wav sink '")
        },
        (FileSinkFormat::Wav, FileStage::WriteHeader { .. }) => {
            String::from_str("failed to write wav header: ")
        },
        (FileSinkFormat::Wav, FileStage::WriteSamples) => {
            String::from_str("failed to write wav samples: ")
        },
        (FileSinkFormat::Wav, FileStage::Flush) => String::from_str("failed to flush wav sink: "),
        (FileSinkFormat::Wav, FileStage::Seek { size }) => if size == 0 {
            String::from_str("failed to seek wav header: ")
        } else {
            String::from_str("failed to seek wav data size: ")
        },
        (FileSinkFormat::Wav, FileStage::Patch { size }) => if size == 0 {
            String::from_str("failed to patch wav riff size: ")
        } else {
            String::from_str("failed to patch wav data size: ")
        },
        (FileSinkFormat::Wav, FileStage::FlushFile) => {
            String::from_str("failed to flush wav sink file: ")
        },
        (FileSinkFormat::Caf, FileStage::CreateFile) => {
            String::from_str("failed to create caf sink '")
        },
        (FileSinkFormat::Caf, FileStage::WriteHeader { field }) => describe_caf_field(field),
        (FileSinkFormat::Caf, FileStage::WriteSamples) => {
            String::from_str("failed to write caf samples: ")
        },
        (FileSinkFormat::Caf, FileStage::Flush) => String::from_str("failed to flush caf sink: "),
        (FileSinkFormat::Caf, FileStage::Seek { .. }) => {
            String::from_str("failed to seek caf data chunk size: ")
        },
        (FileSinkFormat::Caf, FileStage::Patch { .. }) => {
            String::from_str("failed to patch caf data chunk size: ")
        },
        (FileSinkFormat::Caf, FileStage::FlushFile) => {
            String::from_str("failed to flush caf sink file: ")
        },
    };
    if let FileStage::CreateFile = stage {
        text.append(path);
        text.append("': ");
    }
    text.append(error);
    text
}

/// The directory of a recording that has to be there: none where the recording is in the
/// current one.
pub fn sink_directory(parent: Option<String>) -> (r: Option<String>)
    ensures
        match parent {
            Some(name) => if name@.len() == 0 {
                r is None
            } else {
                r == Some(name)
            },
            None => r is None,
        },
{
    match parent {
        Some(name) => if name.as_str().unicode_len() == 0 {
            None
        } else {
            Some(name)
        },
        None => None,
    }
}

/// What is said where the directory of a recording cannot be made.
pub fn directory_error(directory: &str, error: &str) -> (r: String)
    ensures
        r@ == "failed to create sink directory '"@ + directory@ + "': "@ + error@,
{
    let mut text = String::from_str("failed to create sink directory '");
    text.append(directory);
    text.append("': ");
    text.append(error);
    text
}

/// A part of what stands in front of the samples, as it is written.
#[derive(Debug)]
pub struct HeaderPart {
    pub field: HeaderField,
    pub bytes: Vec<u8>,
}

/// The parts of what stands in front of the samples, each with the place where it ends. That
/// of a WAV file is one.
pub open spec fn header_layout(format: FileSinkFormat) -> Seq<(HeaderField, int)> {
    match format {
        FileSinkFormat::Wav => seq![(HeaderField::File, 44)],
        FileSinkFormat::Caf => seq![
            (HeaderField::File, 8),
            (HeaderField::Description, 20),
            (HeaderField::SampleRate, 28),
            (HeaderField::Format, 32),
            (HeaderField::FormatFlags, 36),
            (HeaderField::BytesPerPacket, 40),
            (HeaderField::FramesPerPacket, 44),
            (HeaderField::ChannelsPerFrame, 48),
            (HeaderField::BitsPerChannel, 52),
            (HeaderField::Data, 56),
            (HeaderField::DataPosition, 56),
            (HeaderField::DataSize, 64),
            (HeaderField::EditCount, 68),
        ],
    }
}

/// Where a part begins: where the one before it ends.
pub open spec fn part_start(layout: Seq<(HeaderField, int)>, i: int) -> int {
    if i <= 0 {
        0
    } else {
        layout[i - 1].1
    }
}

/// The parts are those of the layout, with their bytes.
pub open spec fn header_parted(
    format: FileSinkFormat,
    header: Seq<u8>,
    parts: Seq<HeaderPart>,
) -> bool {
    let layout = header_layout(format);
    &&& parts.len() == layout.len()
    &&& forall|i: int|
        0 <= i < parts.len() ==> (#[trigger] parts[i]).field == layout[i].0 && parts[i].bytes@
            == header.subrange(part_start(layout, i), layout[i].1)
}

/// What stands in front of the samples of a recording.
pub open spec fn sink_header(format: FileSinkFormat, sample_rate: u32, channels: u16) -> Seq<u8> {
    match format {
        FileSinkFormat::Wav => wav_header(sample_rate, channels),
        FileSinkFormat::Caf => caf_header(sample_rate, channels),
    }
}

/// The bytes of the first `n` parts, one after another.
pub open spec fn parts_joined(parts: Seq<HeaderPart>, n: int) -> Seq<u8>
    decreases n,
{
    if n <= 0 {
        Seq::empty()
    } else {
        parts_joined(parts, n - 1) + parts[n - 1].bytes@
    }
}

proof fn lemma_parts_joined(format: FileSinkFormat, header: Seq<u8>, parts: Seq<HeaderPart>, n: int)
    requires
        header_parted(format, header, parts),
        header.len() == header_layout(format).last().1,
        0 <= n <= parts.len(),
    ensures
        parts_joined(parts, n) == header.take(part_start(header_layout(format), n)),
    decreases n,
{
    if n > 0 {
        lemma_parts_joined(format, header, parts, n - 1);
        assert(parts[n - 1].bytes@ == header.subrange(
            part_start(header_layout(format), n - 1),
            header_layout(format)[n - 1].1,
        ));
        assert(parts_joined(parts, n) =~= header.take(part_start(header_layout(format), n)));
    } else {
        assert(parts_joined(parts, n) =~= header.take(0));
    }
}

/// The parts, written one after another, are what stands in front of the samples.
pub proof fn law_parts_make_the_header(
    format: FileSinkFormat,
    sample_rate: u32,
    channels: u16,
    parts: Seq<HeaderPart>,
)
    requires
        header_parted(format, sink_header(format, sample_rate, channels), parts),
    ensures
        parts_joined(parts, parts.len() as int) == sink_header(format, sample_rate, channels),
{
    let header = sink_header(format, sample_rate, channels);
    lemma_wav_header_len(sample_rate, channels);
    lemma_caf_header_len(sample_rate, channels);
    lemma_parts_joined(format, header, parts, parts.len() as int);
    assert(header.take(header.len() as int) =~= header);
}

fn cut_part(header: &Vec<u8>, field: HeaderField, from: usize, to: usize) -> (r: HeaderPart)
    requires
        from <= to <= header@.len(),
    ensures
        r.field == field,
        r.bytes@ == header@.subrange(from as int, to as int),
{
    let mut bytes: Vec<u8> = Vec::new();
    let mut i = from;
    assert(header@.subrange(from as int, from as int) =~= Seq::<u8>::empty());
    while i < to
        invariant
            from <= i <= to <= header@.len(),
            bytes@ == header@.subrange(from as int, i as int),
        decreases to - i,
    {
        bytes.push(header[i]);
        i = i + 1;
        assert(bytes@ =~= header@.subrange(from as int, i as int));
    }
    HeaderPart { field, bytes }
}

fn part_header(format: FileSinkFormat, header: &Vec<u8>) -> (r: Vec<HeaderPart>)
    requires
        header@.len() == header_layout(format).last().1,
    ensures
        header_parted(format, header@, r@),
{
    let mut parts: Vec<HeaderPart> = Vec::new();
    match format {
        FileSinkFormat::Wav => {
            parts.push(cut_part(header, HeaderField::File, 0, 44));
        },
        FileSinkFormat::Caf => {
            parts.push(cut_part(header, HeaderField::File, 0, 8));
            parts.push(cut_part(header, HeaderField::Description, 8, 20));
            parts.push(cut_part(header, HeaderField::SampleRate, 20, 28));
            parts.push(cut_part(header, HeaderField::Format, 28, 32));
            parts.push(cut_part(header, HeaderField::FormatFlags, 32, 36));
            parts.push(cut_part(header, HeaderField::BytesPerPacket, 36, 40));
            parts.push(cut_part(header, HeaderField::FramesPerPacket, 40, 44));
            parts.push(cut_part(header, HeaderField::ChannelsPerFrame, 44, 48));
            parts.push(cut_part(header, HeaderField::BitsPerChannel, 48, 52));
            parts.push(cut_part(header, HeaderField::Data, 52, 56));
            parts.push(cut_part(header, HeaderField::DataPosition, 56, 56));
            parts.push(cut_part(header, HeaderField::DataSize, 56, 64));
            parts.push(cut_part(header, HeaderField::EditCount, 64, 68));
        },
    }
    parts
}

/// What is written over the beginning of a WAV file at its end.
pub open spec fn wav_patches(data_bytes: u64, patches: Seq<FilePatch>) -> bool {
    &&& patches.len() == 2
    &&& patches[0].offset == 4
    &&& patches[0].bytes@ == little(
        if 36 + data_bytes > u32::MAX {
            u32::MAX as nat
        } else {
            (36 + data_bytes) as nat
        },
        4,
    )
    &&& patches[1].offset == 40
    &&& patches[1].bytes@ == little(data_bytes as nat, 4)
}

/// What is written over the beginning of a CAF file at its end.
pub open spec fn caf_patches(data_bytes: u64, patches: Seq<FilePatch>) -> bool {
    &&& patches.len() == 1
    &&& patches[0].offset == CAF_DATA_SIZE_OFFSET
    &&& patches[0].bytes@ == big(
        if data_bytes + 4 > u64::MAX {
            u64::MAX as nat
        } else {
            (data_bytes + 4) as nat
        },
        8,
    )
}

impl FileSinkWriter {
    /// The format of the recording.
    pub open spec fn format(self) -> FileSinkFormat {
        match self.inner {
            FileSinkInner::Wav(_) => FileSinkFormat::Wav,
            FileSinkInner::Caf(_) => FileSinkFormat::Caf,
        }
    }

    /// How many bytes of samples were written.
    pub open spec fn data_bytes(self) -> u64 {
        match self.inner {
            FileSinkInner::Wav(writer) => writer.data_bytes,
            FileSinkInner::Caf(writer) => writer.data_bytes,
        }
    }

    /// Begins a recording; what stands in front of its samples is given back, part by part.
    /// Without channels there is none.
    pub fn open(format: FileSinkFormat, sample_rate: u32, channels: u16) -> (r: Result<
        (FileSinkWriter, Vec<HeaderPart>),
        String,
    >)
        ensures
            match r {
                Err(text) => channels == 0 && text@ == "sink channels must be > 0"@,
                Ok(opened) => {
                    &&& channels > 0
                    &&& opened.0.format() == format
                    &&& opened.0.channels == channels
                    &&& opened.0.data_bytes() == 0
                    &&& header_parted(
                        format,
                        sink_header(format, sample_rate, channels),
                        opened.1@,
                    )
                },
            },
    {
        if channels == 0 {
            return Err(String::from_str("sink channels must be > 0"));
        }
        proof {
            lemma_wav_header_len(sample_rate, channels);
            lemma_caf_header_len(sample_rate, channels);
        }
        let (inner, header) = match format {
            FileSinkFormat::Wav => {
                let (writer, header) = WavWriter::open(sample_rate, channels);
                (FileSinkInner::Wav(writer), header)
            },
            FileSinkFormat::Caf => {
                let (writer, header) = CafWriter::open(sample_rate, channels);
                (FileSinkInner::Caf(writer), header)
            },
        };
        Ok((FileSinkWriter { inner, channels }, part_header(format, &header)))
    }

    /// The bytes of a batch, which has to hold as many samples as its frames say. The
    /// recording that results is given back too; it is the one to go on with once the bytes
    /// are written.
    pub fn write_interleaved(&self, samples: &Vec<u32>, frames: usize) -> (r: Result<
        (FileSinkWriter, Vec<u8>),
        String,
    >)
        ensures
            match r {
                Ok(written) => {
                    &&& samples@.len() == capped_product(frames as int, self.channels as int)
                    &&& written.0.format() == self.format()
                    &&& written.0.channels == self.channels
                    &&& written.0.data_bytes() == bytes_with(self.data_bytes(), samples@.len())
                    &&& written.1@ == sample_bytes(samples@)
                },
                Err(text) => {
                    &&& samples@.len() != capped_product(frames as int, self.channels as int)
                    &&& text@ == "sink sample count mismatch: expected "@ + decimal(
                        capped_product(frames as int, self.channels as int) as nat,
                    ) + ", got "@ + decimal(samples@.len())
                },
            },
    {
        match check_sample_count(samples.len(), frames, self.channels) {
            Err(text) => {
                return Err(text);
            },
            Ok(_) => {},
        }
        match &self.inner {
            FileSinkInner::Wav(writer) => {
                let mut writer = WavWriter { data_bytes: writer.data_bytes };
                let bytes = writer.write_interleaved(samples);
                let inner = FileSinkInner::Wav(writer);
                Ok((FileSinkWriter { inner, channels: self.channels }, bytes))
            },
            FileSinkInner::Caf(writer) => {
                let mut writer = CafWriter { data_bytes: writer.data_bytes };
                let bytes = writer.write_interleaved(samples);
                let inner = FileSinkInner::Caf(writer);
                Ok((FileSinkWriter { inner, channels: self.channels }, bytes))
            },
        }
    }

    /// What to write over the beginning of the file in the end. A WAV file of more data than
    /// its size can say is an error.
    pub fn finalize(&self) -> (r: Result<Vec<FilePatch>, String>)
        ensures
            match (self.format(), r) {
                (FileSinkFormat::Wav, Ok(patches)) => self.data_bytes() <= u32::MAX && wav_patches(
                    self.data_bytes(),
                    patches@,
                ),
                (FileSinkFormat::Wav, Err(text)) => self.data_bytes() > u32::MAX && text@
                    == "wav sink exceeded 4GB data chunk size"@,
                (FileSinkFormat::Caf, Ok(patches)) => caf_patches(self.data_bytes(), patches@),
                (FileSinkFormat::Caf, Err(_)) => false,
            },
    {
        match &self.inner {
            FileSinkInner::Wav(writer) => writer.finalize(),
            FileSinkInner::Caf(writer) => {
                let mut patches: Vec<FilePatch> = Vec::new();
                patches.push(writer.finalize());
                Ok(patches)
            },
        }
    }
}

/// A recording that is written batch by batch holds the same bytes as one that is written at
/// once.
pub proof fn law_batches_join(a: Seq<u32>, b: Seq<u32>)
    ensures
        sample_bytes(a + b) == sample_bytes(a) + sample_bytes(b),
    decreases b.len(),
{
    if b.len() == 0 {
        assert(a + b =~= a);
        assert(sample_bytes(a) + sample_bytes(b) =~= sample_bytes(a));
    } else {
        law_batches_join(a, b.drop_last());
        assert((a + b).drop_last() =~= a + b.drop_last());
        assert((a + b).last() == b.last());
        assert(sample_bytes(a + b) =~= sample_bytes(a) + sample_bytes(b));
    }
}

/// A finished WAV recording: with its sizes written over its beginning, it says how many bytes
/// of samples it holds and how many bytes follow its first size, and the samples stand behind
/// the header.
pub proof fn law_finished_wav_says_its_sizes(
    sample_rate: u32,
    channels: u16,
    samples: Seq<u32>,
    patches: Seq<FilePatch>,
)
    requires
        36 + 4 * samples.len() <= u32::MAX,
        wav_patches((4 * samples.len()) as u64, patches),
    ensures
        ({
            let file = sink_header(FileSinkFormat::Wav, sample_rate, channels) + sample_bytes(
                samples,
            );
            let once = patched(file, patches[0].offset as int, patches[0].bytes@);
            let done = patched(once, patches[1].offset as int, patches[1].bytes@);
            &&& patches.len() == 2
            &&& done.len() == file.len()
            &&& read_little(done.subrange(4, 8)) == done.len() - 8
            &&& read_little(done.subrange(40, 44)) == 4 * samples.len()
            &&& done.subrange(44, done.len() as int) == sample_bytes(samples)
            &&& done.subrange(0, 4) == file.subrange(0, 4)
            &&& done.subrange(8, 40) == file.subrange(8, 40)
        }),
{
    let header = sink_header(FileSinkFormat::Wav, sample_rate, channels);
    let data = sample_bytes(samples);
    let file = header + data;
    let n = 4 * samples.len();
    lemma_wav_header_len(sample_rate, channels);
    lemma_sample_bytes_len(samples);
    lemma_byte_lengths((36 + n) as nat, 4);
    lemma_byte_lengths(n as nat, 4);
    let once = patched(file, patches[0].offset as int, patches[0].bytes@);
    let done = patched(once, patches[1].offset as int, patches[1].bytes@);
    assert(byte_range(4) == 0x1_0000_0000) by {
        reveal_with_fuel(byte_range, 5);
    }
    law_numbers_are_read_back((36 + n) as nat, 4);
    law_numbers_are_read_back(n as nat, 4);
    assert(done.subrange(4, 8) =~= little((36 + n) as nat, 4));
    assert(done.subrange(40, 44) =~= little(n as nat, 4));
    assert(done.subrange(44, done.len() as int) =~= data);
    assert(done.subrange(0, 4) =~= file.subrange(0, 4));
    assert(done.subrange(8, 40) =~= file.subrange(8, 40));
}

/// A finished CAF recording says how many bytes follow the size of its data, and the samples
/// stand behind the header.
pub proof fn law_finished_caf_says_its_size(
    sample_rate: u32,
    channels: u16,
    samples: Seq<u32>,
    patches: Seq<FilePatch>,
)
    requires
        4 * samples.len() + 4 <= u64::MAX,
        caf_patches((4 * samples.len()) as u64, patches),
    ensures
        ({
            let file = sink_header(FileSinkFormat::Caf, sample_rate, channels) + sample_bytes(
                samples,
            );
            let done = patched(file, patches[0].offset as int, patches[0].bytes@);
            &&& patches.len() == 1
            &&& done.len() == file.len()
            &&& read_big(done.subrange(56, 64)) == done.len() - 64
            &&& done.subrange(68, done.len() as int) == sample_bytes(samples)
            &&& done.subrange(0, 56) == file.subrange(0, 56)
            &&& done.subrange(64, 68) == file.subrange(64, 68)
        }),
{
    let header = sink_header(FileSinkFormat::Caf, sample_rate, channels);
    let data = sample_bytes(samples);
    let file = header + data;
    let n = 4 * samples.len();
    lemma_caf_header_len(sample_rate, channels);
    lemma_sample_bytes_len(samples);
    lemma_byte_lengths((n + 4) as nat, 8);
    let done = patched(file, patches[0].offset as int, patches[0].bytes@);
    assert(byte_range(8) == 0x1_0000_0000_0000_0000) by {
        reveal_with_fuel(byte_range, 9);
    }
    law_numbers_are_read_back((n + 4) as nat, 8);
    assert(done.subrange(56, 64) =~= big((n + 4) as nat, 8));
    assert(done.subrange(68, done.len() as int) =~= data);
    assert(done.subrange(0, 56) =~= file.subrange(0, 56));
    assert(done.subrange(64, 68) =~= file.subrange(64, 68));
}

} // verus!
