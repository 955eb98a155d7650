//! The bytes of recordings: WAV and CAF files of single-precision samples.

use crate::render_loop::{capped_product, saturating_product};
use crate::text::{decimal, decimal_text};
use vstd::arithmetic::power2::pow2;
use vstd::prelude::*;
use vstd::string::*;

verus! {

// ---------------------------------------------------------------------------
// Numbers as bytes

/// The `k` lowest bytes of a number, lowest first.
pub open spec fn little(n: nat, k: nat) -> Seq<u8>
    decreases k,
{
    if k == 0 {
        Seq::empty()
    } else {
        seq![(n % 256) as u8] + little(n / 256, (k - 1) as nat)
    }
}

/// The `k` lowest bytes of a number, highest first.
pub open spec fn big(n: nat, k: nat) -> Seq<u8>
    decreases k,
{
    if k == 0 {
        Seq::empty()
    } else {
        big(n / 256, (k - 1) as nat).push((n % 256) as u8)
    }
}

/// A number takes as many bytes as it is given.
pub proof fn lemma_byte_lengths(n: nat, k: nat)
    ensures
        little(n, k).len() == k,
        big(n, k).len() == k,
    decreases k,
{
    if k > 0 {
        lemma_byte_lengths(n / 256, (k - 1) as nat);
    }
}

fn push_little(out: &mut Vec<u8>, n: u64, k: usize)
    ensures
        final(out)@ == old(out)@ + little(n as nat, k as nat),
{
    let ghost before = out@;
    let mut rest: u64 = n;
    let mut i: usize = 0;
    assert(little(n as nat, k as nat) =~= Seq::<u8>::empty() + little(rest as nat, k as nat));
    let ghost mut done = Seq::<u8>::empty();
    assert(out@ =~= before + done);
    while i < k
        invariant
            i <= k,
            out@ == before + done,
            done + little(rest as nat, (k - i) as nat) == little(n as nat, k as nat),
        decreases k - i,
    {
        let byte: u8 = (rest % 256) as u8;
        out.push(byte);
        proof {
            let next = little((rest / 256) as nat, (k - i - 1) as nat);
            assert(done + (seq![byte] + next) =~= done.push(byte) + next);
            assert(out@ =~= before + done.push(byte));
            done = done.push(byte);
        }
        rest = rest / 256;
        i = i + 1;
    }
    assert(done + Seq::<u8>::empty() =~= done);
}

fn push_big(out: &mut Vec<u8>, n: u64, k: usize)
    ensures
        final(out)@ == old(out)@ + big(n as nat, k as nat),
    decreases k,
{
    let ghost before = out@;
    if k > 0 {
        push_big(out, n / 256, k - 1);
        let byte: u8 = (n % 256) as u8;
        out.push(byte);
    }
    assert(out@ =~= before + big(n as nat, k as nat));
}

fn push_four(out: &mut Vec<u8>, a: u8, b: u8, c: u8, d: u8)
    ensures
        final(out)@ == old(out)@ + seq![a, b, c, d],
{
    let ghost before = out@;
    out.push(a);
    out.push(b);
    out.push(c);
    out.push(d);
    assert(out@ =~= before + seq![a, b, c, d]);
}

// ---------------------------------------------------------------------------
// Whole numbers as double-precision patterns

/// The largest exponent of a power of two that is not above a number.
pub open spec fn floor_log2(n: nat) -> nat
    decreases n,
{
    if n < 2 {
        0
    } else {
        1 + floor_log2(n / 2)
    }
}

/// The bit pattern of a whole number below two to the thirty-second, in double precision:
/// zero, or an exponent and what stands behind the leading bit, moved up to fifty-two bits.
pub open spec fn double_bits(n: nat) -> nat {
    if n == 0 {
        0
    } else {
        let e = floor_log2(n);
        ((1023 + e) * pow2(52) + (n - pow2(e)) * (pow2(52) / pow2(e))) as nat
    }
}

proof fn lemma_floor_log2(n: nat)
    requires
        n >= 1,
    ensures
        pow2(floor_log2(n)) <= n < pow2(floor_log2(n) + 1),
        pow2(floor_log2(n)) > 0,
    decreases n,
{
    vstd::arithmetic::power2::lemma2_to64();
    if n >= 2 {
        lemma_floor_log2(n / 2);
        let e = floor_log2(n / 2);
        vstd::arithmetic::power2::lemma_pow2_unfold(e + 1);
        vstd::arithmetic::power2::lemma_pow2_unfold(e + 2);
    }
}

proof fn lemma_pow2_divides(e: nat)
    requires
        e <= 52,
    ensures
        (pow2(52) / pow2(e)) * pow2(e) == pow2(52),
        pow2(52) / pow2(e) == pow2((52 - e) as nat),
{
    vstd::arithmetic::power2::lemma_pow2_adds((52 - e) as nat, e);
    vstd::arithmetic::power2::lemma_pow2_pos(e);
    let p = pow2(e) as int;
    let q = pow2((52 - e) as nat) as int;
    vstd::arithmetic::div_mod::lemma_div_multiples_vanish(q, p);
    assert(q * p == p * q) by (nonlinear_arith);
}

/// The pattern stands for the number: the significand, with its leading bit, times the
/// power of two is the number times two to the fifty-second.
pub proof fn law_double_bits_stand_for_the_number(n: nat)
    requires
        1 <= n <= u32::MAX,
    ensures
        ({
            let e = floor_log2(n);
            let fraction = (double_bits(n) - (1023 + e) * pow2(52)) as int;
            &&& e < 32
            &&& 0 <= fraction < pow2(52)
            &&& (pow2(52) + fraction) * pow2(e) == n * pow2(52)
        }),
{
    let e = floor_log2(n);
    lemma_floor_log2(n);
    vstd::arithmetic::power2::lemma2_to64();
    if e >= 32 {
        vstd::arithmetic::power2::lemma_pow2_strictly_increases(31, e);
        if e > 32 {
            vstd::arithmetic::power2::lemma_pow2_strictly_increases(32, e);
        }
        assert(pow2(32) <= pow2(e));
        assert(false);
    }
    lemma_pow2_divides(e);
    vstd::arithmetic::power2::lemma_pow2_pos((52 - e) as nat);
    let p = pow2(e) as int;
    let q = (pow2(52) / pow2(e)) as int;
    let m = n - p;
    vstd::arithmetic::power2::lemma_pow2_unfold(e + 1);
    assert(m < p);
    assert(m * q >= 0 && m * q < p * q && (p * q + m * q) * p == n * (p * q)) by (nonlinear_arith)
        requires
            0 <= m < p,
            q > 0,
            n == p + m,
    ;
    assert(p * q == q * p) by (nonlinear_arith);
}

fn double_bits_of(n: u32) -> (r: u64)
    ensures
        r == double_bits(n as nat),
{
    if n == 0 {
        return 0;
    }
    let wide: u64 = n as u64;
    let mut e: u64 = 0;
    let mut p: u64 = 1;
    proof {
        vstd::arithmetic::power2::lemma2_to64();
        lemma_floor_log2(n as nat);
    }
    let ghost target = floor_log2(n as nat);
    while 2 * p <= wide
        invariant
            1 <= p <= wide <= u32::MAX,
            wide == n,
            p == pow2(e as nat),
            e < 32,
            pow2(target) <= n < pow2(target + 1),
        decreases wide - p,
    {
        proof {
            vstd::arithmetic::power2::lemma_pow2_unfold((e + 1) as nat);
            if e >= 31 {
                vstd::arithmetic::power2::lemma2_to64();
                assert(e == 31);
                assert(p == 0x8000_0000);
            }
        }
        p = 2 * p;
        e = e + 1;
    }
    proof {
        vstd::arithmetic::power2::lemma_pow2_unfold((e + 1) as nat);
        if e < target {
            vstd::arithmetic::power2::lemma_pow2_strictly_increases(e as nat, target);
            if e + 1 < target {
                vstd::arithmetic::power2::lemma_pow2_strictly_increases((e + 1) as nat, target);
            }
        }
        if target < e {
            vstd::arithmetic::power2::lemma_pow2_strictly_increases(target, e as nat);
            if target + 1 < e {
                vstd::arithmetic::power2::lemma_pow2_strictly_increases(target + 1, e as nat);
            }
        }
        assert(e == target);
        lemma_pow2_divides(e as nat);
        law_double_bits_stand_for_the_number(n as nat);
        vstd::arithmetic::power2::lemma2_to64();
        vstd::arithmetic::power2::lemma_pow2_adds(26, 26);
    }
    let unit: u64 = 0x10_0000_0000_0000;
    proof {
        assert(unit == pow2(52)) by {
            vstd::arithmetic::power2::lemma2_to64();
            vstd::arithmetic::power2::lemma_pow2_adds(32, 20);
            assert(0x1_0000_0000 * 0x10_0000 == 0x10_0000_0000_0000);
        }
        let q = pow2(52) / pow2(e as nat);
        assert((wide - p) * (unit / p) < unit) by {
            assert(unit / p == q);
        }
        assert((1023 + e) * unit <= 1055 * unit) by (nonlinear_arith)
            requires
                e < 32,
                unit >= 0,
        ;
    }
    (1023 + e) * unit + (wide - p) * (unit / p)
}

// ---------------------------------------------------------------------------
// Samples

/// The bytes of samples, each by its bit pattern, lowest byte first.
pub open spec fn sample_bytes(samples: Seq<u32>) -> Seq<u8>
    decreases samples.len(),
{
    if samples.len() == 0 {
        Seq::empty()
    } else {
        sample_bytes(samples.drop_last()) + little(samples.last() as nat, 4)
    }
}

/// Every sample takes four bytes.
pub proof fn lemma_sample_bytes_len(samples: Seq<u32>)
    ensures
        sample_bytes(samples).len() == 4 * samples.len(),
    decreases samples.len(),
{
    if samples.len() > 0 {
        lemma_sample_bytes_len(samples.drop_last());
        lemma_byte_lengths(samples.last() as nat, 4);
    }
}

fn encode_samples(samples: &Vec<u32>) -> (r: Vec<u8>)
    ensures
        r@ == sample_bytes(samples@),
{
    let mut out: Vec<u8> = Vec::new();
    let mut i: usize = 0;
    assert(samples@.take(0) =~= Seq::<u32>::empty());
    while i < samples.len()
        invariant
            i <= samples.len(),
            out@ == sample_bytes(samples@.take(i as int)),
        decreases samples.len() - i,
    {
        push_little(&mut out, samples[i] as u64, 4);
        assert(samples@.take(i + 1).drop_last() =~= samples@.take(i as int));
        i = i + 1;
    }
    assert(samples@.take(i as int) =~= samples@);
    out
}

/// A count of bytes with those of more samples; it stops at its largest value.
pub open spec fn bytes_with(count: u64, samples: nat) -> u64 {
    let more = capped_product(samples as int, 4);
    if count + more > u64::MAX {
        u64::MAX
    } else {
        (count + more) as u64
    }
}

/// A batch has to hold as many samples as its frames and channels say.
pub fn check_sample_count(samples: usize, frames: usize, channels: u16) -> (r: Result<(), String>)
    ensures
        r is Ok <==> samples == capped_product(frames as int, channels as int),
        r matches Err(text) ==> text@ == "sink sample count mismatch: expected "@ + decimal(
            capped_product(frames as int, channels as int) as nat,
        ) + ", got "@ + decimal(samples as nat),
{
    let expected = saturating_product(frames, channels as usize);
    if samples == expected {
        return Ok(());
    }
    let mut text = String::from_str("sink sample count mismatch: expected ");
    text.append(decimal_text(expected as u64).as_str());
    text.append(", got ");
    text.append(decimal_text(samples as u64).as_str());
    Err(text)
}

/// Bytes to write over those at a place of a file.
#[derive(Debug, PartialEq, Eq)]
pub struct FilePatch {
    pub offset: u64,
    pub bytes: Vec<u8>,
}

/// A file with bytes written over those at a place.
pub open spec fn patched(file: Seq<u8>, offset: int, bytes: Seq<u8>) -> Seq<u8> {
    file.subrange(0, offset) + bytes + file.subrange(offset + bytes.len(), file.len() as int)
}

// ---------------------------------------------------------------------------
// WAV

/// The bytes in front of the samples of a WAV file, before its sizes are known.
pub open spec fn wav_header(sample_rate: u32, channels: u16) -> Seq<u8> {
    let block_align = if channels * 4 > u16::MAX {
        u16::MAX as int
    } else {
        channels * 4
    };
    let byte_rate = if sample_rate * block_align > u32::MAX {
        u32::MAX as int
    } else {
        sample_rate * block_align
    };
    seq![0x52u8, 0x49u8, 0x46u8, 0x46u8] + little(0, 4) + seq![0x57u8, 0x41u8, 0x56u8, 0x45u8]
        + seq![0x66u8, 0x6du8, 0x74u8, 0x20u8] + little(16, 4) + little(3, 2) + little(
        channels as nat,
        2,
    ) + little(sample_rate as nat, 4) + little(byte_rate as nat, 4) + little(block_align as nat, 2)
        + little(32, 2) + seq![0x64u8, 0x61u8, 0x74u8, 0x61u8] + little(0, 4)
}

/// A WAV file while it is written.
#[derive(Debug)]
pub struct WavWriter {
    pub data_bytes: u64,
}

impl WavWriter {
    /// Begins a file; its first bytes are given back.
    pub fn open(sample_rate: u32, channels: u16) -> (r: (WavWriter, Vec<u8>))
        ensures
            r.0.data_bytes == 0,
            r.1@ == wav_header(sample_rate, channels),
    {
        let block_align: u16 = match channels.checked_mul(4) {
            Some(n) => n,
            None => u16::MAX,
        };
        let byte_rate: u32 = match sample_rate.checked_mul(block_align as u32) {
            Some(n) => n,
            None => u32::MAX,
        };
        let mut out: Vec<u8> = Vec::new();
        push_four(&mut out, 0x52, 0x49, 0x46, 0x46);
        assert(out@ =~= seq![0x52u8, 0x49u8, 0x46u8, 0x46u8]);
        push_little(&mut out, 0, 4);
        push_four(&mut out, 0x57, 0x41, 0x56, 0x45);
        push_four(&mut out, 0x66, 0x6d, 0x74, 0x20);
        push_little(&mut out, 16, 4);
        push_little(&mut out, 3, 2);
        push_little(&mut out, channels as u64, 2);
        push_little(&mut out, sample_rate as u64, 4);
        push_little(&mut out, byte_rate as u64, 4);
        push_little(&mut out, block_align as u64, 2);
        push_little(&mut out, 32, 2);
        push_four(&mut out, 0x64, 0x61, 0x74, 0x61);
        push_little(&mut out, 0, 4);
        (WavWriter { data_bytes: 0 }, out)
    }

    /// The bytes of more samples.
    pub fn write_interleaved(&mut self, samples: &Vec<u32>) -> (r: Vec<u8>)
        ensures
            r@ == sample_bytes(samples@),
            final(self).data_bytes == bytes_with(old(self).data_bytes, samples@.len()),
    {
        let count = saturating_product(samples.len(), 4);
        self.data_bytes = self.data_bytes.saturating_add(count as u64);
        encode_samples(samples)
    }

    /// What to write over the beginning of the file once all samples are written: its
    /// sizes. More data than a size can say is an error.
    pub fn finalize(&self) -> (r: Result<Vec<FilePatch>, String>)
        ensures
            match r {
                Ok(patches) => {
                    &&& self.data_bytes <= u32::MAX
                    &&& patches@.len() == 2
                    &&& patches@[0].offset == 4
                    &&& patches@[0].bytes@ == little(
                        if 36 + self.data_bytes > u32::MAX {
                            u32::MAX as nat
                        } else {
                            (36 + self.data_bytes) as nat
                        },
                        4,
                    )
                    &&& patches@[1].offset == 40
                    &&& patches@[1].bytes@ == little(self.data_bytes as nat, 4)
                },
                Err(text) => self.data_bytes > u32::MAX && text@
                    == "wav sink exceeded 4GB data chunk size"@,
            },
    {
        if self.data_bytes > u32::MAX as u64 {
            return Err(String::from_str("wav sink exceeded 4GB data chunk size"));
        }
        let riff_size: u32 = (self.data_bytes as u32).saturating_add(36);
        let mut first: Vec<u8> = Vec::new();
        push_little(&mut first, riff_size as u64, 4);
        let mut second: Vec<u8> = Vec::new();
        push_little(&mut second, self.data_bytes, 4);
        assert(first@ =~= little(riff_size as nat, 4));
        assert(second@ =~= little(self.data_bytes as nat, 4));
        let mut patches: Vec<FilePatch> = Vec::new();
        patches.push(FilePatch { offset: 4, bytes: first });
        patches.push(FilePatch { offset: 40, bytes: second });
        Ok(patches)
    }
}

/// The header of a WAV file takes forty-four bytes.
pub proof fn lemma_wav_header_len(sample_rate: u32, channels: u16)
    ensures
        wav_header(sample_rate, channels).len() == 44,
{
    let block_align = if channels * 4 > u16::MAX {
        u16::MAX as int
    } else {
        channels * 4
    };
    let byte_rate = if sample_rate * block_align > u32::MAX {
        u32::MAX as int
    } else {
        sample_rate * block_align
    };
    lemma_byte_lengths(0, 4);
    lemma_byte_lengths(16, 4);
    lemma_byte_lengths(3, 2);
    lemma_byte_lengths(channels as nat, 2);
    lemma_byte_lengths(sample_rate as nat, 4);
    lemma_byte_lengths(byte_rate as nat, 4);
    lemma_byte_lengths(block_align as nat, 2);
    lemma_byte_lengths(32, 2);
}

/// A finished WAV file says its own size, less the eight bytes in front of that number, and
/// the size of its data.
pub proof fn law_wav_sizes_match(sample_rate: u32, channels: u16, samples: Seq<u32>)
    requires
        36 + 4 * samples.len() <= u32::MAX,
    ensures
        ({
            let data = sample_bytes(samples);
            let file = wav_header(sample_rate, channels) + data;
            let done = patched(
                patched(file, 4, little((36 + data.len()) as nat, 4)),
                40,
                little(data.len(), 4),
            );
            &&& done.len() == 44 + data.len()
            &&& done.subrange(4, 8) == little((done.len() - 8) as nat, 4)
            &&& done.subrange(40, 44) == little((done.len() - 44) as nat, 4)
            &&& done.subrange(44, done.len() as int) == data
        }),
{
    let data = sample_bytes(samples);
    lemma_sample_bytes_len(samples);
    lemma_wav_header_len(sample_rate, channels);
    lemma_byte_lengths((36 + data.len()) as nat, 4);
    lemma_byte_lengths(data.len(), 4);
    let file = wav_header(sample_rate, channels) + data;
    let first = patched(file, 4, little((36 + data.len()) as nat, 4));
    let done = patched(first, 40, little(data.len(), 4));
    assert(done.subrange(4, 8) =~= little((done.len() - 8) as nat, 4));
    assert(done.subrange(40, 44) =~= little((done.len() - 44) as nat, 4));
    assert(done.subrange(44, done.len() as int) =~= data);
}

// ---------------------------------------------------------------------------
// CAF

/// Where the size of the data stands in a CAF file.
pub const CAF_DATA_SIZE_OFFSET: u64 = 56;

/// The bytes in front of the samples of a CAF file, before its size is known.
pub open spec fn caf_header(sample_rate: u32, channels: u16) -> Seq<u8> {
    seq![0x63u8, 0x61u8, 0x66u8, 0x66u8] + big(1, 2) + big(0, 2) + seq![
        0x64u8,
        0x65u8,
        0x73u8,
        0x63u8,
    ] + big(32, 8) + big(double_bits(sample_rate as nat), 8) + seq![0x6cu8, 0x70u8, 0x63u8, 0x6du8]
        + big(11, 4) + big((channels * 4) as nat, 4) + big(1, 4) + big(channels as nat, 4) + big(
        32,
        4,
    ) + seq![0x64u8, 0x61u8, 0x74u8, 0x61u8] + big(0, 8) + big(0, 4)
}

/// A CAF file while it is written.
#[derive(Debug)]
pub struct CafWriter {
    pub data_bytes: u64,
}

impl CafWriter {
    /// Begins a file; its first bytes are given back.
    pub fn open(sample_rate: u32, channels: u16) -> (r: (CafWriter, Vec<u8>))
        ensures
            r.0.data_bytes == 0,
            r.1@ == caf_header(sample_rate, channels),
    {
        let mut out: Vec<u8> = Vec::new();
        push_four(&mut out, 0x63, 0x61, 0x66, 0x66);
        assert(out@ =~= seq![0x63u8, 0x61u8, 0x66u8, 0x66u8]);
        push_big(&mut out, 1, 2);
        push_big(&mut out, 0, 2);
        push_four(&mut out, 0x64, 0x65, 0x73, 0x63);
        push_big(&mut out, 32, 8);
        push_big(&mut out, double_bits_of(sample_rate), 8);
        push_four(&mut out, 0x6c, 0x70, 0x63, 0x6d);
        push_big(&mut out, 11, 4);
        push_big(&mut out, (channels as u64) * 4, 4);
        push_big(&mut out, 1, 4);
        push_big(&mut out, channels as u64, 4);
        push_big(&mut out, 32, 4);
        push_four(&mut out, 0x64, 0x61, 0x74, 0x61);
        push_big(&mut out, 0, 8);
        push_big(&mut out, 0, 4);
        (CafWriter { data_bytes: 0 }, out)
    }

    /// The bytes of more samples.
    pub fn write_interleaved(&mut self, samples: &Vec<u32>) -> (r: Vec<u8>)
        ensures
            r@ == sample_bytes(samples@),
            final(self).data_bytes == bytes_with(old(self).data_bytes, samples@.len()),
    {
        let count = saturating_product(samples.len(), 4);
        self.data_bytes = self.data_bytes.saturating_add(count as u64);
        encode_samples(samples)
    }

    /// What to write over the beginning of the file once all samples are written: the size
    /// of its data, which counts four bytes in front of the samples.
    pub fn finalize(&self) -> (r: FilePatch)
        ensures
            r.offset == CAF_DATA_SIZE_OFFSET,
            r.bytes@ == big(
                if self.data_bytes + 4 > u64::MAX {
                    u64::MAX as nat
                } else {
                    (self.data_bytes + 4) as nat
                },
                8,
            ),
    {
        let size = self.data_bytes.saturating_add(4);
        let mut bytes: Vec<u8> = Vec::new();
        push_big(&mut bytes, size, 8);
        assert(bytes@ =~= big(size as nat, 8));
        FilePatch { offset: CAF_DATA_SIZE_OFFSET, bytes }
    }
}

/// The bytes in front of the samples are always as many.
pub proof fn lemma_caf_header_len(sample_rate: u32, channels: u16)
    ensures
        caf_header(sample_rate, channels).len() == 68,
{
    lemma_byte_lengths(1, 2);
    lemma_byte_lengths(0, 2);
    lemma_byte_lengths(32, 8);
    lemma_byte_lengths(double_bits(sample_rate as nat), 8);
    lemma_byte_lengths(11, 4);
    lemma_byte_lengths((channels * 4) as nat, 4);
    lemma_byte_lengths(1, 4);
    lemma_byte_lengths(channels as nat, 4);
    lemma_byte_lengths(32, 4);
    lemma_byte_lengths(0, 8);
    lemma_byte_lengths(0, 4);
}

/// A finished CAF file says the size of its data from behind that number to its end.
pub proof fn law_caf_size_matches(sample_rate: u32, channels: u16, samples: Seq<u32>)
    requires
        4 * samples.len() + 4 <= u64::MAX,
    ensures
        ({
            let data = sample_bytes(samples);
            let file = caf_header(sample_rate, channels) + data;
            let done = patched(
                file,
                CAF_DATA_SIZE_OFFSET as int,
                big((data.len() + 4) as nat, 8),
            );
            &&& done.len() == 68 + data.len()
            &&& done.subrange(56, 64) == big((done.len() - 64) as nat, 8)
            &&& done.subrange(68, done.len() as int) == data
        }),
{
    let data = sample_bytes(samples);
    lemma_sample_bytes_len(samples);
    lemma_caf_header_len(sample_rate, channels);
    lemma_byte_lengths(0, 8);
    lemma_byte_lengths(0, 4);
    lemma_byte_lengths((data.len() + 4) as nat, 8);
    let file = caf_header(sample_rate, channels) + data;
    let done = patched(file, CAF_DATA_SIZE_OFFSET as int, big((data.len() + 4) as nat, 8));
    assert(done.subrange(56, 64) =~= big((done.len() - 64) as nat, 8));
    assert(done.subrange(68, done.len() as int) =~= data);
}

// ---------------------------------------------------------------------------
// Reading back

/// The number that bytes stand for, the lowest first.
pub open spec fn read_little(bytes: Seq<u8>) -> nat
    decreases bytes.len(),
{
    if bytes.len() == 0 {
        0
    } else {
        bytes[0] as nat + 256 * read_little(bytes.skip(1))
    }
}

/// The number that bytes stand for, the highest first.
pub open spec fn read_big(bytes: Seq<u8>) -> nat
    decreases bytes.len(),
{
    if bytes.len() == 0 {
        0
    } else {
        256 * read_big(bytes.drop_last()) + bytes.last() as nat
    }
}

/// How many numbers there are of so many bytes.
pub open spec fn byte_range(k: nat) -> nat
    decreases k,
{
    if k == 0 {
        1
    } else {
        256 * byte_range((k - 1) as nat)
    }
}

/// A number that has room in its bytes can be read back from them.
pub proof fn law_numbers_are_read_back(n: nat, k: nat)
    requires
        n < byte_range(k),
    ensures
        read_little(little(n, k)) == n,
        read_big(big(n, k)) == n,
    decreases k,
{
    if k > 0 {
        let j = (k - 1) as nat;
        law_numbers_are_read_back(n / 256, j);
        assert(little(n, k).skip(1) =~= little(n / 256, j));
        assert(big(n, k).drop_last() =~= big(n / 256, j));
        assert(n == 256 * (n / 256) + n % 256);
    }
}

proof fn lemma_byte_ranges()
    ensures
        byte_range(2) == 0x1_0000,
        byte_range(4) == 0x1_0000_0000,
        byte_range(8) == 0x1_0000_0000_0000_0000,
{
    reveal_with_fuel(byte_range, 9);
}

/// Every sample can be read back from its four bytes, and they stand in order.
pub proof fn law_samples_are_read_back(samples: Seq<u32>, i: int)
    requires
        0 <= i < samples.len(),
    ensures
        sample_bytes(samples).len() == 4 * samples.len(),
        read_little(sample_bytes(samples).subrange(4 * i, 4 * i + 4)) == samples[i],
    decreases samples.len(),
{
    let rest = samples.drop_last();
    lemma_sample_bytes_len(samples);
    lemma_sample_bytes_len(rest);
    lemma_byte_lengths(samples.last() as nat, 4);
    if i < rest.len() {
        law_samples_are_read_back(rest, i);
        assert(sample_bytes(samples).subrange(4 * i, 4 * i + 4) =~= sample_bytes(rest).subrange(
            4 * i,
            4 * i + 4,
        ));
    } else {
        lemma_byte_ranges();
        law_numbers_are_read_back(samples.last() as nat, 4);
        assert(sample_bytes(samples).subrange(4 * i, 4 * i + 4) =~= little(
            samples.last() as nat,
            4,
        ));
    }
}

/// The header of a WAV file describes the samples behind it: floating-point numbers of as many
/// bits as the bytes of a sample have, in frames of one sample for each channel, so many frames
/// a second. It names its parts, and the size of the format is that of what follows it.
#[verifier::spinoff_prover]
#[verifier::rlimit(60)]
pub proof fn law_wav_header_describes_the_samples(sample_rate: u32, channels: u16, sample: u32)
    requires
        channels < 16384,
    ensures
        ({
            let h = wav_header(sample_rate, channels);
            let bits = read_little(h.subrange(34, 36));
            let block_align = read_little(h.subrange(32, 34));
            let byte_rate = read_little(h.subrange(28, 32));
            &&& h.len() == 44
            &&& h.subrange(0, 4) == seq![82u8, 73u8, 70u8, 70u8]
            &&& h.subrange(8, 16) == seq![87u8, 65u8, 86u8, 69u8, 102u8, 109u8, 116u8, 32u8]
            &&& h.subrange(36, 40) == seq![100u8, 97u8, 116u8, 97u8]
            &&& read_little(h.subrange(16, 20)) == 36 - 20
            &&& read_little(h.subrange(20, 22)) == 3
            &&& read_little(h.subrange(22, 24)) == channels
            &&& read_little(h.subrange(24, 28)) == sample_rate
            &&& bits == 8 * sample_bytes(seq![sample]).len()
            &&& 8 * block_align == channels * bits
            &&& sample_rate * block_align <= u32::MAX ==> byte_rate == sample_rate * block_align
            &&& sample_rate * block_align > u32::MAX ==> byte_rate == u32::MAX
        }),
{
    let h = wav_header(sample_rate, channels);
    let block_align = channels * 4;
    let byte_rate = if sample_rate * block_align > u32::MAX {
        u32::MAX as int
    } else {
        sample_rate * block_align
    };
    assert(sample_rate * block_align >= 0) by (nonlinear_arith)
        requires
            sample_rate >= 0,
            block_align >= 0,
    ;
    lemma_wav_header_len(sample_rate, channels);
    lemma_sample_bytes_len(seq![sample]);
    lemma_byte_ranges();
    lemma_byte_lengths(0, 4);
    lemma_byte_lengths(16, 4);
    lemma_byte_lengths(3, 2);
    lemma_byte_lengths(channels as nat, 2);
    lemma_byte_lengths(sample_rate as nat, 4);
    lemma_byte_lengths(byte_rate as nat, 4);
    lemma_byte_lengths(block_align as nat, 2);
    lemma_byte_lengths(32, 2);
    law_numbers_are_read_back(16, 4);
    law_numbers_are_read_back(3, 2);
    law_numbers_are_read_back(channels as nat, 2);
    law_numbers_are_read_back(sample_rate as nat, 4);
    law_numbers_are_read_back(byte_rate as nat, 4);
    law_numbers_are_read_back(block_align as nat, 2);
    law_numbers_are_read_back(32, 2);
    assert(h.subrange(0, 4) =~= seq![82u8, 73u8, 70u8, 70u8]);
    assert(h.subrange(8, 16) =~= seq![87u8, 65u8, 86u8, 69u8, 102u8, 109u8, 116u8, 32u8]);
    assert(h.subrange(36, 40) =~= seq![100u8, 97u8, 116u8, 97u8]);
    assert(h.subrange(16, 20) =~= little(16, 4));
    assert(h.subrange(20, 22) =~= little(3, 2));
    assert(h.subrange(22, 24) =~= little(channels as nat, 2));
    assert(h.subrange(24, 28) =~= little(sample_rate as nat, 4));
    assert(h.subrange(28, 32) =~= little(byte_rate as nat, 4));
    assert(h.subrange(32, 34) =~= little(block_align as nat, 2));
    assert(h.subrange(34, 36) =~= little(32, 2));
}

/// The header of a CAF file describes the samples behind it: linear, floating-point and with
/// the lowest byte first, packets of one frame, as many bits as the bytes of a sample have, and
/// a packet of one sample for each channel. It names its parts, and the size of the description
/// is that of what follows it.
#[verifier::spinoff_prover]
#[verifier::rlimit(60)]
pub proof fn law_caf_header_describes_the_samples(sample_rate: u32, channels: u16, sample: u32)
    ensures
        ({
            let h = caf_header(sample_rate, channels);
            let flags = read_big(h.subrange(32, 36));
            let packet_bytes = read_big(h.subrange(36, 40));
            let packet_frames = read_big(h.subrange(40, 44));
            let bits = read_big(h.subrange(48, 52));
            &&& h.len() == 68
            &&& h.subrange(0, 4) == seq![99u8, 97u8, 102u8, 102u8]
            &&& read_big(h.subrange(4, 6)) == 1
            &&& read_big(h.subrange(6, 8)) == 0
            &&& h.subrange(8, 12) == seq![100u8, 101u8, 115u8, 99u8]
            &&& read_big(h.subrange(12, 20)) == 52 - 20
            &&& h.subrange(28, 32) == seq![108u8, 112u8, 99u8, 109u8]
            &&& flags == 1 + 2 + 8
            &&& packet_frames == 1
            &&& read_big(h.subrange(44, 48)) == channels
            &&& bits == 8 * sample_bytes(seq![sample]).len()
            &&& 8 * packet_bytes == packet_frames * channels * bits
            &&& h.subrange(52, 56) == seq![100u8, 97u8, 116u8, 97u8]
            &&& read_big(h.subrange(64, 68)) == 0
        }),
{
    let h = caf_header(sample_rate, channels);
    lemma_caf_header_len(sample_rate, channels);
    lemma_sample_bytes_len(seq![sample]);
    lemma_byte_ranges();
    lemma_byte_lengths(1, 2);
    lemma_byte_lengths(0, 2);
    lemma_byte_lengths(32, 8);
    lemma_byte_lengths(double_bits(sample_rate as nat), 8);
    lemma_byte_lengths(11, 4);
    lemma_byte_lengths((channels * 4) as nat, 4);
    lemma_byte_lengths(1, 4);
    lemma_byte_lengths(channels as nat, 4);
    lemma_byte_lengths(32, 4);
    lemma_byte_lengths(0, 8);
    lemma_byte_lengths(0, 4);
    law_numbers_are_read_back(1, 2);
    law_numbers_are_read_back(0, 2);
    law_numbers_are_read_back(32, 8);
    law_numbers_are_read_back(11, 4);
    law_numbers_are_read_back((channels * 4) as nat, 4);
    law_numbers_are_read_back(1, 4);
    law_numbers_are_read_back(channels as nat, 4);
    law_numbers_are_read_back(32, 4);
    law_numbers_are_read_back(0, 4);
    assert(h.subrange(0, 4) =~= seq![99u8, 97u8, 102u8, 102u8]);
    assert(h.subrange(4, 6) =~= big(1, 2));
    assert(h.subrange(6, 8) =~= big(0, 2));
    assert(h.subrange(8, 12) =~= seq![100u8, 101u8, 115u8, 99u8]);
    assert(h.subrange(12, 20) =~= big(32, 8));
    assert(h.subrange(28, 32) =~= seq![108u8, 112u8, 99u8, 109u8]);
    assert(h.subrange(32, 36) =~= big(11, 4));
    assert(h.subrange(36, 40) =~= big((channels * 4) as nat, 4));
    assert(h.subrange(40, 44) =~= big(1, 4));
    assert(h.subrange(44, 48) =~= big(channels as nat, 4));
    assert(h.subrange(48, 52) =~= big(32, 4));
    assert(h.subrange(52, 56) =~= seq![100u8, 97u8, 116u8, 97u8]);
    assert(h.subrange(64, 68) =~= big(0, 4));
}

/// The header of a CAF file gives the sample rate as a double-precision number: its exponent and
/// its significand make up the rate.
pub proof fn law_caf_header_gives_the_rate(sample_rate: u32, channels: u16)
    requires
        sample_rate > 0,
    ensures
        ({
            let pattern = read_big(caf_header(sample_rate, channels).subrange(20, 28)) as int;
            let exponent = pattern / (pow2(52) as int);
            let fraction = pattern % (pow2(52) as int);
            &&& 1023 <= exponent < 1055
            &&& (pow2(52) + fraction) * pow2((exponent - 1023) as nat) == sample_rate * pow2(52)
        }),
{
    let n = sample_rate as nat;
    let h = caf_header(sample_rate, channels);
    let e = floor_log2(n);
    law_double_bits_stand_for_the_number(n);
    lemma_caf_header_len(sample_rate, channels);
    lemma_byte_ranges();
    lemma_byte_lengths(1, 2);
    lemma_byte_lengths(0, 2);
    lemma_byte_lengths(32, 8);
    lemma_byte_lengths(double_bits(n), 8);
    assert(h.subrange(20, 28) =~= big(double_bits(n), 8));
    let unit = pow2(52) as int;
    assert(unit == 0x10_0000_0000_0000) by {
        vstd::arithmetic::power2::lemma2_to64();
        vstd::arithmetic::power2::lemma_pow2_adds(32, 20);
    }
    let fraction = double_bits(n) - (1023 + e) * unit;
    vstd::arithmetic::div_mod::lemma_fundamental_div_mod_converse(
        double_bits(n) as int,
        unit,
        1023 + e as int,
        fraction,
    );
    assert(double_bits(n) < 0x1_0000_0000_0000_0000);
    law_numbers_are_read_back(double_bits(n), 8);
}

/// The count of bytes grows by four for each sample.
pub proof fn law_every_sample_counts_four_bytes(count: u64, samples: Seq<u32>)
    requires
        4 * samples.len() <= usize::MAX,
        count + 4 * samples.len() <= u64::MAX,
    ensures
        bytes_with(count, samples.len()) == count + sample_bytes(samples).len(),
{
    lemma_sample_bytes_len(samples);
}

/// A WAV file begins with a header that describes its samples.
#[verifier::spinoff_prover]
#[verifier::rlimit(60)]
pub proof fn law_wav_open(sample_rate: u32, channels: u16, r: (WavWriter, Vec<u8>), sample: u32)
    requires
        call_ensures(WavWriter::open, (sample_rate, channels), r),
        channels < 16384,
    ensures
        r.0.data_bytes == 0,
        r.1@.len() == 44,
        read_little(r.1@.subrange(20, 22)) == 3,
        read_little(r.1@.subrange(22, 24)) == channels,
        read_little(r.1@.subrange(24, 28)) == sample_rate,
        sample_rate * channels * 4 <= u32::MAX ==> read_little(r.1@.subrange(28, 32)) == sample_rate
            * channels * 4,
        read_little(r.1@.subrange(32, 34)) == channels * 4,
        read_little(r.1@.subrange(34, 36)) == 8 * sample_bytes(seq![sample]).len(),
        read_little(r.1@.subrange(34, 36)) == 32,
{
    lemma_wav_open(sample_rate, channels, r.1@, sample);
}

#[verifier::spinoff_prover]
#[verifier::rlimit(60)]
proof fn lemma_wav_open(sample_rate: u32, channels: u16, h: Seq<u8>, sample: u32)
    requires
        h == wav_header(sample_rate, channels),
        channels < 16384,
    ensures
        h.len() == 44,
        read_little(h.subrange(20, 22)) == 3,
        read_little(h.subrange(22, 24)) == channels,
        read_little(h.subrange(24, 28)) == sample_rate,
        sample_rate * channels * 4 <= u32::MAX ==> read_little(h.subrange(28, 32)) == sample_rate
            * channels * 4,
        read_little(h.subrange(32, 34)) == channels * 4,
        read_little(h.subrange(34, 36)) == 8 * sample_bytes(seq![sample]).len(),
        read_little(h.subrange(34, 36)) == 32,
{
    law_wav_header_describes_the_samples(sample_rate, channels, sample);
    lemma_sample_bytes_len(seq![sample]);
    let block_align = read_little(h.subrange(32, 34)) as int;
    let bits = read_little(h.subrange(34, 36)) as int;
    assert(bits == 32);
    assert(block_align == channels * 4) by (nonlinear_arith)
        requires
            8 * block_align == channels * bits,
            bits == 32,
    ;
    assert(sample_rate * (channels * 4) == sample_rate * channels * 4) by (nonlinear_arith);
}

/// A CAF file begins with a header that describes its samples.
#[verifier::spinoff_prover]
#[verifier::rlimit(60)]
pub proof fn law_caf_open(sample_rate: u32, channels: u16, r: (CafWriter, Vec<u8>), sample: u32)
    requires
        call_ensures(CafWriter::open, (sample_rate, channels), r),
    ensures
        r.0.data_bytes == 0,
        r.1@.len() == 68,
        read_big(r.1@.subrange(32, 36)) == 11,
        read_big(r.1@.subrange(36, 40)) == channels * 4,
        read_big(r.1@.subrange(40, 44)) == 1,
        read_big(r.1@.subrange(44, 48)) == channels,
        read_big(r.1@.subrange(48, 52)) == 32,
{
    lemma_caf_open(sample_rate, channels, caf_header(sample_rate, channels), sample);
}

#[verifier::spinoff_prover]
#[verifier::rlimit(60)]
proof fn lemma_caf_open(sample_rate: u32, channels: u16, h: Seq<u8>, sample: u32)
    requires
        h == caf_header(sample_rate, channels),
    ensures
        h.len() == 68,
        read_big(h.subrange(32, 36)) == 11,
        read_big(h.subrange(36, 40)) == channels * 4,
        read_big(h.subrange(40, 44)) == 1,
        read_big(h.subrange(44, 48)) == channels,
        read_big(h.subrange(48, 52)) == 32,
{
    law_caf_header_describes_the_samples(sample_rate, channels, sample);
    lemma_sample_bytes_len(seq![sample]);
    let packet = read_big(h.subrange(36, 40)) as int;
    let frames = read_big(h.subrange(40, 44)) as int;
    let bits = read_big(h.subrange(48, 52)) as int;
    assert(bits == 32 && frames == 1);
    assert(packet == channels * 4) by (nonlinear_arith)
        requires
            8 * packet == frames * channels * bits,
            bits == 32,
            frames == 1,
    ;
}

/// The sizes of a WAV file are written where its header has them: its size less eight bytes at
/// the fourth byte, and the size of its data at the fortieth.
pub proof fn law_wav_finalize(writer: WavWriter, r: Result<Vec<FilePatch>, String>)
    requires
        call_ensures(WavWriter::finalize, (&writer,), r),
    ensures
        r is Ok <==> writer.data_bytes <= u32::MAX,
        r is Ok && writer.data_bytes + 36 <= u32::MAX ==> {
            &&& r->Ok_0@.len() == 2
            &&& r->Ok_0@[0].offset == 4
            &&& read_little(r->Ok_0@[0].bytes@) == writer.data_bytes + 36
            &&& r->Ok_0@[1].offset == 40
            &&& read_little(r->Ok_0@[1].bytes@) == writer.data_bytes
        },
{
    if r is Ok && writer.data_bytes + 36 <= u32::MAX {
        lemma_byte_ranges();
        law_numbers_are_read_back((writer.data_bytes + 36) as nat, 4);
        law_numbers_are_read_back(writer.data_bytes as nat, 4);
    }
}

/// The size of the data of a CAF file, with four bytes more, is written at the fifty-sixth byte.
pub proof fn law_caf_finalize(writer: CafWriter, r: FilePatch)
    requires
        call_ensures(CafWriter::finalize, (&writer,), r),
        writer.data_bytes + 4 <= u64::MAX,
    ensures
        r.offset == 56,
        read_big(r.bytes@) == writer.data_bytes + 4,
        r.bytes@.len() == 8,
{
    lemma_byte_ranges();
    lemma_byte_lengths((writer.data_bytes + 4) as nat, 8);
    law_numbers_are_read_back((writer.data_bytes + 4) as nat, 8);
}

/// What is written for samples holds each of them in four bytes, and counts them.
pub proof fn law_wav_write(writer: &mut WavWriter, samples: Vec<u32>, r: Vec<u8>, i: int)
    requires
        call_ensures(WavWriter::write_interleaved, (writer, &samples), r),
        0 <= i < samples@.len(),
        4 * samples@.len() <= usize::MAX,
        old(writer).data_bytes + 4 * samples@.len() <= u64::MAX,
    ensures
        r@.len() == 4 * samples@.len(),
        read_little(r@.subrange(4 * i, 4 * i + 4)) == samples@[i],
        final(writer).data_bytes == old(writer).data_bytes + r@.len(),
{
    law_samples_are_read_back(samples@, i);
    law_every_sample_counts_four_bytes(old(writer).data_bytes, samples@);
}

/// What is written for samples of a CAF file holds each of them in four bytes, and counts them.
pub proof fn law_caf_write(writer: &mut CafWriter, samples: Vec<u32>, r: Vec<u8>, i: int)
    requires
        call_ensures(CafWriter::write_interleaved, (writer, &samples), r),
        0 <= i < samples@.len(),
        4 * samples@.len() <= usize::MAX,
        old(writer).data_bytes + 4 * samples@.len() <= u64::MAX,
    ensures
        r@.len() == 4 * samples@.len(),
        read_little(r@.subrange(4 * i, 4 * i + 4)) == samples@[i],
        final(writer).data_bytes == old(writer).data_bytes + r@.len(),
{
    law_samples_are_read_back(samples@, i);
    law_every_sample_counts_four_bytes(old(writer).data_bytes, samples@);
}

/// A batch is taken exactly where it holds as many samples as its frames have channels.
pub proof fn law_check_sample_count(
    samples: usize,
    frames: usize,
    channels: u16,
    r: Result<(), String>,
)
    requires
        call_ensures(check_sample_count, (samples, frames, channels), r),
        frames * channels <= usize::MAX,
    ensures
        r is Ok <==> samples == frames * channels,
{
}

} // verus!
