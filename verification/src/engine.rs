//! The engine: how the audio of one buffer goes through the graph.
//!
//! Samples are held by their bit patterns. What is computed of them is left to the
//! arithmetic that the caller hands in; which sample goes through which operation stands
//! here.

use crate::number::Real32;
use crate::profile::{MixConfig, MixMode, ProcessorKind};
use crate::text::{decimal, decimal_text};
use vstd::prelude::*;
use vstd::string::*;

verus! {

/// Why a buffer was not rendered.
#[derive(Debug, PartialEq, Eq)]
pub enum EngineError {
    InvalidFrames,
    InvalidSourceSampleCount { id: String, channels: u16 },
}

/// What an engine error says.
pub open spec fn engine_error_text(e: EngineError) -> Seq<char> {
    match e {
        EngineError::InvalidFrames => "render frames must be > 0"@,
        EngineError::InvalidSourceSampleCount { id, channels } => "source '"@ + id@
            + "' sample count is not aligned with channels "@ + decimal(channels as nat),
    }
}

impl EngineError {
    /// The text of the error.
    pub fn message(&self) -> (r: String)
        ensures
            r@ == engine_error_text(*self),
    {
        match self {
            EngineError::InvalidFrames => String::from_str("render frames must be > 0"),
            EngineError::InvalidSourceSampleCount { id, channels } => {
                let mut text = String::from_str("source '");
                text.append(id.as_str());
                text.append("' sample count is not aligned with channels ");
                text.append(decimal_text(*channels as u64).as_str());
                text
            },
        }
    }
}

/// The arithmetic on samples, by their bit patterns.
pub trait SampleMath {
    /// The sum, and the sample times the factor added to it.
    fn multiply_add(&self, sum: u32, sample: u32, factor: u32) -> u32;

    /// The sum of two samples.
    fn plus(&self, a: u32, b: u32) -> u32;

    /// The sample times the factor.
    fn times(&self, sample: u32, factor: u32) -> u32;

    /// The factor of a gain in decibels.
    fn gain_factor(&self, gain_db: u32) -> u32;

    /// The factors of a pan for the left and the right channel.
    fn pan_factors(&self, pan: u32) -> (u32, u32);

    /// The sample divided by a count.
    fn divided(&self, sample: u32, count: usize) -> u32;

    /// The sample limited to a level in decibels.
    fn limited(&self, sample: u32, limit_dbfs: u32) -> u32;

    /// What a filter of a kind makes of samples, from its settings, the sample rate and what it
    /// remembers: what it remembers then, and the samples. It remembers nothing at first.
    fn process(
        &self,
        kind: ProcessorKind,
        config_json: &String,
        sample_rate: u32,
        memory: &Vec<u32>,
        samples: &Vec<u32>,
        channels: usize,
    ) -> (Vec<u32>, Vec<u32>);
}

// ---------------------------------------------------------------------------
// Operations on buffers

/// Silence of a length.
pub open spec fn silence(n: int) -> Seq<u32> {
    Seq::new(n as nat, |i: int| 0u32)
}

/// The sample at a place, silence behind the end.
pub open spec fn sample_at(source: Seq<u32>, i: int) -> u32 {
    if 0 <= i < source.len() {
        source[i]
    } else {
        0
    }
}

/// The result of adding up `n` samples, each times its factor, from silence on.
pub open spec fn weighted_sum<M: SampleMath>(
    math: &M,
    source: Seq<u32>,
    source_base: int,
    matrix: Seq<Real32>,
    row_base: int,
    n: int,
    result: u32,
) -> bool
    decreases n,
{
    if n <= 0 {
        result == 0
    } else {
        exists|sum: u32| #[trigger]
            call_ensures(
                M::multiply_add,
                (
                    math,
                    sum,
                    sample_at(source, source_base + n - 1),
                    matrix[row_base + n - 1].bits,
                ),
                result,
            ) && weighted_sum(math, source, source_base, matrix, row_base, n - 1, sum)
    }
}

/// Frames of the source through a matrix: each destination channel is the weighted sum of
/// the source channels by its row. A matrix of another size gives silence.
pub open spec fn matrix_mixed<M: SampleMath>(
    math: &M,
    source: Seq<u32>,
    source_channels: int,
    destination_channels: int,
    frames: int,
    matrix: Seq<Real32>,
    out: Seq<u32>,
) -> bool {
    if matrix.len() != source_channels * destination_channels {
        out == silence(frames * destination_channels)
    } else {
        &&& out.len() == frames * destination_channels
        &&& forall|i: int|
            0 <= i < out.len() ==> weighted_sum(
                math,
                source,
                (i / destination_channels) * source_channels,
                matrix,
                (i % destination_channels) * source_channels,
                source_channels,
                #[trigger] out[i],
            )
    }
}

/// Mixes frames of the source through a matrix.
pub fn matrix_mix_into<M: SampleMath>(
    math: &M,
    source: &Vec<u32>,
    source_channels: usize,
    destination_channels: usize,
    frames: usize,
    matrix: &Vec<Real32>,
) -> (r: Vec<u32>)
    requires
        source_channels * destination_channels <= usize::MAX,
        frames * destination_channels <= usize::MAX,
        frames * source_channels <= usize::MAX,
    ensures
        matrix_mixed(
            math,
            source@,
            source_channels as int,
            destination_channels as int,
            frames as int,
            matrix@,
            r@,
        ),
{
    let ghost sc = source_channels as int;
    let ghost dc = destination_channels as int;
    proof {
        assert(frames * dc >= 0 && sc * dc >= 0) by (nonlinear_arith)
            requires
                frames >= 0,
                dc >= 0,
                sc >= 0,
        ;
    }
    let mut out: Vec<u32> = Vec::new();
    if matrix.len() != source_channels * destination_channels {
        out.resize(frames * destination_channels, 0);
        assert(out@ =~= silence(frames * dc));
        return out;
    }
    let mut f: usize = 0;
    while f < frames
        invariant
            f <= frames,
            sc == source_channels,
            dc == destination_channels,
            frames * destination_channels <= usize::MAX,
            frames * source_channels <= usize::MAX,
            matrix@.len() == sc * dc,
            out@.len() == f * dc,
            forall|i: int|
                0 <= i < out@.len() ==> weighted_sum(
                    math,
                    source@,
                    (i / dc) * sc,
                    matrix@,
                    (i % dc) * sc,
                    sc,
                    #[trigger] out@[i],
                ),
        decreases frames - f,
    {
        proof {
            assert(f * sc <= frames * sc && f * sc >= 0 && (f + 1) * dc == f * dc + dc && f * sc + sc
                <= frames * sc) by (nonlinear_arith)
                requires
                    f + 1 <= frames,
                    f >= 0,
                    sc >= 0,
            ;
        }
        let source_base = f * source_channels;
        let mut d: usize = 0;
        while d < destination_channels
            invariant
                f < frames,
                d <= destination_channels,
                sc == source_channels,
                dc == destination_channels,
                source_base == f * sc,
                source_base + sc <= frames * source_channels <= usize::MAX,
                matrix@.len() == sc * dc,
                out@.len() == f * dc + d,
                forall|i: int|
                    0 <= i < out@.len() ==> weighted_sum(
                        math,
                        source@,
                        (i / dc) * sc,
                        matrix@,
                        (i % dc) * sc,
                        sc,
                        #[trigger] out@[i],
                    ),
            decreases destination_channels - d,
        {
            proof {
                assert(d * sc >= 0 && d * sc + sc <= sc * dc) by (nonlinear_arith)
                    requires
                        d + 1 <= dc,
                        d >= 0,
                        sc >= 0,
                ;
                assert(f * dc >= 0) by (nonlinear_arith)
                    requires
                        f >= 0,
                        dc >= 0,
                ;
            }
            let cells = matrix.len();
            let row_base = d * source_channels;
            let mut sum: u32 = 0;
            let mut s: usize = 0;
            while s < source_channels
                invariant
                    s <= source_channels,
                    sc == source_channels,
                    cells == matrix@.len(),
                    row_base + sc <= cells,
                    source_base + sc <= usize::MAX,
                    weighted_sum(
                        math,
                        source@,
                        source_base as int,
                        matrix@,
                        row_base as int,
                        s as int,
                        sum,
                    ),
                decreases source_channels - s,
            {
                let sample = if source_base + s < source.len() {
                    source[source_base + s]
                } else {
                    0
                };
                let factor = matrix[row_base + s].to_bits();
                let next = math.multiply_add(sum, sample, factor);
                assert(weighted_sum(
                    math,
                    source@,
                    source_base as int,
                    matrix@,
                    row_base as int,
                    s + 1,
                    next,
                )) by {
                    assert(sample == sample_at(source@, source_base + s));
                    assert(call_ensures(
                        M::multiply_add,
                        (
                            math,
                            sum,
                            sample_at(source@, source_base + (s + 1) - 1),
                            matrix@[row_base + (s + 1) - 1].bits,
                        ),
                        next,
                    ));
                }
                sum = next;
                s = s + 1;
            }
            proof {
                vstd::arithmetic::div_mod::lemma_fundamental_div_mod_converse(
                    f * dc + d,
                    dc,
                    f as int,
                    d as int,
                );
            }
            out.push(sum);
            d = d + 1;
        }
        f = f + 1;
    }
    out
}

/// Samples after a gain: silence where the route is muted, else each times one factor.
pub open spec fn gained<M: SampleMath>(
    math: &M,
    before: Seq<u32>,
    gain_db: Real32,
    mute: bool,
    after: Seq<u32>,
) -> bool {
    if mute {
        after == silence(before.len() as int)
    } else {
        exists|factor: u32| #[trigger]
            call_ensures(M::gain_factor, (math, gain_db.bits), factor) && scaled(
                math,
                before,
                factor,
                after,
            )
    }
}

/// Each sample times one factor.
pub open spec fn scaled<M: SampleMath>(
    math: &M,
    before: Seq<u32>,
    factor: u32,
    after: Seq<u32>,
) -> bool {
    &&& after.len() == before.len()
    &&& forall|i: int|
        0 <= i < after.len() ==> call_ensures(
            M::times,
            (math, before[i], factor),
            #[trigger] after[i],
        )
}

/// Applies a gain.
pub fn apply_gain<M: SampleMath>(math: &M, samples: &mut Vec<u32>, gain_db: Real32, mute: bool)
    ensures
        gained(math, old(samples)@, gain_db, mute, final(samples)@),
{
    let ghost before = samples@;
    if mute {
        let len = samples.len();
        samples.clear();
        samples.resize(len, 0);
        assert(samples@ =~= silence(before.len() as int));
        return ;
    }
    let factor = math.gain_factor(gain_db.to_bits());
    assert(call_ensures(M::gain_factor, (math, gain_db.bits), factor));
    let mut i: usize = 0;
    while i < samples.len()
        invariant
            i <= samples.len(),
            samples@.len() == before.len(),
            forall|k: int|
                0 <= k < i ==> call_ensures(
                    M::times,
                    (math, before[k], factor),
                    #[trigger] samples@[k],
                ),
            forall|k: int| i <= k < samples@.len() ==> samples@[k] == before[k],
        decreases samples.len() - i,
    {
        let sample = math.times(samples[i], factor);
        samples.set(i, sample);
        i = i + 1;
    }
    assert(scaled(math, before, factor, samples@));
}

/// Samples after a pan: only two channels are panned, each by its factor; a sample behind
/// the last pair stays.
pub open spec fn panned<M: SampleMath>(
    math: &M,
    before: Seq<u32>,
    channels: int,
    pan: Real32,
    after: Seq<u32>,
) -> bool {
    if channels != 2 {
        after == before
    } else {
        exists|factors: (u32, u32)| #[trigger]
            call_ensures(M::pan_factors, (math, pan.bits), factors) && balanced(
                math,
                before,
                factors,
                after,
            )
    }
}

/// Each left sample times the first factor, each right sample times the second.
pub open spec fn balanced<M: SampleMath>(
    math: &M,
    before: Seq<u32>,
    factors: (u32, u32),
    after: Seq<u32>,
) -> bool {
    &&& after.len() == before.len()
    &&& forall|i: int|
        0 <= i < after.len() ==> if i / 2 * 2 + 2 > before.len() {
            #[trigger] after[i] == before[i]
        } else {
            call_ensures(
                M::times,
                (
                    math,
                    before[i],
                    if i % 2 == 0 {
                        factors.0
                    } else {
                        factors.1
                    },
                ),
                after[i],
            )
        }
}

/// Applies a pan.
pub fn apply_pan<M: SampleMath>(math: &M, samples: &mut Vec<u32>, channels: usize, pan: Real32)
    ensures
        panned(math, old(samples)@, channels as int, pan, final(samples)@),
{
    if channels != 2 {
        return ;
    }
    let ghost before = samples@;
    let factors = math.pan_factors(pan.to_bits());
    assert(call_ensures(M::pan_factors, (math, pan.bits), factors));
    let len = samples.len();
    let frames = len / 2;
    let mut f: usize = 0;
    while f < frames
        invariant
            f <= frames,
            len == before.len(),
            frames == len / 2,
            samples@.len() == before.len(),
            forall|i: int|
                0 <= i < 2 * f ==> call_ensures(
                    M::times,
                    (
                        math,
                        before[i],
                        if i % 2 == 0 {
                            factors.0
                        } else {
                            factors.1
                        },
                    ),
                    #[trigger] samples@[i],
                ),
            forall|i: int| 2 * f <= i < samples@.len() ==> samples@[i] == before[i],
        decreases frames - f,
    {
        let left = math.times(samples[2 * f], factors.0);
        let right = math.times(samples[2 * f + 1], factors.1);
        samples.set(2 * f, left);
        samples.set(2 * f + 1, right);
        f = f + 1;
    }
    assert(balanced(math, before, factors, samples@));
}

/// A buffer with another added, as far as both reach.
pub open spec fn accumulated<M: SampleMath>(
    math: &M,
    target: Seq<u32>,
    source: Seq<u32>,
    after: Seq<u32>,
) -> bool {
    &&& after.len() == target.len()
    &&& forall|i: int|
        0 <= i < after.len() ==> if i < source.len() {
            call_ensures(M::plus, (math, target[i], source[i]), #[trigger] after[i])
        } else {
            after[i] == target[i]
        }
}

/// Adds a buffer to another.
pub fn accumulate<M: SampleMath>(math: &M, target: &mut Vec<u32>, source: &Vec<u32>)
    ensures
        accumulated(math, old(target)@, source@, final(target)@),
{
    let ghost before = target@;
    let n = if target.len() < source.len() {
        target.len()
    } else {
        source.len()
    };
    let mut i: usize = 0;
    while i < n
        invariant
            i <= n,
            n <= source.len(),
            n <= target.len(),
            n == source@.len() || n == before.len(),
            target@.len() == before.len(),
            forall|k: int|
                0 <= k < i ==> call_ensures(
                    M::plus,
                    (math, before[k], source@[k]),
                    #[trigger] target@[k],
                ),
            forall|k: int| i <= k < target@.len() ==> target@[k] == before[k],
        decreases n - i,
    {
        let sample = math.plus(target[i], source[i]);
        target.set(i, sample);
        i = i + 1;
    }
}

/// Every sample divided by a count.
pub open spec fn all_divided<M: SampleMath>(
    math: &M,
    before: Seq<u32>,
    count: usize,
    after: Seq<u32>,
) -> bool {
    &&& after.len() == before.len()
    &&& forall|i: int|
        0 <= i < after.len() ==> call_ensures(
            M::divided,
            (math, before[i], count),
            #[trigger] after[i],
        )
}

/// Every sample limited.
pub open spec fn all_limited<M: SampleMath>(
    math: &M,
    before: Seq<u32>,
    limit_dbfs: Real32,
    after: Seq<u32>,
) -> bool {
    &&& after.len() == before.len()
    &&& forall|i: int|
        0 <= i < after.len() ==> call_ensures(
            M::limited,
            (math, before[i], limit_dbfs.bits),
            #[trigger] after[i],
        )
}

/// The average of the contributions, where a node mixes so and more than one came in.
pub open spec fn averaged<M: SampleMath>(
    math: &M,
    mix: MixConfig,
    contributions: usize,
    before: Seq<u32>,
    after: Seq<u32>,
) -> bool {
    if mix.mode == MixMode::Average && contributions > 1 {
        all_divided(math, before, contributions, after)
    } else {
        after == before
    }
}

/// What leaves a node: the average where it mixes so and more than one route leads to it,
/// then limited where it has a limiter.
pub open spec fn sink_finished<M: SampleMath>(
    math: &M,
    mix: Option<MixConfig>,
    contributions: usize,
    before: Seq<u32>,
    after: Seq<u32>,
) -> bool {
    match mix {
        None => after == before,
        Some(mix) => exists|middle: Seq<u32>|
            {
                &&& #[trigger] averaged(math, mix, contributions, before, middle)
                &&& if mix.limiter {
                    all_limited(math, middle, mix.limit_dbfs, after)
                } else {
                    after == middle
                }
            },
    }
}

/// Finishes the buffer of a node.
pub fn finish_sink<M: SampleMath>(
    math: &M,
    mix: Option<MixConfig>,
    contributions: usize,
    buffer: &mut Vec<u32>,
)
    ensures
        sink_finished(math, mix, contributions, old(buffer)@, final(buffer)@),
{
    let ghost before = buffer@;
    match mix {
        None => {},
        Some(mix) => {
            if mix.mode == MixMode::Average && contributions > 1 {
                let mut i: usize = 0;
                while i < buffer.len()
                    invariant
                        i <= buffer.len(),
                        buffer@.len() == before.len(),
                        forall|k: int|
                            0 <= k < i ==> call_ensures(
                                M::divided,
                                (math, before[k], contributions),
                                #[trigger] buffer@[k],
                            ),
                        forall|k: int| i <= k < buffer@.len() ==> buffer@[k] == before[k],
                    decreases buffer.len() - i,
                {
                    let sample = math.divided(buffer[i], contributions);
                    buffer.set(i, sample);
                    i = i + 1;
                }
                assert(all_divided(math, before, contributions, buffer@));
            }
            let ghost middle = buffer@;
            if mix.limiter {
                let mut i: usize = 0;
                while i < buffer.len()
                    invariant
                        i <= buffer.len(),
                        buffer@.len() == middle.len(),
                        forall|k: int|
                            0 <= k < i ==> call_ensures(
                                M::limited,
                                (math, middle[k], mix.limit_dbfs.bits),
                                #[trigger] buffer@[k],
                            ),
                        forall|k: int| i <= k < buffer@.len() ==> buffer@[k] == middle[k],
                    decreases buffer.len() - i,
                {
                    let sample = math.limited(buffer[i], mix.limit_dbfs.to_bits());
                    buffer.set(i, sample);
                    i = i + 1;
                }
                assert(all_limited(math, middle, mix.limit_dbfs, buffer@));
            }
            assert(averaged(math, mix, contributions, before, middle));
        },
    }
}

// ---------------------------------------------------------------------------
// Laws

/// A pan of two channels: in every whole frame the left sample is multiplied by the left factor
/// of the pan and the right sample by the right one. A sample without a partner stays.
pub proof fn law_pan_weighs_left_and_right<M: SampleMath>(
    math: &M,
    before: Seq<u32>,
    pan: Real32,
    after: Seq<u32>,
)
    requires
        panned(math, before, 2, pan, after),
    ensures
        after.len() == before.len(),
        exists|left: u32, right: u32| #[trigger]
            call_ensures(M::pan_factors, (math, pan.bits), (left, right)) && (forall|
                l: int,
                r: int,
            |
                #![trigger after[l], after[r]]
                0 <= l && l % 2 == 0 && r == l + 1 && r < before.len() ==> call_ensures(
                    M::times,
                    (math, before[l], left),
                    after[l],
                ) && call_ensures(M::times, (math, before[r], right), after[r])),
        before.len() % 2 == 1 ==> after.last() == before.last(),
{
    let factors = choose|factors: (u32, u32)| #[trigger]
        call_ensures(M::pan_factors, (math, pan.bits), factors) && balanced(
            math,
            before,
            factors,
            after,
        );
    let (left, right) = factors;
    assert(call_ensures(M::pan_factors, (math, pan.bits), (left, right)));
    assert forall|l: int, r: int|
        #![trigger after[l], after[r]]
        0 <= l && l % 2 == 0 && r == l + 1 && r < before.len() implies call_ensures(
        M::times,
        (math, before[l], left),
        after[l],
    ) && call_ensures(M::times, (math, before[r], right), after[r]) by {
        assert(after[l] == after[l] && after[r] == after[r]);
    }
}

/// A sound that is panned to one side, so that the other side has a factor that silences, is
/// heard on that side alone and there as it was.
pub proof fn law_hard_pan_keeps_one_side<M: SampleMath>(
    math: &M,
    before: Seq<u32>,
    pan: Real32,
    after: Seq<u32>,
    silencing: u32,
    keeping: u32,
    to_the_right: bool,
    l: int,
)
    requires
        panned(math, before, 2, pan, after),
        forall|left: u32, right: u32|
            call_ensures(M::pan_factors, (math, pan.bits), (left, right)) ==> (left, right) == if to_the_right {
                (silencing, keeping)
            } else {
                (keeping, silencing)
            },
        forall|x: u32, y: u32| call_ensures(M::times, (math, x, silencing), y) ==> y == 0,
        forall|x: u32, y: u32| call_ensures(M::times, (math, x, keeping), y) ==> y == x,
        0 <= l,
        l % 2 == 0,
        l + 1 < before.len(),
    ensures
        to_the_right ==> after[l] == 0 && after[l + 1] == before[l + 1],
        !to_the_right ==> after[l] == before[l] && after[l + 1] == 0,
{
    law_pan_weighs_left_and_right(math, before, pan, after);
    let (left, right) = choose|left: u32, right: u32| #[trigger]
        call_ensures(M::pan_factors, (math, pan.bits), (left, right)) && (forall|l: int, r: int|
            #![trigger after[l], after[r]]
            0 <= l && l % 2 == 0 && r == l + 1 && r < before.len() ==> call_ensures(
                M::times,
                (math, before[l], left),
                after[l],
            ) && call_ensures(M::times, (math, before[r], right), after[r]));
    let r = l + 1;
    assert(after[l] == after[l] && after[r] == after[r]);
}

/// Audio of any other number of channels than two is not panned.
pub proof fn law_only_stereo_is_panned<M: SampleMath>(
    math: &M,
    before: Seq<u32>,
    channels: int,
    pan: Real32,
    after: Seq<u32>,
)
    requires
        channels != 2,
        panned(math, before, channels, pan, after),
    ensures
        after == before,
{
}

/// What is muted is silent, as long as it was; what is not muted is multiplied by the factor of
/// its gain, every sample by the same.
pub proof fn law_gain_is_one_factor_and_mute_is_silence<M: SampleMath>(
    math: &M,
    before: Seq<u32>,
    gain_db: Real32,
    mute: bool,
    after: Seq<u32>,
)
    requires
        gained(math, before, gain_db, mute, after),
    ensures
        after.len() == before.len(),
        mute ==> forall|i: int| 0 <= i < after.len() ==> #[trigger] after[i] == 0,
        !mute ==> exists|factor: u32| #[trigger]
            call_ensures(M::gain_factor, (math, gain_db.bits), factor) && (forall|i: int|
                0 <= i < before.len() ==> call_ensures(
                    M::times,
                    (math, before[i], factor),
                    #[trigger] after[i],
                )),
{
    if !mute {
        let factor = choose|factor: u32| #[trigger]
            call_ensures(M::gain_factor, (math, gain_db.bits), factor) && scaled(
                math,
                before,
                factor,
                after,
            );
        assert(call_ensures(M::gain_factor, (math, gain_db.bits), factor));
    }
}

proof fn lemma_partial_sums<M: SampleMath>(
    math: &M,
    source: Seq<u32>,
    source_base: int,
    matrix: Seq<Real32>,
    row_base: int,
    n: int,
    result: u32,
) -> (sums: Seq<u32>)
    requires
        n >= 0,
        weighted_sum(math, source, source_base, matrix, row_base, n, result),
    ensures
        sums.len() == n + 1,
        sums[0] == 0,
        sums[n] == result,
        forall|s: int, t: int|
            #![trigger sums[s], sums[t]]
            0 <= s < n && t == s + 1 ==> call_ensures(
                M::multiply_add,
                (
                    math,
                    sums[s],
                    if 0 <= source_base + s < source.len() {
                        source[source_base + s]
                    } else {
                        0
                    },
                    matrix[row_base + s].bits,
                ),
                sums[t],
            ),
    decreases n,
{
    if n == 0 {
        seq![0u32]
    } else {
        let sum = choose|sum: u32| #[trigger]
            call_ensures(
                M::multiply_add,
                (
                    math,
                    sum,
                    sample_at(source, source_base + n - 1),
                    matrix[row_base + n - 1].bits,
                ),
                result,
            ) && weighted_sum(math, source, source_base, matrix, row_base, n - 1, sum);
        let rest = lemma_partial_sums(math, source, source_base, matrix, row_base, n - 1, sum);
        let sums = rest.push(result);
        assert forall|s: int, t: int|
            #![trigger sums[s], sums[t]]
            0 <= s < n && t == s + 1 implies call_ensures(
            M::multiply_add,
            (
                math,
                sums[s],
                if 0 <= source_base + s < source.len() {
                    source[source_base + s]
                } else {
                    0
                },
                matrix[row_base + s].bits,
            ),
            sums[t],
        ) by {
            if s < n - 1 {
                assert(rest[s] == sums[s] && rest[t] == sums[t]);
            } else {
                assert(sums[s] == sum);
            }
        }
        sums
    }
}

/// A matrix mixes frame by frame: a channel of a frame is added up from the channels of the
/// same frame of the source, each times the coefficient in the row of the channel, and starts
/// from silence. A source that ends early is silent from there on.
pub proof fn law_matrix_row_makes_a_channel<M: SampleMath>(
    math: &M,
    source: Seq<u32>,
    source_channels: int,
    destination_channels: int,
    frames: int,
    matrix: Seq<Real32>,
    out: Seq<u32>,
    frame: int,
    channel: int,
) -> (sums: Seq<u32>)
    requires
        source_channels >= 0,
        matrix.len() == source_channels * destination_channels,
        matrix_mixed(math, source, source_channels, destination_channels, frames, matrix, out),
        0 <= frame < frames,
        0 <= channel < destination_channels,
    ensures
        out.len() == frames * destination_channels,
        0 <= frame * destination_channels + channel < out.len(),
        sums.len() == source_channels + 1,
        sums[0] == 0,
        out[frame * destination_channels + channel] == sums[source_channels],
        forall|s: int, t: int|
            #![trigger sums[s], sums[t]]
            0 <= s < source_channels && t == s + 1 ==> call_ensures(
                M::multiply_add,
                (
                    math,
                    sums[s],
                    if frame * source_channels + s < source.len() {
                        source[frame * source_channels + s]
                    } else {
                        0
                    },
                    matrix[channel * source_channels + s].bits,
                ),
                sums[t],
            ),
{
    let i = frame * destination_channels + channel;
    vstd::arithmetic::div_mod::lemma_fundamental_div_mod_converse(
        i,
        destination_channels,
        frame,
        channel,
    );
    assert(0 <= i < frames * destination_channels && frame * source_channels >= 0)
        by (nonlinear_arith)
        requires
            i == frame * destination_channels + channel,
            0 <= frame < frames,
            0 <= channel < destination_channels,
            source_channels >= 0,
    ;
    assert(out[i] == out[i]);
    lemma_partial_sums(
        math,
        source,
        frame * source_channels,
        matrix,
        channel * source_channels,
        source_channels,
        out[i],
    )
}

/// A row that takes one channel as it is, and nothing of the others, hands that channel on.
pub proof fn law_unit_row_hands_a_channel_on<M: SampleMath>(
    math: &M,
    source: Seq<u32>,
    source_channels: int,
    destination_channels: int,
    frames: int,
    matrix: Seq<Real32>,
    out: Seq<u32>,
    frame: int,
    channel: int,
    taken: int,
    nothing: u32,
    one: u32,
)
    requires
        matrix.len() == source_channels * destination_channels,
        matrix_mixed(math, source, source_channels, destination_channels, frames, matrix, out),
        0 <= frame < frames,
        0 <= channel < destination_channels,
        0 <= taken < source_channels,
        frames * source_channels <= source.len(),
        forall|s: int|
            0 <= s < source_channels ==> (#[trigger] matrix[channel * source_channels + s]).bits
                == if s == taken {
                one
            } else {
                nothing
            },
        forall|sum: u32, x: u32, y: u32|
            call_ensures(M::multiply_add, (math, sum, x, nothing), y) ==> y == sum,
        forall|x: u32, y: u32| call_ensures(M::multiply_add, (math, 0u32, x, one), y) ==> y == x,
    ensures
        out[frame * destination_channels + channel] == source[frame * source_channels + taken],
{
    let sums = law_matrix_row_makes_a_channel(
        math,
        source,
        source_channels,
        destination_channels,
        frames,
        matrix,
        out,
        frame,
        channel,
    );
    assert(frame * source_channels + source_channels <= source.len()) by (nonlinear_arith)
        requires
            0 <= frame < frames,
            source_channels >= 0,
            frames * source_channels <= source.len(),
    ;
    lemma_unit_sums(
        math,
        source,
        frame * source_channels,
        matrix,
        channel * source_channels,
        sums,
        taken,
        nothing,
        one,
        source_channels,
    );
}

proof fn lemma_unit_sums<M: SampleMath>(
    math: &M,
    source: Seq<u32>,
    source_base: int,
    matrix: Seq<Real32>,
    row_base: int,
    sums: Seq<u32>,
    taken: int,
    nothing: u32,
    one: u32,
    n: int,
)
    requires
        0 <= n < sums.len(),
        sums[0] == 0,
        source_base + sums.len() - 1 <= source.len(),
        forall|s: int, t: int|
            #![trigger sums[s], sums[t]]
            0 <= s < sums.len() - 1 && t == s + 1 ==> call_ensures(
                M::multiply_add,
                (
                    math,
                    sums[s],
                    if source_base + s < source.len() {
                        source[source_base + s]
                    } else {
                        0
                    },
                    matrix[row_base + s].bits,
                ),
                sums[t],
            ),
        forall|s: int|
            0 <= s < sums.len() - 1 ==> (#[trigger] matrix[row_base + s]).bits == if s == taken {
                one
            } else {
                nothing
            },
        forall|sum: u32, x: u32, y: u32|
            call_ensures(M::multiply_add, (math, sum, x, nothing), y) ==> y == sum,
        forall|x: u32, y: u32| call_ensures(M::multiply_add, (math, 0u32, x, one), y) ==> y == x,
    ensures
        sums[n] == if n > taken && taken >= 0 {
            source[source_base + taken]
        } else {
            0
        },
    decreases n,
{
    if n > 0 {
        lemma_unit_sums(
            math,
            source,
            source_base,
            matrix,
            row_base,
            sums,
            taken,
            nothing,
            one,
            n - 1,
        );
        let s = n - 1;
        assert(sums[s] == sums[s] && sums[n] == sums[n]);
        assert(matrix[row_base + s].bits == if s == taken {
            one
        } else {
            nothing
        });
    }
}

/// What is added to a buffer is added sample by sample, as far as both reach.
pub proof fn law_accumulating_adds_sample_by_sample<M: SampleMath>(
    math: &M,
    target: Seq<u32>,
    source: Seq<u32>,
    after: Seq<u32>,
    i: int,
)
    requires
        accumulated(math, target, source, after),
        0 <= i < target.len(),
    ensures
        after.len() == target.len(),
        i < source.len() ==> call_ensures(M::plus, (math, target[i], source[i]), after[i]),
        i >= source.len() ==> after[i] == target[i],
{
    assert(after[i] == after[i]);
}

/// What leaves a node: a node without a mix, or with a sum of it and no limiter, gives what
/// came in. An average divides by the number of contributions, where there are more than one,
/// and a limiter comes last.
pub proof fn law_sinks_average_before_they_limit<M: SampleMath>(
    math: &M,
    mix: Option<MixConfig>,
    contributions: usize,
    before: Seq<u32>,
    after: Seq<u32>,
    i: int,
)
    requires
        sink_finished(math, mix, contributions, before, after),
        0 <= i < before.len(),
    ensures
        after.len() == before.len(),
        match mix {
            None => after[i] == before[i],
            Some(mix) => {
                let average = mix.mode == MixMode::Average && contributions > 1;
                &&& !average && !mix.limiter ==> after[i] == before[i]
                &&& average && !mix.limiter ==> call_ensures(
                    M::divided,
                    (math, before[i], contributions),
                    after[i],
                )
                &&& !average && mix.limiter ==> call_ensures(
                    M::limited,
                    (math, before[i], mix.limit_dbfs.bits),
                    after[i],
                )
                &&& average && mix.limiter ==> exists|mean: u32| #[trigger]
                    call_ensures(M::divided, (math, before[i], contributions), mean)
                        && call_ensures(M::limited, (math, mean, mix.limit_dbfs.bits), after[i])
            },
        },
{
    if let Some(mix) = mix {
        let middle = choose|middle: Seq<u32>|
            {
                &&& #[trigger] averaged(math, mix, contributions, before, middle)
                &&& if mix.limiter {
                    all_limited(math, middle, mix.limit_dbfs, after)
                } else {
                    after == middle
                }
            };
        let mean = middle[i];
        let last = after[i];
        if mix.mode == MixMode::Average && contributions > 1 {
            assert(call_ensures(M::divided, (math, before[i], contributions), mean));
        } else {
            assert(mean == before[i]);
        }
        if mix.limiter {
            assert(call_ensures(M::limited, (math, mean, mix.limit_dbfs.bits), last));
        } else {
            assert(last == mean);
        }
    }
}

/// Applying a pan to two channels multiplies every left sample by the left factor of the pan and
/// every right sample by the right one; other numbers of channels are left alone.
pub proof fn law_apply_pan<M: SampleMath>(
    math: &M,
    samples: &mut Vec<u32>,
    channels: usize,
    pan: Real32,
)
    requires
        call_ensures(apply_pan::<M>, (math, samples, channels, pan), ()),
    ensures
        final(samples)@.len() == old(samples)@.len(),
        channels != 2 ==> final(samples)@ == old(samples)@,
        channels == 2 ==> exists|left: u32, right: u32| #[trigger]
            call_ensures(M::pan_factors, (math, pan.bits), (left, right)) && (forall|
                l: int,
                r: int,
            |
                #![trigger final(samples)@[l], final(samples)@[r]]
                0 <= l && l % 2 == 0 && r == l + 1 && r < old(samples)@.len() ==> call_ensures(
                    M::times,
                    (math, old(samples)@[l], left),
                    final(samples)@[l],
                ) && call_ensures(
                    M::times,
                    (math, old(samples)@[r], right),
                    final(samples)@[r],
                )),
{
    if channels == 2 {
        law_pan_weighs_left_and_right(math, old(samples)@, pan, final(samples)@);
    }
}

/// Applying a gain silences what is muted, and multiplies every sample by the factor of the gain
/// where it is not.
pub proof fn law_apply_gain<M: SampleMath>(
    math: &M,
    samples: &mut Vec<u32>,
    gain_db: Real32,
    mute: bool,
)
    requires
        call_ensures(apply_gain::<M>, (math, samples, gain_db, mute), ()),
    ensures
        final(samples)@.len() == old(samples)@.len(),
        mute ==> forall|i: int|
            0 <= i < final(samples)@.len() ==> #[trigger] final(samples)@[i] == 0,
        !mute ==> exists|factor: u32| #[trigger]
            call_ensures(M::gain_factor, (math, gain_db.bits), factor) && (forall|i: int|
                0 <= i < old(samples)@.len() ==> call_ensures(
                    M::times,
                    (math, old(samples)@[i], factor),
                    #[trigger] final(samples)@[i],
                )),
{
    law_gain_is_one_factor_and_mute_is_silence(
        math,
        old(samples)@,
        gain_db,
        mute,
        final(samples)@,
    );
}

/// Adding a buffer to another adds sample to sample, and keeps the length of the other.
pub proof fn law_accumulate<M: SampleMath>(
    math: &M,
    target: &mut Vec<u32>,
    source: Vec<u32>,
    i: int,
)
    requires
        call_ensures(accumulate::<M>, (math, target, &source), ()),
        0 <= i < old(target)@.len(),
    ensures
        final(target)@.len() == old(target)@.len(),
        i < source@.len() ==> call_ensures(
            M::plus,
            (math, old(target)@[i], source@[i]),
            final(target)@[i],
        ),
        i >= source@.len() ==> final(target)@[i] == old(target)@[i],
{
    law_accumulating_adds_sample_by_sample(
        math,
        old(target)@,
        source@,
        final(target)@,
        i,
    );
}

/// Mixing through a matrix adds up, for each channel of each frame, the channels of that frame of
/// the source by the row of the channel.
pub proof fn law_matrix_mix<M: SampleMath>(
    math: &M,
    source: Vec<u32>,
    source_channels: usize,
    destination_channels: usize,
    frames: usize,
    matrix: Vec<Real32>,
    r: Vec<u32>,
    frame: int,
    channel: int,
) -> (sums: Seq<u32>)
    requires
        call_ensures(
            matrix_mix_into::<M>,
            (math, &source, source_channels, destination_channels, frames, &matrix),
            r,
        ),
        matrix@.len() == source_channels * destination_channels,
        0 <= frame < frames,
        0 <= channel < destination_channels,
    ensures
        r@.len() == frames * destination_channels,
        sums.len() == source_channels + 1,
        sums[0] == 0,
        r@[frame * destination_channels + channel] == sums[source_channels as int],
        forall|s: int, t: int|
            #![trigger sums[s], sums[t]]
            0 <= s < source_channels && t == s + 1 ==> call_ensures(
                M::multiply_add,
                (
                    math,
                    sums[s],
                    if frame * source_channels + s < source@.len() {
                        source@[frame * source_channels + s]
                    } else {
                        0
                    },
                    matrix@[channel * source_channels + s].bits,
                ),
                sums[t],
            ),
{
    law_matrix_row_makes_a_channel(
        math,
        source@,
        source_channels as int,
        destination_channels as int,
        frames as int,
        matrix@,
        r@,
        frame,
        channel,
    )
}

/// Finishing a node divides by the contributions where it averages more than one of them, then
/// limits where it has a limiter, and leaves all else as it is.
pub proof fn law_finish_sink<M: SampleMath>(
    math: &M,
    mix: Option<MixConfig>,
    contributions: usize,
    buffer: &mut Vec<u32>,
    i: int,
)
    requires
        call_ensures(finish_sink::<M>, (math, mix, contributions, buffer), ()),
        0 <= i < old(buffer)@.len(),
    ensures
        final(buffer)@.len() == old(buffer)@.len(),
        mix is None ==> final(buffer)@[i] == old(buffer)@[i],
        mix is Some && !mix->0.limiter && (mix->0.mode == MixMode::Sum || contributions <= 1)
            ==> final(buffer)@[i] == old(buffer)@[i],
        mix is Some && !mix->0.limiter && mix->0.mode == MixMode::Average && contributions > 1
            ==> call_ensures(
            M::divided,
            (math, old(buffer)@[i], contributions),
            final(buffer)@[i],
        ),
        mix is Some && mix->0.limiter && (mix->0.mode == MixMode::Sum || contributions <= 1)
            ==> call_ensures(
            M::limited,
            (math, old(buffer)@[i], mix->0.limit_dbfs.bits),
            final(buffer)@[i],
        ),
        mix is Some && mix->0.limiter && mix->0.mode == MixMode::Average && contributions > 1
            ==> exists|mean: u32| #[trigger]
            call_ensures(M::divided, (math, old(buffer)@[i], contributions), mean) && call_ensures(
                M::limited,
                (math, mean, mix->0.limit_dbfs.bits),
                final(buffer)@[i],
            ),
{
    law_sinks_average_before_they_limit(
        math,
        mix,
        contributions,
        old(buffer)@,
        final(buffer)@,
        i,
    );
}

} // verus!
