//! IQ samples and the measurements taken of them.
use vstd::prelude::*;

use crate::arith::{
    count_of, largest, log10_of, narrowed, product_of, quotient_of, repeatable, root_of,
    running_sum, running_sum_push, sum_of, wide_cos_of, wide_count_of, wide_difference_of,
    wide_floor_of, wide_product_of, wide_quotient_of, wide_rem_of, wide_sin_of, wide_sum_of,
    Arithmetic, Double, Single,
};

verus! {

/// Bit patterns of 0.7, the amplitude of generated tones, in both precisions.
pub const TONE_AMPLITUDE_BITS: u32 = 0x3F33_3333;

pub const WIDE_TONE_AMPLITUDE_BITS: u64 = 0x3FE6_6666_6666_6666;

/// Bit pattern of a full turn in radians.
pub const TAU_BITS: u64 = 0x4019_21FB_5444_2D18;

/// Bit pattern of 1000, milliseconds to the second.
pub const THOUSAND_BITS: u64 = 0x408F_4000_0000_0000;

/// Bit pattern of 20, decibels to the decade of amplitude.
pub const TWENTY_BITS: u32 = 0x41A0_0000;

/// Bit pattern of -100, the level in decibels shown for no signal.
pub const SILENCE_DB_BITS: u32 = 0xC2C8_0000;

/// One complex sample.
#[derive(Clone, Copy, Debug)]
pub struct IqSample {
    pub re: Single,
    pub im: Single,
}

impl PartialEq for IqSample {
    fn eq(&self, other: &IqSample) -> (r: bool) {
        self.re == other.re && self.im == other.im
    }
}

impl vstd::std_specs::cmp::PartialEqSpecImpl for IqSample {
    open spec fn obeys_eq_spec() -> bool {
        true
    }

    open spec fn eq_spec(&self, other: &IqSample) -> bool {
        self.re.equals(other.re) && self.im.equals(other.im)
    }
}

pub open spec fn zero() -> Single {
    Single { bits: 0 }
}

/// `p` is `re * re + im * im`.
pub open spec fn power_of<A: Arithmetic>(arith: &A, s: IqSample, p: Single) -> bool {
    exists|rr: Single, ii: Single|
        product_of(arith, s.re, s.re, rr) && product_of(arith, s.im, s.im, ii)
            && #[trigger] sum_of(arith, rr, ii, p)
}

/// With operations that give one result, a sample has one power.
pub proof fn one_power<A: Arithmetic>(arith: &A, s: IqSample, x: Single, y: Single)
    requires
        repeatable(arith),
        power_of(arith, s, x),
        power_of(arith, s, y),
    ensures
        x == y,
{
    let (a, b) = choose|a: Single, b: Single|
        product_of(arith, s.re, s.re, a) && product_of(arith, s.im, s.im, b)
            && #[trigger] sum_of(arith, a, b, x);
    let (c, d) = choose|c: Single, d: Single|
        product_of(arith, s.re, s.re, c) && product_of(arith, s.im, s.im, d)
            && #[trigger] sum_of(arith, c, d, y);
    assert(a == c && b == d);
}

/// `m` is the square root of the power of `s`.
pub open spec fn magnitude_of<A: Arithmetic>(arith: &A, s: IqSample, m: Single) -> bool {
    exists|p: Single| power_of(arith, s, p) && #[trigger] root_of(arith, p, m)
}

/// `levels` are the magnitudes of `samples`, one for one.
pub open spec fn levels_of<A: Arithmetic>(
    arith: &A,
    samples: Seq<IqSample>,
    levels: Seq<Single>,
) -> bool {
    &&& levels.len() == samples.len()
    &&& forall|i: int|
        0 <= i < samples.len() ==> magnitude_of(arith, samples[i], #[trigger] levels[i])
}

/// `powers` are the powers of `samples`, one for one.
pub open spec fn powers_of<A: Arithmetic>(
    arith: &A,
    samples: Seq<IqSample>,
    powers: Seq<Single>,
) -> bool {
    &&& powers.len() == samples.len()
    &&& forall|i: int|
        0 <= i < samples.len() ==> power_of(arith, samples[i], #[trigger] powers[i])
}

/// `e` is the sum of the powers of `samples`.
pub open spec fn energy_of<A: Arithmetic>(arith: &A, samples: Seq<IqSample>, e: Single) -> bool {
    exists|powers: Seq<Single>|
        powers_of(arith, samples, powers) && #[trigger] running_sum(arith, zero(), powers, e)
}

/// `m` is `total` divided by the number `n`.
pub open spec fn mean_of<A: Arithmetic>(arith: &A, total: Single, n: u64, m: Single) -> bool {
    exists|d: Single| count_of(arith, n, d) && #[trigger] quotient_of(arith, total, d, m)
}

/// `r` is the root of the mean power of `samples`.
pub open spec fn rms_of<A: Arithmetic>(arith: &A, samples: Seq<IqSample>, r: Single) -> bool {
    exists|e: Single, m: Single|
        energy_of(arith, samples, e) && #[trigger] mean_of(arith, e, samples.len() as u64, m)
            && root_of(arith, m, r)
}

/// `squares` are the squares of `levels`, one for one.
pub open spec fn squares_of<A: Arithmetic>(
    arith: &A,
    levels: Seq<Single>,
    squares: Seq<Single>,
) -> bool {
    &&& squares.len() == levels.len()
    &&& forall|i: int|
        0 <= i < levels.len() ==> product_of(arith, levels[i], levels[i], #[trigger] squares[i])
}

/// What `analyze_samples` measures of samples with the given levels.
pub open spec fn analysis_of<A: Arithmetic>(
    arith: &A,
    levels: Seq<Single>,
    peak: Single,
    average: Single,
    rms: Single,
) -> bool {
    &&& peak == largest(zero(), levels)
    &&& exists|total: Single|
        running_sum(arith, zero(), levels, total) && #[trigger] mean_of(
            arith,
            total,
            levels.len() as u64,
            average,
        )
    &&& exists|squares: Seq<Single>, total: Single, mean: Single|
        squares_of(arith, levels, squares) && #[trigger] running_sum(
            arith,
            zero(),
            squares,
            total,
        ) && mean_of(arith, total, levels.len() as u64, mean) && #[trigger] root_of(
            arith,
            mean,
            rms,
        )
}

pub fn sample_power<A: Arithmetic>(arith: &A, s: IqSample) -> (p: Single)
    ensures
        power_of(arith, s, p),
{
    let rr = arith.times(s.re, s.re);
    let ii = arith.times(s.im, s.im);
    arith.plus(rr, ii)
}

pub fn sample_magnitude<A: Arithmetic>(arith: &A, s: IqSample) -> (m: Single)
    ensures
        magnitude_of(arith, s, m),
{
    let p = sample_power(arith, s);
    arith.root(p)
}

/// The sum of the powers of the samples from `from` up to `to`.
pub fn energy<A: Arithmetic>(arith: &A, samples: &[IqSample], from: usize, to: usize) -> (e: Single)
    requires
        from <= to <= samples@.len(),
    ensures
        energy_of(arith, samples@.subrange(from as int, to as int), e),
{
    let mut total = Single { bits: 0 };
    let ghost mut powers: Seq<Single> = Seq::empty();
    let mut i: usize = from;
    while i < to
        invariant
            from <= i <= to <= samples@.len(),
            powers_of(arith, samples@.subrange(from as int, i as int), powers),
            running_sum(arith, zero(), powers, total),
        decreases to - i,
    {
        let p = sample_power(arith, samples[i]);
        let before = total;
        total = arith.plus(before, p);
        proof {
            running_sum_push(arith, zero(), powers, before, p, total);
            assert forall|j: int| 0 <= j < powers.len() + 1 implies power_of(
                arith,
                samples@.subrange(from as int, i + 1)[j],
                #[trigger] powers.push(p)[j],
            ) by {
                if j < powers.len() {
                    assert(power_of(arith, samples@.subrange(from as int, i as int)[j], powers[j]));
                }
            }
            powers = powers.push(p);
        }
        i += 1;
    }
    total
}

pub fn mean<A: Arithmetic>(arith: &A, total: Single, n: u64) -> (m: Single)
    ensures
        mean_of(arith, total, n, m),
{
    let d = arith.count(n);
    arith.over(total, d)
}

/// Analyze IQ samples and return (peak, average, rms); all zero where there are none.
pub fn analyze_samples<A: Arithmetic>(arith: &A, buffer: &[IqSample]) -> (r: (
    Single,
    Single,
    Single,
))
    ensures
        buffer@.len() == 0 ==> r == (zero(), zero(), zero()),
        buffer@.len() > 0 ==> exists|levels: Seq<Single>|
            levels_of(arith, buffer@, levels) && #[trigger] analysis_of(
                arith,
                levels,
                r.0,
                r.1,
                r.2,
            ),
{
    if buffer.len() == 0 {
        let none = Single { bits: 0 };
        return (none, none, none);
    }
    let mut peak = Single { bits: 0 };
    let mut sum_magnitude = Single { bits: 0 };
    let mut sum_squared = Single { bits: 0 };
    let ghost mut levels: Seq<Single> = Seq::empty();
    let ghost mut squares: Seq<Single> = Seq::empty();
    let mut i: usize = 0;
    while i < buffer.len()
        invariant
            i <= buffer@.len(),
            levels_of(arith, buffer@.subrange(0, i as int), levels),
            squares_of(arith, levels, squares),
            peak == largest(zero(), levels),
            running_sum(arith, zero(), levels, sum_magnitude),
            running_sum(arith, zero(), squares, sum_squared),
        decreases buffer@.len() - i,
    {
        let magnitude = sample_magnitude(arith, buffer[i]);
        peak = peak.max_of(magnitude);
        let before = sum_magnitude;
        sum_magnitude = arith.plus(before, magnitude);
        let square = arith.times(magnitude, magnitude);
        let before_squared = sum_squared;
        sum_squared = arith.plus(before_squared, square);
        proof {
            running_sum_push(arith, zero(), levels, before, magnitude, sum_magnitude);
            running_sum_push(arith, zero(), squares, before_squared, square, sum_squared);
            assert(levels.push(magnitude).drop_last() =~= levels);
            levels_push(arith, buffer@, i as int, levels, magnitude);
            assert forall|j: int| 0 <= j < levels.len() + 1 implies product_of(
                arith,
                levels.push(magnitude)[j],
                levels.push(magnitude)[j],
                #[trigger] squares.push(square)[j],
            ) by {
                if j < levels.len() {
                    assert(product_of(arith, levels[j], levels[j], squares[j]));
                }
            }
            levels = levels.push(magnitude);
            squares = squares.push(square);
        }
        i += 1;
    }
    assert(buffer@.subrange(0, i as int) =~= buffer@);
    let average = mean(arith, sum_magnitude, buffer.len() as u64);
    let mean_squared = mean(arith, sum_squared, buffer.len() as u64);
    let rms = arith.root(mean_squared);
    assert(analysis_of(arith, levels, peak, average, rms)) by {
        assert(running_sum(arith, zero(), squares, sum_squared));
        assert(mean_of(arith, sum_magnitude, levels.len() as u64, average));
        assert(mean_of(arith, sum_squared, levels.len() as u64, mean_squared));
    }
    let measured = (peak, average, rms);
    assert(levels_of(arith, buffer@, levels) && analysis_of(
        arith,
        levels,
        measured.0,
        measured.1,
        measured.2,
    ));
    measured
}

/// Calculate the average magnitude of a buffer; zero where it is empty.
pub fn buffer_magnitude<A: Arithmetic>(arith: &A, buffer: &[IqSample]) -> (average: Single)
    ensures
        buffer@.len() == 0 ==> average == zero(),
        buffer@.len() > 0 ==> exists|levels: Seq<Single>, total: Single|
            levels_of(arith, buffer@, levels) && #[trigger] running_sum(
                arith,
                zero(),
                levels,
                total,
            ) && mean_of(arith, total, buffer@.len() as u64, average),
{
    if buffer.len() == 0 {
        return Single { bits: 0 };
    }
    let mut total = Single { bits: 0 };
    let ghost mut levels: Seq<Single> = Seq::empty();
    let mut i: usize = 0;
    while i < buffer.len()
        invariant
            i <= buffer@.len(),
            levels_of(arith, buffer@.subrange(0, i as int), levels),
            running_sum(arith, zero(), levels, total),
        decreases buffer@.len() - i,
    {
        let magnitude = sample_magnitude(arith, buffer[i]);
        let before = total;
        total = arith.plus(before, magnitude);
        proof {
            running_sum_push(arith, zero(), levels, before, magnitude, total);
            levels_push(arith, buffer@, i as int, levels, magnitude);
            levels = levels.push(magnitude);
        }
        i += 1;
    }
    assert(buffer@.subrange(0, i as int) =~= buffer@);
    mean(arith, total, buffer.len() as u64)
}

/// Levels of a prefix, one sample longer.
pub proof fn levels_push<A: Arithmetic>(
    arith: &A,
    samples: Seq<IqSample>,
    i: int,
    levels: Seq<Single>,
    level: Single,
)
    requires
        0 <= i < samples.len(),
        levels_of(arith, samples.subrange(0, i), levels),
        magnitude_of(arith, samples[i], level),
    ensures
        levels_of(arith, samples.subrange(0, i + 1), levels.push(level)),
{
    assert forall|j: int| 0 <= j < i + 1 implies magnitude_of(
        arith,
        samples.subrange(0, i + 1)[j],
        #[trigger] levels.push(level)[j],
    ) by {
        if j < i {
            assert(magnitude_of(arith, samples.subrange(0, i)[j], levels[j]));
        }
    }
}

/// `db` is `20 * log10(ratio)`.
pub open spec fn decibels_of<A: Arithmetic>(arith: &A, ratio: Single, db: Single) -> bool {
    exists|l: Single|
        log10_of(arith, ratio, l) && #[trigger] product_of(
            arith,
            Single { bits: TWENTY_BITS },
            l,
            db,
        )
}

pub fn decibels<A: Arithmetic>(arith: &A, ratio: Single) -> (db: Single)
    ensures
        decibels_of(arith, ratio, db),
{
    let l = arith.log10(ratio);
    arith.times(Single { bits: TWENTY_BITS }, l)
}

/// A level in decibels, as it is shown: -100 for a level that is not above zero.
pub open spec fn shown_db<A: Arithmetic>(arith: &A, level: Single, db: Single) -> bool {
    if zero().below(level) {
        decibels_of(arith, level, db)
    } else {
        db == (Single { bits: SILENCE_DB_BITS })
    }
}

pub fn level_db<A: Arithmetic>(arith: &A, level: Single) -> (db: Single)
    ensures
        shown_db(arith, level, db),
{
    if (Single { bits: 0 }).is_below(level) {
        decibels(arith, level)
    } else {
        Single { bits: SILENCE_DB_BITS }
    }
}

/// `n` as a size: the largest size where `n` is more.
pub open spec fn as_size(n: u64) -> usize {
    if n > usize::MAX {
        usize::MAX
    } else {
        n as usize
    }
}

pub fn to_size(n: u64) -> (r: usize)
    ensures
        r == as_size(n),
{
    if n > usize::MAX as u64 {
        usize::MAX
    } else {
        n as usize
    }
}

/// How far the phase of a tone moves from one sample to the next.
pub open spec fn phase_increment_of<A: Arithmetic>(
    arith: &A,
    sample_rate: Double,
    tone_freq: Double,
    inc: Double,
) -> bool {
    exists|turn: Double|
        wide_product_of(arith, Double { bits: TAU_BITS }, tone_freq, turn)
            && #[trigger] wide_quotient_of(arith, turn, sample_rate, inc)
}

/// The phase after `phase`: one increment on, less a turn where it passed one.
pub open spec fn phase_after<A: Arithmetic>(
    arith: &A,
    inc: Double,
    phase: Double,
    next: Double,
) -> bool {
    exists|moved: Double| #[trigger]
        wide_sum_of(arith, phase, inc, moved) && if (Double { bits: TAU_BITS }).below(moved) {
            wide_difference_of(arith, moved, Double { bits: TAU_BITS }, next)
        } else {
            next == moved
        }
}

/// `s` is the tone at `phase`: cosine and sine in single precision, scaled to the amplitude.
pub open spec fn tone_sample<A: Arithmetic>(arith: &A, phase: Double, s: IqSample) -> bool {
    exists|c: Double, d: Double, i: Single, q: Single|
        wide_cos_of(arith, phase, c) && wide_sin_of(arith, phase, d) && #[trigger] narrowed(
            arith,
            c,
            i,
        ) && #[trigger] narrowed(arith, d, q) && product_of(
            arith,
            i,
            Single { bits: TONE_AMPLITUDE_BITS },
            s.re,
        ) && product_of(arith, q, Single { bits: TONE_AMPLITUDE_BITS }, s.im)
}

/// `samples` is a stretch of tone, and `phases` are its phases and the one to go on with.
pub open spec fn tone_run<A: Arithmetic>(
    arith: &A,
    inc: Double,
    samples: Seq<IqSample>,
    phases: Seq<Double>,
) -> bool {
    &&& phases.len() == samples.len() + 1
    &&& forall|i: int|
        0 <= i < samples.len() ==> tone_sample(arith, phases[i], #[trigger] samples[i])
            && phase_after(arith, inc, phases[i], phases[i + 1])
}

/// Fill `buffer` with a test tone (complex sinusoid) and move `phase` on to where it ends.
pub fn generate_test_tone<A: Arithmetic>(
    arith: &A,
    buffer: &mut Vec<IqSample>,
    sample_rate: Double,
    tone_freq: Double,
    phase: &mut Double,
)
    ensures
        final(buffer)@.len() == old(buffer)@.len(),
        exists|inc: Double, phases: Seq<Double>|
            phase_increment_of(arith, sample_rate, tone_freq, inc) && #[trigger] tone_run(
                arith,
                inc,
                final(buffer)@,
                phases,
            ) && phases[0] == *old(phase) && phases.last() == *final(phase),
{
    let turn = arith.wide_times(Double { bits: TAU_BITS }, tone_freq);
    let phase_increment = arith.wide_over(turn, sample_rate);
    let ghost mut phases: Seq<Double> = seq![*phase];
    let mut i: usize = 0;
    assert(buffer@.subrange(0, 0) =~= Seq::<IqSample>::empty());
    while i < buffer.len()
        invariant
            i <= buffer@.len(),
            buffer@.len() == old(buffer)@.len(),
            tone_run(arith, phase_increment, buffer@.subrange(0, i as int), phases),
            phases[0] == *old(phase),
            phases.last() == *phase,
        decreases buffer@.len() - i,
    {
        let here = *phase;
        let c = arith.wide_cos(here);
        let in_phase = arith.narrow(c);
        let s = arith.wide_sin(here);
        let quadrature = arith.narrow(s);
        let sample = IqSample {
            re: arith.times(in_phase, Single { bits: TONE_AMPLITUDE_BITS }),
            im: arith.times(quadrature, Single { bits: TONE_AMPLITUDE_BITS }),
        };
        let ghost done = buffer@.subrange(0, i as int);
        buffer[i] = sample;
        let moved = arith.wide_plus(here, phase_increment);
        if (Double { bits: TAU_BITS }).is_below(moved) {
            *phase = arith.wide_minus(moved, Double { bits: TAU_BITS });
        } else {
            *phase = moved;
        }
        proof {
            let longer = buffer@.subrange(0, i + 1);
            let more = phases.push(*phase);
            assert forall|j: int| 0 <= j < longer.len() implies tone_sample(
                arith,
                more[j],
                #[trigger] longer[j],
            ) && phase_after(arith, phase_increment, more[j], more[j + 1]) by {
                if j < i {
                    assert(longer[j] == done[j]);
                    assert(tone_sample(arith, phases[j], done[j]));
                }
            }
            phases = more;
        }
        i += 1;
    }
    assert(buffer@.subrange(0, i as int) =~= buffer@);
    assert(tone_run(arith, phase_increment, buffer@, phases));
}

/// `n` is the number of samples in `duration_ms` milliseconds: rate by length, over a thousand.
pub open spec fn burst_length<A: Arithmetic>(
    arith: &A,
    sample_rate: Double,
    duration_ms: u64,
    n: usize,
) -> bool {
    exists|ms: Double, scaled: Double, exact: Double, whole: u64|
        wide_count_of(arith, duration_ms, ms) && #[trigger] wide_product_of(
            arith,
            sample_rate,
            ms,
            scaled,
        ) && wide_quotient_of(arith, scaled, Double { bits: THOUSAND_BITS }, exact)
            && #[trigger] wide_floor_of(arith, exact, whole) && n == as_size(whole)
}

/// `phase` is the phase of sample `i` of a burst, computed from `i` itself.
pub open spec fn burst_phase<A: Arithmetic>(
    arith: &A,
    sample_rate: Double,
    tone_freq: Double,
    i: u64,
    phase: Double,
) -> bool {
    exists|turn: Double, n: Double, far: Double, q: Double|
        wide_product_of(arith, Double { bits: TAU_BITS }, tone_freq, turn) && wide_count_of(
            arith,
            i,
            n,
        ) && #[trigger] wide_product_of(arith, turn, n, far) && #[trigger] wide_quotient_of(
            arith,
            far,
            sample_rate,
            q,
        ) && wide_rem_of(arith, q, Double { bits: TAU_BITS }, phase)
}

/// `x` is `v` scaled to the amplitude in double precision, then narrowed.
pub open spec fn scaled_to<A: Arithmetic>(arith: &A, v: Double, x: Single) -> bool {
    exists|w: Double|
        wide_product_of(arith, v, Double { bits: WIDE_TONE_AMPLITUDE_BITS }, w)
            && #[trigger] narrowed(arith, w, x)
}

/// `s` is sample `i` of a burst.
pub open spec fn burst_sample<A: Arithmetic>(
    arith: &A,
    sample_rate: Double,
    tone_freq: Double,
    i: u64,
    s: IqSample,
) -> bool {
    exists|phase: Double, c: Double, d: Double|
        burst_phase(arith, sample_rate, tone_freq, i, phase) && #[trigger] wide_cos_of(
            arith,
            phase,
            c,
        ) && #[trigger] wide_sin_of(arith, phase, d) && scaled_to(arith, c, s.re) && scaled_to(
            arith,
            d,
            s.im,
        )
}

fn scale_to<A: Arithmetic>(arith: &A, v: Double) -> (x: Single)
    ensures
        scaled_to(arith, v, x),
{
    let w = arith.wide_times(v, Double { bits: WIDE_TONE_AMPLITUDE_BITS });
    arith.narrow(w)
}

/// Generate a complex-sinusoid burst at the given tone offset: `sample_rate * duration_ms / 1000`
/// samples of a single tone at 70 % of full scale. The phase is computed directly per sample, so
/// that no error accumulates.
pub fn generate_burst<A: Arithmetic>(
    arith: &A,
    sample_rate: Double,
    tone_freq_hz: Double,
    duration_ms: u64,
) -> (burst: Vec<IqSample>)
    ensures
        burst_length(arith, sample_rate, duration_ms, burst@.len() as usize),
        burst@.len() <= usize::MAX,
        forall|i: int|
            0 <= i < burst@.len() ==> burst_sample(
                arith,
                sample_rate,
                tone_freq_hz,
                i as u64,
                #[trigger] burst@[i],
            ),
{
    let ms = arith.wide_count(duration_ms);
    let scaled = arith.wide_times(sample_rate, ms);
    let exact = arith.wide_over(scaled, Double { bits: THOUSAND_BITS });
    let whole = arith.wide_floor(exact);
    let num_samples = to_size(whole);
    let mut output: Vec<IqSample> = Vec::new();
    let mut i: usize = 0;
    while i < num_samples
        invariant
            i <= num_samples,
            output@.len() == i,
            forall|j: int|
                0 <= j < i ==> burst_sample(
                    arith,
                    sample_rate,
                    tone_freq_hz,
                    j as u64,
                    #[trigger] output@[j],
                ),
        decreases num_samples - i,
    {
        let turn = arith.wide_times(Double { bits: TAU_BITS }, tone_freq_hz);
        let n = arith.wide_count(i as u64);
        let far = arith.wide_times(turn, n);
        let q = arith.wide_over(far, sample_rate);
        let phase = arith.wide_rem(q, Double { bits: TAU_BITS });
        let c = arith.wide_cos(phase);
        let d = arith.wide_sin(phase);
        let sample = IqSample { re: scale_to(arith, c), im: scale_to(arith, d) };
        assert(burst_phase(arith, sample_rate, tone_freq_hz, i as u64, phase));
        output.push(sample);
        i += 1;
    }
    output
}

} // verus!
