//! What the levels of samples and the samples of tones are, operation by operation.
use vstd::prelude::*;

use crate::arith::{
    count_of, largest, largest_bounds, log10_of, narrowed, product_of, quotient_of, root_of,
    running_sum, sum_of, wide_cos_of, wide_count_of, wide_difference_of, wide_floor_of,
    wide_product_of, wide_quotient_of, wide_rem_of, wide_sin_of, wide_sum_of, Arithmetic, Double,
    Single,
};
use crate::arith_laws::the_largest_is_among_them;
use crate::signal::{
    analysis_of, analyze_samples, buffer_magnitude, burst_phase, burst_sample, decibels_of, energy,
    energy_of, generate_burst, generate_test_tone, level_db, levels_of, magnitude_of, mean_of,
    phase_increment_of, power_of, powers_of, sample_magnitude, sample_power, scaled_to, squares_of,
    to_size, tone_run, tone_sample, IqSample,
};

verus! {

/// `p` is the sum of the squares of both parts of `s`.
pub open spec fn sum_of_squares<A: Arithmetic>(arith: &A, s: IqSample, p: Single) -> bool {
    exists|rr: Single, ii: Single|
        call_ensures(A::times, (arith, s.re, s.re), rr) && call_ensures(
            A::times,
            (arith, s.im, s.im),
            ii,
        ) && #[trigger] call_ensures(A::plus, (arith, rr, ii), p)
}

/// `m` is the length of `s` as a vector in the plane.
pub open spec fn vector_length<A: Arithmetic>(arith: &A, s: IqSample, m: Single) -> bool {
    exists|p: Single|
        sum_of_squares(arith, s, p) && #[trigger] call_ensures(A::root, (arith, p), m)
}

/// `lengths` are the lengths of `samples`, one for one.
pub open spec fn vector_lengths<A: Arithmetic>(
    arith: &A,
    samples: Seq<IqSample>,
    lengths: Seq<Single>,
) -> bool {
    &&& lengths.len() == samples.len()
    &&& forall|i: int|
        0 <= i < samples.len() ==> vector_length(arith, samples[i], #[trigger] lengths[i])
}

/// `m` is `total` divided by how many there are.
pub open spec fn divided_by<A: Arithmetic>(arith: &A, total: Single, n: nat, m: Single) -> bool {
    exists|d: Single|
        call_ensures(A::count, (arith, n as u64), d) && #[trigger] call_ensures(
            A::over,
            (arith, total, d),
            m,
        )
}

/// `peak` is zero or one of `levels`, and no level is above it.
pub open spec fn tops(levels: Seq<Single>, peak: Single) -> bool {
    &&& peak.bits == 0 || levels.contains(peak)
    &&& forall|i: int|
        0 <= i < levels.len() && (#[trigger] levels[i]).bits as int % 0x8000_0000 <= 0x7F80_0000
            ==> levels[i].at_most(peak)
    &&& (Single { bits: 0 }).at_most(peak)
}

/// The largest of levels, from zero on, tops them.
pub proof fn the_largest_tops(levels: Seq<Single>)
    ensures
        tops(levels, largest(Single { bits: 0 }, levels)),
{
    largest_bounds(Single { bits: 0 }, levels);
    the_largest_is_among_them(Single { bits: 0 }, levels);
}

/// The power of a sample is the sum of the squares of its parts.
pub proof fn power_is_a_sum_of_squares<A: Arithmetic>(arith: &A, s: IqSample, p: Single)
    requires
        power_of(arith, s, p),
    ensures
        sum_of_squares(arith, s, p),
{
    let (rr, ii) = choose|rr: Single, ii: Single|
        product_of(arith, s.re, s.re, rr) && product_of(arith, s.im, s.im, ii)
            && #[trigger] sum_of(arith, rr, ii, p);
    assert(call_ensures(A::plus, (arith, rr, ii), p));
}

/// The level of a sample is its length as a vector in the plane.
pub proof fn level_is_a_vector_length<A: Arithmetic>(arith: &A, s: IqSample, m: Single)
    requires
        magnitude_of(arith, s, m),
    ensures
        vector_length(arith, s, m),
{
    let p = choose|p: Single| power_of(arith, s, p) && #[trigger] root_of(arith, p, m);
    power_is_a_sum_of_squares(arith, s, p);
    assert(call_ensures(A::root, (arith, p), m));
}

/// The levels of samples are their lengths, one for one.
pub proof fn levels_are_vector_lengths<A: Arithmetic>(
    arith: &A,
    samples: Seq<IqSample>,
    levels: Seq<Single>,
)
    requires
        levels_of(arith, samples, levels),
    ensures
        vector_lengths(arith, samples, levels),
{
    assert forall|i: int| 0 <= i < samples.len() implies vector_length(
        arith,
        samples[i],
        #[trigger] levels[i],
    ) by {
        level_is_a_vector_length(arith, samples[i], levels[i]);
    }
}

/// A mean is a total divided by how many there are.
pub proof fn mean_is_divided<A: Arithmetic>(arith: &A, total: Single, n: nat, m: Single)
    requires
        mean_of(arith, total, n as u64, m),
    ensures
        divided_by(arith, total, n, m),
{
    let d = choose|d: Single| count_of(arith, n as u64, d) && #[trigger] quotient_of(arith, total, d, m);
    assert(call_ensures(A::over, (arith, total, d), m));
}

/// A sample's power and level, as they are measured.
pub proof fn a_sample_is_measured_by_its_parts<A: Arithmetic>(
    arith: &A,
    s: IqSample,
    p: Single,
    m: Single,
)
    requires
        call_ensures(sample_power::<A>, (arith, s), p),
        call_ensures(sample_magnitude::<A>, (arith, s), m),
    ensures
        sum_of_squares(arith, s, p),
        vector_length(arith, s, m),
{
    power_is_a_sum_of_squares(arith, s, p);
    level_is_a_vector_length(arith, s, m);
}

/// `e` is the sum of the squares of all parts of `samples`, taken one sample after the other.
pub open spec fn sums_all_squares<A: Arithmetic>(
    arith: &A,
    samples: Seq<IqSample>,
    e: Single,
) -> bool {
    exists|powers: Seq<Single>| #[trigger]
        running_sum(arith, Single { bits: 0 }, powers, e) && powers.len() == samples.len()
            && forall|i: int|
            0 <= i < samples.len() ==> sum_of_squares(arith, samples[i], #[trigger] powers[i])
}

/// The energy of samples is the sum of their squares, over the stretch asked for and no more.
pub proof fn energy_sums_all_squares<A: Arithmetic>(
    arith: &A,
    samples: Seq<IqSample>,
    e: Single,
)
    requires
        energy_of(arith, samples, e),
    ensures
        sums_all_squares(arith, samples, e),
{
    let powers = choose|powers: Seq<Single>|
        powers_of(arith, samples, powers) && #[trigger] running_sum(
            arith,
            Single { bits: 0 },
            powers,
            e,
        );
    assert forall|i: int| 0 <= i < samples.len() implies sum_of_squares(
        arith,
        samples[i],
        #[trigger] powers[i],
    ) by {
        power_is_a_sum_of_squares(arith, samples[i], powers[i]);
    }
}

/// The same of the energy that is computed of part of a buffer.
pub proof fn energy_is_that_of_the_stretch<A: Arithmetic>(
    arith: &A,
    samples: &[IqSample],
    from: usize,
    to: usize,
    e: Single,
)
    requires
        call_ensures(energy::<A>, (arith, samples, from, to), e),
        from <= to <= samples@.len(),
    ensures
        sums_all_squares(arith, samples@.subrange(from as int, to as int), e),
{
    energy_sums_all_squares(arith, samples@.subrange(from as int, to as int), e);
}

/// What is measured of a buffer: a peak that tops its levels, and their average; zeros of an empty
/// one.
pub proof fn a_buffer_is_measured_by_its_levels<A: Arithmetic>(
    arith: &A,
    buffer: &[IqSample],
    r: (Single, Single, Single),
)
    requires
        call_ensures(analyze_samples::<A>, (arith, buffer), r),
    ensures
        buffer@.len() == 0 ==> r.0.bits == 0 && r.1.bits == 0 && r.2.bits == 0,
        buffer@.len() > 0 ==> exists|levels: Seq<Single>, total: Single|
            vector_lengths(arith, buffer@, levels) && tops(levels, r.0) && #[trigger] running_sum(
                arith,
                Single { bits: 0 },
                levels,
                total,
            ) && divided_by(arith, total, buffer@.len(), r.1),
        buffer@.len() > 0 ==> exists|levels: Seq<Single>, squares: Seq<Single>| #[trigger]
            root_of_mean_square(arith, levels, squares, r.2) && vector_lengths(
                arith,
                buffer@,
                levels,
            ),
{
    if buffer@.len() > 0 {
        let levels = choose|levels: Seq<Single>|
            levels_of(arith, buffer@, levels) && #[trigger] analysis_of(
                arith,
                levels,
                r.0,
                r.1,
                r.2,
            );
        levels_are_vector_lengths(arith, buffer@, levels);
        the_largest_tops(levels);
        let total = choose|total: Single|
            running_sum(arith, Single { bits: 0 }, levels, total) && #[trigger] mean_of(
                arith,
                total,
                levels.len() as u64,
                r.1,
            );
        mean_is_divided(arith, total, levels.len(), r.1);
        assert(running_sum(arith, Single { bits: 0 }, levels, total));
        let (squares, sum, mean) = choose|squares: Seq<Single>, sum: Single, mean: Single|
            squares_of(arith, levels, squares) && #[trigger] running_sum(
                arith,
                Single { bits: 0 },
                squares,
                sum,
            ) && mean_of(arith, sum, levels.len() as u64, mean) && #[trigger] root_of(
                arith,
                mean,
                r.2,
            );
        mean_is_divided(arith, sum, levels.len(), mean);
        assert(running_sum(arith, Single { bits: 0 }, squares, sum));
        assert(call_ensures(A::root, (arith, mean), r.2));
        assert(root_of_mean_square(arith, levels, squares, r.2));
    }
}

/// `r` is the root of the mean of `squares`, which are those of `values`.
pub open spec fn root_of_mean_square<A: Arithmetic>(
    arith: &A,
    values: Seq<Single>,
    squares: Seq<Single>,
    r: Single,
) -> bool {
    &&& squares.len() == values.len()
    &&& forall|i: int|
        0 <= i < values.len() ==> call_ensures(
            A::times,
            (arith, values[i], values[i]),
            #[trigger] squares[i],
        )
    &&& exists|sum: Single, mean: Single| #[trigger]
        running_sum(arith, Single { bits: 0 }, squares, sum) && divided_by(
            arith,
            sum,
            values.len(),
            mean,
        ) && #[trigger] call_ensures(A::root, (arith, mean), r)
}

/// The average level of a buffer is the sum of its levels, divided by how many there are; zero of an
/// empty one.
pub proof fn average_level_is_over_all_samples<A: Arithmetic>(
    arith: &A,
    buffer: &[IqSample],
    average: Single,
)
    requires
        call_ensures(buffer_magnitude::<A>, (arith, buffer), average),
    ensures
        buffer@.len() == 0 ==> average.bits == 0,
        buffer@.len() > 0 ==> exists|levels: Seq<Single>, total: Single|
            vector_lengths(arith, buffer@, levels) && #[trigger] running_sum(
                arith,
                Single { bits: 0 },
                levels,
                total,
            ) && divided_by(arith, total, buffer@.len(), average),
{
    if buffer@.len() > 0 {
        let (levels, total) = choose|levels: Seq<Single>, total: Single|
            levels_of(arith, buffer@, levels) && #[trigger] running_sum(
                arith,
                Single { bits: 0 },
                levels,
                total,
            ) && mean_of(arith, total, buffer@.len() as u64, average);
        levels_are_vector_lengths(arith, buffer@, levels);
        mean_is_divided(arith, total, buffer@.len(), average);
    }
}

/// A level above zero is shown as twenty times its decimal logarithm, any other as -100 dB.
pub proof fn levels_are_shown_in_decibels<A: Arithmetic>(arith: &A, level: Single, db: Single)
    requires
        call_ensures(level_db::<A>, (arith, level), db),
    ensures
        (Single { bits: 0 }).below(level) ==> exists|l: Single|
            call_ensures(A::log10, (arith, level), l) && #[trigger] call_ensures(
                A::times,
                (arith, Single { bits: 0x41A0_0000 }, l),
                db,
            ),
        !(Single { bits: 0 }).below(level) ==> db.bits == 0xC2C8_0000,
{
    if (Single { bits: 0 }).below(level) {
        decibels_are_twenty_logarithms(arith, level, db);
    }
}

/// A ratio in decibels is twenty times its decimal logarithm.
pub proof fn decibels_are_twenty_logarithms<A: Arithmetic>(arith: &A, ratio: Single, db: Single)
    requires
        decibels_of(arith, ratio, db),
    ensures
        exists|l: Single|
            call_ensures(A::log10, (arith, ratio), l) && #[trigger] call_ensures(
                A::times,
                (arith, Single { bits: 0x41A0_0000 }, l),
                db,
            ),
{
    let l = choose|l: Single|
        log10_of(arith, ratio, l) && #[trigger] product_of(
            arith,
            Single { bits: 0x41A0_0000 },
            l,
            db,
        );
    assert(call_ensures(A::times, (arith, Single { bits: 0x41A0_0000 }, l), db));
}

/// A number that fits stays as it is when taken as a size.
pub proof fn sizes_are_kept(n: u64, r: usize)
    requires
        call_ensures(to_size, (n,), r),
    ensures
        n <= usize::MAX ==> r == n,
        n > usize::MAX ==> r == usize::MAX,
{
}

/// `s` is what a tone of amplitude 0.7 is at `phase`: the cosine in phase and the sine in
/// quadrature.
pub open spec fn on_the_circle<A: Arithmetic>(arith: &A, phase: Double, s: IqSample) -> bool {
    exists|c: Double, d: Double, i: Single, q: Single|
        call_ensures(A::wide_cos, (arith, phase), c) && call_ensures(
            A::wide_sin,
            (arith, phase),
            d,
        ) && #[trigger] call_ensures(A::narrow, (arith, c), i) && #[trigger] call_ensures(
            A::narrow,
            (arith, d),
            q,
        ) && call_ensures(A::times, (arith, i, Single { bits: 0x3F33_3333 }), s.re)
            && call_ensures(A::times, (arith, q, Single { bits: 0x3F33_3333 }), s.im)
}

/// `next` is one step on from `phase`, less a full turn if it went past one.
pub open spec fn one_step_on<A: Arithmetic>(
    arith: &A,
    step: Double,
    phase: Double,
    next: Double,
) -> bool {
    exists|moved: Double| #[trigger]
        call_ensures(A::wide_plus, (arith, phase, step), moved) && if (Double {
            bits: 0x4019_21FB_5444_2D18,
        }).below(moved) {
            call_ensures(
                A::wide_minus,
                (arith, moved, Double { bits: 0x4019_21FB_5444_2D18 }),
                next,
            )
        } else {
            next == moved
        }
}

/// A test tone fills the buffer, goes on from the phase that it is given, a step of
/// `tau * frequency / rate` from one sample to the next, and leaves the phase that comes after the
/// last sample, so that tones one after the other make one tone.
pub proof fn a_tone_goes_on_where_it_was_left<A: Arithmetic>(
    arith: &A,
    buffer: &mut Vec<IqSample>,
    sample_rate: Double,
    tone_freq: Double,
    phase: &mut Double,
)
    requires
        call_ensures(
            generate_test_tone::<A>,
            (arith, buffer, sample_rate, tone_freq, phase),
            (),
        ),
    ensures
        final(buffer)@.len() == old(buffer)@.len(),
        exists|turn: Double, step: Double, phases: Seq<Double>|
            call_ensures(
                A::wide_times,
                (arith, Double { bits: 0x4019_21FB_5444_2D18 }, tone_freq),
                turn,
            ) && #[trigger] call_ensures(A::wide_over, (arith, turn, sample_rate), step)
                && #[trigger] phases.len() == final(buffer)@.len() + 1 && phases[0] == *old(phase)
                && phases.last() == *final(phase) && forall|i: int|
                0 <= i < final(buffer)@.len() ==> on_the_circle(
                    arith,
                    phases[i],
                    #[trigger] final(buffer)@[i],
                ) && one_step_on(arith, step, phases[i], phases[i + 1]),
{
    let (inc, phases) = choose|inc: Double, phases: Seq<Double>|
        phase_increment_of(arith, sample_rate, tone_freq, inc) && #[trigger] tone_run(
            arith,
            inc,
            final(buffer)@,
            phases,
        ) && phases[0] == *old(phase) && phases.last() == *final(phase);
    let turn = choose|turn: Double|
        wide_product_of(arith, Double { bits: 0x4019_21FB_5444_2D18 }, tone_freq, turn)
            && #[trigger] wide_quotient_of(arith, turn, sample_rate, inc);
    assert(call_ensures(A::wide_over, (arith, turn, sample_rate), inc));
    assert forall|i: int| 0 <= i < final(buffer)@.len() implies on_the_circle(
        arith,
        phases[i],
        #[trigger] final(buffer)@[i],
    ) && one_step_on(arith, inc, phases[i], phases[i + 1]) by {
        tone_is_on_the_circle(arith, phases[i], final(buffer)@[i]);
        let next = phases[i + 1];
        let moved = choose|moved: Double| #[trigger]
            wide_sum_of(arith, phases[i], inc, moved) && if (Double {
                bits: 0x4019_21FB_5444_2D18,
            }).below(moved) {
                wide_difference_of(arith, moved, Double { bits: 0x4019_21FB_5444_2D18 }, next)
            } else {
                next == moved
            };
        assert(call_ensures(A::wide_plus, (arith, phases[i], inc), moved));
    }
    assert(phases.len() == final(buffer)@.len() + 1);
}

proof fn tone_is_on_the_circle<A: Arithmetic>(arith: &A, phase: Double, s: IqSample)
    requires
        tone_sample(arith, phase, s),
    ensures
        on_the_circle(arith, phase, s),
{
    let (c, d, i, q) = choose|c: Double, d: Double, i: Single, q: Single|
        wide_cos_of(arith, phase, c) && wide_sin_of(arith, phase, d) && #[trigger] narrowed(
            arith,
            c,
            i,
        ) && #[trigger] narrowed(arith, d, q) && product_of(
            arith,
            i,
            Single { bits: 0x3F33_3333 },
            s.re,
        ) && product_of(arith, q, Single { bits: 0x3F33_3333 }, s.im);
    assert(call_ensures(A::narrow, (arith, c), i));
    assert(call_ensures(A::narrow, (arith, d), q));
}

/// `x` is `v` times 0.7, in single precision.
pub open spec fn at_seventy_percent<A: Arithmetic>(arith: &A, v: Double, x: Single) -> bool {
    exists|w: Double|
        call_ensures(A::wide_times, (arith, v, Double { bits: 0x3FE6_6666_6666_6666 }), w)
            && #[trigger] call_ensures(A::narrow, (arith, w), x)
}

/// `phase` is `(tau * frequency * i / rate) mod tau`.
pub open spec fn phase_at<A: Arithmetic>(
    arith: &A,
    rate: Double,
    frequency: Double,
    i: int,
    phase: Double,
) -> bool {
    exists|turn: Double, n: Double, far: Double, q: Double|
        call_ensures(
            A::wide_times,
            (arith, Double { bits: 0x4019_21FB_5444_2D18 }, frequency),
            turn,
        ) && call_ensures(A::wide_count, (arith, i as u64), n) && #[trigger] call_ensures(
            A::wide_times,
            (arith, turn, n),
            far,
        ) && #[trigger] call_ensures(A::wide_over, (arith, far, rate), q) && call_ensures(
            A::wide_rem,
            (arith, q, Double { bits: 0x4019_21FB_5444_2D18 }),
            phase,
        )
}

/// A burst lasts as long as asked for: as many samples as the rate times the milliseconds, over a
/// thousand. The phase of each is computed from its place and from nothing else, and its amplitude is
/// 0.7.
pub proof fn a_burst_is_a_tone_of_the_length_asked_for<A: Arithmetic>(
    arith: &A,
    rate: Double,
    frequency: Double,
    ms: u64,
    burst: Vec<IqSample>,
)
    requires
        call_ensures(generate_burst::<A>, (arith, rate, frequency, ms), burst),
    ensures
        exists|m: Double, scaled: Double, exact: Double, whole: u64|
            call_ensures(A::wide_count, (arith, ms), m) && #[trigger] call_ensures(
                A::wide_times,
                (arith, rate, m),
                scaled,
            ) && call_ensures(
                A::wide_over,
                (arith, scaled, Double { bits: 0x408F_4000_0000_0000 }),
                exact,
            ) && #[trigger] call_ensures(A::wide_floor, (arith, exact), whole) && burst@.len() == (
            if whole > usize::MAX {
                usize::MAX as int
            } else {
                whole as int
            }),
        forall|i: int|
            0 <= i < burst@.len() ==> burst_point(arith, rate, frequency, i, #[trigger] burst@[i]),
{
    let (m, scaled, exact, whole) = choose|m: Double, scaled: Double, exact: Double, whole: u64|
        wide_count_of(arith, ms, m) && #[trigger] wide_product_of(arith, rate, m, scaled)
            && wide_quotient_of(arith, scaled, Double { bits: 0x408F_4000_0000_0000 }, exact)
            && #[trigger] wide_floor_of(arith, exact, whole) && burst@.len() as usize
            == crate::signal::as_size(whole);
    assert(call_ensures(A::wide_times, (arith, rate, m), scaled));
    assert(call_ensures(A::wide_floor, (arith, exact), whole));
    assert forall|i: int| 0 <= i < burst@.len() implies burst_point(
        arith,
        rate,
        frequency,
        i,
        #[trigger] burst@[i],
    ) by {
        burst_samples_are_points(arith, rate, frequency, i, burst@[i]);
    }
}

/// `s` is sample `i` of a burst: cosine and sine of its phase, at 70 percent.
pub open spec fn burst_point<A: Arithmetic>(
    arith: &A,
    rate: Double,
    frequency: Double,
    i: int,
    s: IqSample,
) -> bool {
    exists|phase: Double, c: Double, d: Double|
        phase_at(arith, rate, frequency, i, phase) && #[trigger] call_ensures(
            A::wide_cos,
            (arith, phase),
            c,
        ) && #[trigger] call_ensures(A::wide_sin, (arith, phase), d) && at_seventy_percent(
            arith,
            c,
            s.re,
        ) && at_seventy_percent(arith, d, s.im)
}

proof fn scaling_is_to_seventy_percent<A: Arithmetic>(arith: &A, v: Double, x: Single)
    requires
        scaled_to(arith, v, x),
    ensures
        at_seventy_percent(arith, v, x),
{
    let w = choose|w: Double|
        wide_product_of(arith, v, Double { bits: 0x3FE6_6666_6666_6666 }, w)
            && #[trigger] narrowed(arith, w, x);
    assert(call_ensures(A::narrow, (arith, w), x));
}

/// A sample of a burst is the point on the circle for its place.
pub proof fn burst_samples_are_points<A: Arithmetic>(
    arith: &A,
    rate: Double,
    frequency: Double,
    i: int,
    s: IqSample,
)
    requires
        burst_sample(arith, rate, frequency, i as u64, s),
    ensures
        burst_point(arith, rate, frequency, i, s),
{
    let (phase, c, d) = choose|phase: Double, c: Double, d: Double|
        burst_phase(arith, rate, frequency, i as u64, phase) && #[trigger] wide_cos_of(
            arith,
            phase,
            c,
        ) && #[trigger] wide_sin_of(arith, phase, d) && scaled_to(arith, c, s.re) && scaled_to(
            arith,
            d,
            s.im,
        );
    scaling_is_to_seventy_percent(arith, c, s.re);
    scaling_is_to_seventy_percent(arith, d, s.im);
    let (turn, n, far, q) = choose|turn: Double, n: Double, far: Double, q: Double|
        wide_product_of(arith, Double { bits: 0x4019_21FB_5444_2D18 }, frequency, turn)
            && wide_count_of(arith, i as u64, n) && #[trigger] wide_product_of(arith, turn, n, far)
            && #[trigger] wide_quotient_of(arith, far, rate, q) && wide_rem_of(
            arith,
            q,
            Double { bits: 0x4019_21FB_5444_2D18 },
            phase,
        );
    assert(call_ensures(A::wide_times, (arith, turn, n), far));
    assert(call_ensures(A::wide_over, (arith, far, rate), q));
    assert(phase_at(arith, rate, frequency, i, phase));
    assert(call_ensures(A::wide_cos, (arith, phase), c));
    assert(call_ensures(A::wide_sin, (arith, phase), d));
}

} // verus!
