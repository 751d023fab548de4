//! What an automated test measures of a burst, when a burst passes, and when the test does.
use vstd::prelude::*;

use crate::arith::{
    product_of, quotient_of, root_of, running_sum, sum_of, wide_count_of, wide_floor_of,
    wide_product_of, wide_quotient_of, Arithmetic, Double, Single,
};
use crate::arith_laws::the_smallest_is_above_none;
use crate::autotest::{
    average_is, best_is_best, burst_evaluated, clamped, dot_of, dot_term, dot_terms,
    estimate_noise_floor, evaluate_burst, measure_snr, noise_floor_of, norm_of,
    normalised_xcorr_peak, offsets_are_spread, offsets_up_to, passes, score_of, scored, scores_at,
    snr_of, snrs, summarise_results, summarised, xcorr_is_normalised, xcorr_of, xcorrs,
    AutotestConfig, AutotestReport, BurstResult,
};
use crate::session::{capture, next_read, verdict, AutotestSession};
use crate::signal::{as_size, decibels_of, energy_of, levels_of, mean_of, rms_of, IqSample};
use crate::signal_laws::{
    burst_point, burst_samples_are_points, decibels_are_twenty_logarithms, divided_by,
    energy_sums_all_squares, levels_are_vector_lengths, mean_is_divided, sums_all_squares,
    the_largest_tops, tops, vector_lengths,
};
use crate::stats::DebugStats;
use crate::stats_laws::counts_on;

verus! {

/// `r` is the root of the mean of the squares of `samples`.
pub open spec fn root_mean_square<A: Arithmetic>(
    arith: &A,
    samples: Seq<IqSample>,
    r: Single,
) -> bool {
    exists|e: Single, m: Single|
        sums_all_squares(arith, samples, e) && #[trigger] divided_by(arith, e, samples.len(), m)
            && call_ensures(A::root, (arith, m), r)
}

proof fn rms_is_root_mean_square<A: Arithmetic>(arith: &A, samples: Seq<IqSample>, r: Single)
    requires
        rms_of(arith, samples, r),
    ensures
        root_mean_square(arith, samples, r),
{
    let (e, m) = choose|e: Single, m: Single|
        energy_of(arith, samples, e) && #[trigger] mean_of(arith, e, samples.len() as u64, m)
            && root_of(arith, m, r);
    energy_sums_all_squares(arith, samples, e);
    mean_is_divided(arith, e, samples.len(), m);
    assert(divided_by(arith, e, samples.len(), m));
}

/// The noise floor is measured over the first tenth of a capture, rounded down, or over its first
/// sample where that is none; that of an empty one is zero. Nothing after the tenth has a part in it.
pub proof fn noise_is_measured_over_the_first_tenth<A: Arithmetic>(
    arith: &A,
    samples: &[IqSample],
    floor: Single,
)
    requires
        call_ensures(estimate_noise_floor::<A>, (arith, samples), floor),
    ensures
        samples@.len() == 0 ==> floor.bits == 0,
        0 < samples@.len() < 10 ==> root_mean_square(arith, samples@.subrange(0, 1), floor),
        samples@.len() >= 10 ==> root_mean_square(
            arith,
            samples@.subrange(0, samples@.len() as int / 10),
            floor,
        ),
{
    floor_is_over_the_first_tenth(arith, samples@, floor);
}

proof fn floor_is_over_the_first_tenth<A: Arithmetic>(
    arith: &A,
    samples: Seq<IqSample>,
    floor: Single,
)
    requires
        noise_floor_of(arith, samples, floor),
    ensures
        samples.len() == 0 ==> floor.bits == 0,
        0 < samples.len() < 10 ==> root_mean_square(arith, samples.subrange(0, 1), floor),
        samples.len() >= 10 ==> root_mean_square(
            arith,
            samples.subrange(0, samples.len() as int / 10),
            floor,
        ),
{
    if 0 < samples.len() < 10 {
        rms_is_root_mean_square(arith, samples.subrange(0, 1), floor);
    } else if samples.len() >= 10 {
        rms_is_root_mean_square(arith, samples.subrange(0, samples.len() as int / 10), floor);
    }
}

/// Two captures with the same beginning, of lengths with the same tenth, have the same choice of
/// noise floors: what comes after has no part in it.
pub proof fn noise_does_not_depend_on_the_rest<A: Arithmetic>(
    arith: &A,
    samples: &[IqSample],
    others: &[IqSample],
    floor: Single,
)
    requires
        call_ensures(estimate_noise_floor::<A>, (arith, samples), floor),
        samples@.len() >= 10,
        others@.len() as int / 10 == samples@.len() as int / 10,
        others@.subrange(0, samples@.len() as int / 10) == samples@.subrange(
            0,
            samples@.len() as int / 10,
        ),
    ensures
        noise_floor_of(arith, others@, floor),
{
}

/// `snr` is the ratio of the root mean square of `signal` to `floor`, in decibels.
pub open spec fn ratio_in_decibels<A: Arithmetic>(
    arith: &A,
    signal: Seq<IqSample>,
    floor: Single,
    snr: Single,
) -> bool {
    exists|level: Single, ratio: Single, l: Single|
        root_mean_square(arith, signal, level) && #[trigger] call_ensures(
            A::over,
            (arith, level, floor),
            ratio,
        ) && call_ensures(A::log10, (arith, ratio), l) && #[trigger] call_ensures(
            A::times,
            (arith, Single { bits: 0x41A0_0000 }, l),
            snr,
        )
}

proof fn snr_is_a_ratio<A: Arithmetic>(
    arith: &A,
    signal: Seq<IqSample>,
    floor: Single,
    snr: Single,
)
    requires
        snr_of(arith, signal, floor, snr),
    ensures
        signal.len() == 0 || floor.at_most(Single { bits: 0 }) ==> snr.bits == 0xFF80_0000,
        signal.len() > 0 && !floor.at_most(Single { bits: 0 }) ==> ratio_in_decibels(
            arith,
            signal,
            floor,
            snr,
        ),
{
    if signal.len() > 0 && !floor.at_most(Single { bits: 0 }) {
        let (level, ratio) = choose|level: Single, ratio: Single|
            rms_of(arith, signal, level) && #[trigger] quotient_of(arith, level, floor, ratio)
                && decibels_of(arith, ratio, snr);
        rms_is_root_mean_square(arith, signal, level);
        decibels_are_twenty_logarithms(arith, ratio, snr);
        assert(call_ensures(A::over, (arith, level, floor), ratio));
    }
}

/// The signal-to-noise ratio is that of the root mean square of the whole signal to the noise floor,
/// in decibels; minus infinity without a signal, and without a floor above zero.
pub proof fn snr_compares_the_signal_with_the_floor<A: Arithmetic>(
    arith: &A,
    signal: &[IqSample],
    floor: Single,
    snr: Single,
)
    requires
        call_ensures(measure_snr::<A>, (arith, signal, floor), snr),
    ensures
        signal@.len() == 0 || floor.at_most(Single { bits: 0 }) ==> snr.bits == 0xFF80_0000,
        signal@.len() > 0 && !floor.at_most(Single { bits: 0 }) ==> ratio_in_decibels(
            arith,
            signal@,
            floor,
            snr,
        ),
{
    snr_is_a_ratio(arith, signal@, floor, snr);
}

/// A burst passes if and only if its signal-to-noise ratio is a number that is not below the
/// threshold of the configuration, and the threshold is one.
pub proof fn a_burst_passes_by_the_threshold<A: Arithmetic>(
    arith: &A,
    reference: &[IqSample],
    received: &[IqSample],
    config: AutotestConfig,
    burst_id: u32,
    result: BurstResult,
)
    requires
        call_ensures(
            evaluate_burst::<A>,
            (arith, reference, received, &config, burst_id),
            result,
        ),
    ensures
        config.snr_threshold_db.at_most(result.snr_db) ==> result.passed,
        result.snr_db.below(config.snr_threshold_db) ==> !result.passed,
        result.snr_db.bits as int % 0x8000_0000 > 0x7F80_0000 ==> !result.passed,
        config.snr_threshold_db.bits as int % 0x8000_0000 > 0x7F80_0000 ==> !result.passed,
        result.passed == config.snr_threshold_db.at_most(result.snr_db),
{
}

/// Of two bursts judged by one threshold, the one with the better ratio passes if the other does; and
/// a burst that passes one threshold passes every lower one.
pub proof fn a_better_burst_passes_too<A: Arithmetic>(
    arith: &A,
    reference: &[IqSample],
    received: &[IqSample],
    config: AutotestConfig,
    burst_id: u32,
    result: BurstResult,
    other_reference: &[IqSample],
    other_received: &[IqSample],
    other_config: AutotestConfig,
    other_id: u32,
    other: BurstResult,
)
    requires
        call_ensures(
            evaluate_burst::<A>,
            (arith, reference, received, &config, burst_id),
            result,
        ),
        call_ensures(
            evaluate_burst::<A>,
            (arith, other_reference, other_received, &other_config, other_id),
            other,
        ),
        other_config.snr_threshold_db.at_most(config.snr_threshold_db),
        result.snr_db.at_most(other.snr_db),
        result.passed,
    ensures
        other.passed,
{
}

/// `result` is what a burst is measured to be: the number it was given, how many samples were sent and
/// captured, the peak of the captured levels, the noise over the first tenth of the capture, the whole
/// of it compared with that, and the best agreement with what was sent.
pub open spec fn measured_as<A: Arithmetic>(
    arith: &A,
    reference: Seq<IqSample>,
    received: Seq<IqSample>,
    burst_id: int,
    result: BurstResult,
) -> bool {
    &&& result.burst_id == burst_id
    &&& result.transmitted_samples == reference.len()
    &&& result.received_samples == received.len()
    &&& exists|levels: Seq<Single>| #[trigger]
        vector_lengths(arith, received, levels) && tops(levels, result.peak_level)
    &&& received.len() == 0 ==> result.noise_floor.bits == 0 && result.snr_db.bits == 0xFF80_0000
    &&& received.len() >= 10 ==> root_mean_square(
        arith,
        received.subrange(0, received.len() as int / 10),
        result.noise_floor,
    )
    &&& 0 < received.len() < 10 ==> root_mean_square(
        arith,
        received.subrange(0, 1),
        result.noise_floor,
    )
    &&& result.noise_floor.at_most(Single { bits: 0 }) ==> result.snr_db.bits == 0xFF80_0000
    &&& received.len() > 0 && !result.noise_floor.at_most(Single { bits: 0 })
        ==> ratio_in_decibels(arith, received, result.noise_floor, result.snr_db)
    &&& (Single { bits: 0 }).at_most(result.xcorr_peak)
    &&& result.xcorr_peak.at_most(Single { bits: 0x3F80_0000 })
    &&& best_agreement(arith, reference, received, result.xcorr_peak)
}

proof fn evaluated_are_measured<A: Arithmetic>(
    arith: &A,
    reference: Seq<IqSample>,
    received: Seq<IqSample>,
    config: AutotestConfig,
    burst_id: u32,
    result: BurstResult,
)
    requires
        burst_evaluated(arith, reference, received, config, burst_id, result),
    ensures
        measured_as(arith, reference, received, burst_id as int, result),
{
    floor_is_over_the_first_tenth(arith, received, result.noise_floor);
    snr_is_a_ratio(arith, received, result.noise_floor, result.snr_db);
    xcorr_is_normalised(arith, reference, received, result.xcorr_peak);
    peaks_are_best_agreements(arith, reference, received, result.xcorr_peak);
    let levels = choose|levels: Seq<Single>| #[trigger]
        levels_of(arith, received, levels) && result.peak_level == crate::arith::largest(
            crate::signal::zero(),
            levels,
        );
    levels_are_vector_lengths(arith, received, levels);
    the_largest_tops(levels);
}

/// What is said of a burst is measured of it: its number and both lengths are given back, the peak
/// tops the levels of the capture, and noise floor, ratio and correlation are those of the capture.
pub proof fn a_burst_is_measured_by_its_capture<A: Arithmetic>(
    arith: &A,
    reference: &[IqSample],
    received: &[IqSample],
    config: AutotestConfig,
    burst_id: u32,
    result: BurstResult,
)
    requires
        call_ensures(
            evaluate_burst::<A>,
            (arith, reference, received, &config, burst_id),
            result,
        ),
    ensures
        measured_as(arith, reference@, received@, burst_id as int, result),
{
    evaluated_are_measured(arith, reference@, received@, config, burst_id, result);
}

/// `norm` is the root of the sum of the squares of `samples`.
pub open spec fn root_of_squares<A: Arithmetic>(
    arith: &A,
    samples: Seq<IqSample>,
    norm: Single,
) -> bool {
    exists|e: Single|
        sums_all_squares(arith, samples, e) && #[trigger] call_ensures(A::root, (arith, e), norm)
}

/// `d` is the sum over both of the products of their parts.
pub open spec fn inner_product<A: Arithmetic>(
    arith: &A,
    a: Seq<IqSample>,
    b: Seq<IqSample>,
    d: Single,
) -> bool {
    exists|terms: Seq<Single>| #[trigger]
        running_sum(arith, Single { bits: 0 }, terms, d) && terms.len() == a.len() && forall|i: int|
            0 <= i < a.len() ==> part_products(arith, a[i], b[i], #[trigger] terms[i])
}

pub open spec fn part_products<A: Arithmetic>(
    arith: &A,
    r: IqSample,
    w: IqSample,
    d: Single,
) -> bool {
    exists|re: Single, im: Single|
        call_ensures(A::times, (arith, r.re, w.re), re) && call_ensures(
            A::times,
            (arith, r.im, w.im),
            im,
        ) && #[trigger] call_ensures(A::plus, (arith, re, im), d)
}

/// `s` is how well `window` agrees with `reference`: their inner product over both norms.
pub open spec fn agreement<A: Arithmetic>(
    arith: &A,
    reference: Seq<IqSample>,
    window: Seq<IqSample>,
    ref_norm: Single,
    s: Single,
) -> bool {
    exists|dot: Single, norm: Single, product: Single|
        inner_product(arith, reference, window, dot) && #[trigger] root_of_squares(
            arith,
            window,
            norm,
        ) && !(norm.bits as int % 0x8000_0000 == 0) && #[trigger] call_ensures(
            A::times,
            (arith, ref_norm, norm),
            product,
        ) && #[trigger] call_ensures(A::over, (arith, dot, product), s)
}

/// The window is silent: the root of the sum of its squares is zero.
pub open spec fn silent<A: Arithmetic>(arith: &A, window: Seq<IqSample>) -> bool {
    exists|norm: Single| #[trigger]
        root_of_squares(arith, window, norm) && norm.bits as int % 0x8000_0000 == 0
}

proof fn norm_is_root_of_squares<A: Arithmetic>(arith: &A, samples: Seq<IqSample>, norm: Single)
    requires
        norm_of(arith, samples, norm),
    ensures
        root_of_squares(arith, samples, norm),
{
    let e = choose|e: Single| energy_of(arith, samples, e) && #[trigger] root_of(arith, e, norm);
    energy_sums_all_squares(arith, samples, e);
    assert(call_ensures(A::root, (arith, e), norm));
}

proof fn dot_is_an_inner_product<A: Arithmetic>(
    arith: &A,
    a: Seq<IqSample>,
    b: Seq<IqSample>,
    d: Single,
)
    requires
        dot_of(arith, a, b, d),
    ensures
        inner_product(arith, a, b, d),
{
    let terms = choose|terms: Seq<Single>|
        dot_terms(arith, a, b, terms) && #[trigger] running_sum(
            arith,
            Single { bits: 0 },
            terms,
            d,
        );
    assert forall|i: int| 0 <= i < a.len() implies part_products(
        arith,
        a[i],
        b[i],
        #[trigger] terms[i],
    ) by {
        assert(dot_term(arith, a[i], b[i], terms[i]));
        let (re, im) = choose|re: Single, im: Single|
            product_of(arith, a[i].re, b[i].re, re) && product_of(arith, a[i].im, b[i].im, im)
                && #[trigger] sum_of(arith, re, im, terms[i]);
        assert(call_ensures(A::plus, (arith, re, im), terms[i]));
    }
}

proof fn score_is_agreement<A: Arithmetic>(
    arith: &A,
    reference: Seq<IqSample>,
    window: Seq<IqSample>,
    ref_norm: Single,
    score: Option<Single>,
)
    requires
        score_of(arith, reference, window, ref_norm, score),
    ensures
        score matches Some(s) ==> agreement(arith, reference, window, ref_norm, s),
        score is None ==> silent(arith, window),
{
    let (dot, norm) = choose|dot: Single, norm: Single|
        dot_of(arith, reference, window, dot) && #[trigger] norm_of(arith, window, norm)
            && #[trigger] scored(arith, dot, ref_norm, norm, score);
    dot_is_an_inner_product(arith, reference, window, dot);
    norm_is_root_of_squares(arith, window, norm);
    if let Some(s) = score {
        let product = choose|product: Single| #[trigger]
            product_of(arith, ref_norm, norm, product) && quotient_of(arith, dot, product, s);
        assert(call_ensures(A::times, (arith, ref_norm, norm), product));
        assert(call_ensures(A::over, (arith, dot, product), s));
    }
}

/// Whether a place is looked at, the last being `max`.
pub open spec fn looked_at(max: int, d: int) -> bool {
    max < 1024 || exists|i: int| 0 <= i < 1024 && d == #[trigger] (i * max) / 1023
}

/// `peak` is the best agreement of `reference`, whose norm is `ref_norm`, with any stretch of
/// `received` of its length that is looked at, within zero and one: where the norm is zero it is zero,
/// no stretch agrees better, and one agrees as well if it is above zero.
pub open spec fn best_with<A: Arithmetic>(
    arith: &A,
    reference: Seq<IqSample>,
    received: Seq<IqSample>,
    ref_norm: Single,
    peak: Single,
) -> bool {
    &&& root_of_squares(arith, reference, ref_norm)
    &&& ref_norm.bits as int % 0x8000_0000 == 0 ==> peak.bits == 0
    &&& ref_norm.bits as int % 0x8000_0000 != 0 ==> forall|d: int|
        #![trigger received.subrange(d, d + reference.len())]
        0 <= d <= received.len() - reference.len() && looked_at(
            received.len() - reference.len(),
            d,
        ) ==> no_better(
            arith,
            reference,
            received.subrange(d, d + reference.len()),
            ref_norm,
            peak,
        )
    &&& ref_norm.bits as int % 0x8000_0000 != 0 && (Single { bits: 0 }).below(peak) ==> exists|
        d: int,
        s: Single,
    |
        0 <= d <= received.len() - reference.len() && looked_at(
            received.len() - reference.len(),
            d,
        ) && #[trigger] agreement(
            arith,
            reference,
            received.subrange(d, d + reference.len()),
            ref_norm,
            s,
        ) && peak.at_most(s)
}

/// `window` agrees with `reference` no better than `peak`, or `peak` is one.
pub open spec fn no_better<A: Arithmetic>(
    arith: &A,
    reference: Seq<IqSample>,
    window: Seq<IqSample>,
    ref_norm: Single,
    peak: Single,
) -> bool {
    silent(arith, window) || exists|s: Single| #[trigger]
        agreement(arith, reference, window, ref_norm, s) && (s.bits as int % 0x8000_0000
            > 0x7F80_0000 || s.at_most(peak) || peak.bits == 0x3F80_0000)
}

/// `peak` is the best agreement of `reference` with a stretch of `received`, or zero where there is no
/// stretch of that length.
pub open spec fn best_agreement<A: Arithmetic>(
    arith: &A,
    reference: Seq<IqSample>,
    received: Seq<IqSample>,
    peak: Single,
) -> bool {
    if 0 < reference.len() <= received.len() {
        exists|ref_norm: Single| #[trigger]
            best_with(arith, reference, received, ref_norm, peak)
    } else {
        peak.bits == 0
    }
}

proof fn peaks_are_best_agreements<A: Arithmetic>(
    arith: &A,
    reference: Seq<IqSample>,
    received: Seq<IqSample>,
    peak: Single,
)
    requires
        xcorr_of(arith, reference, received, peak),
    ensures
        best_agreement(arith, reference, received, peak),
{
    if 0 < reference.len() <= received.len() {
        let zero = Single { bits: 0 };
        let max = (received.len() - reference.len()) as nat;
        let offsets = offsets_up_to(max);
        offsets_are_spread(max);
        let ref_norm = choose|ref_norm: Single| #[trigger]
            norm_of(arith, reference, ref_norm) && if ref_norm.rank() == 0 {
                peak == zero
            } else {
                exists|scores: Seq<Option<Single>>|
                    peak == clamped(crate::autotest::best_of(scores)) && #[trigger] scores_at(
                        arith,
                        reference,
                        received,
                        ref_norm,
                        offsets,
                        scores,
                    )
            };
        norm_is_root_of_squares(arith, reference, ref_norm);
        if ref_norm.rank() != 0 {
            let scores = choose|scores: Seq<Option<Single>>|
                peak == clamped(crate::autotest::best_of(scores)) && #[trigger] scores_at(
                    arith,
                    reference,
                    received,
                    ref_norm,
                    offsets,
                    scores,
                );
            best_is_best(scores);
            let n = reference.len() as int;
            assert forall|d: int|
                #![trigger received.subrange(d, d + reference.len())]
                0 <= d <= received.len() - reference.len() && looked_at(
                    received.len() - reference.len(),
                    d,
                ) implies no_better(
                arith,
                reference,
                received.subrange(d, d + reference.len()),
                ref_norm,
                peak,
            ) by {
                let k = if max < 1024 {
                    assert(offsets.contains(d as nat));
                    choose|k: int| 0 <= k < offsets.len() && offsets[k] == d as nat
                } else {
                    let i = choose|i: int| 0 <= i < 1024 && d == #[trigger] (i * max) / 1023;
                    assert(offsets[i] == (i * max / 1023) as nat);
                    i
                };
                assert(offsets[k] == d);
                assert(score_of(
                    arith,
                    reference,
                    received.subrange(offsets[k] as int, offsets[k] as int + n),
                    ref_norm,
                    scores[k],
                ));
                score_is_agreement(
                    arith,
                    reference,
                    received.subrange(d, d + n),
                    ref_norm,
                    scores[k],
                );
                if let Some(s) = scores[k] {
                    assert(agreement(
                        arith,
                        reference,
                        received.subrange(d, d + reference.len()),
                        ref_norm,
                        s,
                    ));
                }
            }
            let best = crate::autotest::best_of(scores);
            if zero.below(peak) {
                assert(best != zero);
                let k = choose|k: int| 0 <= k < scores.len() && scores[k] == Some(best);
                let d = offsets[k] as int;
                if max >= 1024 {
                    assert(d == (k * max) / 1023);
                }
                assert(looked_at(max as int, d));
                assert(score_of(
                    arith,
                    reference,
                    received.subrange(offsets[k] as int, offsets[k] as int + n),
                    ref_norm,
                    scores[k],
                ));
                score_is_agreement(
                    arith,
                    reference,
                    received.subrange(d, d + n),
                    ref_norm,
                    scores[k],
                );
                assert(agreement(
                    arith,
                    reference,
                    received.subrange(d, d + reference.len()),
                    ref_norm,
                    best,
                ));
            }
        }
        assert(best_with(arith, reference, received, ref_norm, peak));
    }
}

/// The correlation peak tells how well the reference agrees with the capture at the best place: with
/// a reference that is not silent, at each place that is looked at the capture is silent or agrees
/// with the reference no better than the peak says, up to full agreement, and a peak above zero is
/// reached at one of them. All places are looked at where there are no more than 1024, else that
/// many, evenly spread from the first to the last.
pub proof fn the_peak_is_the_best_agreement<A: Arithmetic>(
    arith: &A,
    reference: &[IqSample],
    received: &[IqSample],
    peak: Single,
)
    requires
        call_ensures(normalised_xcorr_peak::<A>, (arith, reference, received), peak),
    ensures
        best_agreement(arith, reference@, received@, peak),
{
    peaks_are_best_agreements(arith, reference@, received@, peak);
}

/// Those of `results` that passed.
pub open spec fn passing(results: Seq<BurstResult>) -> Seq<BurstResult> {
    results.filter(|r: BurstResult| r.passed)
}

proof fn passes_are_passing(results: Seq<BurstResult>)
    ensures
        passes(results) == passing(results).len(),
    decreases results.len(),
{
    reveal(Seq::filter);
    if results.len() > 0 {
        passes_are_passing(results.drop_last());
    }
}

/// A report counts the bursts, those that passed, and all others as failed; the test is passed if
/// and only if there were bursts and at least four in five of them passed.
pub proof fn a_test_passes_with_four_bursts_in_five<A: Arithmetic>(
    arith: &A,
    results: &[BurstResult],
    report: AutotestReport,
)
    requires
        call_ensures(summarise_results::<A>, (arith, results), report),
    ensures
        report.total_bursts == results@.len(),
        report.passed_bursts == passing(results@).len(),
        report.passed_bursts + report.failed_bursts == report.total_bursts,
        report.overall_pass <==> results@.len() > 0 && 5 * report.passed_bursts >= 4
            * report.total_bursts,
{
    passes_are_passing(results@);
}

/// `m` is the mean of `values`.
pub open spec fn is_mean<A: Arithmetic>(arith: &A, values: Seq<Single>, m: Single) -> bool {
    exists|total: Single| #[trigger]
        running_sum(arith, Single { bits: 0 }, values, total) && divided_by(
            arith,
            total,
            values.len(),
            m,
        )
}

/// `report` has the means of the ratios and of the peaks over all of `results`, and a ratio that none
/// is below; without results they are zero.
pub open spec fn averages_all<A: Arithmetic>(
    arith: &A,
    results: Seq<BurstResult>,
    report: AutotestReport,
) -> bool {
    &&& results.len() == 0 ==> report.mean_snr_db.bits == 0 && report.min_snr_db.bits == 0
        && report.mean_xcorr.bits == 0
    &&& results.len() > 0 ==> is_mean(
        arith,
        results.map_values(|r: BurstResult| r.snr_db),
        report.mean_snr_db,
    )
    &&& results.len() > 0 ==> is_mean(
        arith,
        results.map_values(|r: BurstResult| r.xcorr_peak),
        report.mean_xcorr,
    )
    &&& results.len() > 0 ==> forall|i: int|
        0 <= i < results.len() ==> !(#[trigger] results[i]).snr_db.below(report.min_snr_db)
    &&& results.len() > 0 ==> report.min_snr_db.bits == 0x7F80_0000 || exists|i: int|
        0 <= i < results.len() && (#[trigger] results[i]).snr_db == report.min_snr_db
}

proof fn summaries_average_all<A: Arithmetic>(
    arith: &A,
    results: Seq<BurstResult>,
    report: AutotestReport,
)
    requires
        summarised(arith, results, report),
    ensures
        averages_all(arith, results, report),
{
    if results.len() > 0 {
        assert(snrs(results) =~= results.map_values(|r: BurstResult| r.snr_db));
        assert(xcorrs(results) =~= results.map_values(|r: BurstResult| r.xcorr_peak));
        averages_are_means(arith, snrs(results), report.mean_snr_db);
        averages_are_means(arith, xcorrs(results), report.mean_xcorr);
        the_smallest_is_above_none(Single { bits: 0x7F80_0000 }, snrs(results));
        assert forall|i: int| 0 <= i < results.len() implies !(
        #[trigger] results[i]).snr_db.below(report.min_snr_db) by {
            assert(snrs(results)[i] == results[i].snr_db);
        }
        if snrs(results).contains(report.min_snr_db) {
            let i = choose|i: int|
                0 <= i < snrs(results).len() && snrs(results)[i] == report.min_snr_db;
            assert(results[i].snr_db == report.min_snr_db);
        }
    }
}

/// The means in a report are those of the ratios and of the correlation peaks of its bursts, and the
/// lowest ratio is one of theirs, with none below it; all are zero where there were no bursts.
pub proof fn a_report_is_over_all_bursts<A: Arithmetic>(
    arith: &A,
    results: &[BurstResult],
    report: AutotestReport,
)
    requires
        call_ensures(summarise_results::<A>, (arith, results), report),
    ensures
        averages_all(arith, results@, report),
{
    summaries_average_all(arith, results@, report);
}

proof fn averages_are_means<A: Arithmetic>(arith: &A, values: Seq<Single>, m: Single)
    requires
        average_is(arith, values, m),
    ensures
        is_mean(arith, values, m),
{
    let total = choose|total: Single| #[trigger]
        running_sum(arith, Single { bits: 0 }, values, total) && mean_of(
            arith,
            total,
            values.len() as u64,
            m,
        );
    mean_is_divided(arith, total, values.len(), m);
}

/// A test that has failed before stays failed, and one that has not stands as its report says.
pub proof fn a_verdict_is_never_softened(passed: bool, report: AutotestReport, r: bool)
    requires
        call_ensures(verdict, (passed, &report), r),
    ensures
        r ==> passed && report.overall_pass,
        passed && report.overall_pass ==> r,
{
}

/// As long as a capture is short of its target the next read asks for something, never for more than
/// a buffer or than is missing, and for all that is missing if it fits; after that for nothing.
pub proof fn reads_go_on_to_the_target(have: usize, target: usize, size: usize, n: Option<usize>)
    requires
        call_ensures(next_read, (have, target, size), n),
    ensures
        n is None <==> have >= target,
        n matches Some(k) ==> k <= size && have + k <= target,
        n matches Some(k) ==> k == size || have + k == target,
{
}

/// A capture grows by what was read, after what it has, and its length is counted as received; nothing
/// else is counted.
pub proof fn a_capture_grows_by_what_was_read(
    captured: &mut Vec<IqSample>,
    stats: &mut DebugStats,
    buffer: &[IqSample],
    len: usize,
)
    requires
        call_ensures(capture, (captured, stats, buffer, len), ()),
        len <= buffer@.len(),
    ensures
        final(captured)@.len() == old(captured)@.len() + len,
        forall|i: int|
            0 <= i < old(captured)@.len() ==> #[trigger] final(captured)@[i] == old(captured)@[i],
        forall|i: int|
            0 <= i < len ==> final(captured)@[old(captured)@.len() + i] == #[trigger] buffer@[i],
        counts_on(old(stats).rx_samples, len as int, final(stats).rx_samples),
        *final(stats) == (DebugStats { rx_samples: final(stats).rx_samples, ..*old(stats) }),
{
    assert forall|i: int| 0 <= i < len implies final(captured)@[old(captured)@.len() + i]
        == #[trigger] buffer@[i] by {
        assert(buffer@.subrange(0, len as int)[i] == buffer@[i]);
    }
}

/// A session starts with nothing found, sends a tone of the frequency and length of the
/// configuration, and captures as many samples as come while the relay holds a burst back and sends
/// it.
pub proof fn a_session_covers_delay_and_burst<A: Arithmetic>(
    arith: &A,
    config: AutotestConfig,
    r: AutotestSession,
)
    requires
        call_ensures(AutotestSession::new::<A>, (arith, config), r),
        config.relay_delay_ms + config.tx_duration_ms <= u64::MAX,
    ensures
        r.found().len() == 0,
        r.configuration() == config,
        forall|i: int|
            0 <= i < r.burst().len() ==> burst_point(
                arith,
                config.sample_rate,
                config.tone_freq_hz,
                i,
                #[trigger] r.burst()[i],
            ),
        exists|m: Double| #[trigger]
            call_ensures(A::wide_count, (arith, config.tx_duration_ms), m)
                && product_over_a_thousand(arith, config.sample_rate, m, r.burst().len()),
        exists|m: Double| #[trigger]
            call_ensures(
                A::wide_count,
                (arith, (config.relay_delay_ms + config.tx_duration_ms) as u64),
                m,
            ) && product_over_a_thousand(arith, m, config.sample_rate, r.target() as nat),
{
    assert forall|i: int| 0 <= i < r.burst().len() implies burst_point(
        arith,
        config.sample_rate,
        config.tone_freq_hz,
        i,
        #[trigger] r.burst()[i],
    ) by {
        burst_samples_are_points(arith, config.sample_rate, config.tone_freq_hz, i, r.burst()[i]);
    }
    let thousand = Double { bits: 0x408F_4000_0000_0000 };
    let (m, scaled, exact, whole) = choose|m: Double, scaled: Double, exact: Double, whole: u64|
        wide_count_of(arith, config.tx_duration_ms, m) && #[trigger] wide_product_of(
            arith,
            config.sample_rate,
            m,
            scaled,
        ) && wide_quotient_of(arith, scaled, thousand, exact) && #[trigger] wide_floor_of(
            arith,
            exact,
            whole,
        ) && r.burst().len() as usize == as_size(whole);
    assert(call_ensures(A::wide_over, (arith, scaled, thousand), exact));
    assert(call_ensures(A::wide_floor, (arith, exact), whole));
    assert(product_over_a_thousand(arith, config.sample_rate, m, r.burst().len()));
    assert(call_ensures(A::wide_count, (arith, config.tx_duration_ms), m));
    let ms = (config.relay_delay_ms + config.tx_duration_ms) as u64;
    let (m2, scaled2, exact2, whole2) = choose|
        m: Double,
        scaled: Double,
        exact: Double,
        whole: u64,
    |
        wide_count_of(arith, ms, m) && #[trigger] wide_product_of(
            arith,
            m,
            config.sample_rate,
            scaled,
        ) && wide_quotient_of(arith, scaled, thousand, exact) && #[trigger] wide_floor_of(
            arith,
            exact,
            whole,
        ) && r.target() == as_size(whole);
    assert(call_ensures(A::wide_over, (arith, scaled2, thousand), exact2));
    assert(call_ensures(A::wide_floor, (arith, exact2), whole2));
    assert(product_over_a_thousand(arith, m2, config.sample_rate, r.target() as nat));
    assert(call_ensures(A::wide_count, (arith, ms), m2));
}

/// `n` is the product of `a` and `b` over a thousand, rounded down.
pub open spec fn product_over_a_thousand<A: Arithmetic>(
    arith: &A,
    a: Double,
    b: Double,
    n: nat,
) -> bool {
    exists|scaled: Double, exact: Double, whole: u64|
        call_ensures(A::wide_times, (arith, a, b), scaled) && #[trigger] call_ensures(
            A::wide_over,
            (arith, scaled, Double { bits: 0x408F_4000_0000_0000 }),
            exact,
        ) && #[trigger] call_ensures(A::wide_floor, (arith, exact), whole) && n == (if whole
            > usize::MAX {
            usize::MAX as nat
        } else {
            whole as nat
        })
}

/// Bursts are numbered from 0 on in the order they are judged, as many as the configuration asks for.
pub proof fn bursts_are_numbered_in_turn(session: AutotestSession, next: Option<u32>)
    requires
        call_ensures(AutotestSession::next_burst, (&session,), next),
        session.found().len() <= session.configuration().burst_count,
    ensures
        next matches Some(id) ==> id == session.found().len() && id
            < session.configuration().burst_count,
        next is None <==> session.found().len() == session.configuration().burst_count,
{
}

/// Judging a burst adds its result after those found before, with its number and by the threshold of
/// the session, and changes nothing else of the session.
pub proof fn a_session_keeps_every_result<A: Arithmetic>(
    session: &mut AutotestSession,
    arith: &A,
    captured: &[IqSample],
    result: BurstResult,
)
    requires
        call_ensures(AutotestSession::evaluate::<A>, (session, arith, captured), result),
        old(session).found().len() < old(session).configuration().burst_count,
    ensures
        final(session).found() == old(session).found().push(result),
        final(session).configuration() == old(session).configuration(),
        final(session).burst() == old(session).burst(),
        final(session).target() == old(session).target(),
        measured_as(
            arith,
            old(session).burst(),
            captured@,
            old(session).found().len() as int,
            result,
        ),
        result.passed == old(session).configuration().snr_threshold_db.at_most(result.snr_db),
{
    evaluated_are_measured(
        arith,
        old(session).burst(),
        captured@,
        old(session).configuration(),
        old(session).found().len() as u32,
        result,
    );
}

/// The report of a session is over all it found.
pub proof fn a_session_reports_all_it_found<A: Arithmetic>(
    session: AutotestSession,
    arith: &A,
    report: AutotestReport,
)
    requires
        call_ensures(AutotestSession::report::<A>, (&session, arith), report),
    ensures
        report.total_bursts == session.found().len(),
        report.passed_bursts == passing(session.found()).len(),
        report.passed_bursts + report.failed_bursts == report.total_bursts,
        averages_all(arith, session.found(), report),
        report.overall_pass <==> session.found().len() > 0 && 5 * report.passed_bursts >= 4
            * report.total_bursts,
{
    passes_are_passing(session.found());
    summaries_average_all(arith, session.found(), report);
}

/// A session tells the burst that it sends and how much it captures.
pub proof fn a_session_tells_what_it_sends(
    session: AutotestSession,
    reference: &Vec<IqSample>,
    target: usize,
)
    requires
        call_ensures(AutotestSession::reference, (&session,), reference),
        call_ensures(AutotestSession::capture_target, (&session,), target),
    ensures
        reference@ == session.burst(),
        target == session.target(),
{
}

} // verus!
