//! Automated test mode: signal quality of a burst that went through the relay, and the report over
//! all bursts.
use vstd::prelude::*;

use crate::arith::{
    largest, product_of, quotient_of, root_of, running_sum, running_sum_push, smallest, sum_of,
    Arithmetic, Double, Single, INFINITY_BITS, NEG_INFINITY_BITS, ONE_BITS,
};
use crate::signal::{
    decibels, decibels_of, energy, energy_of, levels_of, levels_push, mean, mean_of, rms_of,
    sample_magnitude, zero, IqSample,
};

verus! {

/// How many offsets a cross-correlation is taken at, at most.
pub const MAX_OFFSETS: usize = 1024;

/// The share of bursts that have to pass, in percent.
pub const PASS_PERCENT: u64 = 80;

/// Configuration for automated test mode.
#[derive(Clone, Copy)]
pub struct AutotestConfig {
    /// Duration of each TX burst in milliseconds.
    pub tx_duration_ms: u64,
    /// Guard time after TX/RX switch in milliseconds.
    pub switch_guard_ms: u64,
    /// Expected relay delay in milliseconds.
    pub relay_delay_ms: u64,
    /// Number of bursts to transmit.
    pub burst_count: u32,
    /// Minimum SNR (dB) for a burst to be considered passing.
    pub snr_threshold_db: Single,
    /// Tone frequency offset in Hz for the test sinusoid.
    pub tone_freq_hz: Double,
    /// Sample rate in samples per second.
    pub sample_rate: Double,
    /// Buffer size in samples for RX/TX operations.
    pub buffer_size: usize,
}

/// Result of a single burst measurement.
#[derive(Debug, Clone, Copy)]
pub struct BurstResult {
    /// Sequential burst identifier.
    pub burst_id: u32,
    /// Number of samples in the transmitted reference.
    pub transmitted_samples: usize,
    /// Number of samples in the received capture.
    pub received_samples: usize,
    /// Peak magnitude in the received capture.
    pub peak_level: Single,
    /// Estimated noise floor from the beginning of the capture.
    pub noise_floor: Single,
    /// Signal-to-noise ratio in dB.
    pub snr_db: Single,
    /// Normalised cross-correlation peak between reference and received.
    pub xcorr_peak: Single,
    /// Whether this burst met the SNR threshold.
    pub passed: bool,
}

/// Aggregate report over all bursts.
#[derive(Debug, Clone, Copy)]
pub struct AutotestReport {
    /// Total number of bursts evaluated.
    pub total_bursts: u32,
    /// Bursts that met the SNR threshold.
    pub passed_bursts: u32,
    /// Bursts that did not meet the SNR threshold.
    pub failed_bursts: u32,
    /// Arithmetic mean SNR across all bursts (dB).
    pub mean_snr_db: Single,
    /// Minimum SNR across all bursts (dB).
    pub min_snr_db: Single,
    /// Arithmetic mean of the cross-correlation peaks.
    pub mean_xcorr: Single,
    /// True if >= 80% of bursts passed.
    pub overall_pass: bool,
}

/// How many samples at the beginning of a capture show its noise: a tenth of them, at least one.
pub open spec fn noise_window(len: nat) -> nat {
    if len / 10 < 1 {
        1
    } else {
        len / 10
    }
}

/// `floor` is the noise floor of `samples`: the RMS magnitude of the window at their beginning.
pub open spec fn noise_floor_of<A: Arithmetic>(
    arith: &A,
    samples: Seq<IqSample>,
    floor: Single,
) -> bool {
    if samples.len() == 0 {
        floor == zero()
    } else {
        rms_of(arith, samples.subrange(0, noise_window(samples.len()) as int), floor)
    }
}

/// The RMS magnitude of the samples from `from` up to `to`.
fn rms<A: Arithmetic>(arith: &A, samples: &[IqSample], from: usize, to: usize) -> (r: Single)
    requires
        from <= to <= samples@.len(),
    ensures
        rms_of(arith, samples@.subrange(from as int, to as int), r),
{
    let total = energy(arith, samples, from, to);
    let power = mean(arith, total, (to - from) as u64);
    let r = arith.root(power);
    proof {
        let window = samples@.subrange(from as int, to as int);
        assert(mean_of(arith, total, window.len() as u64, power));
    }
    r
}

/// Estimate the noise floor from the first 10 % of a sample buffer.
///
/// Returns the RMS magnitude: `sqrt(mean(re^2 + im^2))`, or zero for an empty slice.
pub fn estimate_noise_floor<A: Arithmetic>(arith: &A, samples: &[IqSample]) -> (floor: Single)
    ensures
        noise_floor_of(arith, samples@, floor),
{
    if samples.len() == 0 {
        return Single { bits: 0 };
    }
    let tenth: usize = samples.len() / 10;
    let window: usize = if tenth < 1 {
        1
    } else {
        tenth
    };
    rms(arith, samples, 0, window)
}

/// `snr` is the signal-to-noise ratio of `signal` over `floor` in dB: minus infinity where there
/// is no signal or the floor is not above zero.
pub open spec fn snr_of<A: Arithmetic>(
    arith: &A,
    signal: Seq<IqSample>,
    floor: Single,
    snr: Single,
) -> bool {
    if signal.len() == 0 || floor.at_most(zero()) {
        snr == (Single { bits: NEG_INFINITY_BITS })
    } else {
        exists|level: Single, ratio: Single|
            rms_of(arith, signal, level) && #[trigger] quotient_of(arith, level, floor, ratio)
                && decibels_of(arith, ratio, snr)
    }
}

/// Measure signal-to-noise ratio in dB.
///
/// Computes the RMS magnitude of `signal` and returns `20 * log10(signal_rms / noise_floor)`;
/// minus infinity when `noise_floor <= 0.0` or `signal` is empty.
pub fn measure_snr<A: Arithmetic>(arith: &A, signal: &[IqSample], noise_floor: Single) -> (snr:
    Single)
    ensures
        snr_of(arith, signal@, noise_floor, snr),
{
    if signal.len() == 0 || noise_floor.is_at_most(Single { bits: 0 }) {
        return Single { bits: NEG_INFINITY_BITS };
    }
    let level = rms(arith, signal, 0, signal.len());
    assert(signal@.subrange(0, signal@.len() as int) =~= signal@);
    let ratio = arith.over(level, noise_floor);
    decibels(arith, ratio)
}

/// The offsets that a reference is compared at, up to `max`: all of them where they are at most
/// [`MAX_OFFSETS`], else that many, evenly spaced from 0 to `max`.
pub open spec fn offsets_up_to(max: nat) -> Seq<nat> {
    if max + 1 <= MAX_OFFSETS {
        Seq::new(max + 1, |i: int| i as nat)
    } else {
        Seq::new(MAX_OFFSETS as nat, |i: int| (i * max / (MAX_OFFSETS - 1)) as nat)
    }
}

/// `d` is the product of two samples taken as vectors in the plane.
pub open spec fn dot_term<A: Arithmetic>(arith: &A, r: IqSample, w: IqSample, d: Single) -> bool {
    exists|re: Single, im: Single|
        product_of(arith, r.re, w.re, re) && product_of(arith, r.im, w.im, im) && #[trigger] sum_of(
            arith,
            re,
            im,
            d,
        )
}

/// `terms` are the products of the samples of `a` and `b`, one for one.
pub open spec fn dot_terms<A: Arithmetic>(
    arith: &A,
    a: Seq<IqSample>,
    b: Seq<IqSample>,
    terms: Seq<Single>,
) -> bool {
    &&& terms.len() == a.len()
    &&& forall|i: int| 0 <= i < a.len() ==> dot_term(arith, a[i], b[i], #[trigger] terms[i])
}

/// `d` is the sum of the products of the samples of `a` and `b`.
pub open spec fn dot_of<A: Arithmetic>(
    arith: &A,
    a: Seq<IqSample>,
    b: Seq<IqSample>,
    d: Single,
) -> bool {
    exists|terms: Seq<Single>|
        dot_terms(arith, a, b, terms) && #[trigger] running_sum(arith, zero(), terms, d)
}

/// `norm` is the root of the energy of `samples`.
pub open spec fn norm_of<A: Arithmetic>(arith: &A, samples: Seq<IqSample>, norm: Single) -> bool {
    exists|e: Single| energy_of(arith, samples, e) && #[trigger] root_of(arith, e, norm)
}

/// `score` is how well `reference`, whose norm is `ref_norm`, agrees with `window`: none where the
/// window is silent.
pub open spec fn score_of<A: Arithmetic>(
    arith: &A,
    reference: Seq<IqSample>,
    window: Seq<IqSample>,
    ref_norm: Single,
    score: Option<Single>,
) -> bool {
    exists|dot: Single, norm: Single|
        dot_of(arith, reference, window, dot) && #[trigger] norm_of(arith, window, norm)
            && #[trigger] scored(arith, dot, ref_norm, norm, score)
}

/// `score` is `dot` divided by both norms: none where that of the window is zero.
pub open spec fn scored<A: Arithmetic>(
    arith: &A,
    dot: Single,
    ref_norm: Single,
    norm: Single,
    score: Option<Single>,
) -> bool {
    if norm.rank() == 0 {
        score is None
    } else {
        score matches Some(s) && exists|product: Single| #[trigger]
            product_of(arith, ref_norm, norm, product) && quotient_of(arith, dot, product, s)
    }
}

/// The best of `scores`, taken from the first to the last, at least zero.
pub open spec fn best_of(scores: Seq<Option<Single>>) -> Single
    decreases scores.len(),
{
    if scores.len() == 0 {
        zero()
    } else {
        let before = best_of(scores.drop_last());
        match scores.last() {
            Some(s) if before.below(s) => s,
            _ => before,
        }
    }
}

/// `x`, but not below zero and not above one.
pub open spec fn clamped(x: Single) -> Single {
    if x.below(zero()) {
        zero()
    } else if (Single { bits: ONE_BITS }).below(x) {
        Single { bits: ONE_BITS }
    } else {
        x
    }
}

/// `scores` are those of `reference` over `received`, at the offsets `offsets`.
pub open spec fn scores_at<A: Arithmetic>(
    arith: &A,
    reference: Seq<IqSample>,
    received: Seq<IqSample>,
    ref_norm: Single,
    offsets: Seq<nat>,
    scores: Seq<Option<Single>>,
) -> bool {
    &&& scores.len() == offsets.len()
    &&& forall|i: int|
        0 <= i < scores.len() ==> score_of(
            arith,
            reference,
            received.subrange(offsets[i] as int, offsets[i] as int + reference.len()),
            ref_norm,
            #[trigger] scores[i],
        )
}

/// `peak` is the peak of the normalised cross-correlation of `reference` over `received`.
pub open spec fn xcorr_of<A: Arithmetic>(
    arith: &A,
    reference: Seq<IqSample>,
    received: Seq<IqSample>,
    peak: Single,
) -> bool {
    if reference.len() == 0 || received.len() == 0 || reference.len() > received.len() {
        peak == zero()
    } else {
        exists|ref_norm: Single| #[trigger]
            norm_of(arith, reference, ref_norm) && if ref_norm.rank() == 0 {
                peak == zero()
            } else {
                exists|scores: Seq<Option<Single>>|
                    peak == clamped(best_of(scores)) && #[trigger] scores_at(
                        arith,
                        reference,
                        received,
                        ref_norm,
                        offsets_up_to((received.len() - reference.len()) as nat),
                        scores,
                    )
            }
    }
}

/// Whether at most 1024 offsets are looked at, the first and the last of them always, no two the
/// same, and all of them where they are no more.
pub proof fn offsets_are_spread(max: nat)
    ensures
        1 <= offsets_up_to(max).len() <= MAX_OFFSETS,
        offsets_up_to(max)[0] == 0,
        offsets_up_to(max).last() == max,
        forall|i: int, j: int|
            0 <= i < j < offsets_up_to(max).len() ==> (#[trigger] offsets_up_to(max)[i])
                < #[trigger] offsets_up_to(max)[j],
        forall|i: int|
            0 <= i < offsets_up_to(max).len() ==> (#[trigger] offsets_up_to(max)[i]) <= max,
        max < MAX_OFFSETS ==> forall|d: nat| d <= max ==> #[trigger] offsets_up_to(max).contains(d),
{
    let all = offsets_up_to(max);
    if max < MAX_OFFSETS {
        assert forall|d: nat| d <= max implies #[trigger] all.contains(d) by {
            assert(all[d as int] == d);
        }
    } else {
        assert(0 * max == 0) by (nonlinear_arith);
        assert((1023 * max) / 1023 == max) by (nonlinear_arith);
        assert forall|i: int| 0 <= i < all.len() implies (#[trigger] all[i]) <= max by {
            assert(0 <= i * max <= 1023 * max) by (nonlinear_arith)
                requires
                    0 <= i <= 1023,
                    0 <= max,
            ;
        }
        assert forall|i: int, j: int| 0 <= i < j < all.len() implies (#[trigger] all[i])
            < #[trigger] all[j] by {
            assert(j * max >= i * max + 1023 && i * max >= 0) by (nonlinear_arith)
                requires
                    0 <= i < j,
                    max >= 1023,
            ;
        }
    }
}

/// The best score is one of the scores or zero, is a number, and is no lower than any score.
pub proof fn best_is_best(scores: Seq<Option<Single>>)
    ensures
        !best_of(scores).nan(),
        zero().at_most(best_of(scores)),
        best_of(scores) == zero() || scores.contains(Some(best_of(scores))),
        forall|i: int|
            0 <= i < scores.len() && scores[i] is Some && !scores[i]->0.nan() ==> (
            #[trigger] scores[i])->0.at_most(best_of(scores)),
    decreases scores.len(),
{
    if scores.len() > 0 {
        let before = scores.drop_last();
        best_is_best(before);
        if before.contains(Some(best_of(before))) {
            let i = choose|i: int| 0 <= i < before.len() && before[i] == Some(best_of(before));
            assert(scores[i] == before[i]);
        }
        assert(scores.contains(scores.last()));
        assert forall|i: int|
            0 <= i < scores.len() && scores[i] is Some && !scores[i]->0.nan() implies (
        #[trigger] scores[i])->0.at_most(best_of(scores)) by {
            if i < before.len() {
                assert(before[i] == scores[i]);
            }
        }
    }
}

/// A cross-correlation peak lies between zero and one.
pub proof fn xcorr_is_normalised<A: Arithmetic>(
    arith: &A,
    reference: Seq<IqSample>,
    received: Seq<IqSample>,
    peak: Single,
)
    requires
        xcorr_of(arith, reference, received, peak),
    ensures
        zero().at_most(peak),
        peak.at_most(Single { bits: ONE_BITS }),
{
    if reference.len() > 0 && received.len() > 0 && reference.len() <= received.len() {
        let ref_norm = choose|ref_norm: Single| #[trigger]
            norm_of(arith, reference, ref_norm) && if ref_norm.rank() == 0 {
                peak == zero()
            } else {
                exists|scores: Seq<Option<Single>>|
                    peak == clamped(best_of(scores)) && #[trigger] scores_at(
                        arith,
                        reference,
                        received,
                        ref_norm,
                        offsets_up_to((received.len() - reference.len()) as nat),
                        scores,
                    )
            };
        if ref_norm.rank() != 0 {
            let scores = choose|scores: Seq<Option<Single>>|
                peak == clamped(best_of(scores)) && #[trigger] scores_at(
                    arith,
                    reference,
                    received,
                    ref_norm,
                    offsets_up_to((received.len() - reference.len()) as nat),
                    scores,
                );
            best_is_best(scores);
        }
    }
}

fn dot<A: Arithmetic>(arith: &A, reference: &[IqSample], received: &[IqSample], from: usize) -> (d:
    Single)
    requires
        from + reference@.len() <= received@.len(),
    ensures
        dot_of(
            arith,
            reference@,
            received@.subrange(from as int, from as int + reference@.len()),
            d,
        ),
{
    let ghost window = received@.subrange(from as int, from as int + reference@.len());
    let length: usize = received.len();
    let mut total = Single { bits: 0 };
    let ghost mut terms: Seq<Single> = Seq::empty();
    let mut i: usize = 0;
    while i < reference.len()
        invariant
            i <= reference@.len(),
            length == received@.len(),
            from + reference@.len() <= length,
            window == received@.subrange(from as int, from as int + reference@.len()),
            terms.len() == i,
            forall|j: int|
                0 <= j < i ==> dot_term(arith, reference@[j], window[j], #[trigger] terms[j]),
            running_sum(arith, zero(), terms, total),
        decreases reference@.len() - i,
    {
        let r = reference[i];
        let w = received[from + i];
        let re = arith.times(r.re, w.re);
        let im = arith.times(r.im, w.im);
        let term = arith.plus(re, im);
        let before = total;
        total = arith.plus(before, term);
        proof {
            assert(window[i as int] == w);
            assert(dot_term(arith, reference@[i as int], window[i as int], term));
            running_sum_push(arith, zero(), terms, before, term, total);
            terms = terms.push(term);
        }
        i += 1;
    }
    assert(dot_terms(arith, reference@, window, terms));
    total
}

/// Build the list of offsets to evaluate, up to `max`.
fn build_offsets(max: usize) -> (offsets: Vec<usize>)
    requires
        max < usize::MAX,
    ensures
        offsets@.len() == offsets_up_to(max as nat).len(),
        forall|i: int|
            0 <= i < offsets@.len() ==> #[trigger] offsets@[i] == offsets_up_to(max as nat)[i],
{
    let mut offsets: Vec<usize> = Vec::new();
    let all = max + 1 <= MAX_OFFSETS;
    let count: usize = if all {
        max + 1
    } else {
        MAX_OFFSETS
    };
    let mut i: usize = 0;
    while i < count
        invariant
            i <= count,
            count == offsets_up_to(max as nat).len(),
            all == (max + 1 <= MAX_OFFSETS),
            count <= MAX_OFFSETS,
            offsets@.len() == i,
            forall|j: int|
                0 <= j < i ==> #[trigger] offsets@[j] == offsets_up_to(max as nat)[j],
        decreases count - i,
    {
        if all {
            offsets.push(i);
        } else {
            assert(0 <= i * max <= 1023 * max) by (nonlinear_arith)
                requires
                    0 <= i <= 1023,
                    0 <= max,
            ;
            let offset: u128 = i as u128 * max as u128 / (MAX_OFFSETS - 1) as u128;
            offsets.push(offset as usize);
            assert(offset == (i as int * max as nat / (MAX_OFFSETS - 1)) as nat);
        }
        i += 1;
    }
    offsets
}

/// Compute the peak normalised cross-correlation between `reference` and `received`.
///
/// Slides `reference` over `received` at integer-sample offsets and returns the maximum normalised
/// dot-product, clamped to [0, 1].
///
/// For efficiency the search is sub-sampled to at most 1024 offsets when the lag range exceeds
/// 1024.
pub fn normalised_xcorr_peak<A: Arithmetic>(
    arith: &A,
    reference: &[IqSample],
    received: &[IqSample],
) -> (peak: Single)
    ensures
        xcorr_of(arith, reference@, received@, peak),
{
    if reference.len() == 0 || received.len() == 0 || reference.len() > received.len() {
        return Single { bits: 0 };
    }
    let ref_len: usize = reference.len();
    let length: usize = received.len();
    let max_offset: usize = length - ref_len;
    assert(reference@.subrange(0, ref_len as int) =~= reference@);
    let ref_energy = energy(arith, reference, 0, ref_len);
    let ref_norm = arith.root(ref_energy);
    assert(norm_of(arith, reference@, ref_norm));
    if ref_norm.is_zero() {
        return Single { bits: 0 };
    }
    let offsets = build_offsets(max_offset);
    let ghost wanted = offsets_up_to(max_offset as nat);
    proof {
        offsets_are_spread(max_offset as nat);
    }
    let mut best = Single { bits: 0 };
    let ghost mut scores: Seq<Option<Single>> = Seq::empty();
    let mut i: usize = 0;
    while i < offsets.len()
        invariant
            i <= offsets@.len(),
            ref_len == reference@.len(),
            length == received@.len(),
            max_offset == length - ref_len,
            wanted == offsets_up_to(max_offset as nat),
            offsets@.len() == wanted.len(),
            forall|j: int| 0 <= j < offsets@.len() ==> #[trigger] offsets@[j] == wanted[j],
            forall|j: int| 0 <= j < wanted.len() ==> (#[trigger] wanted[j]) <= max_offset,
            scores.len() == i,
            best == best_of(scores),
            forall|j: int|
                0 <= j < i ==> score_of(
                    arith,
                    reference@,
                    received@.subrange(wanted[j] as int, wanted[j] as int + reference@.len()),
                    ref_norm,
                    #[trigger] scores[j],
                ),
        decreases offsets@.len() - i,
    {
        let d: usize = offsets[i];
        assert(d == wanted[i as int]);
        let ghost window = received@.subrange(d as int, d as int + reference@.len());
        let product = dot(arith, reference, received, d);
        let window_energy = energy(arith, received, d, d + ref_len);
        let window_norm = arith.root(window_energy);
        assert(norm_of(arith, window, window_norm));
        let score = if window_norm.is_zero() {
            None
        } else {
            let scale = arith.times(ref_norm, window_norm);
            Some(arith.over(product, scale))
        };
        assert(scored(arith, product, ref_norm, window_norm, score));
        let ghost before = scores;
        proof {
            scores = before.push(score);
            assert(scores.drop_last() =~= before);
            assert(score_of(arith, reference@, window, ref_norm, score));
        }
        if let Some(normalised) = score {
            if best.is_below(normalised) {
                best = normalised;
            }
        }
        i += 1;
    }
    assert(scores_at(arith, reference@, received@, ref_norm, wanted, scores));
    let one = Single { bits: ONE_BITS };
    if best.is_below(Single { bits: 0 }) {
        Single { bits: 0 }
    } else if one.is_below(best) {
        one
    } else {
        best
    }
}

/// `result` is what a burst with the given number is found to be.
pub open spec fn burst_evaluated<A: Arithmetic>(
    arith: &A,
    reference: Seq<IqSample>,
    received: Seq<IqSample>,
    config: AutotestConfig,
    burst_id: u32,
    result: BurstResult,
) -> bool {
    &&& result.burst_id == burst_id
    &&& result.transmitted_samples == reference.len()
    &&& result.received_samples == received.len()
    &&& noise_floor_of(arith, received, result.noise_floor)
    &&& snr_of(arith, received, result.noise_floor, result.snr_db)
    &&& xcorr_of(arith, reference, received, result.xcorr_peak)
    &&& exists|levels: Seq<Single>| #[trigger]
        levels_of(arith, received, levels) && result.peak_level == largest(zero(), levels)
    &&& result.passed == config.snr_threshold_db.at_most(result.snr_db)
}

/// Evaluate a single burst against its reference waveform.
pub fn evaluate_burst<A: Arithmetic>(
    arith: &A,
    reference: &[IqSample],
    received: &[IqSample],
    config: &AutotestConfig,
    burst_id: u32,
) -> (result: BurstResult)
    ensures
        burst_evaluated(arith, reference@, received@, *config, burst_id, result),
{
    let noise_floor = estimate_noise_floor(arith, received);
    let snr_db = measure_snr(arith, received, noise_floor);
    let xcorr_peak = normalised_xcorr_peak(arith, reference, received);
    let mut peak_level = Single { bits: 0 };
    let ghost mut levels: Seq<Single> = Seq::empty();
    let mut i: usize = 0;
    while i < received.len()
        invariant
            i <= received@.len(),
            levels_of(arith, received@.subrange(0, i as int), levels),
            peak_level == largest(zero(), levels),
        decreases received@.len() - i,
    {
        let level = sample_magnitude(arith, received[i]);
        proof {
            levels_push(arith, received@, i as int, levels, level);
            assert(levels.push(level).drop_last() =~= levels);
            levels = levels.push(level);
        }
        peak_level = peak_level.max_of(level);
        i += 1;
    }
    assert(received@.subrange(0, i as int) =~= received@);
    BurstResult {
        burst_id,
        transmitted_samples: reference.len(),
        received_samples: received.len(),
        peak_level,
        noise_floor,
        snr_db,
        xcorr_peak,
        passed: config.snr_threshold_db.is_at_most(snr_db),
    }
}

/// How many of `results` passed.
pub open spec fn passes(results: Seq<BurstResult>) -> nat
    decreases results.len(),
{
    if results.len() == 0 {
        0
    } else {
        passes(results.drop_last()) + if results.last().passed {
            1nat
        } else {
            0
        }
    }
}

/// The signal-to-noise ratios of `results`.
pub open spec fn snrs(results: Seq<BurstResult>) -> Seq<Single> {
    Seq::new(results.len(), |i: int| results[i].snr_db)
}

/// The cross-correlation peaks of `results`.
pub open spec fn xcorrs(results: Seq<BurstResult>) -> Seq<Single> {
    Seq::new(results.len(), |i: int| results[i].xcorr_peak)
}

/// `mean` is the arithmetic mean of `values`.
pub open spec fn average_is<A: Arithmetic>(arith: &A, values: Seq<Single>, mean: Single) -> bool {
    exists|total: Single| #[trigger]
        running_sum(arith, zero(), values, total) && mean_of(
            arith,
            total,
            values.len() as u64,
            mean,
        )
}

/// `report` sums up `results`.
pub open spec fn summarised<A: Arithmetic>(
    arith: &A,
    results: Seq<BurstResult>,
    report: AutotestReport,
) -> bool {
    &&& report.total_bursts == results.len()
    &&& report.passed_bursts == passes(results)
    &&& report.failed_bursts == results.len() - passes(results)
    &&& report.overall_pass == (results.len() > 0 && passes(results) * 100 >= PASS_PERCENT
        * results.len())
    &&& if results.len() == 0 {
        report.mean_snr_db == zero() && report.min_snr_db == zero() && report.mean_xcorr == zero()
    } else {
        average_is(arith, snrs(results), report.mean_snr_db) && report.min_snr_db == smallest(
            Single { bits: INFINITY_BITS },
            snrs(results),
        ) && average_is(arith, xcorrs(results), report.mean_xcorr)
    }
}

/// No more bursts passed than there were.
proof fn passes_bounded(results: Seq<BurstResult>)
    ensures
        passes(results) <= results.len(),
    decreases results.len(),
{
    if results.len() > 0 {
        passes_bounded(results.drop_last());
    }
}

/// Summarise a set of burst results into an aggregate report.
pub fn summarise_results<A: Arithmetic>(arith: &A, results: &[BurstResult]) -> (report:
    AutotestReport)
    requires
        results@.len() <= u32::MAX,
    ensures
        summarised(arith, results@, report),
{
    if results.len() == 0 {
        let none = Single { bits: 0 };
        return AutotestReport {
            total_bursts: 0,
            passed_bursts: 0,
            failed_bursts: 0,
            mean_snr_db: none,
            min_snr_db: none,
            mean_xcorr: none,
            overall_pass: false,
        };
    }
    let mut passed_bursts: u32 = 0;
    let mut snr_sum = Single { bits: 0 };
    let mut min_snr_db = Single { bits: INFINITY_BITS };
    let mut xcorr_sum = Single { bits: 0 };
    let mut i: usize = 0;
    assert(snrs(results@.subrange(0, 0)) =~= Seq::<Single>::empty());
    assert(xcorrs(results@.subrange(0, 0)) =~= Seq::<Single>::empty());
    while i < results.len()
        invariant
            i <= results@.len() <= u32::MAX,
            passed_bursts == passes(results@.subrange(0, i as int)),
            passed_bursts <= i,
            running_sum(arith, zero(), snrs(results@.subrange(0, i as int)), snr_sum),
            running_sum(arith, zero(), xcorrs(results@.subrange(0, i as int)), xcorr_sum),
            min_snr_db == smallest(
                Single { bits: INFINITY_BITS },
                snrs(results@.subrange(0, i as int)),
            ),
        decreases results@.len() - i,
    {
        let result = results[i];
        let ghost so_far = results@.subrange(0, i as int);
        let ghost more = results@.subrange(0, i + 1);
        assert(more.drop_last() =~= so_far);
        assert(snrs(more) =~= snrs(so_far).push(result.snr_db));
        assert(xcorrs(more) =~= xcorrs(so_far).push(result.xcorr_peak));
        assert(snrs(more).drop_last() =~= snrs(so_far));
        if result.passed {
            passed_bursts = passed_bursts + 1;
        }
        let before = snr_sum;
        snr_sum = arith.plus(before, result.snr_db);
        min_snr_db = min_snr_db.min_of(result.snr_db);
        let before_xcorr = xcorr_sum;
        xcorr_sum = arith.plus(before_xcorr, result.xcorr_peak);
        proof {
            running_sum_push(arith, zero(), snrs(so_far), before, result.snr_db, snr_sum);
            running_sum_push(
                arith,
                zero(),
                xcorrs(so_far),
                before_xcorr,
                result.xcorr_peak,
                xcorr_sum,
            );
        }
        i += 1;
    }
    assert(results@.subrange(0, i as int) =~= results@);
    let total_bursts: u32 = results.len() as u32;
    let mean_snr_db = mean(arith, snr_sum, total_bursts as u64);
    let mean_xcorr = mean(arith, xcorr_sum, total_bursts as u64);
    let overall_pass = passed_bursts as u64 * 100 >= PASS_PERCENT * total_bursts as u64;
    AutotestReport {
        total_bursts,
        passed_bursts,
        failed_bursts: total_bursts - passed_bursts,
        mean_snr_db,
        min_snr_db,
        mean_xcorr,
        overall_pass,
    }
}

/// Every burst passed or failed, and if all passed, so did the test; if none did, it failed.
pub proof fn report_adds_up<A: Arithmetic>(
    arith: &A,
    results: Seq<BurstResult>,
    report: AutotestReport,
)
    requires
        summarised(arith, results, report),
    ensures
        report.passed_bursts + report.failed_bursts == report.total_bursts,
        results.len() > 0 && passes(results) == results.len() ==> report.overall_pass,
        passes(results) == 0 ==> !report.overall_pass,
{
    passes_bounded(results);
}

} // verus!
