//! The run of an automated test: bursts that are sent and captured in turn, and the verdict.
use vstd::prelude::*;

use crate::arith::{
    wide_count_of, wide_floor_of, wide_product_of, wide_quotient_of, Arithmetic, Double,
};
use crate::autotest::{
    burst_evaluated, evaluate_burst, summarise_results, summarised, AutotestConfig,
    AutotestReport, BurstResult,
};
use crate::signal::{
    as_size, burst_length, burst_sample, generate_burst, to_size, IqSample, THOUSAND_BITS,
};
use crate::stats::DebugStats;

verus! {

/// `n` is how many samples a capture of `ms` milliseconds has.
pub open spec fn capture_length<A: Arithmetic>(arith: &A, ms: u64, rate: Double, n: usize) -> bool {
    exists|m: Double, scaled: Double, exact: Double, whole: u64|
        wide_count_of(arith, ms, m) && #[trigger] wide_product_of(arith, m, rate, scaled)
            && wide_quotient_of(arith, scaled, Double { bits: THOUSAND_BITS }, exact)
            && #[trigger] wide_floor_of(arith, exact, whole) && n == as_size(whole)
}

/// How many samples are read next into a capture of `have` samples that is to have `target`: what
/// is missing, at most a buffer. None where nothing is missing.
pub fn next_read(have: usize, target: usize, buffer_size: usize) -> (n: Option<usize>)
    ensures
        n == (if have >= target {
            None
        } else if target - have <= buffer_size {
            Some((target - have) as usize)
        } else {
            Some(buffer_size)
        }),
        n matches Some(size) ==> have + size <= target,
{
    if have >= target {
        None
    } else if target - have <= buffer_size {
        Some(target - have)
    } else {
        Some(buffer_size)
    }
}

/// Add the first `len` samples of a buffer to a capture; they count as received.
pub fn capture(
    captured: &mut Vec<IqSample>,
    stats: &mut DebugStats,
    buffer: &[IqSample],
    len: usize,
)
    requires
        len <= buffer@.len(),
    ensures
        final(captured)@ == old(captured)@ + buffer@.subrange(0, len as int),
        *final(stats) == (DebugStats {
            rx_samples: old(stats).rx_samples.wrapping_add(len as u64),
            ..*old(stats)
        }),
{
    stats.rx_samples = stats.rx_samples.wrapping_add(len as u64);
    let mut i: usize = 0;
    assert(captured@ =~= old(captured)@ + buffer@.subrange(0, 0));
    while i < len
        invariant
            i <= len <= buffer@.len(),
            captured@ == old(captured)@ + buffer@.subrange(0, i as int),
        decreases len - i,
    {
        captured.push(buffer[i]);
        i += 1;
        assert(captured@ =~= old(captured)@ + buffer@.subrange(0, i as int));
    }
}

/// An automated test in progress.
pub struct AutotestSession {
    config: AutotestConfig,
    reference: Vec<IqSample>,
    capture_target: usize,
    results: Vec<BurstResult>,
}

/// `reference` is the burst that a test of the given configuration sends.
pub open spec fn reference_of<A: Arithmetic>(
    arith: &A,
    config: AutotestConfig,
    reference: Seq<IqSample>,
) -> bool {
    &&& reference.len() <= usize::MAX
    &&& burst_length(
        arith,
        config.sample_rate,
        config.tx_duration_ms,
        reference.len() as usize,
    )
    &&& forall|i: int|
        0 <= i < reference.len() ==> burst_sample(
            arith,
            config.sample_rate,
            config.tone_freq_hz,
            i as u64,
            #[trigger] reference[i],
        )
}

impl AutotestSession {
    pub closed spec fn configuration(&self) -> AutotestConfig {
        self.config
    }

    /// The burst that is sent.
    pub closed spec fn burst(&self) -> Seq<IqSample> {
        self.reference@
    }

    /// How many samples are captured after each burst.
    pub closed spec fn target(&self) -> usize {
        self.capture_target
    }

    /// What was found so far.
    pub closed spec fn found(&self) -> Seq<BurstResult> {
        self.results@
    }

    #[verifier::type_invariant]
    spec fn well_formed(self) -> bool {
        self.results@.len() <= self.config.burst_count
    }

    /// Prepare a test. The capture covers the delay of the relay and the length of a burst.
    pub fn new<A: Arithmetic>(arith: &A, config: AutotestConfig) -> (r: AutotestSession)
        requires
            config.relay_delay_ms + config.tx_duration_ms <= u64::MAX,
        ensures
            r.configuration() == config,
            reference_of(arith, config, r.burst()),
            capture_length(
                arith,
                (config.relay_delay_ms + config.tx_duration_ms) as u64,
                config.sample_rate,
                r.target(),
            ),
            r.found().len() == 0,
    {
        let reference = generate_burst(
            arith,
            config.sample_rate,
            config.tone_freq_hz,
            config.tx_duration_ms,
        );
        let capture_ms: u64 = config.relay_delay_ms + config.tx_duration_ms;
        let ms = arith.wide_count(capture_ms);
        let scaled = arith.wide_times(ms, config.sample_rate);
        let exact = arith.wide_over(scaled, Double { bits: THOUSAND_BITS });
        let whole: u64 = arith.wide_floor(exact);
        AutotestSession { config, reference, capture_target: to_size(whole), results: Vec::new() }
    }

    /// The number of the burst that is due, as long as one is.
    pub fn next_burst(&self) -> (burst_id: Option<u32>)
        ensures
            burst_id == (if self.found().len() < self.configuration().burst_count {
                Some(self.found().len() as u32)
            } else {
                None
            }),
    {
        if self.results.len() < self.config.burst_count as usize {
            Some(self.results.len() as u32)
        } else {
            None
        }
    }

    /// The burst that is sent.
    pub fn reference(&self) -> (r: &Vec<IqSample>)
        ensures
            r@ == self.burst(),
    {
        &self.reference
    }

    /// How many samples are captured after each burst.
    pub fn capture_target(&self) -> (n: usize)
        ensures
            n == self.target(),
    {
        self.capture_target
    }

    /// Judge the burst that was due by what was captured after it.
    pub fn evaluate<A: Arithmetic>(&mut self, arith: &A, captured: &[IqSample]) -> (result:
        BurstResult)
        requires
            old(self).found().len() < old(self).configuration().burst_count,
        ensures
            burst_evaluated(
                arith,
                old(self).burst(),
                captured@,
                old(self).configuration(),
                old(self).found().len() as u32,
                result,
            ),
            final(self).found() == old(self).found().push(result),
            final(self).configuration() == old(self).configuration(),
            final(self).burst() == old(self).burst(),
            final(self).target() == old(self).target(),
    {
        let burst_id: u32 = self.results.len() as u32;
        let result = evaluate_burst(
            arith,
            self.reference.as_slice(),
            captured,
            &self.config,
            burst_id,
        );
        let mut results: Vec<BurstResult> = Vec::new();
        std::mem::swap(&mut results, &mut self.results);
        results.push(result);
        self.results = results;
        result
    }

    /// Sum up what was found.
    pub fn report<A: Arithmetic>(&self, arith: &A) -> (report: AutotestReport)
        ensures
            summarised(arith, self.found(), report),
    {
        proof {
            use_type_invariant(self);
        }
        summarise_results(arith, self.results.as_slice())
    }
}

/// The verdict on a test that stood at `passed` before its report.
pub fn verdict(passed: bool, report: &AutotestReport) -> (r: bool)
    ensures
        r == (passed && report.overall_pass),
{
    passed && report.overall_pass
}

} // verus!
