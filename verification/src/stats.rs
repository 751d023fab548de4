//! Statistics of a running relay, and the report that is printed of them.
use vstd::prelude::*;

use crate::arith::{
    seconds_of, wide_count_of, wide_floor_of, wide_product_of, wide_quotient_of, Arithmetic,
    Double, Single, SIGN_BIT,
};
use crate::signal::{analysis_of, analyze_samples, level_db, levels_of, shown_db, zero, IqSample};
use crate::span::Span;

verus! {

/// Bit patterns of one million and of one hundred, in double precision.
pub const MILLION_BITS: u64 = 0x412E_8480_0000_0000;

pub const HUNDRED_BITS: u64 = 0x4059_0000_0000_0000;

/// Counters and levels of a relay. The counters wrap round.
#[derive(Clone, Copy)]
pub struct DebugStats {
    pub rx_samples: u64,
    pub tx_samples: u64,
    pub rx_buffers: u64,
    pub tx_buffers: u64,
    pub rx_errors: u64,
    pub tx_errors: u64,
    pub rx_peak: Single,
    pub tx_peak: Single,
    pub rx_avg: Single,
    pub tx_avg: Single,
    pub transmissions_detected_a: u64,
    pub transmissions_detected_b: u64,
    pub transmission_samples_a: u64,
    pub transmission_samples_b: u64,
}

/// A side of the relay that transmissions are counted for.
#[derive(Clone, Copy, Debug, PartialEq, Eq, Structural)]
pub enum Channel {
    A,
    B,
}

/// Nothing counted and nothing measured.
pub open spec fn no_stats() -> DebugStats {
    DebugStats {
        rx_samples: 0,
        tx_samples: 0,
        rx_buffers: 0,
        tx_buffers: 0,
        rx_errors: 0,
        tx_errors: 0,
        rx_peak: zero(),
        tx_peak: zero(),
        rx_avg: zero(),
        tx_avg: zero(),
        transmissions_detected_a: 0,
        transmissions_detected_b: 0,
        transmission_samples_a: 0,
        transmission_samples_b: 0,
    }
}

/// The peak after `value`: the larger of the two bit patterns. A value that is not finite does not
/// count.
pub open spec fn peak_after(peak: Single, value: Single) -> Single {
    if value.finite() && value.bits > peak.bits {
        value
    } else {
        peak
    }
}

/// Of levels that are not negative, the peak is the larger number and never falls.
pub proof fn peak_is_larger(peak: Single, value: Single)
    requires
        peak.bits < SIGN_BIT,
        peak.finite(),
        value.bits < SIGN_BIT,
    ensures
        peak_after(peak, value).bits < SIGN_BIT,
        peak_after(peak, value).finite(),
        peak.at_most(peak_after(peak, value)),
        value.finite() ==> peak_after(peak, value) == peak.larger(value),
{
}

/// `stats` with one more transmission of `samples` samples on `channel`.
pub open spec fn with_transmission(stats: DebugStats, channel: Channel, samples: usize) -> DebugStats {
    match channel {
        Channel::A => DebugStats {
            transmissions_detected_a: stats.transmissions_detected_a.wrapping_add(1),
            transmission_samples_a: stats.transmission_samples_a.wrapping_add(samples as u64),
            ..stats
        },
        Channel::B => DebugStats {
            transmissions_detected_b: stats.transmissions_detected_b.wrapping_add(1),
            transmission_samples_b: stats.transmission_samples_b.wrapping_add(samples as u64),
            ..stats
        },
    }
}

/// The peak and the average level of a buffer are `peak` and `avg`; both are zero for an empty one.
pub open spec fn buffer_levels<A: Arithmetic>(
    arith: &A,
    buffer: Seq<IqSample>,
    peak: Single,
    avg: Single,
) -> bool {
    if buffer.len() == 0 {
        peak == zero() && avg == zero()
    } else {
        exists|levels: Seq<Single>, rms: Single|
            levels_of(arith, buffer, levels) && #[trigger] analysis_of(arith, levels, peak, avg, rms)
    }
}

/// The peak and the average of a buffer.
fn peak_and_average<A: Arithmetic>(arith: &A, buffer: &[IqSample]) -> (levels: (Single, Single))
    ensures
        buffer_levels(arith, buffer@, levels.0, levels.1),
{
    let measured = analyze_samples(arith, buffer);
    let peak = measured.0;
    let avg = measured.1;
    proof {
        if buffer@.len() > 0 {
            let levels = choose|levels: Seq<Single>|
                levels_of(arith, buffer@, levels) && #[trigger] analysis_of(
                    arith,
                    levels,
                    measured.0,
                    measured.1,
                    measured.2,
                );
            assert(analysis_of(arith, levels, peak, avg, measured.2));
        }
    }
    (peak, avg)
}

/// `stats` with one more buffer of `samples` samples received, of the given levels.
pub open spec fn with_received(
    stats: DebugStats,
    samples: usize,
    peak: Single,
    avg: Single,
) -> DebugStats {
    DebugStats {
        rx_samples: stats.rx_samples.wrapping_add(samples as u64),
        rx_buffers: stats.rx_buffers.wrapping_add(1),
        rx_peak: peak_after(stats.rx_peak, peak),
        rx_avg: avg,
        ..stats
    }
}

/// `stats` with one more buffer of `samples` samples transmitted.
pub open spec fn with_sent(stats: DebugStats, samples: usize) -> DebugStats {
    DebugStats {
        tx_samples: stats.tx_samples.wrapping_add(samples as u64),
        tx_buffers: stats.tx_buffers.wrapping_add(1),
        ..stats
    }
}

impl Default for DebugStats {
    fn default() -> (r: DebugStats)
        ensures
            r == no_stats(),
    {
        DebugStats::new()
    }
}

impl DebugStats {
    pub fn new() -> (r: DebugStats)
        ensures
            r == no_stats(),
    {
        let none = Single { bits: 0 };
        DebugStats {
            rx_samples: 0,
            tx_samples: 0,
            rx_buffers: 0,
            tx_buffers: 0,
            rx_errors: 0,
            tx_errors: 0,
            rx_peak: none,
            tx_peak: none,
            rx_avg: none,
            tx_avg: none,
            transmissions_detected_a: 0,
            transmissions_detected_b: 0,
            transmission_samples_a: 0,
            transmission_samples_b: 0,
        }
    }

    pub fn update_rx_peak(&mut self, value: Single)
        ensures
            *final(self) == (DebugStats {
                rx_peak: peak_after(old(self).rx_peak, value),
                ..*old(self)
            }),
    {
        if value.is_finite() && value.bits > self.rx_peak.bits {
            self.rx_peak = value;
        }
    }

    pub fn update_tx_peak(&mut self, value: Single)
        ensures
            *final(self) == (DebugStats {
                tx_peak: peak_after(old(self).tx_peak, value),
                ..*old(self)
            }),
    {
        if value.is_finite() && value.bits > self.tx_peak.bits {
            self.tx_peak = value;
        }
    }

    pub fn update_rx_avg(&mut self, value: Single)
        ensures
            *final(self) == (DebugStats { rx_avg: value, ..*old(self) }),
    {
        self.rx_avg = value;
    }

    pub fn update_tx_avg(&mut self, value: Single)
        ensures
            *final(self) == (DebugStats { tx_avg: value, ..*old(self) }),
    {
        self.tx_avg = value;
    }

    pub fn get_rx_peak(&self) -> (r: Single)
        ensures
            r == self.rx_peak,
    {
        self.rx_peak
    }

    pub fn get_tx_peak(&self) -> (r: Single)
        ensures
            r == self.tx_peak,
    {
        self.tx_peak
    }

    pub fn get_rx_avg(&self) -> (r: Single)
        ensures
            r == self.rx_avg,
    {
        self.rx_avg
    }

    pub fn get_tx_avg(&self) -> (r: Single)
        ensures
            r == self.tx_avg,
    {
        self.tx_avg
    }

    pub fn reset_peaks(&mut self)
        ensures
            *final(self) == (DebugStats { rx_peak: zero(), tx_peak: zero(), ..*old(self) }),
    {
        self.rx_peak = Single { bits: 0 };
        self.tx_peak = Single { bits: 0 };
    }

    pub fn record_transmission_a(&mut self, sample_count: usize)
        ensures
            *final(self) == with_transmission(*old(self), Channel::A, sample_count),
    {
        self.transmissions_detected_a = self.transmissions_detected_a.wrapping_add(1);
        self.transmission_samples_a = self.transmission_samples_a.wrapping_add(sample_count as u64);
    }

    pub fn record_transmission_b(&mut self, sample_count: usize)
        ensures
            *final(self) == with_transmission(*old(self), Channel::B, sample_count),
    {
        self.transmissions_detected_b = self.transmissions_detected_b.wrapping_add(1);
        self.transmission_samples_b = self.transmission_samples_b.wrapping_add(sample_count as u64);
    }

    pub fn total_transmissions(&self) -> (n: u64)
        requires
            self.transmissions_detected_a + self.transmissions_detected_b <= u64::MAX,
        ensures
            n == self.transmissions_detected_a + self.transmissions_detected_b,
    {
        self.transmissions_detected_a + self.transmissions_detected_b
    }

    /// Count a transmission on one of the channels.
    pub fn record_transmission(&mut self, channel: Channel, sample_count: usize)
        ensures
            *final(self) == with_transmission(*old(self), channel, sample_count),
    {
        match channel {
            Channel::A => self.record_transmission_a(sample_count),
            Channel::B => self.record_transmission_b(sample_count),
        }
    }

    /// Count a received buffer and take its levels, which are handed back.
    pub fn received<A: Arithmetic>(&mut self, arith: &A, buffer: &[IqSample]) -> (levels: (
        Single,
        Single,
    ))
        ensures
            buffer_levels(arith, buffer@, levels.0, levels.1),
            *final(self) == with_received(
                *old(self),
                buffer@.len() as usize,
                levels.0,
                levels.1,
            ),
    {
        self.rx_samples = self.rx_samples.wrapping_add(buffer.len() as u64);
        self.rx_buffers = self.rx_buffers.wrapping_add(1);
        let (peak, avg) = peak_and_average(arith, buffer);
        self.update_rx_peak(peak);
        self.update_rx_avg(avg);
        (peak, avg)
    }

    /// Count a failed attempt to receive.
    pub fn receive_failed(&mut self)
        ensures
            *final(self) == (DebugStats {
                rx_errors: old(self).rx_errors.wrapping_add(1),
                ..*old(self)
            }),
    {
        self.rx_errors = self.rx_errors.wrapping_add(1);
    }

    /// Take the levels of a buffer that is about to be transmitted, which are handed back; its peak
    /// counts.
    pub fn sending<A: Arithmetic>(&mut self, arith: &A, buffer: &[IqSample]) -> (levels: (
        Single,
        Single,
    ))
        ensures
            buffer_levels(arith, buffer@, levels.0, levels.1),
            *final(self) == (DebugStats {
                tx_peak: peak_after(old(self).tx_peak, levels.0),
                ..*old(self)
            }),
    {
        let (peak, avg) = peak_and_average(arith, buffer);
        self.update_tx_peak(peak);
        (peak, avg)
    }

    /// Count a buffer of `samples` samples as transmitted.
    pub fn sent(&mut self, samples: usize)
        ensures
            *final(self) == with_sent(*old(self), samples),
    {
        self.tx_samples = self.tx_samples.wrapping_add(samples as u64);
        self.tx_buffers = self.tx_buffers.wrapping_add(1);
    }

    /// Count a failed attempt to transmit.
    pub fn send_failed(&mut self)
        ensures
            *final(self) == (DebugStats {
                tx_errors: old(self).tx_errors.wrapping_add(1),
                ..*old(self)
            }),
    {
        self.tx_errors = self.tx_errors.wrapping_add(1);
    }
}

/// How the received signal stands to the squelch.
#[derive(Clone, Copy, Debug, PartialEq, Eq, Structural)]
pub enum SignalStatus {
    /// The average is above it: transmissions should be detected.
    AboveSquelch,
    /// Only the peak is above it: an intermittent signal.
    PeakAboveSquelch,
    /// No transmission will be detected.
    BelowSquelch,
}

/// How a signal of the given levels stands to the squelch.
pub open spec fn status_of(avg: Single, peak: Single, squelch: Single) -> SignalStatus {
    if squelch.below(avg) {
        SignalStatus::AboveSquelch
    } else if squelch.below(peak) {
        SignalStatus::PeakAboveSquelch
    } else {
        SignalStatus::BelowSquelch
    }
}

/// What is printed of the statistics besides the counters themselves.
#[derive(Clone, Copy)]
pub struct StatsReport {
    pub elapsed_secs: Double,
    /// Millions of samples per second.
    pub rx_rate: Double,
    pub tx_rate: Double,
    pub rx_peak_db: Single,
    pub rx_avg_db: Single,
    pub squelch_db: Single,
    pub status: SignalStatus,
    /// Whether any transmission was detected.
    pub any_detected: bool,
    /// Received samples in percent of those expected, where any are.
    pub rx_efficiency: Option<Double>,
}

/// `rate` is `samples` per second over `secs`, in millions; zero where no time has passed.
pub open spec fn rate_of<A: Arithmetic>(
    arith: &A,
    samples: u64,
    secs: Double,
    rate: Double,
) -> bool {
    if (Double { bits: 0 }).below(secs) {
        exists|n: Double, per_second: Double|
            wide_count_of(arith, samples, n) && #[trigger] wide_quotient_of(
                arith,
                n,
                secs,
                per_second,
            ) && wide_quotient_of(arith, per_second, Double { bits: MILLION_BITS }, rate)
    } else {
        rate == (Double { bits: 0 })
    }
}

/// `share` is `got` in percent of `expected`.
pub open spec fn percent_of<A: Arithmetic>(
    arith: &A,
    got: u64,
    expected: u64,
    share: Double,
) -> bool {
    exists|g: Double, e: Double, q: Double|
        wide_count_of(arith, got, g) && wide_count_of(arith, expected, e)
            && #[trigger] wide_quotient_of(arith, g, e, q) && wide_product_of(
            arith,
            q,
            Double { bits: HUNDRED_BITS },
            share,
        )
}

/// `expected` is how many samples come in `secs` seconds at `sample_rate`.
pub open spec fn expected_of<A: Arithmetic>(
    arith: &A,
    sample_rate: Double,
    secs: Double,
    expected: u64,
) -> bool {
    exists|x: Double| #[trigger]
        wide_product_of(arith, sample_rate, secs, x) && wide_floor_of(arith, x, expected)
}

/// `report` is that of `stats` after `elapsed`.
pub open spec fn reported<A: Arithmetic>(
    arith: &A,
    stats: DebugStats,
    elapsed: Span,
    sample_rate: Double,
    squelch: Single,
    report: StatsReport,
) -> bool {
    &&& seconds_of(arith, elapsed, report.elapsed_secs)
    &&& rate_of(arith, stats.rx_samples, report.elapsed_secs, report.rx_rate)
    &&& rate_of(arith, stats.tx_samples, report.elapsed_secs, report.tx_rate)
    &&& shown_db(arith, stats.rx_peak, report.rx_peak_db)
    &&& shown_db(arith, stats.rx_avg, report.rx_avg_db)
    &&& shown_db(arith, squelch, report.squelch_db)
    &&& report.status == status_of(stats.rx_avg, stats.rx_peak, squelch)
    &&& report.any_detected == (stats.transmissions_detected_a > 0 || stats.transmissions_detected_b
        > 0 || stats.transmission_samples_a > 0 || stats.transmission_samples_b > 0)
    &&& exists|expected: u64| #[trigger]
        expected_of(arith, sample_rate, report.elapsed_secs, expected)
            && match report.rx_efficiency {
            Some(share) => expected > 0 && percent_of(arith, stats.rx_samples, expected, share),
            None => expected == 0,
        }
}

fn rate<A: Arithmetic>(arith: &A, samples: u64, secs: Double) -> (r: Double)
    ensures
        rate_of(arith, samples, secs, r),
{
    if (Double { bits: 0 }).is_below(secs) {
        let n = arith.wide_count(samples);
        let per_second = arith.wide_over(n, secs);
        arith.wide_over(per_second, Double { bits: MILLION_BITS })
    } else {
        Double { bits: 0 }
    }
}

/// Work out what is printed of the statistics.
pub fn report_stats<A: Arithmetic>(
    arith: &A,
    stats: &DebugStats,
    elapsed: Span,
    sample_rate: Double,
    squelch_threshold: Single,
) -> (report: StatsReport)
    ensures
        reported(arith, *stats, elapsed, sample_rate, squelch_threshold, report),
{
    let elapsed_secs = arith.seconds(elapsed);
    let product = arith.wide_times(sample_rate, elapsed_secs);
    let expected: u64 = arith.wide_floor(product);
    assert(expected_of(arith, sample_rate, elapsed_secs, expected));
    let rx_efficiency = if expected > 0 {
        let got = arith.wide_count(stats.rx_samples);
        let all = arith.wide_count(expected);
        let share = arith.wide_over(got, all);
        let percent = arith.wide_times(share, Double { bits: HUNDRED_BITS });
        assert(percent_of(arith, stats.rx_samples, expected, percent));
        Some(percent)
    } else {
        None
    };
    let status = if squelch_threshold.is_below(stats.rx_avg) {
        SignalStatus::AboveSquelch
    } else if squelch_threshold.is_below(stats.rx_peak) {
        SignalStatus::PeakAboveSquelch
    } else {
        SignalStatus::BelowSquelch
    };
    let report = StatsReport {
        elapsed_secs,
        rx_rate: rate(arith, stats.rx_samples, elapsed_secs),
        tx_rate: rate(arith, stats.tx_samples, elapsed_secs),
        rx_peak_db: level_db(arith, stats.rx_peak),
        rx_avg_db: level_db(arith, stats.rx_avg),
        squelch_db: level_db(arith, squelch_threshold),
        status,
        any_detected: stats.transmissions_detected_a > 0 || stats.transmissions_detected_b > 0
            || stats.transmission_samples_a > 0 || stats.transmission_samples_b > 0,
        rx_efficiency,
    };
    assert(expected_of(arith, sample_rate, report.elapsed_secs, expected));
    report
}

/// When statistics are printed and when a run of limited length ends. Moments are counted from the
/// start of the run.
pub struct StatsTicker {
    pub interval: Span,
    pub limit: Option<Span>,
    pub last: Span,
}

/// Whether at least `wait` has passed from `from` to `to`.
pub open spec fn has_passed(from: Span, to: Span, wait: Span) -> bool {
    from.total_nanos() + wait.total_nanos() <= to.total_nanos() || wait.total_nanos() == 0
}

/// Check whether at least `wait` has passed from `from` to `to`.
pub fn passed_since(from: Span, to: Span, wait: Span) -> (r: bool)
    ensures
        r == has_passed(from, to, wait),
{
    from.as_nanos() + wait.as_nanos() <= to.as_nanos() || wait.as_nanos() == 0
}

/// What a tick calls for.
#[derive(Clone, Copy, Debug, PartialEq, Eq)]
pub struct Tick {
    /// Print the statistics and reset the peaks.
    pub print: bool,
    /// The run is over.
    pub stop: bool,
}

impl StatsTicker {
    /// Statistics every `interval_secs` seconds, from the moment `now`; the run ends after
    /// `duration_secs` seconds, or not by itself if that is 0.
    pub fn new(interval_secs: u64, duration_secs: u64, now: Span) -> (r: StatsTicker)
        ensures
            r.interval == (Span { secs: interval_secs, nanos: 0 }),
            r.limit == (if duration_secs > 0 {
                Some(Span { secs: duration_secs, nanos: 0 })
            } else {
                None
            }),
            r.last == now,
    {
        let limit = if duration_secs > 0 {
            Some(Span::from_secs(duration_secs))
        } else {
            None
        };
        StatsTicker { interval: Span::from_secs(interval_secs), limit, last: now }
    }

    /// See what is due at the moment `now`.
    pub fn tick(&mut self, now: Span) -> (tick: Tick)
        ensures
            tick.print == has_passed(old(self).last, now, old(self).interval),
            tick.stop == (old(self).limit matches Some(limit) && limit.total_nanos()
                <= now.total_nanos()),
            *final(self) == (StatsTicker {
                last: if tick.print {
                    now
                } else {
                    old(self).last
                },
                ..*old(self)
            }),
    {
        let print = passed_since(self.last, now, self.interval);
        if print {
            self.last = now;
        }
        let stop = match self.limit {
            Some(limit) => limit.as_nanos() <= now.as_nanos(),
            None => false,
        };
        Tick { print, stop }
    }
}

} // verus!
