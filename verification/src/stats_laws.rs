//! What the statistics of a run count, and what their report says.
use vstd::prelude::*;

use crate::arith::{
    running_sum, seconds_of, wide_count_of, wide_floor_of, wide_product_of, wide_quotient_of,
    Arithmetic, Double, Single,
};
use crate::signal::{analysis_of, levels_of, mean_of, IqSample};
use crate::signal_laws::{
    decibels_are_twenty_logarithms, divided_by, levels_are_vector_lengths, mean_is_divided,
    the_largest_tops, tops, vector_lengths,
};
use crate::span::Span;
use crate::stats::{
    buffer_levels, expected_of, passed_since, percent_of, rate_of, report_stats, Channel,
    DebugStats, StatsReport, StatsTicker, Tick,
};

verus! {

/// `after` counts `n` more than `before`, round the end of 64 bits.
pub open spec fn counts_on(before: u64, n: int, after: u64) -> bool {
    after == (before + n) % 0x1_0000_0000_0000_0000
}

/// Statistics begin with every counter at zero and every level at zero.
pub proof fn statistics_begin_at_zero(stats: DebugStats, other: DebugStats)
    requires
        call_ensures(DebugStats::new, (), stats),
        call_ensures(DebugStats::default, (), other),
    ensures
        other == stats,
        stats.rx_samples == 0 && stats.tx_samples == 0,
        stats.rx_buffers == 0 && stats.tx_buffers == 0,
        stats.rx_errors == 0 && stats.tx_errors == 0,
        stats.rx_peak.bits == 0 && stats.tx_peak.bits == 0,
        stats.rx_avg.bits == 0 && stats.tx_avg.bits == 0,
        stats.transmissions_detected_a == 0 && stats.transmissions_detected_b == 0,
        stats.transmission_samples_a == 0 && stats.transmission_samples_b == 0,
{
}

/// The peak of `before` and a new value is `after`: the greater of the two by bit pattern, unless the
/// value is infinite or no number, which changes nothing.
pub open spec fn peak_of_both(before: Single, value: Single, after: Single) -> bool {
    if value.bits as int % 0x8000_0000 >= 0x7F80_0000 {
        after == before
    } else {
        &&& after == before || after == value
        &&& after.bits >= before.bits
        &&& after.bits >= value.bits
    }
}

proof fn peaks_are_of_both(before: Single, value: Single)
    ensures
        peak_of_both(before, value, crate::stats::peak_after(before, value)),
{
}

/// A new level raises the peak of its own side and changes nothing else.
pub proof fn peaks_are_kept_apart(rx: &mut DebugStats, tx: &mut DebugStats, value: Single)
    requires
        call_ensures(DebugStats::update_rx_peak, (rx, value), ()),
        call_ensures(DebugStats::update_tx_peak, (tx, value), ()),
    ensures
        peak_of_both(old(rx).rx_peak, value, final(rx).rx_peak),
        peak_of_both(old(tx).tx_peak, value, final(tx).tx_peak),
        *final(rx) == (DebugStats { rx_peak: final(rx).rx_peak, ..*old(rx) }),
        *final(tx) == (DebugStats { tx_peak: final(tx).tx_peak, ..*old(tx) }),
{
    peaks_are_of_both(old(rx).rx_peak, value);
    peaks_are_of_both(old(tx).tx_peak, value);
}

/// A new average takes the place of that of its own side and changes nothing else.
pub proof fn averages_are_kept_apart(rx: &mut DebugStats, tx: &mut DebugStats, value: Single)
    requires
        call_ensures(DebugStats::update_rx_avg, (rx, value), ()),
        call_ensures(DebugStats::update_tx_avg, (tx, value), ()),
    ensures
        *final(rx) == (DebugStats { rx_avg: value, ..*old(rx) }),
        *final(tx) == (DebugStats { tx_avg: value, ..*old(tx) }),
{
}

/// Each level is read where it is kept.
pub proof fn levels_are_read_where_they_are_kept(
    stats: DebugStats,
    rx_peak: Single,
    tx_peak: Single,
    rx_avg: Single,
    tx_avg: Single,
)
    requires
        call_ensures(DebugStats::get_rx_peak, (&stats,), rx_peak),
        call_ensures(DebugStats::get_tx_peak, (&stats,), tx_peak),
        call_ensures(DebugStats::get_rx_avg, (&stats,), rx_avg),
        call_ensures(DebugStats::get_tx_avg, (&stats,), tx_avg),
    ensures
        rx_peak == stats.rx_peak,
        tx_peak == stats.tx_peak,
        rx_avg == stats.rx_avg,
        tx_avg == stats.tx_avg,
{
}

/// To reset the peaks sets both to zero and changes nothing else.
pub proof fn a_reset_clears_both_peaks(stats: &mut DebugStats)
    requires
        call_ensures(DebugStats::reset_peaks, (stats,), ()),
    ensures
        final(stats).rx_peak.bits == 0,
        final(stats).tx_peak.bits == 0,
        *old(stats) == (DebugStats {
            rx_peak: old(stats).rx_peak,
            tx_peak: old(stats).tx_peak,
            ..*final(stats)
        }),
{
}

/// A transmission on A counts one and its samples on A, and leaves the rest alone.
pub open spec fn counted_on_a(before: DebugStats, samples: int, after: DebugStats) -> bool {
    &&& counts_on(before.transmissions_detected_a, 1, after.transmissions_detected_a)
    &&& counts_on(before.transmission_samples_a, samples, after.transmission_samples_a)
    &&& after == (DebugStats {
        transmissions_detected_a: after.transmissions_detected_a,
        transmission_samples_a: after.transmission_samples_a,
        ..before
    })
}

/// A transmission on B counts one and its samples on B, and leaves the rest alone.
pub open spec fn counted_on_b(before: DebugStats, samples: int, after: DebugStats) -> bool {
    &&& counts_on(before.transmissions_detected_b, 1, after.transmissions_detected_b)
    &&& counts_on(before.transmission_samples_b, samples, after.transmission_samples_b)
    &&& after == (DebugStats {
        transmissions_detected_b: after.transmissions_detected_b,
        transmission_samples_b: after.transmission_samples_b,
        ..before
    })
}

/// A transmission counts on the channel it is said to be on, and on no other.
pub proof fn transmissions_count_on_their_channel(
    a: &mut DebugStats,
    b: &mut DebugStats,
    either: &mut DebugStats,
    channel: Channel,
    samples: usize,
)
    requires
        call_ensures(DebugStats::record_transmission_a, (a, samples), ()),
        call_ensures(DebugStats::record_transmission_b, (b, samples), ()),
        call_ensures(DebugStats::record_transmission, (either, channel, samples), ()),
    ensures
        counted_on_a(*old(a), samples as int, *final(a)),
        counted_on_b(*old(b), samples as int, *final(b)),
        channel is A ==> counted_on_a(*old(either), samples as int, *final(either)),
        channel is B ==> counted_on_b(*old(either), samples as int, *final(either)),
{
}

/// The total is over both channels: one more on either is one more in all.
pub proof fn the_total_is_over_both_channels(stats: DebugStats, n: u64)
    requires
        call_ensures(DebugStats::total_transmissions, (&stats,), n),
    ensures
        n - stats.transmissions_detected_a == stats.transmissions_detected_b,
{
}

/// `peak` and `avg` are the levels of a buffer: no level is above the peak, which is one of them or
/// zero, and the average is their sum divided by how many there are. An empty buffer has neither.
pub open spec fn measured<A: Arithmetic>(
    arith: &A,
    buffer: Seq<IqSample>,
    peak: Single,
    avg: Single,
) -> bool {
    &&& buffer.len() == 0 ==> peak.bits == 0 && avg.bits == 0
    &&& buffer.len() > 0 ==> exists|levels: Seq<Single>, total: Single|
        vector_lengths(arith, buffer, levels) && tops(levels, peak) && #[trigger] running_sum(
            arith,
            Single { bits: 0 },
            levels,
            total,
        ) && divided_by(arith, total, buffer.len(), avg)
}

/// Levels of a buffer are measured over all of it.
pub proof fn buffers_are_measured<A: Arithmetic>(
    arith: &A,
    buffer: Seq<IqSample>,
    peak: Single,
    avg: Single,
)
    requires
        buffer_levels(arith, buffer, peak, avg),
        buffer.len() <= usize::MAX,
    ensures
        measured(arith, buffer, peak, avg),
{
    if buffer.len() > 0 {
        let (levels, rms) = choose|levels: Seq<Single>, rms: Single|
            levels_of(arith, buffer, levels) && #[trigger] analysis_of(
                arith,
                levels,
                peak,
                avg,
                rms,
            );
        levels_are_vector_lengths(arith, buffer, levels);
        the_largest_tops(levels);
        let total = choose|total: Single|
            running_sum(arith, Single { bits: 0 }, levels, total) && #[trigger] mean_of(
                arith,
                total,
                levels.len() as u64,
                avg,
            );
        mean_is_divided(arith, total, levels.len(), avg);
        assert(running_sum(arith, Single { bits: 0 }, levels, total));
    }
}

/// A received buffer counts as one, with all its samples; its peak raises the peak and its average
/// is the average, on the receiving side only.
pub proof fn a_received_buffer_counts<A: Arithmetic>(
    stats: &mut DebugStats,
    arith: &A,
    buffer: &[IqSample],
    levels: (Single, Single),
)
    requires
        call_ensures(DebugStats::received::<A>, (stats, arith, buffer), levels),
    ensures
        measured(arith, buffer@, levels.0, levels.1),
        counts_on(old(stats).rx_samples, buffer@.len() as int, final(stats).rx_samples),
        counts_on(old(stats).rx_buffers, 1, final(stats).rx_buffers),
        peak_of_both(old(stats).rx_peak, levels.0, final(stats).rx_peak),
        final(stats).rx_avg == levels.1,
        *final(stats) == (DebugStats {
            rx_samples: final(stats).rx_samples,
            rx_buffers: final(stats).rx_buffers,
            rx_peak: final(stats).rx_peak,
            rx_avg: final(stats).rx_avg,
            ..*old(stats)
        }),
{
    assert(buffer.len() == buffer@.len());
    buffers_are_measured(arith, buffer@, levels.0, levels.1);
    peaks_are_of_both(old(stats).rx_peak, levels.0);
}

/// A buffer to be sent raises the peak of the sending side and counts as nothing yet.
pub proof fn a_buffer_to_be_sent_is_measured<A: Arithmetic>(
    stats: &mut DebugStats,
    arith: &A,
    buffer: &[IqSample],
    levels: (Single, Single),
)
    requires
        call_ensures(DebugStats::sending::<A>, (stats, arith, buffer), levels),
    ensures
        measured(arith, buffer@, levels.0, levels.1),
        peak_of_both(old(stats).tx_peak, levels.0, final(stats).tx_peak),
        *final(stats) == (DebugStats { tx_peak: final(stats).tx_peak, ..*old(stats) }),
{
    assert(buffer.len() == buffer@.len());
    buffers_are_measured(arith, buffer@, levels.0, levels.1);
    peaks_are_of_both(old(stats).tx_peak, levels.0);
}

/// A sent buffer counts as one, with all its samples, on the sending side only.
pub proof fn a_sent_buffer_counts(stats: &mut DebugStats, samples: usize)
    requires
        call_ensures(DebugStats::sent, (stats, samples), ()),
    ensures
        counts_on(old(stats).tx_samples, samples as int, final(stats).tx_samples),
        counts_on(old(stats).tx_buffers, 1, final(stats).tx_buffers),
        *final(stats) == (DebugStats {
            tx_samples: final(stats).tx_samples,
            tx_buffers: final(stats).tx_buffers,
            ..*old(stats)
        }),
{
}

/// A failure counts as one on its own side, and as nothing else.
pub proof fn failures_count_on_their_side(rx: &mut DebugStats, tx: &mut DebugStats)
    requires
        call_ensures(DebugStats::receive_failed, (rx,), ()),
        call_ensures(DebugStats::send_failed, (tx,), ()),
    ensures
        counts_on(old(rx).rx_errors, 1, final(rx).rx_errors),
        counts_on(old(tx).tx_errors, 1, final(tx).tx_errors),
        *final(rx) == (DebugStats { rx_errors: final(rx).rx_errors, ..*old(rx) }),
        *final(tx) == (DebugStats { tx_errors: final(tx).tx_errors, ..*old(tx) }),
{
}

/// `db` is what is shown of a level: twenty times its decimal logarithm, or -100 where it is not
/// above zero.
pub open spec fn shown_as<A: Arithmetic>(arith: &A, level: Single, db: Single) -> bool {
    if (Single { bits: 0 }).below(level) {
        exists|l: Single|
            call_ensures(A::log10, (arith, level), l) && #[trigger] call_ensures(
                A::times,
                (arith, Single { bits: 0x41A0_0000 }, l),
                db,
            )
    } else {
        db.bits == 0xC2C8_0000
    }
}

/// `rate` is `samples` divided by `secs` and by a million; without time gone by it is zero.
pub open spec fn millions_per_second<A: Arithmetic>(
    arith: &A,
    samples: u64,
    secs: Double,
    rate: Double,
) -> bool {
    if (Double { bits: 0 }).below(secs) {
        exists|n: Double, per_second: Double|
            call_ensures(A::wide_count, (arith, samples), n) && #[trigger] call_ensures(
                A::wide_over,
                (arith, n, secs),
                per_second,
            ) && call_ensures(
                A::wide_over,
                (arith, per_second, Double { bits: 0x412E_8480_0000_0000 }),
                rate,
            )
    } else {
        rate.bits == 0
    }
}

proof fn rates_are_per_second<A: Arithmetic>(arith: &A, samples: u64, secs: Double, rate: Double)
    requires
        rate_of(arith, samples, secs, rate),
    ensures
        millions_per_second(arith, samples, secs, rate),
{
    if (Double { bits: 0 }).below(secs) {
        let (n, per_second) = choose|n: Double, per_second: Double|
            wide_count_of(arith, samples, n) && #[trigger] wide_quotient_of(
                arith,
                n,
                secs,
                per_second,
            ) && wide_quotient_of(
                arith,
                per_second,
                Double { bits: 0x412E_8480_0000_0000 },
                rate,
            );
        assert(call_ensures(A::wide_over, (arith, n, secs), per_second));
    }
}

proof fn levels_are_shown<A: Arithmetic>(arith: &A, level: Single, db: Single)
    requires
        crate::signal::shown_db(arith, level, db),
    ensures
        shown_as(arith, level, db),
{
    if (Single { bits: 0 }).below(level) {
        decibels_are_twenty_logarithms(arith, level, db);
    }
}

/// A report gives the time gone by, the samples of each side over that time, and the levels of the
/// receiving side and the squelch in decibels.
pub proof fn a_report_gives_rates_and_levels<A: Arithmetic>(
    arith: &A,
    stats: DebugStats,
    elapsed: Span,
    sample_rate: Double,
    squelch: Single,
    report: StatsReport,
)
    requires
        call_ensures(
            report_stats::<A>,
            (arith, &stats, elapsed, sample_rate, squelch),
            report,
        ),
    ensures
        call_ensures(A::seconds, (arith, elapsed), report.elapsed_secs),
        millions_per_second(arith, stats.rx_samples, report.elapsed_secs, report.rx_rate),
        millions_per_second(arith, stats.tx_samples, report.elapsed_secs, report.tx_rate),
        shown_as(arith, stats.rx_peak, report.rx_peak_db),
        shown_as(arith, stats.rx_avg, report.rx_avg_db),
        shown_as(arith, squelch, report.squelch_db),
{
    assert(seconds_of(arith, elapsed, report.elapsed_secs));
    rates_are_per_second(arith, stats.rx_samples, report.elapsed_secs, report.rx_rate);
    rates_are_per_second(arith, stats.tx_samples, report.elapsed_secs, report.tx_rate);
    levels_are_shown(arith, stats.rx_peak, report.rx_peak_db);
    levels_are_shown(arith, stats.rx_avg, report.rx_avg_db);
    levels_are_shown(arith, squelch, report.squelch_db);
}

/// A report says that the signal is above the squelch where the average is; else that only its peak
/// is; else that it is below. It says whether anything was detected: nothing was if and only if all
/// four counters of transmissions are zero.
pub proof fn a_report_judges_by_the_squelch<A: Arithmetic>(
    arith: &A,
    stats: DebugStats,
    elapsed: Span,
    sample_rate: Double,
    squelch: Single,
    report: StatsReport,
)
    requires
        call_ensures(
            report_stats::<A>,
            (arith, &stats, elapsed, sample_rate, squelch),
            report,
        ),
    ensures
        report.status is AboveSquelch <==> squelch.below(stats.rx_avg),
        report.status is BelowSquelch <==> !squelch.below(stats.rx_avg) && !squelch.below(
            stats.rx_peak,
        ),
        !report.any_detected <==> stats.transmissions_detected_a == 0
            && stats.transmissions_detected_b == 0 && stats.transmission_samples_a == 0
            && stats.transmission_samples_b == 0,
{
}

/// `share` is how many percent of `expected` were received.
pub open spec fn share_of<A: Arithmetic>(arith: &A, got: u64, expected: u64, share: Double) -> bool {
    exists|g: Double, e: Double, q: Double|
        call_ensures(A::wide_count, (arith, got), g) && call_ensures(
            A::wide_count,
            (arith, expected),
            e,
        ) && #[trigger] call_ensures(A::wide_over, (arith, g, e), q) && call_ensures(
            A::wide_times,
            (arith, q, Double { bits: 0x4059_0000_0000_0000 }),
            share,
        )
}

/// A report compares the samples received with those that come in the time gone by at the sample
/// rate, where at least one does.
pub proof fn a_report_compares_with_what_was_expected<A: Arithmetic>(
    arith: &A,
    stats: DebugStats,
    elapsed: Span,
    sample_rate: Double,
    squelch: Single,
    report: StatsReport,
)
    requires
        call_ensures(
            report_stats::<A>,
            (arith, &stats, elapsed, sample_rate, squelch),
            report,
        ),
    ensures
        exists|x: Double, expected: u64|
            call_ensures(A::wide_times, (arith, sample_rate, report.elapsed_secs), x)
                && #[trigger] call_ensures(A::wide_floor, (arith, x), expected)
                && (report.rx_efficiency is Some <==> expected > 0)
                && (report.rx_efficiency matches Some(share) ==> share_of(
                arith,
                stats.rx_samples,
                expected,
                share,
            )),
{
    let secs = report.elapsed_secs;
    let expected = choose|expected: u64| #[trigger]
        expected_of(arith, sample_rate, secs, expected) && match report.rx_efficiency {
            Some(share) => expected > 0 && percent_of(arith, stats.rx_samples, expected, share),
            None => expected == 0,
        };
    let x = choose|x: Double| #[trigger]
        wide_product_of(arith, sample_rate, secs, x) && wide_floor_of(arith, x, expected);
    assert(call_ensures(A::wide_times, (arith, sample_rate, secs), x));
    assert(call_ensures(A::wide_floor, (arith, x), expected));
    if let Some(share) = report.rx_efficiency {
        let (g, e, q) = choose|g: Double, e: Double, q: Double|
            wide_count_of(arith, stats.rx_samples, g) && wide_count_of(arith, expected, e)
                && #[trigger] wide_quotient_of(arith, g, e, q) && wide_product_of(
                arith,
                q,
                Double { bits: 0x4059_0000_0000_0000 },
                share,
            );
        assert(call_ensures(A::wide_over, (arith, g, e), q));
        assert(share_of(arith, stats.rx_samples, expected, share));
    }
}

/// A length of time in nanoseconds.
pub open spec fn nanos(span: Span) -> int {
    span.secs * 1_000_000_000 + span.nanos
}

/// A wait is over as soon as it has gone by and not before; no wait is over at once.
pub proof fn a_wait_is_over_when_it_has_gone_by(from: Span, to: Span, wait: Span, r: bool)
    requires
        call_ensures(passed_since, (from, to, wait), r),
    ensures
        nanos(wait) > 0 ==> (r <==> nanos(to) - nanos(from) >= nanos(wait)),
        nanos(wait) == 0 ==> r,
{
}

/// Statistics are printed once an interval has gone by since they last were, and the moment is then
/// the one to count from; the run stops once its whole length has gone by, if it has one.
pub proof fn statistics_are_printed_at_intervals(ticker: &mut StatsTicker, now: Span, tick: Tick)
    requires
        call_ensures(StatsTicker::tick, (ticker, now), tick),
    ensures
        nanos(old(ticker).interval) > 0 ==> (tick.print <==> nanos(now) >= nanos(old(ticker).last)
            + nanos(old(ticker).interval)),
        nanos(old(ticker).interval) == 0 ==> tick.print,
        tick.print ==> final(ticker).last == now,
        !tick.print ==> final(ticker).last == old(ticker).last,
        old(ticker).limit is None ==> !tick.stop,
        old(ticker).limit matches Some(limit) ==> (tick.stop <==> nanos(now) >= nanos(limit)),
        final(ticker).interval == old(ticker).interval,
        final(ticker).limit == old(ticker).limit,
{
}

/// A run of no length has no end; any other ends after so many seconds. The first interval counts
/// from the beginning.
pub proof fn a_run_ends_after_its_length(
    interval_secs: u64,
    duration_secs: u64,
    now: Span,
    ticker: StatsTicker,
)
    requires
        call_ensures(StatsTicker::new, (interval_secs, duration_secs, now), ticker),
    ensures
        nanos(ticker.interval) == interval_secs * 1_000_000_000,
        ticker.limit is None <==> duration_secs == 0,
        ticker.limit matches Some(limit) ==> nanos(limit) == duration_secs * 1_000_000_000,
        ticker.last == now,
{
}

/// Lengths of time are converted exactly: a millisecond is a million nanoseconds, a second a
/// thousand million, and whole milliseconds are rounded down.
pub proof fn lengths_of_time_are_converted_exactly(
    n: u64,
    span: Span,
    from_millis: Span,
    from_secs: Span,
    in_nanos: u128,
    in_millis: u128,
)
    requires
        call_ensures(Span::from_millis, (n,), from_millis),
        call_ensures(Span::from_secs, (n,), from_secs),
        call_ensures(Span::as_nanos, (span,), in_nanos),
        call_ensures(Span::as_millis, (span,), in_millis),
    ensures
        nanos(from_millis) == n * 1_000_000,
        from_millis.nanos < 1_000_000_000,
        nanos(from_secs) == n * 1_000_000_000,
        from_secs.nanos < 1_000_000_000,
        in_nanos == nanos(span),
        in_millis * 1_000_000 <= nanos(span) < (in_millis + 1) * 1_000_000,
{
}

} // verus!
