//! What comes of a received buffer and of a transmission, call by call.
use vstd::prelude::*;

use crate::arith::Arithmetic;
use crate::detector::{detected, flushed, Transmission, TransmissionDetector};
use crate::fuzzer::{frames_of, fuzzed, released, FuzzState, Fuzzer, FuzzerAction};
use crate::pipeline::{
    dispatch, dispatch_at, dispatched, finish_reception, receive, replay_one, with_found, Dispatch,
    Reception,
};
use crate::signal::IqSample;
use crate::span::{shown_by_clock, Span};
use crate::stats::{with_received, with_transmission, Channel, DebugStats};
use crate::stats_laws::{
    buffers_are_measured, counted_on_a, counted_on_b, counts_on, measured, peak_of_both,
};
use crate::strategy_laws::{due_are_ready, ready_at};

verus! {

/// The samples of all of `found` together.
pub open spec fn samples_in_all(found: Seq<Transmission>) -> int
    decreases found.len(),
{
    if found.len() == 0 {
        0
    } else {
        found[0].samples@.len() + samples_in_all(found.drop_first())
    }
}

proof fn samples_add_up(found: Seq<Transmission>, last: Transmission)
    ensures
        samples_in_all(found.push(last)) == samples_in_all(found) + last.samples@.len(),
    decreases found.len(),
{
    let all = found.push(last);
    if found.len() == 0 {
        assert(all.drop_first() =~= Seq::<Transmission>::empty());
        assert(samples_in_all(all.drop_first()) == 0);
    } else {
        assert(all.drop_first() =~= found.drop_first().push(last));
        samples_add_up(found.drop_first(), last);
    }
}

/// `after` has `n` transmissions of `samples` samples more on `channel` than `before`, and is else
/// the same.
pub open spec fn found_on(
    before: DebugStats,
    channel: Option<Channel>,
    n: int,
    samples: int,
    after: DebugStats,
) -> bool {
    match channel {
        None => after == before,
        Some(Channel::A) => {
            &&& counts_on(before.transmissions_detected_a, n, after.transmissions_detected_a)
            &&& counts_on(before.transmission_samples_a, samples, after.transmission_samples_a)
            &&& after == (DebugStats {
                transmissions_detected_a: after.transmissions_detected_a,
                transmission_samples_a: after.transmission_samples_a,
                ..before
            })
        },
        Some(Channel::B) => {
            &&& counts_on(before.transmissions_detected_b, n, after.transmissions_detected_b)
            &&& counts_on(before.transmission_samples_b, samples, after.transmission_samples_b)
            &&& after == (DebugStats {
                transmissions_detected_b: after.transmissions_detected_b,
                transmission_samples_b: after.transmission_samples_b,
                ..before
            })
        },
    }
}

proof fn every_one_counts(before: DebugStats, channel: Option<Channel>, found: Seq<Transmission>)
    requires
        forall|i: int| 0 <= i < found.len() ==> (#[trigger] found[i]).samples@.len() <= usize::MAX,
    ensures
        found_on(
            before,
            channel,
            found.len() as int,
            samples_in_all(found),
            with_found(before, channel, found),
        ),
    decreases found.len(),
{
    if found.len() > 0 {
        let rest = found.drop_last();
        let last = found.last();
        every_one_counts(before, channel, rest);
        assert(rest.push(last) =~= found);
        samples_add_up(rest, last);
        assert(last == found[found.len() - 1]);
        assert(last@.samples == last.samples@);
        if let Some(c) = channel {
            one_more_counts(
                before,
                c,
                rest.len() as int,
                samples_in_all(rest),
                with_found(before, channel, rest),
                last.samples@.len() as usize,
            );
        }
    }
}

proof fn counting_goes_on(before: u64, n: int, mid: u64, m: u64)
    requires
        counts_on(before, n, mid),
    ensures
        counts_on(before, n + m, mid.wrapping_add(m)),
{
    let wide: int = 0x1_0000_0000_0000_0000;
    vstd::arithmetic::div_mod::lemma_add_mod_noop(before + n, m as int, wide);
    vstd::arithmetic::div_mod::lemma_add_mod_noop(mid as int, m as int, wide);
    vstd::arithmetic::div_mod::lemma_mod_twice(before + n, wide);
    assert(mid.wrapping_add(m) == (mid + m) % wide);
}

proof fn one_more_counts(
    before: DebugStats,
    c: Channel,
    n: int,
    samples: int,
    mid: DebugStats,
    last: usize,
)
    requires
        found_on(before, Some(c), n, samples, mid),
    ensures
        found_on(before, Some(c), n + 1, samples + last, with_transmission(mid, c, last)),
{
    match c {
        Channel::A => {
            counting_goes_on(before.transmissions_detected_a, n, mid.transmissions_detected_a, 1);
            counting_goes_on(
                before.transmission_samples_a,
                samples,
                mid.transmission_samples_a,
                last as u64,
            );
        },
        Channel::B => {
            counting_goes_on(before.transmissions_detected_b, n, mid.transmissions_detected_b, 1);
            counting_goes_on(
                before.transmission_samples_b,
                samples,
                mid.transmission_samples_b,
                last as u64,
            );
        },
    }
}

/// A received buffer is counted and measured, goes through the detector, and every transmission that
/// ends in it counts on the channel, with all its samples, if one is said.
pub proof fn a_received_buffer_is_counted_and_searched<A: Arithmetic>(
    arith: &A,
    detector: &mut TransmissionDetector<A>,
    stats: &mut DebugStats,
    channel: Option<Channel>,
    buffer: &[IqSample],
    r: Reception,
)
    requires
        call_ensures(receive::<A>, (arith, detector, stats, channel, buffer), r),
    ensures
        detected(
            &old(detector).arithmetic(),
            old(detector).configuration(),
            old(detector)@,
            buffer@,
            final(detector)@,
            r.transmissions@,
        ),
        measured(arith, buffer@, r.peak, r.avg),
        counts_on(old(stats).rx_samples, buffer@.len() as int, final(stats).rx_samples),
        counts_on(old(stats).rx_buffers, 1, final(stats).rx_buffers),
        peak_of_both(old(stats).rx_peak, r.peak, final(stats).rx_peak),
        final(stats).rx_avg == r.avg,
        (forall|i: int|
            0 <= i < r.transmissions@.len() ==> (#[trigger] r.transmissions@[i]).samples@.len()
                <= usize::MAX) ==> found_on(
            DebugStats {
                rx_samples: final(stats).rx_samples,
                rx_buffers: final(stats).rx_buffers,
                rx_peak: final(stats).rx_peak,
                rx_avg: final(stats).rx_avg,
                ..*old(stats)
            },
            channel,
            r.transmissions@.len() as int,
            samples_in_all(r.transmissions@),
            *final(stats),
        ),
{
    assert(buffer.len() == buffer@.len());
    buffers_are_measured(arith, buffer@, r.peak, r.avg);
    let mid = with_received(*old(stats), buffer@.len() as usize, r.peak, r.avg);
    others_are_kept(mid, channel, r.transmissions@);
    if forall|i: int|
        0 <= i < r.transmissions@.len() ==> (#[trigger] r.transmissions@[i]).samples@.len()
            <= usize::MAX {
        every_one_counts(mid, channel, r.transmissions@);
    }
}

proof fn others_are_kept(before: DebugStats, channel: Option<Channel>, found: Seq<Transmission>)
    ensures
        ({
            let after = with_found(before, channel, found);
            &&& after.rx_samples == before.rx_samples
            &&& after.rx_buffers == before.rx_buffers
            &&& after.rx_peak == before.rx_peak
            &&& after.rx_avg == before.rx_avg
        }),
    decreases found.len(),
{
    if channel is Some && found.len() > 0 {
        others_are_kept(before, channel, found.drop_last());
    }
}

/// At the end of the reception the detector is flushed; what that yields counts on the channel, with
/// all its samples, if one is said.
pub proof fn the_end_of_a_reception_is_flushed<A: Arithmetic>(
    detector: &mut TransmissionDetector<A>,
    stats: &mut DebugStats,
    channel: Option<Channel>,
    found: Option<Transmission>,
)
    requires
        call_ensures(finish_reception::<A>, (detector, stats, channel), found),
    ensures
        flushed(
            &old(detector).arithmetic(),
            old(detector).configuration(),
            old(detector)@,
            final(detector)@,
            found,
        ),
        found is None || channel is None ==> *final(stats) == *old(stats),
        found is Some && found->0.samples@.len() <= usize::MAX && channel == Some(Channel::A)
            ==> counted_on_a(*old(stats), found->0.samples@.len() as int, *final(stats)),
        found is Some && found->0.samples@.len() <= usize::MAX && channel == Some(Channel::B)
            ==> counted_on_b(*old(stats), found->0.samples@.len() as int, *final(stats)),
{
    if let Some(tx) = found {
        assert(tx@.samples == tx.samples@);
    }
}

/// A transmission goes through the fuzzer at its moment, and then everything that is due at the
/// moment of the poll comes out.
pub proof fn a_transmission_is_fuzzed_and_the_due_released<A: Arithmetic>(
    arith: &A,
    fuzzer: &mut Fuzzer,
    at: Span,
    polled: Span,
    tx: Transmission,
    r: Dispatch,
)
    requires
        call_ensures(dispatch_at::<A>, (arith, fuzzer, at, polled, tx), r),
    ensures
        final(fuzzer).strategy() == old(fuzzer).strategy(),
        exists|mid: FuzzState| #[trigger]
            fuzzed(
                arith,
                old(fuzzer).strategy(),
                (at.secs * 1_000_000_000 + at.nanos) as nat,
                old(fuzzer)@,
                tx@,
                mid,
                r.action@,
            ) && ready_at(
                mid,
                (polled.secs * 1_000_000_000 + polled.nanos) as nat,
                final(fuzzer)@,
                r.released@,
            ),
{
    let mid = choose|mid: FuzzState| #[trigger]
        fuzzed(
            arith,
            old(fuzzer).strategy(),
            at.total_nanos(),
            old(fuzzer)@,
            tx@,
            mid,
            r.action@,
        ) && released(mid, polled.total_nanos(), final(fuzzer)@, frames_of(r.released@));
    due_are_ready(mid, polled.total_nanos(), final(fuzzer)@, r.released@);
    assert(fuzzed(
        arith,
        old(fuzzer).strategy(),
        (at.secs * 1_000_000_000 + at.nanos) as nat,
        old(fuzzer)@,
        tx@,
        mid,
        r.action@,
    ));
}

/// At the same time by the clock, a transmission goes through the fuzzer and everything that is due
/// comes out.
pub proof fn a_transmission_is_fuzzed_now_and_the_due_released<A: Arithmetic>(
    arith: &A,
    fuzzer: &mut Fuzzer,
    tx: Transmission,
    r: Dispatch,
)
    requires
        call_ensures(dispatch::<A>, (arith, fuzzer, tx), r),
    ensures
        final(fuzzer).strategy() == old(fuzzer).strategy(),
        exists|at: Span, polled: Span, mid: FuzzState|
            shown_by_clock(old(fuzzer).origin(), at) && shown_by_clock(
                old(fuzzer).origin(),
                polled,
            ) && #[trigger] fuzzed(
                arith,
                old(fuzzer).strategy(),
                at.total_nanos(),
                old(fuzzer)@,
                tx@,
                mid,
                r.action@,
            ) && #[trigger] ready_at(mid, polled.total_nanos(), final(fuzzer)@, r.released@),
{
    let (at, polled) = choose|at: Span, polled: Span| #[trigger]
        shown_by_clock(old(fuzzer).origin(), at) && #[trigger] shown_by_clock(
            old(fuzzer).origin(),
            polled,
        ) && dispatched(
            arith,
            old(fuzzer).strategy(),
            at.total_nanos(),
            polled.total_nanos(),
            old(fuzzer)@,
            tx@,
            final(fuzzer)@,
            r.action@,
            frames_of(r.released@),
        );
    let mid = choose|mid: FuzzState| #[trigger]
        fuzzed(
            arith,
            old(fuzzer).strategy(),
            at.total_nanos(),
            old(fuzzer)@,
            tx@,
            mid,
            r.action@,
        ) && released(mid, polled.total_nanos(), final(fuzzer)@, frames_of(r.released@));
    due_are_ready(mid, polled.total_nanos(), final(fuzzer)@, r.released@);
    assert(fuzzed(
        arith,
        old(fuzzer).strategy(),
        at.total_nanos(),
        old(fuzzer)@,
        tx@,
        mid,
        r.action@,
    ));
}

/// A replayed transmission counts its samples as received, and nothing else, and goes through the
/// fuzzer.
pub proof fn a_replayed_transmission_counts_as_received<A: Arithmetic>(
    arith: &A,
    fuzzer: &mut Fuzzer,
    stats: &mut DebugStats,
    tx: Transmission,
    action: FuzzerAction,
)
    requires
        tx.samples@.len() <= usize::MAX,
        call_ensures(replay_one::<A>, (arith, fuzzer, stats, tx), action),
    ensures
        counts_on(old(stats).rx_samples, tx.samples@.len() as int, final(stats).rx_samples),
        *final(stats) == (DebugStats { rx_samples: final(stats).rx_samples, ..*old(stats) }),
        final(fuzzer).strategy() == old(fuzzer).strategy(),
        exists|now: Span| #[trigger]
            shown_by_clock(old(fuzzer).origin(), now) && fuzzed(
                arith,
                old(fuzzer).strategy(),
                (now.secs * 1_000_000_000 + now.nanos) as nat,
                old(fuzzer)@,
                tx@,
                final(fuzzer)@,
                action@,
            ),
{
    assert(tx@.samples == tx.samples@);
    let now = choose|now: Span| #[trigger]
        shown_by_clock(old(fuzzer).origin(), now) && fuzzed(
            arith,
            old(fuzzer).strategy(),
            now.total_nanos(),
            old(fuzzer)@,
            tx@,
            final(fuzzer)@,
            action@,
        );
    assert(now.total_nanos() == (now.secs * 1_000_000_000 + now.nanos) as nat);
}

/// What goes out is what was passed on or changed, if it was, before everything that was released,
/// in the order of the release; nothing else goes out.
pub proof fn what_was_passed_on_goes_out_first(r: Dispatch, out: Vec<Transmission>)
    requires
        call_ensures(Dispatch::into_outgoing, (r,), out),
    ensures
        r.action matches FuzzerAction::Pass(tx) ==> out@.len() == r.released@.len() + 1
            && out@[0]@ == tx@ && forall|i: int|
            0 <= i < r.released@.len() ==> out@[i + 1]@ == (#[trigger] r.released@[i])@,
        r.action matches FuzzerAction::Modified(tx) ==> out@.len() == r.released@.len() + 1
            && out@[0]@ == tx@ && forall|i: int|
            0 <= i < r.released@.len() ==> out@[i + 1]@ == (#[trigger] r.released@[i])@,
        r.action is Drop || r.action is Delayed ==> out@.len() == r.released@.len() && forall|
            i: int,
        |
            0 <= i < r.released@.len() ==> out@[i]@ == (#[trigger] r.released@[i])@,
{
    let ready = frames_of(r.released@);
    let all = frames_of(out@);
    assert(all.len() == out@.len());
    assert(ready.len() == r.released@.len());
    assert forall|i: int| 0 <= i < ready.len() implies ready[i] == (#[trigger] r.released@[i])@ by {}
    assert forall|i: int| 0 <= i < all.len() implies all[i] == #[trigger] out@[i]@ by {}
    if r.action is Pass || r.action is Modified {
        assert forall|i: int| 0 <= i < r.released@.len() implies out@[i + 1]@ == (
        #[trigger] r.released@[i])@ by {
            assert(all[i + 1] == ready[i]);
        }
        assert(all[0] == out@[0]@);
    } else {
        assert forall|i: int| 0 <= i < r.released@.len() implies out@[i]@ == (
        #[trigger] r.released@[i])@ by {
            assert(all[i] == ready[i]);
        }
    }
}

} // verus!
