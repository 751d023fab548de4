//! The receiving side of the relay: from buffers to transmissions, and through the fuzzer.
use vstd::prelude::*;

use crate::arith::{Arithmetic, Single};
use crate::detector::{detected, flushed, Frame, Transmission, TransmissionDetector};
use crate::fuzzer::{
    alone_is_strategy, due_and_waiting, frames_of, fuzzed, is_ready, released, FuzzState, Fuzzer,
    FuzzerAction, FuzzerStrategy, Outcome,
};
use crate::fuzzer_laws::{accounted, counts_are_bounded, each_counts_once, release_conserves};
use crate::signal::IqSample;
use crate::span::{shown_by_clock, Span};
use crate::stats::{buffer_levels, with_received, with_transmission, Channel, DebugStats};

verus! {

/// `stats` with every one of `found` counted, if it is said for which channel.
pub open spec fn with_found(
    stats: DebugStats,
    channel: Option<Channel>,
    found: Seq<Transmission>,
) -> DebugStats
    decreases found.len(),
{
    match channel {
        None => stats,
        Some(c) => if found.len() == 0 {
            stats
        } else {
            with_transmission(
                with_found(stats, channel, found.drop_last()),
                c,
                found.last()@.samples.len() as usize,
            )
        },
    }
}

/// What came of a received buffer.
pub struct Reception {
    /// The largest level in it.
    pub peak: Single,
    /// Its average level.
    pub avg: Single,
    /// The transmissions that ended in it.
    pub transmissions: Vec<Transmission>,
}

/// Take a received buffer: count it, take its levels, and look for transmissions, which are counted
/// if it is said for which channel.
pub fn receive<A: Arithmetic>(
    arith: &A,
    detector: &mut TransmissionDetector<A>,
    stats: &mut DebugStats,
    channel: Option<Channel>,
    buffer: &[IqSample],
) -> (r: Reception)
    requires
        old(detector).well_formed(),
        old(detector)@.total + buffer@.len() <= u64::MAX,
    ensures
        final(detector).well_formed(),
        final(detector).configuration() == old(detector).configuration(),
        final(detector).arithmetic() == old(detector).arithmetic(),
        detected(
            &old(detector).arithmetic(),
            old(detector).configuration(),
            old(detector)@,
            buffer@,
            final(detector)@,
            r.transmissions@,
        ),
        buffer_levels(arith, buffer@, r.peak, r.avg),
        *final(stats) == with_found(
            with_received(*old(stats), buffer@.len() as usize, r.peak, r.avg),
            channel,
            r.transmissions@,
        ),
{
    let levels = stats.received(arith, buffer);
    let transmissions = detector.process(buffer);
    let ghost before = *stats;
    if let Some(c) = channel {
        let mut i: usize = 0;
        assert(transmissions@.take(0) =~= Seq::<Transmission>::empty());
        while i < transmissions.len()
            invariant
                i <= transmissions@.len(),
                channel == Some(c),
                *stats == with_found(before, channel, transmissions@.take(i as int)),
            decreases transmissions@.len() - i,
        {
            assert(transmissions@.take(i + 1).drop_last() =~= transmissions@.take(i as int));
            stats.record_transmission(c, transmissions[i].samples.len());
            i += 1;
        }
        assert(transmissions@.take(i as int) =~= transmissions@);
    }
    Reception { peak: levels.0, avg: levels.1, transmissions }
}

/// End the reception: what was being received is taken as it stands, and counted if it is said for
/// which channel.
pub fn finish_reception<A: Arithmetic>(
    detector: &mut TransmissionDetector<A>,
    stats: &mut DebugStats,
    channel: Option<Channel>,
) -> (found: Option<Transmission>)
    requires
        old(detector).well_formed(),
    ensures
        final(detector).well_formed(),
        final(detector).configuration() == old(detector).configuration(),
        final(detector).arithmetic() == old(detector).arithmetic(),
        flushed(
            &old(detector).arithmetic(),
            old(detector).configuration(),
            old(detector)@,
            final(detector)@,
            found,
        ),
        *final(stats) == (match (found, channel) {
            (Some(tx), Some(c)) => with_transmission(
                *old(stats),
                c,
                tx@.samples.len() as usize,
            ),
            _ => *old(stats),
        }),
{
    let found = detector.flush();
    if let Some(tx) = &found {
        if let Some(c) = channel {
            stats.record_transmission(c, tx.samples.len());
        }
    }
    found
}

/// What the fuzzer made of a transmission, and which delayed ones it released at the same time.
pub struct Dispatch {
    pub action: FuzzerAction,
    pub released: Vec<Transmission>,
}

/// The fuzzer was in the state `pre`, took `frame` at the moment `at` and was polled at the moment
/// `polled`; it is in the state `post`.
pub open spec fn dispatched<A: Arithmetic>(
    arith: &A,
    strategy: FuzzerStrategy,
    at: nat,
    polled: nat,
    pre: FuzzState,
    frame: Frame,
    post: FuzzState,
    said: Outcome,
    ready: Seq<Frame>,
) -> bool {
    exists|mid: FuzzState| #[trigger]
        fuzzed(arith, strategy, at, pre, frame, mid, said) && released(mid, polled, post, ready)
}

/// What goes out: the transmission itself, if it was passed on, and then those released.
pub open spec fn outgoing(said: Outcome, ready: Seq<Frame>) -> Seq<Frame> {
    match said {
        Outcome::Pass(f) | Outcome::Modified(f) => seq![f] + ready,
        Outcome::Drop | Outcome::Delayed => ready,
    }
}

/// Put a transmission through the fuzzer, and release what is due.
pub fn dispatch<A: Arithmetic>(arith: &A, fuzzer: &mut Fuzzer, transmission: Transmission) -> (r:
    Dispatch)
    requires
        is_ready(old(fuzzer)@, old(fuzzer).strategy()),
    ensures
        final(fuzzer).strategy() == old(fuzzer).strategy(),
        final(fuzzer).origin() == old(fuzzer).origin(),
        exists|at: Span, polled: Span| #[trigger]
            shown_by_clock(old(fuzzer).origin(), at) && #[trigger] shown_by_clock(
                old(fuzzer).origin(),
                polled,
            ) && dispatched(
                arith,
                old(fuzzer).strategy(),
                at.total_nanos(),
                polled.total_nanos(),
                old(fuzzer)@,
                transmission@,
                final(fuzzer)@,
                r.action@,
                frames_of(r.released@),
            ),
{
    let ghost pre = fuzzer@;
    let ghost frame = transmission@;
    let action = fuzzer.process(arith, transmission);
    let ghost mid = fuzzer@;
    let ghost at = choose|now: Span| #[trigger]
        shown_by_clock(old(fuzzer).origin(), now) && fuzzed(
            arith,
            old(fuzzer).strategy(),
            now.total_nanos(),
            pre,
            frame,
            mid,
            action@,
        );
    proof {
        counts_are_bounded(
            arith,
            old(fuzzer).strategy(),
            at.total_nanos(),
            pre,
            frame,
            mid,
            action@,
        );
    }
    let ready = fuzzer.poll_delayed();
    let ghost polled = choose|now: Span| #[trigger]
        shown_by_clock(old(fuzzer).origin(), now) && released(
            mid,
            now.total_nanos(),
            fuzzer@,
            frames_of(ready@),
        );
    let r = Dispatch { action, released: ready };
    proof {
        assert(shown_by_clock(old(fuzzer).origin(), at));
        assert(shown_by_clock(old(fuzzer).origin(), polled));
        assert(fuzzed(
            arith,
            old(fuzzer).strategy(),
            at.total_nanos(),
            pre,
            frame,
            mid,
            r.action@,
        ));
        assert(dispatched(
            arith,
            old(fuzzer).strategy(),
            at.total_nanos(),
            polled.total_nanos(),
            pre,
            frame,
            fuzzer@,
            r.action@,
            frames_of(r.released@),
        ));
    }
    r
}

/// Put a transmission through the fuzzer at the moment `at`, and release what is due at the moment
/// `polled`.
pub fn dispatch_at<A: Arithmetic>(
    arith: &A,
    fuzzer: &mut Fuzzer,
    at: Span,
    polled: Span,
    transmission: Transmission,
) -> (r: Dispatch)
    requires
        is_ready(old(fuzzer)@, old(fuzzer).strategy()),
    ensures
        final(fuzzer).strategy() == old(fuzzer).strategy(),
        final(fuzzer).origin() == old(fuzzer).origin(),
        dispatched(
            arith,
            old(fuzzer).strategy(),
            at.total_nanos(),
            polled.total_nanos(),
            old(fuzzer)@,
            transmission@,
            final(fuzzer)@,
            r.action@,
            frames_of(r.released@),
        ),
{
    let ghost pre = fuzzer@;
    let ghost frame = transmission@;
    let action = fuzzer.process_at(arith, at, transmission);
    proof {
        counts_are_bounded(
            arith,
            old(fuzzer).strategy(),
            at.total_nanos(),
            pre,
            frame,
            fuzzer@,
            action@,
        );
    }
    let ghost mid = fuzzer@;
    let ready = fuzzer.poll_delayed_at(polled);
    let r = Dispatch { action, released: ready };
    assert(fuzzed(
        arith,
        old(fuzzer).strategy(),
        at.total_nanos(),
        pre,
        frame,
        mid,
        r.action@,
    ));
    r
}

/// Put a replayed transmission through the fuzzer; its samples count as received. What is delayed
/// is left to be polled.
pub fn replay_one<A: Arithmetic>(
    arith: &A,
    fuzzer: &mut Fuzzer,
    stats: &mut DebugStats,
    transmission: Transmission,
) -> (action: FuzzerAction)
    requires
        is_ready(old(fuzzer)@, old(fuzzer).strategy()),
    ensures
        *final(stats) == (DebugStats {
            rx_samples: old(stats).rx_samples.wrapping_add(transmission@.samples.len() as u64),
            ..*old(stats)
        }),
        final(fuzzer).strategy() == old(fuzzer).strategy(),
        final(fuzzer).origin() == old(fuzzer).origin(),
        exists|now: Span| #[trigger]
            shown_by_clock(old(fuzzer).origin(), now) && fuzzed(
                arith,
                old(fuzzer).strategy(),
                now.total_nanos(),
                old(fuzzer)@,
                transmission@,
                final(fuzzer)@,
                action@,
            ),
{
    stats.rx_samples = stats.rx_samples.wrapping_add(transmission.samples.len() as u64);
    fuzzer.process(arith, transmission)
}

impl Dispatch {
    /// List what goes out, in order.
    pub fn into_outgoing(self) -> (r: Vec<Transmission>)
        ensures
            frames_of(r@) == outgoing(self.action@, frames_of(self.released@)),
    {
        let ghost said = self.action@;
        let ghost ready = frames_of(self.released@);
        let Dispatch { action, released } = self;
        match action {
            FuzzerAction::Pass(tx) | FuzzerAction::Modified(tx) => {
                let mut out = released;
                out.insert(0, tx);
                assert(frames_of(out@) =~= outgoing(said, ready));
                out
            },
            FuzzerAction::Drop | FuzzerAction::Delayed => released,
        }
    }
}

/// Nothing is lost on the way through the fuzzer: every transmission goes out, is dropped or is
/// held, and as many go out as the counter of those passed says. (Chains count every strategy.)
pub proof fn dispatch_loses_nothing<A: Arithmetic>(
    arith: &A,
    strategy: FuzzerStrategy,
    at: nat,
    polled: nat,
    pre: FuzzState,
    frame: Frame,
    post: FuzzState,
    said: Outcome,
    ready: Seq<Frame>,
)
    requires
        strategy !is Chain,
        dispatched(arith, strategy, at, polled, pre, frame, post, said, ready),
    ensures
        accounted(post) == accounted(pre) + 1,
        outgoing(said, ready).len() == post.passed - pre.passed,
        said is Drop <==> post.dropped == pre.dropped + 1,
        pre.delayed.len() + 1 == outgoing(said, ready).len() + (post.dropped - pre.dropped)
            + post.delayed.len(),
{
    let mid = choose|mid: FuzzState| #[trigger]
        fuzzed(arith, strategy, at, pre, frame, mid, said) && released(mid, polled, post, ready);
    each_counts_once(arith, strategy, at, pre, frame, mid, said);
    release_conserves(mid, polled, post, ready);
}

/// Passing everything through, with nothing held, sends each transmission on as it is.
pub proof fn passthrough_relays<A: Arithmetic>(
    arith: &A,
    at: nat,
    polled: nat,
    pre: FuzzState,
    frame: Frame,
    post: FuzzState,
    said: Outcome,
    ready: Seq<Frame>,
)
    requires
        pre.delayed.len() == 0,
        dispatched(
            arith,
            FuzzerStrategy::Passthrough,
            at,
            polled,
            pre,
            frame,
            post,
            said,
            ready,
        ),
    ensures
        outgoing(said, ready) == seq![frame],
        post.delayed.len() == 0,
{
    let mid = choose|mid: FuzzState| #[trigger]
        fuzzed(arith, FuzzerStrategy::Passthrough, at, pre, frame, mid, said) && released(
            mid,
            polled,
            post,
            ready,
        );
    alone_is_strategy(arith, FuzzerStrategy::Passthrough, at, pre, frame, mid, said);
    due_and_waiting(mid.delayed, polled);
    assert(ready.len() == 0);
    assert(outgoing(said, ready) =~= seq![frame]);
}

} // verus!
