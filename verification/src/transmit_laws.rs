//! How a frame goes to the radio, call by call, and when the radio is on.
use vstd::prelude::*;

use crate::span::Span;
use crate::stats::DebugStats;
use crate::stats_laws::{counts_on, nanos};
use crate::transmit::{Chunk, FrameSender, SendState, TxGate};

verus! {

/// `chunk` is what is handed over of a frame of `len` samples from the place `at` on, at most `limit`
/// at once: all that is left or as much as may be, and the burst ends with it if nothing is left.
pub open spec fn handed_over(len: nat, limit: nat, at: nat, chunk: Chunk) -> bool {
    &&& chunk.start == at
    &&& at < chunk.end <= len
    &&& chunk.end - at <= limit
    &&& chunk.end == len || chunk.end - at == limit
    &&& chunk.end_of_burst <==> chunk.end == len
}

/// A frame is handed over from its first sample on; one without samples is not handed over at all.
/// Nothing counts as taken yet.
pub proof fn a_frame_begins_with_its_first_sample(
    len: usize,
    limit: usize,
    sender: FrameSender,
    first: Option<Chunk>,
    written: usize,
    chunks: usize,
    state: SendState,
)
    requires
        limit > 0,
        call_ensures(FrameSender::new, (len, limit), sender),
        call_ensures(FrameSender::next_chunk, (&sender,), first),
        call_ensures(FrameSender::written, (&sender,), written),
        call_ensures(FrameSender::chunks, (&sender,), chunks),
        call_ensures(FrameSender::state, (&sender,), state),
    ensures
        first is Some <==> len > 0,
        first matches Some(chunk) ==> handed_over(len as nat, limit as nat, 0, chunk),
        written == 0,
        chunks == 0,
        state is Sending,
        sender@.len == len,
        sender@.limit == limit,
{
}

/// After `taken` of a part was taken, the next part goes on from there, until all samples were taken;
/// if nothing was taken, the frame is given up. What was taken counts as sent.
pub proof fn a_frame_goes_on_where_the_radio_stopped(
    sender: &mut FrameSender,
    stats: &mut DebugStats,
    taken: usize,
    part: Chunk,
    before: FrameSender,
    after: FrameSender,
    next: Option<Chunk>,
    written: usize,
    chunks: usize,
    state: SendState,
)
    requires
        before == *old(sender),
        after == *final(sender),
        before@.len <= usize::MAX,
        before@.limit > 0,
        call_ensures(FrameSender::next_chunk, (&before,), Some(part)),
        taken <= part.end - part.start,
        call_ensures(FrameSender::wrote, (sender, stats, taken), ()),
        call_ensures(FrameSender::next_chunk, (&after,), next),
        call_ensures(FrameSender::written, (&after,), written),
        call_ensures(FrameSender::chunks, (&after,), chunks),
        call_ensures(FrameSender::state, (&after,), state),
    ensures
        after@.len == before@.len,
        after@.limit == before@.limit,
        handed_over(before@.len, before@.limit, part.start as nat, part),
        written == part.start + taken,
        chunks == before@.chunks + 1,
        state == (if taken == 0 {
            SendState::Stalled
        } else {
            SendState::Sending
        }),
        next is Some <==> taken > 0 && written < before@.len,
        next matches Some(chunk) ==> handed_over(
            before@.len,
            before@.limit,
            written as nat,
            chunk,
        ),
        counts_on(old(stats).tx_samples, taken as int, final(stats).tx_samples),
        *final(stats) == (DebugStats { tx_samples: final(stats).tx_samples, ..*old(stats) }),
{
}

/// A radio that refuses a part gets no more of the frame; what it took before stays counted.
pub proof fn a_refused_frame_is_given_up(
    sender: &mut FrameSender,
    before: FrameSender,
    after: FrameSender,
    next: Option<Chunk>,
    taken: usize,
    written: usize,
    chunks: usize,
    state: SendState,
)
    requires
        before == *old(sender),
        after == *final(sender),
        call_ensures(FrameSender::written, (&before,), taken),
        call_ensures(FrameSender::failed, (sender,), ()),
        call_ensures(FrameSender::next_chunk, (&after,), next),
        call_ensures(FrameSender::written, (&after,), written),
        call_ensures(FrameSender::chunks, (&after,), chunks),
        call_ensures(FrameSender::state, (&after,), state),
    ensures
        next is None,
        state is Failed,
        written == taken,
        chunks == before@.chunks,
{
}

/// The radio is off at first, and on once it was switched on.
pub proof fn a_radio_is_on_once_switched_on(first: TxGate, gate: &mut TxGate)
    requires
        call_ensures(TxGate::new, (), first),
        call_ensures(TxGate::activated, (gate,), ()),
    ensures
        !first.active,
        first.last_tx is None,
        final(gate).active,
        final(gate).last_tx == old(gate).last_tx,
{
}

/// A frame that was sent is remembered by its moment and counts as a buffer sent; that does not
/// switch the radio on or off.
pub proof fn a_sent_frame_is_remembered(gate: &mut TxGate, stats: &mut DebugStats, now: Span)
    requires
        call_ensures(TxGate::frame_sent, (gate, stats, now), ()),
    ensures
        final(gate).last_tx == Some(now),
        final(gate).active == old(gate).active,
        counts_on(old(stats).tx_buffers, 1, final(stats).tx_buffers),
        *final(stats) == (DebugStats { tx_buffers: final(stats).tx_buffers, ..*old(stats) }),
{
}

/// A radio that is on is switched off when two hundred milliseconds have gone by since the last
/// frame, or if there was none, and not before; it is then off, and no frame is remembered. One that
/// is off is left alone.
pub proof fn an_idle_radio_is_switched_off(gate: &mut TxGate, now: Span, off: bool)
    requires
        call_ensures(TxGate::idle, (gate, now), off),
    ensures
        !old(gate).active ==> !off,
        old(gate).active && old(gate).last_tx is None ==> off,
        old(gate).active && old(gate).last_tx is Some ==> (off <==> nanos(now) >= nanos(
            old(gate).last_tx->0,
        ) + 200_000_000),
        off ==> !final(gate).active && final(gate).last_tx is None,
        !off ==> *final(gate) == *old(gate),
{
}

} // verus!
