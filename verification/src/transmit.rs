//! The sending side of the relay: how a frame is handed to the radio, and when the radio is on.
use vstd::prelude::*;

use crate::span::Span;
use crate::stats::{has_passed, passed_since, DebugStats};

verus! {

/// How many samples of a frame are handed over at once, at most.
pub const CHUNK_SAMPLES: usize = 65_536;

/// How long the radio stays on after a frame, in milliseconds.
pub const IDLE_MILLIS: u64 = 200;

/// How the sending of a frame stands.
#[derive(Clone, Copy, Debug, PartialEq, Eq, Structural)]
pub enum SendState {
    /// It goes on.
    Sending,
    /// The radio took nothing of what it was given.
    Stalled,
    /// The radio refused what it was given.
    Failed,
}

/// A part of a frame that is handed over at once: the samples from `start` up to `end`.
#[derive(Clone, Copy, Debug, PartialEq, Eq, Structural)]
pub struct Chunk {
    pub start: usize,
    pub end: usize,
    /// Whether the frame ends with it. Between the parts of a frame the burst goes on.
    pub end_of_burst: bool,
}

/// Hands a frame over part by part.
pub struct FrameSender {
    len: usize,
    limit: usize,
    offset: usize,
    chunks: usize,
    state: SendState,
}

/// Where a [`FrameSender`] stands.
#[verifier::ext_equal]
pub struct SendProgress {
    /// Samples in the frame.
    pub len: nat,
    /// Samples handed over at once, at most.
    pub limit: nat,
    /// Samples taken so far.
    pub offset: nat,
    /// Parts that were taken.
    pub chunks: nat,
    pub state: SendState,
}

impl View for FrameSender {
    type V = SendProgress;

    closed spec fn view(&self) -> SendProgress {
        SendProgress {
            len: self.len as nat,
            limit: self.limit as nat,
            offset: self.offset as nat,
            chunks: self.chunks as nat,
            state: self.state,
        }
    }
}

/// The part that is handed over next, as long as there is one: what is left, or as much of it as
/// may be handed over at once.
pub open spec fn chunk_after(p: SendProgress) -> Option<Chunk> {
    if p.state !is Sending || p.offset >= p.len {
        None
    } else {
        let end = if p.len - p.offset <= p.limit {
            p.len
        } else {
            p.offset + p.limit
        };
        Some(
            Chunk { start: p.offset as usize, end: end as usize, end_of_burst: end == p.len },
        )
    }
}

/// What it does that the radio took `written` samples.
pub open spec fn after_write(p: SendProgress, written: nat) -> SendProgress {
    SendProgress {
        offset: p.offset + written,
        chunks: p.chunks + 1,
        state: if written == 0 {
            SendState::Stalled
        } else {
            SendState::Sending
        },
        ..p
    }
}

impl FrameSender {
    #[verifier::type_invariant]
    spec fn well_formed(self) -> bool {
        &&& self.offset <= self.len
        &&& self.limit > 0
        &&& self.state is Sending ==> self.chunks <= self.offset
    }

    /// Prepare to hand over a frame of `len` samples, at most `limit` at once.
    pub fn new(len: usize, limit: usize) -> (r: FrameSender)
        requires
            limit > 0,
        ensures
            r@ == (SendProgress {
                len: len as nat,
                limit: limit as nat,
                offset: 0,
                chunks: 0,
                state: SendState::Sending,
            }),
    {
        FrameSender { len, limit, offset: 0, chunks: 0, state: SendState::Sending }
    }

    /// The part that is to be handed over next, if any is.
    pub fn next_chunk(&self) -> (chunk: Option<Chunk>)
        ensures
            chunk == chunk_after(self@),
            chunk matches Some(c) ==> c.start < c.end <= self@.len && c.start == self@.offset,
    {
        proof {
            use_type_invariant(self);
        }
        match self.state {
            SendState::Sending => {},
            _ => {
                return None;
            },
        }
        if self.offset >= self.len {
            return None;
        }
        let end: usize = if self.len - self.offset <= self.limit {
            self.len
        } else {
            self.offset + self.limit
        };
        Some(Chunk { start: self.offset, end, end_of_burst: end == self.len })
    }

    /// The radio took `written` samples of the part that it was handed.
    pub fn wrote(&mut self, stats: &mut DebugStats, written: usize)
        requires
            chunk_after(old(self)@) matches Some(c) && written <= c.end - c.start,
        ensures
            final(self)@ == after_write(old(self)@, written as nat),
            *final(stats) == (DebugStats {
                tx_samples: old(stats).tx_samples.wrapping_add(written as u64),
                ..*old(stats)
            }),
    {
        proof {
            use_type_invariant(&*self);
        }
        stats.tx_samples = stats.tx_samples.wrapping_add(written as u64);
        let state = if written == 0 {
            SendState::Stalled
        } else {
            SendState::Sending
        };
        *self = FrameSender {
            len: self.len,
            limit: self.limit,
            offset: self.offset + written,
            chunks: self.chunks + 1,
            state,
        };
    }

    /// The radio refused the part that it was handed.
    pub fn failed(&mut self)
        ensures
            final(self)@ == (SendProgress { state: SendState::Failed, ..old(self)@ }),
    {
        proof {
            use_type_invariant(&*self);
        }
        self.state = SendState::Failed;
    }

    /// How many samples were taken.
    pub fn written(&self) -> (n: usize)
        ensures
            n == self@.offset,
    {
        self.offset
    }

    /// How many parts were taken.
    pub fn chunks(&self) -> (n: usize)
        ensures
            n == self@.chunks,
    {
        self.chunks
    }

    /// How the sending stands.
    pub fn state(&self) -> (r: SendState)
        ensures
            r == self@.state,
    {
        self.state
    }
}

/// The parts of a frame, from where `p` stands, if the radio takes each of them whole.
pub open spec fn chunks_from(p: SendProgress) -> Seq<Chunk>
    decreases p.len - p.offset,
    when p.limit > 0
{
    match chunk_after(p) {
        None => Seq::empty(),
        Some(c) => {
            let written = (c.end - c.start) as nat;
            if written > 0 && written <= p.len - p.offset {
                seq![c] + chunks_from(after_write(p, written))
            } else {
                seq![c]
            }
        },
    }
}

/// A radio that takes every part whole is given the frame from its first sample to its last: each
/// part starts where the one before it ended and has at most as many samples as may be handed over
/// at once; the burst ends with the last part and with no other.
pub proof fn frame_is_covered(p: SendProgress)
    requires
        p.state is Sending,
        p.offset < p.len <= usize::MAX,
        p.limit > 0,
    ensures
        ({
            let all = chunks_from(p);
            &&& all.len() > 0
            &&& all[0].start == p.offset
            &&& all.last().end == p.len
            &&& forall|i: int|
                0 <= i < all.len() ==> (#[trigger] all[i]).start < all[i].end && all[i].end
                    - all[i].start <= p.limit
            &&& forall|i: int|
                0 <= i < all.len() - 1 ==> (#[trigger] all[i]).end == all[i + 1].start
            &&& forall|i: int|
                0 <= i < all.len() ==> (#[trigger] all[i]).end_of_burst == (i == all.len() - 1)
        }),
    decreases p.len - p.offset,
{
    let c = chunk_after(p)->0;
    let written = (c.end - c.start) as nat;
    let after = after_write(p, written);
    let rest = chunks_from(after);
    let all = chunks_from(p);
    assert(all == seq![c] + rest);
    if after.offset < after.len {
        frame_is_covered(after);
        assert(all.last() == rest.last());
        assert forall|i: int| 0 <= i < all.len() - 1 implies (#[trigger] all[i]).end == all[i
            + 1].start by {
            if i > 0 {
                assert(all[i] == rest[i - 1]);
                assert(all[i + 1] == rest[i]);
            }
        }
        assert forall|i: int| 0 <= i < all.len() implies (#[trigger] all[i]).end_of_burst == (i
            == all.len() - 1) by {
            if i > 0 {
                assert(all[i] == rest[i - 1]);
            }
        }
        assert forall|i: int| 0 <= i < all.len() implies (#[trigger] all[i]).start < all[i].end
            && all[i].end - all[i].start <= p.limit by {
            if i > 0 {
                assert(all[i] == rest[i - 1]);
            }
        }
    } else {
        assert(rest.len() == 0);
        assert(all =~= seq![c]);
    }
}

/// Whatever part of a chunk the radio takes, the next one goes on from there, and the frame is done
/// when all of it was taken and not before.
pub proof fn writes_go_on(p: SendProgress, written: nat)
    requires
        p.len <= usize::MAX,
        p.limit > 0,
        chunk_after(p) matches Some(c) && written <= c.end - c.start,
    ensures
        ({
            let after = after_write(p, written);
            &&& after.offset <= p.len
            &&& chunk_after(after) matches Some(next) ==> next.start == chunk_after(p)->0.start
                + written
            &&& written > 0 ==> (chunk_after(after) is None <==> after.offset == p.len)
            &&& written == 0 ==> chunk_after(after) is None
        }),
{
}

/// Whether the radio is on. Moments are counted from the start of the thread.
pub struct TxGate {
    pub active: bool,
    pub last_tx: Option<Span>,
}

/// Whether the radio may be switched off at the moment `now`: it is on, and nothing was sent for
/// a while.
pub open spec fn goes_idle(gate: TxGate, now: Span) -> bool {
    gate.active && match gate.last_tx {
        Some(last) => has_passed(last, now, Span { secs: 0, nanos: 200_000_000 }),
        None => true,
    }
}

impl TxGate {
    pub fn new() -> (r: TxGate)
        ensures
            r == (TxGate { active: false, last_tx: None }),
    {
        TxGate { active: false, last_tx: None }
    }

    /// The radio was switched on.
    pub fn activated(&mut self)
        ensures
            *final(self) == (TxGate { active: true, ..*old(self) }),
    {
        self.active = true;
    }

    /// A frame was sent by the moment `now`.
    pub fn frame_sent(&mut self, stats: &mut DebugStats, now: Span)
        ensures
            *final(self) == (TxGate { last_tx: Some(now), ..*old(self) }),
            *final(stats) == (DebugStats {
                tx_buffers: old(stats).tx_buffers.wrapping_add(1),
                ..*old(stats)
            }),
    {
        stats.tx_buffers = stats.tx_buffers.wrapping_add(1);
        self.last_tx = Some(now);
    }

    /// No frame has come by the moment `now`. Tells whether the radio is to be switched off, which
    /// it then counts as.
    pub fn idle(&mut self, now: Span) -> (switch_off: bool)
        ensures
            switch_off == goes_idle(*old(self), now),
            *final(self) == (if switch_off {
                TxGate { active: false, last_tx: None }
            } else {
                *old(self)
            }),
    {
        let switch_off = self.active && match self.last_tx {
            Some(last) => {
                let wait = Span::from_millis(IDLE_MILLIS);
                passed_since(last, now, wait)
            },
            None => true,
        };
        if switch_off {
            self.active = false;
            self.last_tx = None;
        }
        switch_off
    }
}

/// The radio is not switched off while frames follow each other closely, and at the first idle
/// moment after that it is.
pub proof fn stays_on_between_frames(gate: TxGate, last: Span, now: Span)
    requires
        gate == (TxGate { active: true, last_tx: Some(last) }),
    ensures
        now.total_nanos() < last.total_nanos() + IDLE_MILLIS * 1_000_000 ==> !goes_idle(gate, now),
        now.total_nanos() >= last.total_nanos() + IDLE_MILLIS * 1_000_000 ==> goes_idle(gate, now),
{
}

} // verus!
