//! Fuzzing strategies that modify, delay, replay or drop transmissions before they are relayed.
use std::collections::VecDeque;

use vstd::prelude::*;

use crate::arith::{
    count_of, difference_of, product_of, quotient_of, sum_of, Arithmetic, Single, ONE_BITS,
    TWO_BITS,
};
use crate::detector::{Frame, Transmission};
use crate::signal::IqSample;
use crate::span::{clock, clock_since, read_off_clock, shown_by_clock, Span, NANOS_PER_MILLI};
use crate::strategy_text::{describe, described, spans_normal};

verus! {

/// Multiplier of the pseudo-random number generator.
pub const RANDOM_MULTIPLIER: u64 = 6364136223846793005;

/// State that the generator starts from.
pub const RANDOM_SEED: u64 = 0x1234_5678;

/// The bits of a random number that make a random fraction, and the bit pattern of their largest
/// value as a single-precision number.
pub const FRACTION_MASK: u64 = 0xFF_FFFF;

pub const FRACTION_MAX_BITS: u32 = 0x4B7F_FFFF;

/// Result of fuzzer processing.
pub enum FuzzerAction {
    /// Pass the transmission through unchanged.
    Pass(Transmission),
    /// Pass a transmission with modified samples.
    Modified(Transmission),
    /// Drop the transmission entirely.
    Drop,
    /// The transmission is held back and will be returned later.
    Delayed,
}

/// What a [`FuzzerAction`] says.
#[verifier::ext_equal]
pub enum Outcome {
    Pass(Frame),
    Modified(Frame),
    Drop,
    Delayed,
}

impl View for FuzzerAction {
    type V = Outcome;

    open spec fn view(&self) -> Outcome {
        match self {
            FuzzerAction::Pass(tx) => Outcome::Pass(tx@),
            FuzzerAction::Modified(tx) => Outcome::Modified(tx@),
            FuzzerAction::Drop => Outcome::Drop,
            FuzzerAction::Delayed => Outcome::Delayed,
        }
    }
}

impl Clone for FuzzerAction {
    fn clone(&self) -> (r: FuzzerAction)
        ensures
            r@ == self@,
    {
        match self {
            FuzzerAction::Pass(tx) => FuzzerAction::Pass(tx.clone()),
            FuzzerAction::Modified(tx) => FuzzerAction::Modified(tx.clone()),
            FuzzerAction::Drop => FuzzerAction::Drop,
            FuzzerAction::Delayed => FuzzerAction::Delayed,
        }
    }
}

/// Fuzzer strategy types.
#[derive(Debug, PartialEq)]
pub enum FuzzerStrategy {
    /// Pass all transmissions unchanged.
    Passthrough,
    /// Drop a percentage of transmissions (0-100).
    DropPercent(u8),
    /// Delay each transmission by a fixed duration.
    FixedDelay(Span),
    /// Random delay between min and max duration.
    RandomDelay { min: Span, max: Span },
    /// Corrupt a percentage of samples in each transmission.
    CorruptSamples(u8),
    /// Replay previous transmissions instead of the current one.
    Replay { buffer_size: usize },
    /// Flip a bit in IQ samples, each with the given probability.
    BitFlip { probability: Single },
    /// Attenuate the signal by a factor (0.0 - 1.0).
    Attenuate(Single),
    /// Add noise to the signal.
    AddNoise { amplitude: Single },
    /// Truncate the transmission to a percentage of its length.
    Truncate(u8),
    /// Reverse the transmission samples.
    Reverse,
    /// Chain of multiple strategies.
    Chain(Vec<FuzzerStrategy>),
}

/// The same strategy, chain for chain.
pub open spec fn alike(a: FuzzerStrategy, b: FuzzerStrategy) -> bool
    decreases a,
{
    match (a, b) {
        (FuzzerStrategy::Chain(s), FuzzerStrategy::Chain(t)) => s@.len() == t@.len() && forall|
            i: int,
        |
            0 <= i < s@.len() ==> alike(#[trigger] s@[i], t@[i]),
        _ => a == b,
    }
}

impl Clone for FuzzerStrategy {
    fn clone(&self) -> (r: FuzzerStrategy)
        ensures
            alike(*self, r),
        decreases self,
    {
        match self {
            FuzzerStrategy::Passthrough => FuzzerStrategy::Passthrough,
            FuzzerStrategy::DropPercent(percent) => FuzzerStrategy::DropPercent(*percent),
            FuzzerStrategy::FixedDelay(duration) => FuzzerStrategy::FixedDelay(*duration),
            FuzzerStrategy::RandomDelay { min, max } => FuzzerStrategy::RandomDelay {
                min: *min,
                max: *max,
            },
            FuzzerStrategy::CorruptSamples(percent) => FuzzerStrategy::CorruptSamples(*percent),
            FuzzerStrategy::Replay { buffer_size } => FuzzerStrategy::Replay {
                buffer_size: *buffer_size,
            },
            FuzzerStrategy::BitFlip { probability } => FuzzerStrategy::BitFlip {
                probability: *probability,
            },
            FuzzerStrategy::Attenuate(factor) => FuzzerStrategy::Attenuate(*factor),
            FuzzerStrategy::AddNoise { amplitude } => FuzzerStrategy::AddNoise {
                amplitude: *amplitude,
            },
            FuzzerStrategy::Truncate(percent) => FuzzerStrategy::Truncate(*percent),
            FuzzerStrategy::Reverse => FuzzerStrategy::Reverse,
            FuzzerStrategy::Chain(strategies) => {
                let mut copies: Vec<FuzzerStrategy> = Vec::new();
                let mut i: usize = 0;
                while i < strategies.len()
                    invariant
                        i <= strategies@.len(),
                        copies@.len() == i,
                        *self == FuzzerStrategy::Chain(*strategies),
                        forall|j: int| 0 <= j < i ==> alike(#[trigger] strategies@[j], copies@[j]),
                    decreases strategies@.len() - i,
                {
                    assert(decreases_to!(*self => self->Chain_0));
                    assert(decreases_to!(*strategies => strategies@));
                    assert(decreases_to!(strategies@ => strategies@[i as int]));
                    let copy = strategies[i].clone();
                    copies.push(copy);
                    i += 1;
                }
                FuzzerStrategy::Chain(copies)
            },
        }
    }
}

/// Every random delay has its bounds in order, in whole milliseconds.
pub open spec fn delays_in_order(strategy: FuzzerStrategy) -> bool
    decreases strategy,
{
    match strategy {
        FuzzerStrategy::RandomDelay { min, max } => min.total_millis() <= max.total_millis(),
        FuzzerStrategy::Chain(strategies) => forall|i: int|
            0 <= i < strategies@.len() ==> delays_in_order(#[trigger] strategies@[i]),
        _ => true,
    }
}

/// The number of strategies that one transmission goes through at most.
pub open spec fn stages(strategy: FuzzerStrategy) -> nat
    decreases strategy,
{
    match strategy {
        FuzzerStrategy::Chain(strategies) => chain_stages(strategies@),
        _ => 1,
    }
}

pub open spec fn chain_stages(strategies: Seq<FuzzerStrategy>) -> nat
    decreases strategies,
{
    if strategies.len() == 0 {
        0
    } else {
        stages(strategies[0]) + chain_stages(strategies.drop_first())
    }
}

/// A transmission held back, and the moment from which it may go.
#[verifier::ext_equal]
pub struct Held {
    pub frame: Frame,
    pub release: nat,
}

/// What a fuzzer remembers.
#[verifier::ext_equal]
pub struct FuzzState {
    pub passed: nat,
    pub dropped: nat,
    pub delayed: Seq<Held>,
    pub replay: Seq<Frame>,
    pub random: u64,
}

/// The state of the generator after `state`; it is also the number drawn.
pub open spec fn next_state(state: u64) -> u64 {
    state.wrapping_mul(RANDOM_MULTIPLIER).wrapping_add(1)
}

/// `x` is the random fraction drawn with the generator at `state`.
pub open spec fn fraction_of<A: Arithmetic>(arith: &A, state: u64, x: Single) -> bool {
    exists|n: Single|
        count_of(arith, state & FRACTION_MASK, n) && #[trigger] quotient_of(
            arith,
            n,
            Single { bits: FRACTION_MAX_BITS },
            x,
        )
}

/// `x` is the random fraction stretched to -1 .. 1.
pub open spec fn signed_of<A: Arithmetic>(arith: &A, state: u64, x: Single) -> bool {
    exists|f: Single, d: Single|
        fraction_of(arith, state, f) && #[trigger] product_of(
            arith,
            f,
            Single { bits: TWO_BITS },
            d,
        ) && difference_of(arith, d, Single { bits: ONE_BITS }, x)
}

/// One sample, picked at random, is replaced by a random one.
pub open spec fn corrupted_once<A: Arithmetic>(
    arith: &A,
    random: u64,
    samples: Seq<IqSample>,
    random_after: u64,
    after: Seq<IqSample>,
) -> bool {
    let drawn = next_state(random);
    let idx = (drawn as usize) as int % samples.len() as int;
    let re_drawn = next_state(drawn);
    let im_drawn = next_state(re_drawn);
    &&& random_after == im_drawn
    &&& after.len() == samples.len()
    &&& after == samples.update(idx, after[idx])
    &&& signed_of(arith, re_drawn, after[idx].re)
    &&& signed_of(arith, im_drawn, after[idx].im)
}

/// `times` samples, one after the other, are replaced.
pub open spec fn corrupted<A: Arithmetic>(
    arith: &A,
    times: nat,
    random: u64,
    samples: Seq<IqSample>,
    random_after: u64,
    after: Seq<IqSample>,
) -> bool
    decreases times,
{
    if times == 0 {
        random_after == random && after == samples
    } else {
        exists|r: u64, s: Seq<IqSample>| #[trigger]
            corrupted_once(arith, r, s, random_after, after) && corrupted(
                arith,
                (times - 1) as nat,
                random,
                samples,
                r,
                s,
            )
    }
}

/// `x` with bit `bit` of both parts flipped.
pub open spec fn flipped(x: IqSample, bit: u32) -> IqSample {
    IqSample {
        re: Single { bits: x.re.bits ^ (1u32 << bit) },
        im: Single { bits: x.im.bits ^ (1u32 << bit) },
    }
}

/// One sample is flipped in a random bit if a random fraction is below the probability.
pub open spec fn flipped_once<A: Arithmetic>(
    arith: &A,
    probability: Single,
    random: u64,
    x: IqSample,
    random_after: u64,
    y: IqSample,
) -> bool {
    let drawn = next_state(random);
    exists|f: Single| #[trigger]
        fraction_of(arith, drawn, f) && if f.below(probability) {
            random_after == next_state(drawn) && y == flipped(
                x,
                (random_after % 32) as u32,
            )
        } else {
            random_after == drawn && y == x
        }
}

/// The same of each sample in turn.
pub open spec fn flipped_all<A: Arithmetic>(
    arith: &A,
    probability: Single,
    random: u64,
    samples: Seq<IqSample>,
    random_after: u64,
    after: Seq<IqSample>,
) -> bool
    decreases samples.len(),
{
    if samples.len() == 0 {
        random_after == random && after.len() == 0
    } else {
        after.len() == samples.len() && exists|r: u64| #[trigger]
            flipped_once(arith, probability, r, samples.last(), random_after, after.last())
                && flipped_all(
                arith,
                probability,
                random,
                samples.drop_last(),
                r,
                after.drop_last(),
            )
    }
}

/// `y` is `x` plus the signed random fraction at `state` times `amplitude`.
pub open spec fn noisy_value<A: Arithmetic>(
    arith: &A,
    amplitude: Single,
    state: u64,
    x: Single,
    y: Single,
) -> bool {
    exists|s: Single, n: Single|
        signed_of(arith, state, s) && #[trigger] product_of(arith, s, amplitude, n) && sum_of(
            arith,
            x,
            n,
            y,
        )
}

/// Noise is added to both parts of one sample.
pub open spec fn noisy_once<A: Arithmetic>(
    arith: &A,
    amplitude: Single,
    random: u64,
    x: IqSample,
    random_after: u64,
    y: IqSample,
) -> bool {
    let re_drawn = next_state(random);
    &&& random_after == next_state(re_drawn)
    &&& noisy_value(arith, amplitude, re_drawn, x.re, y.re)
    &&& noisy_value(arith, amplitude, random_after, x.im, y.im)
}

/// The same of each sample in turn.
pub open spec fn noisy_all<A: Arithmetic>(
    arith: &A,
    amplitude: Single,
    random: u64,
    samples: Seq<IqSample>,
    random_after: u64,
    after: Seq<IqSample>,
) -> bool
    decreases samples.len(),
{
    if samples.len() == 0 {
        random_after == random && after.len() == 0
    } else {
        after.len() == samples.len() && exists|r: u64| #[trigger]
            noisy_once(arith, amplitude, r, samples.last(), random_after, after.last())
                && noisy_all(
                arith,
                amplitude,
                random,
                samples.drop_last(),
                r,
                after.drop_last(),
            )
    }
}

/// Every part of every sample is multiplied by `factor`.
pub open spec fn attenuated<A: Arithmetic>(
    arith: &A,
    factor: Single,
    samples: Seq<IqSample>,
    after: Seq<IqSample>,
) -> bool {
    &&& after.len() == samples.len()
    &&& forall|i: int|
        0 <= i < samples.len() ==> product_of(arith, samples[i].re, factor, (
        #[trigger] after[i]).re) && product_of(arith, samples[i].im, factor, after[i].im)
}

/// How many samples of `len` are corrupted or kept at `percent`.
pub open spec fn share(len: nat, percent: u8) -> nat {
    (len * percent as nat) / 100
}

/// How many samples of `len` are left by truncation: the share, at least one, at most all.
pub open spec fn truncated_len(len: nat, percent: u8) -> nat {
    let wanted = if share(len, percent) < 1 {
        1
    } else {
        share(len, percent)
    };
    if wanted < len {
        wanted
    } else {
        len
    }
}

/// The strategies that change samples and nothing else.
pub open spec fn reworks(strategy: FuzzerStrategy) -> bool {
    match strategy {
        FuzzerStrategy::CorruptSamples(_)
        | FuzzerStrategy::BitFlip { .. }
        | FuzzerStrategy::Attenuate(_)
        | FuzzerStrategy::AddNoise { .. }
        | FuzzerStrategy::Truncate(_)
        | FuzzerStrategy::Reverse => true,
        _ => false,
    }
}

/// What the strategies that rework samples do to them and to the generator.
pub open spec fn reworked<A: Arithmetic>(
    arith: &A,
    strategy: FuzzerStrategy,
    random: u64,
    samples: Seq<IqSample>,
    random_after: u64,
    after: Seq<IqSample>,
) -> bool {
    match strategy {
        FuzzerStrategy::CorruptSamples(percent) => corrupted(
            arith,
            share(samples.len(), percent),
            random,
            samples,
            random_after,
            after,
        ),
        FuzzerStrategy::BitFlip { probability } => flipped_all(
            arith,
            probability,
            random,
            samples,
            random_after,
            after,
        ),
        FuzzerStrategy::Attenuate(factor) => random_after == random && attenuated(
            arith,
            factor,
            samples,
            after,
        ),
        FuzzerStrategy::AddNoise { amplitude } => noisy_all(
            arith,
            amplitude,
            random,
            samples,
            random_after,
            after,
        ),
        FuzzerStrategy::Truncate(percent) => random_after == random && after == samples.subrange(
            0,
            truncated_len(samples.len(), percent) as int,
        ),
        FuzzerStrategy::Reverse => random_after == random && after == samples.reverse(),
        _ => false,
    }
}

/// The delay drawn with the generator at `state`, in milliseconds.
pub open spec fn random_delay_ms(min: Span, max: Span, state: u64) -> u64 {
    let range = max.total_millis() - min.total_millis();
    let width = if range < 1 {
        1
    } else {
        range
    };
    (min.total_millis() + state as int % width) as u64
}

/// The newest `size` of `frames`.
pub open spec fn newest(frames: Seq<Frame>, size: usize) -> Seq<Frame> {
    if frames.len() > size {
        frames.skip(frames.len() - size)
    } else {
        frames
    }
}

/// A state and an outcome between two strategies of a chain.
pub open spec fn between(state: FuzzState, outcome: Outcome) -> bool {
    true
}

/// What `strategy`, no chain, does with `frame` at the moment `now`.
pub open spec fn fuzzed_alone<A: Arithmetic>(
    arith: &A,
    strategy: FuzzerStrategy,
    now: nat,
    pre: FuzzState,
    frame: Frame,
    post: FuzzState,
    out: Outcome,
) -> bool {
    let drawn = next_state(pre.random);
    match strategy {
        FuzzerStrategy::Passthrough => post == (FuzzState { passed: pre.passed + 1, ..pre })
            && out == Outcome::Pass(frame),
        FuzzerStrategy::DropPercent(percent) => if drawn % 100 < percent {
            post == (FuzzState { dropped: pre.dropped + 1, random: drawn, ..pre }) && out
                == Outcome::Drop
        } else {
            post == (FuzzState { passed: pre.passed + 1, random: drawn, ..pre }) && out
                == Outcome::Pass(frame)
        },
        FuzzerStrategy::FixedDelay(duration) => post == (FuzzState {
            delayed: pre.delayed.push(Held { frame, release: now + duration.total_nanos() }),
            ..pre
        }) && out == Outcome::Delayed,
        FuzzerStrategy::RandomDelay { min, max } => post == (FuzzState {
            delayed: pre.delayed.push(
                Held {
                    frame,
                    release: now + random_delay_ms(min, max, drawn) as nat
                        * NANOS_PER_MILLI as nat,
                },
            ),
            random: drawn,
            ..pre
        }) && out == Outcome::Delayed,
        FuzzerStrategy::Replay { buffer_size } => {
            let kept = newest(pre.replay.push(frame), buffer_size);
            if kept.len() > 1 {
                post == (FuzzState {
                    passed: pre.passed + 1,
                    replay: kept,
                    random: drawn,
                    ..pre
                }) && out == Outcome::Modified(
                    kept[(drawn as usize) as int % (kept.len() - 1)],
                )
            } else {
                post == (FuzzState { passed: pre.passed + 1, replay: kept, ..pre }) && out
                    == Outcome::Pass(frame)
            }
        },
        _ => {
            &&& out matches Outcome::Modified(changed)
            &&& changed == (Frame { samples: changed.samples, ..frame })
            &&& reworked(
                arith,
                strategy,
                pre.random,
                frame.samples,
                post.random,
                changed.samples,
            )
            &&& post == (FuzzState { passed: pre.passed + 1, random: post.random, ..pre })
        },
    }
}

/// What `strategy` does with `frame` at the moment `now`.
#[verifier::opaque]
pub open spec fn fuzzed<A: Arithmetic>(
    arith: &A,
    strategy: FuzzerStrategy,
    now: nat,
    pre: FuzzState,
    frame: Frame,
    post: FuzzState,
    out: Outcome,
) -> bool
    decreases strategy,
{
    match strategy {
        FuzzerStrategy::Chain(strategies) => chained(
            arith,
            strategies@,
            now,
            pre,
            frame,
            post,
            out,
        ),
        _ => fuzzed_alone(arith, strategy, now, pre, frame, post, out),
    }
}

/// What `strategies` do one after the other: each takes what the one before it passed on, and the
/// first that drops or delays ends the chain.
#[verifier::opaque]
pub open spec fn chained<A: Arithmetic>(
    arith: &A,
    strategies: Seq<FuzzerStrategy>,
    now: nat,
    pre: FuzzState,
    frame: Frame,
    post: FuzzState,
    out: Outcome,
) -> bool
    decreases strategies,
{
    if strategies.len() == 0 {
        post == pre && out == Outcome::Modified(frame)
    } else {
        exists|mid: FuzzState, o: Outcome| #[trigger]
            between(mid, o) && fuzzed(arith, strategies[0], now, pre, frame, mid, o) && match o {
                Outcome::Pass(f) | Outcome::Modified(f) => chained(
                    arith,
                    strategies.drop_first(),
                    now,
                    mid,
                    f,
                    post,
                    out,
                ),
                Outcome::Drop | Outcome::Delayed => post == mid && out == o,
            }
    }
}

/// A chain does what its strategies do.
pub proof fn chain_is_strategy<A: Arithmetic>(
    arith: &A,
    strategy: FuzzerStrategy,
    now: nat,
    pre: FuzzState,
    frame: Frame,
    post: FuzzState,
    out: Outcome,
)
    requires
        strategy is Chain,
    ensures
        fuzzed(arith, strategy, now, pre, frame, post, out) == chained(
            arith,
            strategy->Chain_0@,
            now,
            pre,
            frame,
            post,
            out,
        ),
{
    reveal_with_fuel(fuzzed, 1);
    reveal_with_fuel(chained, 1);
}

/// A strategy that is no chain does what it does alone.
pub proof fn alone_is_strategy<A: Arithmetic>(
    arith: &A,
    strategy: FuzzerStrategy,
    now: nat,
    pre: FuzzState,
    frame: Frame,
    post: FuzzState,
    out: Outcome,
)
    requires
        strategy !is Chain,
    ensures
        fuzzed(arith, strategy, now, pre, frame, post, out) == fuzzed_alone(
            arith,
            strategy,
            now,
            pre,
            frame,
            post,
            out,
        ),
{
    reveal_with_fuel(fuzzed, 1);
}

/// A chain goes on with what its first strategy passed on, or ends with it.
pub proof fn chain_step<A: Arithmetic>(
    arith: &A,
    strategies: Seq<FuzzerStrategy>,
    now: nat,
    pre: FuzzState,
    frame: Frame,
    mid: FuzzState,
    said: Outcome,
    post: FuzzState,
    out: Outcome,
)
    requires
        strategies.len() > 0,
        fuzzed(arith, strategies[0], now, pre, frame, mid, said),
        match said {
            Outcome::Pass(f) | Outcome::Modified(f) => chained(
                arith,
                strategies.drop_first(),
                now,
                mid,
                f,
                post,
                out,
            ),
            Outcome::Drop | Outcome::Delayed => post == mid && out == said,
        },
    ensures
        chained(arith, strategies, now, pre, frame, post, out),
{
    reveal_with_fuel(chained, 1);
    reveal_with_fuel(fuzzed, 1);
    assert(between(mid, said));
}

/// An empty chain passes what it is given.
pub proof fn chain_end<A: Arithmetic>(
    arith: &A,
    strategies: Seq<FuzzerStrategy>,
    now: nat,
    pre: FuzzState,
    frame: Frame,
)
    requires
        strategies.len() == 0,
    ensures
        chained(arith, strategies, now, pre, frame, pre, Outcome::Modified(frame)),
{
    reveal_with_fuel(chained, 1);
}

/// The transmissions held whose time has come, in their order.
pub open spec fn due(queue: Seq<Held>, now: nat) -> Seq<Held> {
    queue.filter(|h: Held| h.release <= now)
}

/// The transmissions held that have to wait, in their order.
pub open spec fn waiting(queue: Seq<Held>, now: nat) -> Seq<Held> {
    queue.filter(|h: Held| h.release > now)
}

/// One transmission more is due or has to wait.
pub proof fn due_or_waiting(queue: Seq<Held>, held: Held, now: nat)
    ensures
        due(queue.push(held), now) == (if held.release <= now {
            due(queue, now).push(held)
        } else {
            due(queue, now)
        }),
        waiting(queue.push(held), now) == (if held.release > now {
            waiting(queue, now).push(held)
        } else {
            waiting(queue, now)
        }),
{
    reveal(Seq::filter);
    assert(queue.push(held).drop_last() =~= queue);
}

/// Of none held, none is due and none has to wait.
pub proof fn none_due_or_waiting(now: nat)
    ensures
        due(Seq::empty(), now) == Seq::<Held>::empty(),
        waiting(Seq::empty(), now) == Seq::<Held>::empty(),
{
    reveal(Seq::filter);
}

/// Each transmission held is due or has to wait.
pub proof fn due_and_waiting(queue: Seq<Held>, now: nat)
    ensures
        due(queue, now).len() + waiting(queue, now).len() == queue.len(),
    decreases queue.len(),
{
    if queue.len() == 0 {
        assert(queue =~= Seq::empty());
        none_due_or_waiting(now);
    } else {
        due_and_waiting(queue.drop_last(), now);
        assert(queue.drop_last().push(queue.last()) =~= queue);
        due_or_waiting(queue.drop_last(), queue.last(), now);
    }
}

pub open spec fn held_frames(queue: Seq<Held>) -> Seq<Frame> {
    Seq::new(queue.len(), |i: int| queue[i].frame)
}

pub open spec fn frames_of(list: Seq<Transmission>) -> Seq<Frame> {
    Seq::new(list.len(), |i: int| list[i]@)
}

/// Delayed transmission waiting to be released.
struct DelayedTransmission {
    transmission: Transmission,
    release_time: u128,
}

impl DelayedTransmission {
    spec fn held(&self) -> Held {
        Held { frame: self.transmission@, release: self.release_time as nat }
    }
}

/// The part of a fuzzer that changes as transmissions go through it.
struct FuzzerCore {
    drop_counter: u64,
    pass_counter: u64,
    delayed_queue: VecDeque<DelayedTransmission>,
    replay_buffer: VecDeque<Transmission>,
    rng_state: u64,
}

impl FuzzerCore {
    spec fn abstraction(&self) -> FuzzState {
        FuzzState {
            passed: self.pass_counter as nat,
            dropped: self.drop_counter as nat,
            delayed: Seq::new(self.delayed_queue@.len(), |i: int| self.delayed_queue@[i].held()),
            replay: Seq::new(self.replay_buffer@.len(), |i: int| self.replay_buffer@[i]@),
            random: self.rng_state,
        }
    }

    /// Simple pseudo-random number generator.
    fn next_random(&mut self) -> (r: u64)
        ensures
            r == next_state(old(self).rng_state),
            *final(self) == (FuzzerCore { rng_state: r, ..*old(self) }),
    {
        self.rng_state = self.rng_state.wrapping_mul(RANDOM_MULTIPLIER).wrapping_add(1);
        self.rng_state
    }

    /// Random fraction between 0 and 1.
    fn random_float<A: Arithmetic>(&mut self, arith: &A) -> (x: Single)
        ensures
            final(self).rng_state == next_state(old(self).rng_state),
            *final(self) == (FuzzerCore { rng_state: final(self).rng_state, ..*old(self) }),
            fraction_of(arith, final(self).rng_state, x),
    {
        let drawn = self.next_random();
        let n = arith.count(drawn & FRACTION_MASK);
        arith.over(n, Single { bits: FRACTION_MAX_BITS })
    }

    /// Random number between -1 and 1.
    fn random_signed<A: Arithmetic>(&mut self, arith: &A) -> (x: Single)
        ensures
            final(self).rng_state == next_state(old(self).rng_state),
            *final(self) == (FuzzerCore { rng_state: final(self).rng_state, ..*old(self) }),
            signed_of(arith, final(self).rng_state, x),
    {
        let f = self.random_float(arith);
        let d = arith.times(f, Single { bits: TWO_BITS });
        arith.minus(d, Single { bits: ONE_BITS })
    }

    fn corrupt_samples<A: Arithmetic>(
        &mut self,
        arith: &A,
        percent: u8,
        samples: &mut Vec<IqSample>,
    )
        ensures
            *final(self) == (FuzzerCore { rng_state: final(self).rng_state, ..*old(self) }),
            corrupted(
                arith,
                share(old(samples)@.len(), percent),
                old(self).rng_state,
                old(samples)@,
                final(self).rng_state,
                final(samples)@,
            ),
            final(samples)@.len() == old(samples)@.len(),
    {
        let len = samples.len();
        assert(len * percent <= usize::MAX * u8::MAX) by (nonlinear_arith)
            requires
                len <= usize::MAX,
                percent <= u8::MAX,
        ;
        assert(len == 0 ==> len * percent == 0) by (nonlinear_arith);
        let num_corrupt: u128 = (len as u128 * percent as u128) / 100;
        let mut k: u128 = 0;
        while k < num_corrupt
            invariant
                k <= num_corrupt,
                num_corrupt > 0 ==> len > 0,
                len == samples@.len(),
                samples@.len() == old(samples)@.len(),
                *self == (FuzzerCore { rng_state: self.rng_state, ..*old(self) }),
                corrupted(
                    arith,
                    k as nat,
                    old(self).rng_state,
                    old(samples)@,
                    self.rng_state,
                    samples@,
                ),
            decreases num_corrupt - k,
        {
            let ghost random = self.rng_state;
            let ghost before = samples@;
            let drawn = self.next_random();
            let idx = (#[verifier::truncate]
            (drawn as usize)) % len;
            let re = self.random_signed(arith);
            let im = self.random_signed(arith);
            samples[idx] = IqSample { re, im };
            assert(corrupted_once(arith, random, before, self.rng_state, samples@));
            k += 1;
        }
    }

    fn flip_bits<A: Arithmetic>(
        &mut self,
        arith: &A,
        probability: Single,
        samples: &mut Vec<IqSample>,
    )
        ensures
            *final(self) == (FuzzerCore { rng_state: final(self).rng_state, ..*old(self) }),
            flipped_all(
                arith,
                probability,
                old(self).rng_state,
                old(samples)@,
                final(self).rng_state,
                final(samples)@,
            ),
    {
        let mut i: usize = 0;
        while i < samples.len()
            invariant
                i <= samples@.len(),
                samples@.len() == old(samples)@.len(),
                *self == (FuzzerCore { rng_state: self.rng_state, ..*old(self) }),
                forall|j: int| i <= j < samples@.len() ==> samples@[j] == old(samples)@[j],
                flipped_all(
                    arith,
                    probability,
                    old(self).rng_state,
                    old(samples)@.take(i as int),
                    self.rng_state,
                    samples@.take(i as int),
                ),
            decreases samples@.len() - i,
        {
            let ghost random = self.rng_state;
            let ghost before = samples@;
            let sample = samples[i];
            let f = self.random_float(arith);
            if f.is_below(probability) {
                let drawn = self.next_random();
                let bit_pos: u32 = (drawn % 32) as u32;
                let re_bits = sample.re.bits ^ (1u32 << bit_pos);
                let im_bits = sample.im.bits ^ (1u32 << bit_pos);
                samples[i] = IqSample {
                    re: Single { bits: re_bits },
                    im: Single { bits: im_bits },
                };
            }
            proof {
                assert(flipped_once(
                    arith,
                    probability,
                    random,
                    sample,
                    self.rng_state,
                    samples@[i as int],
                ));
                extend_prefix(old(samples)@, i as int);
                extend_prefix(samples@, i as int);
                assert(samples@.take(i as int) =~= before.take(i as int));
            }
            i += 1;
        }
        assert(samples@.take(i as int) =~= samples@);
        assert(old(samples)@.take(i as int) =~= old(samples)@);
    }

    fn add_noise<A: Arithmetic>(
        &mut self,
        arith: &A,
        amplitude: Single,
        samples: &mut Vec<IqSample>,
    )
        ensures
            *final(self) == (FuzzerCore { rng_state: final(self).rng_state, ..*old(self) }),
            noisy_all(
                arith,
                amplitude,
                old(self).rng_state,
                old(samples)@,
                final(self).rng_state,
                final(samples)@,
            ),
    {
        let mut i: usize = 0;
        while i < samples.len()
            invariant
                i <= samples@.len(),
                samples@.len() == old(samples)@.len(),
                *self == (FuzzerCore { rng_state: self.rng_state, ..*old(self) }),
                forall|j: int| i <= j < samples@.len() ==> samples@[j] == old(samples)@[j],
                noisy_all(
                    arith,
                    amplitude,
                    old(self).rng_state,
                    old(samples)@.take(i as int),
                    self.rng_state,
                    samples@.take(i as int),
                ),
            decreases samples@.len() - i,
        {
            let ghost random = self.rng_state;
            let ghost before = samples@;
            let sample = samples[i];
            let re_noise = self.random_signed(arith);
            let re_scaled = arith.times(re_noise, amplitude);
            let re = arith.plus(sample.re, re_scaled);
            let im_noise = self.random_signed(arith);
            let im_scaled = arith.times(im_noise, amplitude);
            let im = arith.plus(sample.im, im_scaled);
            samples[i] = IqSample { re, im };
            proof {
                assert(noisy_once(
                    arith,
                    amplitude,
                    random,
                    sample,
                    self.rng_state,
                    samples@[i as int],
                ));
                extend_prefix(old(samples)@, i as int);
                extend_prefix(samples@, i as int);
                assert(samples@.take(i as int) =~= before.take(i as int));
            }
            i += 1;
        }
        assert(samples@.take(i as int) =~= samples@);
        assert(old(samples)@.take(i as int) =~= old(samples)@);
    }

    /// Store `transmission` and return a previous one if there is any.
    fn replay_previous(&mut self, buffer_size: usize, transmission: Transmission) -> (action:
        FuzzerAction)
        requires
            old(self).pass_counter < u64::MAX,
        ensures
            final(self).pass_counter == old(self).pass_counter + 1,
            ({
                let pre = old(self).abstraction();
                let kept = newest(pre.replay.push(transmission@), buffer_size);
                let drawn = next_state(pre.random);
                if kept.len() > 1 {
                    final(self).abstraction() == (FuzzState {
                        passed: pre.passed + 1,
                        replay: kept,
                        random: drawn,
                        ..pre
                    }) && action@ == Outcome::Modified(
                        kept[(drawn as usize) as int % (kept.len() - 1)],
                    )
                } else {
                    final(self).abstraction() == (FuzzState {
                        passed: pre.passed + 1,
                        replay: kept,
                        ..pre
                    }) && action@ == Outcome::Pass(transmission@)
                }
            }),
    {
        let ghost pre = self.abstraction();
        let ghost all = pre.replay.push(transmission@);
        self.replay_buffer.push_back(transmission.clone());
        assert(self.abstraction().replay =~= all);
        assert(all.skip(0) =~= all);
        while self.replay_buffer.len() > buffer_size
            invariant
                self.replay_buffer@.len() <= all.len(),
                self.replay_buffer@.len() < all.len() ==> self.replay_buffer@.len()
                    >= buffer_size,
                self.abstraction().replay =~= all.skip(all.len() - self.replay_buffer@.len()),
                *self == (FuzzerCore { replay_buffer: self.replay_buffer, ..*old(self) }),
            decreases self.replay_buffer@.len(),
        {
            let ghost before = self.abstraction().replay;
            let _ = self.replay_buffer.pop_front();
            assert(self.abstraction().replay =~= before.skip(1));
            assert(before.skip(1) =~= all.skip(all.len() - self.replay_buffer@.len()));
        }
        let ghost kept = newest(all, buffer_size);
        assert(self.abstraction().replay =~= kept);
        self.pass_counter += 1;
        let len = self.replay_buffer.len();
        if len > 1 {
            let drawn = self.next_random();
            let idx = (#[verifier::truncate]
            (drawn as usize)) % (len - 1);
            let replayed = self.replay_buffer[idx].clone();
            assert(self.abstraction().replay =~= kept);
            assert(self.abstraction().delayed =~= pre.delayed);
            assert(replayed@ == kept[idx as int]);
            FuzzerAction::Modified(replayed)
        } else {
            assert(self.abstraction().delayed =~= pre.delayed);
            FuzzerAction::Pass(transmission)
        }
    }

    /// Hold `transmission` back until `release_time`.
    fn hold(&mut self, transmission: Transmission, release_time: u128)
        ensures
            final(self).pass_counter == old(self).pass_counter,
            final(self).drop_counter == old(self).drop_counter,
            final(self).abstraction() == (FuzzState {
                delayed: old(self).abstraction().delayed.push(
                    Held { frame: transmission@, release: release_time as nat },
                ),
                ..old(self).abstraction()
            }),
    {
        let ghost pre = self.abstraction();
        let ghost frame = transmission@;
        self.delayed_queue.push_back(DelayedTransmission { transmission, release_time });
        assert(self.abstraction().delayed =~= pre.delayed.push(
            Held { frame, release: release_time as nat },
        ));
        assert(self.abstraction().replay =~= pre.replay);
    }

    /// Rework `samples` by a strategy that changes samples and nothing else.
    fn rework<A: Arithmetic>(
        &mut self,
        arith: &A,
        strategy: &FuzzerStrategy,
        samples: &mut Vec<IqSample>,
    )
        requires
            reworks(*strategy),
        ensures
            *final(self) == (FuzzerCore { rng_state: final(self).rng_state, ..*old(self) }),
            reworked(
                arith,
                *strategy,
                old(self).rng_state,
                old(samples)@,
                final(self).rng_state,
                final(samples)@,
            ),
    {
        match strategy {
            FuzzerStrategy::CorruptSamples(percent) => self.corrupt_samples(
                arith,
                *percent,
                samples,
            ),
            FuzzerStrategy::BitFlip { probability } => self.flip_bits(
                arith,
                *probability,
                samples,
            ),
            FuzzerStrategy::Attenuate(factor) => attenuate(arith, *factor, samples),
            FuzzerStrategy::AddNoise { amplitude } => self.add_noise(arith, *amplitude, samples),
            FuzzerStrategy::Truncate(percent) => truncate_to(*percent, samples),
            FuzzerStrategy::Reverse => reverse_samples(samples),
            _ => {},
        }
    }

    /// Take `transmission` through `strategy`, no chain, at the moment `now`.
    fn process_alone<A: Arithmetic>(
        &mut self,
        arith: &A,
        strategy: &FuzzerStrategy,
        now: Span,
        transmission: Transmission,
    ) -> (action: FuzzerAction)
        requires
            strategy !is Chain,
            delays_in_order(*strategy),
            old(self).pass_counter < u64::MAX,
            old(self).drop_counter < u64::MAX,
        ensures
            fuzzed_alone(
                arith,
                *strategy,
                now.total_nanos(),
                old(self).abstraction(),
                transmission@,
                final(self).abstraction(),
                action@,
            ),
            final(self).pass_counter <= old(self).pass_counter + 1,
            action !is Drop ==> final(self).drop_counter == old(self).drop_counter,
    {
        match strategy {
            FuzzerStrategy::Passthrough => {
                self.pass_counter += 1;
                proof {
                    Self::only_counts(*old(self), *self);
                }
                FuzzerAction::Pass(transmission)
            },
            FuzzerStrategy::DropPercent(percent) => {
                let roll: u8 = (self.next_random() % 100) as u8;
                if roll < *percent {
                    self.drop_counter += 1;
                    proof {
                        Self::only_counts(*old(self), *self);
                    }
                    FuzzerAction::Drop
                } else {
                    self.pass_counter += 1;
                    proof {
                        Self::only_counts(*old(self), *self);
                    }
                    FuzzerAction::Pass(transmission)
                }
            },
            FuzzerStrategy::FixedDelay(duration) => {
                let release_time = now.as_nanos() + duration.as_nanos();
                self.hold(transmission, release_time);
                FuzzerAction::Delayed
            },
            FuzzerStrategy::RandomDelay { min, max } => {
                let drawn = self.next_random();
                proof {
                    Self::only_counts(*old(self), *self);
                }
                let delay = random_delay(*min, *max, drawn);
                let release_time = now.as_nanos() + delay.as_nanos();
                self.hold(transmission, release_time);
                FuzzerAction::Delayed
            },
            FuzzerStrategy::Replay { buffer_size } => self.replay_previous(
                *buffer_size,
                transmission,
            ),
            _ => {
                let mut modified = transmission;
                self.rework(arith, strategy, &mut modified.samples);
                self.pass_counter += 1;
                proof {
                    Self::only_counts(*old(self), *self);
                }
                FuzzerAction::Modified(modified)
            },
        }
    }

    /// Take `transmission` through `strategy` at the moment `now`.
    fn process_with_strategy<A: Arithmetic>(
        &mut self,
        arith: &A,
        strategy: &FuzzerStrategy,
        now: Span,
        transmission: Transmission,
    ) -> (action: FuzzerAction)
        requires
            delays_in_order(*strategy),
            old(self).pass_counter + stages(*strategy) <= u64::MAX,
            old(self).drop_counter < u64::MAX,
        ensures
            fuzzed(
                arith,
                *strategy,
                now.total_nanos(),
                old(self).abstraction(),
                transmission@,
                final(self).abstraction(),
                action@,
            ),
            final(self).pass_counter <= old(self).pass_counter + stages(*strategy),
            action !is Drop ==> final(self).drop_counter == old(self).drop_counter,
        decreases strategy,
    {
        match strategy {
            FuzzerStrategy::Chain(strategies) => {
                assert(decreases_to!(*strategy => strategy->Chain_0));
                let ghost frame = transmission@;
                let action = self.process_chain(arith, strategies, now, transmission);
                proof {
                    chain_is_strategy(
                        arith,
                        *strategy,
                        now.total_nanos(),
                        old(self).abstraction(),
                        frame,
                        self.abstraction(),
                        action@,
                    );
                }
                action
            },
            _ => {
                let ghost frame = transmission@;
                let action = self.process_alone(arith, strategy, now, transmission);
                proof {
                    alone_is_strategy(
                        arith,
                        *strategy,
                        now.total_nanos(),
                        old(self).abstraction(),
                        frame,
                        self.abstraction(),
                        action@,
                    );
                }
                action
            },
        }
    }

    /// Take `transmission` through `strategies` one after the other.
    fn process_chain<A: Arithmetic>(
        &mut self,
        arith: &A,
        strategies: &Vec<FuzzerStrategy>,
        now: Span,
        transmission: Transmission,
    ) -> (action: FuzzerAction)
        requires
            forall|i: int|
                0 <= i < strategies@.len() ==> delays_in_order(#[trigger] strategies@[i]),
            old(self).pass_counter + chain_stages(strategies@) <= u64::MAX,
            old(self).drop_counter < u64::MAX,
        ensures
            chained(
                arith,
                strategies@,
                now.total_nanos(),
                old(self).abstraction(),
                transmission@,
                final(self).abstraction(),
                action@,
            ),
            final(self).pass_counter <= old(self).pass_counter + chain_stages(strategies@),
            action !is Drop ==> final(self).drop_counter == old(self).drop_counter,
        decreases strategies,
    {
        let ghost whole = strategies@;
        let ghost t = now.total_nanos();
        let ghost frame = transmission@;
        let ghost start = self.abstraction();
        let mut current = transmission;
        let mut i: usize = 0;
        assert(whole.skip(0) =~= whole);
        while i < strategies.len()
            invariant
                i <= strategies@.len(),
                whole == strategies@,
                forall|j: int|
                    0 <= j < strategies@.len() ==> delays_in_order(#[trigger] strategies@[j]),
                t == now.total_nanos(),
                frame == transmission@,
                start == old(self).abstraction(),
                self.pass_counter + chain_stages(whole.skip(i as int)) <= old(self).pass_counter
                    + chain_stages(whole),
                old(self).pass_counter + chain_stages(whole) <= u64::MAX,
                self.drop_counter == old(self).drop_counter,
                old(self).drop_counter < u64::MAX,
                forall|post: FuzzState, out: Outcome|
                    chained(
                        arith,
                        whole.skip(i as int),
                        t,
                        self.abstraction(),
                        current@,
                        post,
                        out,
                    ) ==> #[trigger] chained(arith, whole, t, start, frame, post, out),
            decreases strategies@.len() - i,
        {
            let ghost rest = whole.skip(i as int);
            let ghost mid = self.abstraction();
            let ghost here = current@;
            proof {
                assert(decreases_to!(*strategies => strategies@));
                assert(decreases_to!(strategies@ => strategies@[i as int]));
                assert(rest[0] == strategies@[i as int]);
                assert(rest.drop_first() =~= whole.skip(i + 1));
            }
            let action = self.process_with_strategy(arith, &strategies[i], now, current);
            let ghost after = self.abstraction();
            let ghost said = action@;
            match action {
                FuzzerAction::Pass(tx) | FuzzerAction::Modified(tx) => {
                    current = tx;
                },
                FuzzerAction::Drop => {
                    proof {
                        chain_step(arith, rest, t, mid, here, after, said, after, said);
                    }
                    return FuzzerAction::Drop;
                },
                FuzzerAction::Delayed => {
                    proof {
                        chain_step(arith, rest, t, mid, here, after, said, after, said);
                    }
                    return FuzzerAction::Delayed;
                },
            }
            assert forall|post: FuzzState, out: Outcome|
                chained(arith, whole.skip(i + 1), t, after, current@, post, out) implies
            #[trigger] chained(arith, whole, t, start, frame, post, out) by {
                chain_step(arith, rest, t, mid, here, after, said, post, out);
            }
            i += 1;
        }
        proof {
            chain_end(arith, whole.skip(i as int), t, self.abstraction(), current@);
        }
        FuzzerAction::Modified(current)
    }

    /// Release the transmissions whose time has come.
    fn release_ready(&mut self, now: Span) -> (ready: Vec<Transmission>)
        requires
            old(self).pass_counter + old(self).delayed_queue@.len() <= u64::MAX,
        ensures
            released(
                old(self).abstraction(),
                now.total_nanos(),
                final(self).abstraction(),
                frames_of(ready@),
            ),
    {
        let moment = now.as_nanos();
        let ghost t = now.total_nanos();
        let ghost pre = self.abstraction();
        let ghost mut k: int = 0;
        let mut ready: Vec<Transmission> = Vec::new();
        let mut queue: VecDeque<DelayedTransmission> = VecDeque::new();
        std::mem::swap(&mut queue, &mut self.delayed_queue);
        proof {
            none_due_or_waiting(t);
            assert(pre.delayed.take(0) =~= Seq::empty());
            assert(self.abstraction().delayed =~= Seq::empty());
            assert(self.abstraction().replay =~= pre.replay);
            assert(frames_of(ready@) =~= held_frames(Seq::empty()));
        }
        while queue.len() > 0
            invariant
                0 <= k <= pre.delayed.len(),
                moment == t,
                pre.passed + pre.delayed.len() <= u64::MAX,
                queue@.len() == pre.delayed.len() - k,
                forall|i: int|
                    0 <= i < queue@.len() ==> (#[trigger] queue@[i]).held() == pre.delayed[k + i],
                self.abstraction() == (FuzzState {
                    passed: pre.passed + due(pre.delayed.take(k), t).len(),
                    delayed: waiting(pre.delayed.take(k), t),
                    ..pre
                }),
                frames_of(ready@) == held_frames(due(pre.delayed.take(k), t)),
            decreases queue@.len(),
        {
            let ghost before = self.abstraction();
            let ghost rest = queue@;
            assert(rest[0].held() == pre.delayed[k]);
            if let Some(delayed) = queue.pop_front() {
                let ghost held = delayed.held();
                let ghost shown = ready@;
                proof {
                    due_and_waiting(pre.delayed.take(k), t);
                    due_or_waiting(pre.delayed.take(k), held, t);
                    assert(pre.delayed.take(k + 1) =~= pre.delayed.take(k).push(held));
                    assert forall|i: int| 0 <= i < queue@.len() implies (
                    #[trigger] queue@[i]).held() == pre.delayed[k + 1 + i] by {
                        assert(queue@[i] == rest[i + 1]);
                    }
                }
                if delayed.release_time <= moment {
                    self.pass_counter += 1;
                    ready.push(delayed.transmission);
                    assert(self.abstraction().delayed =~= before.delayed);
                    assert(frames_of(ready@) =~= frames_of(shown).push(held.frame));
                    assert(held_frames(due(pre.delayed.take(k), t).push(held)) =~= held_frames(
                        due(pre.delayed.take(k), t),
                    ).push(held.frame));
                } else {
                    self.delayed_queue.push_back(delayed);
                    assert(self.abstraction().delayed =~= before.delayed.push(held));
                }
                assert(self.abstraction().replay =~= pre.replay);
                proof {
                    k = k + 1;
                }
            }
        }
        assert(pre.delayed.take(k) =~= pre.delayed);
        ready
    }

    /// The generator moved and one more transmission passed; the rest is as it was.
    proof fn only_counts(before: FuzzerCore, after: FuzzerCore)
        requires
            after == (FuzzerCore {
                rng_state: after.rng_state,
                pass_counter: after.pass_counter,
                drop_counter: after.drop_counter,
                ..before
            }),
        ensures
            after.abstraction() == (FuzzState {
                passed: after.pass_counter as nat,
                dropped: after.drop_counter as nat,
                random: after.rng_state,
                ..before.abstraction()
            }),
    {
        assert(after.abstraction().delayed =~= before.abstraction().delayed);
        assert(after.abstraction().replay =~= before.abstraction().replay);
    }
}

/// The delay drawn with `drawn`.
fn random_delay(min: Span, max: Span, drawn: u64) -> (delay: Span)
    requires
        min.total_millis() <= max.total_millis(),
    ensures
        delay.total_nanos() == random_delay_ms(min, max, drawn) as nat * NANOS_PER_MILLI as nat,
{
    let range = max.as_millis() - min.as_millis();
    let width: u128 = if range < 1 {
        1
    } else {
        range
    };
    let delay_ms = min.as_millis() + drawn as u128 % width;
    Span::from_millis(#[verifier::truncate]
    (delay_ms as u64))
}

/// A prefix, one element longer.
proof fn extend_prefix(s: Seq<IqSample>, i: int)
    requires
        0 <= i < s.len(),
    ensures
        s.take(i + 1).drop_last() == s.take(i),
        s.take(i + 1).last() == s[i],
        s.take(i + 1).len() == i + 1,
{
    assert(s.take(i + 1).drop_last() =~= s.take(i));
}

fn attenuate<A: Arithmetic>(arith: &A, factor: Single, samples: &mut Vec<IqSample>)
    ensures
        attenuated(arith, factor, old(samples)@, final(samples)@),
{
    let mut i: usize = 0;
    while i < samples.len()
        invariant
            i <= samples@.len(),
            samples@.len() == old(samples)@.len(),
            forall|j: int| i <= j < samples@.len() ==> samples@[j] == old(samples)@[j],
            forall|j: int|
                0 <= j < i ==> product_of(arith, old(samples)@[j].re, factor, (
                #[trigger] samples@[j]).re) && product_of(
                    arith,
                    old(samples)@[j].im,
                    factor,
                    samples@[j].im,
                ),
        decreases samples@.len() - i,
    {
        let sample = samples[i];
        let re = arith.times(sample.re, factor);
        let im = arith.times(sample.im, factor);
        samples[i] = IqSample { re, im };
        i += 1;
    }
}

fn truncate_to(percent: u8, samples: &mut Vec<IqSample>)
    ensures
        final(samples)@ == old(samples)@.subrange(
            0,
            truncated_len(old(samples)@.len(), percent) as int,
        ),
{
    let len = samples.len();
    assert(len * percent <= usize::MAX * u8::MAX) by (nonlinear_arith)
        requires
            len <= usize::MAX,
            percent <= u8::MAX,
    ;
    let share: u128 = (len as u128 * percent as u128) / 100;
    let wanted: u128 = if share < 1 {
        1
    } else {
        share
    };
    if wanted < len as u128 {
        samples.truncate(wanted as usize);
    } else {
        assert(samples@.subrange(0, len as int) =~= samples@);
    }
}

fn reverse_samples(samples: &mut Vec<IqSample>)
    ensures
        final(samples)@ == old(samples)@.reverse(),
{
    let len = samples.len();
    let mut i: usize = 0;
    while i < len / 2
        invariant
            len == samples@.len(),
            len == old(samples)@.len(),
            i <= len / 2,
            forall|j: int|
                0 <= j < len ==> #[trigger] samples@[j] == if j < i || j >= len - i {
                    old(samples)@[len - 1 - j]
                } else {
                    old(samples)@[j]
                },
        decreases len / 2 - i,
    {
        let front = samples[i];
        let back = samples[len - 1 - i];
        samples[i] = back;
        samples[len - 1 - i] = front;
        i += 1;
    }
    assert(samples@ =~= old(samples)@.reverse());
}

/// Fuzzer statistics.
#[derive(Clone, Copy, Debug, PartialEq, Eq, Structural)]
pub struct FuzzerStats {
    pub passed: u64,
    pub dropped: u64,
    pub delayed: u64,
}

/// Fuzzer that processes transmissions according to its strategy. Moments are told by the time
/// since the fuzzer was made.
pub struct Fuzzer {
    strategy: FuzzerStrategy,
    started: std::time::Instant,
    core: FuzzerCore,
}

impl View for Fuzzer {
    type V = FuzzState;

    closed spec fn view(&self) -> FuzzState {
        self.core.abstraction()
    }
}

/// What a fuzzer remembers before its first transmission.
pub open spec fn initial_fuzz_state() -> FuzzState {
    FuzzState {
        passed: 0,
        dropped: 0,
        delayed: Seq::empty(),
        replay: Seq::empty(),
        random: RANDOM_SEED,
    }
}

/// The counters have room for one more transmission through `strategy`.
pub open spec fn has_room(state: FuzzState, strategy: FuzzerStrategy) -> bool {
    state.passed + stages(strategy) <= u64::MAX && state.dropped < u64::MAX
}

impl Fuzzer {
    pub closed spec fn strategy(&self) -> FuzzerStrategy {
        self.strategy
    }

    /// The moment from which others are counted.
    pub closed spec fn origin(&self) -> std::time::Instant {
        self.started
    }

    pub fn new(strategy: FuzzerStrategy) -> (r: Fuzzer)
        ensures
            r@ == initial_fuzz_state(),
            r.strategy() == strategy,
            read_off_clock(r.origin()),
    {
        let r = Fuzzer {
            strategy,
            started: clock(),
            core: FuzzerCore {
                drop_counter: 0,
                pass_counter: 0,
                delayed_queue: VecDeque::new(),
                replay_buffer: VecDeque::new(),
                rng_state: RANDOM_SEED,
            },
        };
        assert(r@.delayed =~= Seq::<Held>::empty());
        assert(r@.replay =~= Seq::<Frame>::empty());
        r
    }

    /// Process a transmission through the fuzzer, now.
    pub fn process<A: Arithmetic>(&mut self, arith: &A, transmission: Transmission) -> (action:
        FuzzerAction)
        requires
            delays_in_order(old(self).strategy()),
            has_room(old(self)@, old(self).strategy()),
        ensures
            final(self).strategy() == old(self).strategy(),
            final(self).origin() == old(self).origin(),
            exists|now: Span| #[trigger]
                shown_by_clock(old(self).origin(), now) && fuzzed(
                    arith,
                    old(self).strategy(),
                    now.total_nanos(),
                    old(self)@,
                    transmission@,
                    final(self)@,
                    action@,
                ),
    {
        let now = clock_since(&self.started);
        self.process_at(arith, now, transmission)
    }

    /// Process a transmission through the fuzzer at the moment `now`.
    pub fn process_at<A: Arithmetic>(
        &mut self,
        arith: &A,
        now: Span,
        transmission: Transmission,
    ) -> (action: FuzzerAction)
        requires
            delays_in_order(old(self).strategy()),
            has_room(old(self)@, old(self).strategy()),
        ensures
            final(self).strategy() == old(self).strategy(),
            final(self).origin() == old(self).origin(),
            fuzzed(
                arith,
                old(self).strategy(),
                now.total_nanos(),
                old(self)@,
                transmission@,
                final(self)@,
                action@,
            ),
            old(self).strategy() !is Chain ==> fuzzed_alone(
                arith,
                old(self).strategy(),
                now.total_nanos(),
                old(self)@,
                transmission@,
                final(self)@,
                action@,
            ),
            old(self).strategy() is Chain ==> chained(
                arith,
                old(self).strategy()->Chain_0@,
                now.total_nanos(),
                old(self)@,
                transmission@,
                final(self)@,
                action@,
            ),
    {
        let ghost frame = transmission@;
        let action = self.core.process_with_strategy(arith, &self.strategy, now, transmission);
        proof {
            let t = now.total_nanos();
            if self.strategy is Chain {
                chain_is_strategy(arith, self.strategy, t, old(self)@, frame, self@, action@);
            } else {
                alone_is_strategy(arith, self.strategy, t, old(self)@, frame, self@, action@);
            }
        }
        action
    }

    /// Check for any delayed transmissions that are ready to be released, now.
    pub fn poll_delayed(&mut self) -> (ready: Vec<Transmission>)
        requires
            old(self)@.passed + old(self)@.delayed.len() <= u64::MAX,
        ensures
            final(self).strategy() == old(self).strategy(),
            final(self).origin() == old(self).origin(),
            exists|now: Span| #[trigger]
                shown_by_clock(old(self).origin(), now) && released(
                    old(self)@,
                    now.total_nanos(),
                    final(self)@,
                    frames_of(ready@),
                ),
    {
        let now = clock_since(&self.started);
        self.poll_delayed_at(now)
    }

    /// Release the delayed transmissions whose time has come at the moment `now`.
    pub fn poll_delayed_at(&mut self, now: Span) -> (ready: Vec<Transmission>)
        requires
            old(self)@.passed + old(self)@.delayed.len() <= u64::MAX,
        ensures
            final(self).strategy() == old(self).strategy(),
            final(self).origin() == old(self).origin(),
            released(old(self)@, now.total_nanos(), final(self)@, frames_of(ready@)),
    {
        self.core.release_ready(now)
    }

    /// Get the number of transmissions currently in the delay queue.
    pub fn delayed_count(&self) -> (n: usize)
        ensures
            n == self@.delayed.len(),
    {
        self.core.delayed_queue.len()
    }

    /// Get statistics.
    pub fn stats(&self) -> (r: FuzzerStats)
        ensures
            r.passed == self@.passed,
            r.dropped == self@.dropped,
            r.delayed == self@.delayed.len(),
    {
        FuzzerStats {
            passed: self.core.pass_counter,
            dropped: self.core.drop_counter,
            delayed: self.core.delayed_queue.len() as u64,
        }
    }

    /// Get the strategy name for display.
    pub fn strategy_name<A: Arithmetic>(&self, arith: &A) -> (name: String)
        requires
            spans_normal(self.strategy()),
        ensures
            described(arith, self.strategy(), name@),
    {
        describe(arith, &self.strategy)
    }
}

/// What polling at the moment `now` does: the transmissions whose time has come leave the queue in
/// their order and count as passed; the others stay.
pub open spec fn released(pre: FuzzState, now: nat, post: FuzzState, ready: Seq<Frame>) -> bool {
    &&& ready == held_frames(due(pre.delayed, now))
    &&& post == (FuzzState {
        passed: pre.passed + due(pre.delayed, now).len(),
        delayed: waiting(pre.delayed, now),
        ..pre
    })
}

impl FuzzerStrategy {
    /// Check that every random delay has its bounds in order.
    pub fn is_valid(&self) -> (r: bool)
        ensures
            r == delays_in_order(*self),
        decreases self,
    {
        match self {
            FuzzerStrategy::RandomDelay { min, max } => min.as_millis() <= max.as_millis(),
            FuzzerStrategy::Chain(strategies) => {
                let mut i: usize = 0;
                while i < strategies.len()
                    invariant
                        i <= strategies@.len(),
                        *self == FuzzerStrategy::Chain(*strategies),
                        forall|j: int|
                            0 <= j < i ==> delays_in_order(#[trigger] strategies@[j]),
                    decreases strategies@.len() - i,
                {
                    assert(decreases_to!(*self => self->Chain_0));
                    assert(decreases_to!(*strategies => strategies@));
                    assert(decreases_to!(strategies@ => strategies@[i as int]));
                    if !strategies[i].is_valid() {
                        assert(!delays_in_order(strategies@[i as int]));
                        return false;
                    }
                    i += 1;
                }
                true
            },
            _ => true,
        }
    }
}

impl FuzzerStrategy {
    /// Count the strategies that one transmission goes through at most; none is given where the
    /// count does not fit.
    pub fn stage_count(&self) -> (n: Option<u64>)
        ensures
            match n {
                Some(count) => stages(*self) == count,
                None => stages(*self) > u64::MAX,
            },
        decreases self,
    {
        match self {
            FuzzerStrategy::Chain(strategies) => {
                let mut i: usize = strategies.len();
                let mut total: u64 = 0;
                assert(strategies@.skip(i as int).len() == 0);
                while i > 0
                    invariant
                        i <= strategies@.len(),
                        *self == FuzzerStrategy::Chain(*strategies),
                        total == chain_stages(strategies@.skip(i as int)),
                    decreases i,
                {
                    i -= 1;
                    assert(decreases_to!(*self => self->Chain_0));
                    assert(decreases_to!(*strategies => strategies@));
                    assert(decreases_to!(strategies@ => strategies@[i as int]));
                    proof {
                        let rest = strategies@.skip(i as int);
                        assert(rest.drop_first() =~= strategies@.skip(i + 1));
                        assert(rest[0] == strategies@[i as int]);
                        chain_stages_grow(strategies@, i as int);
                    }
                    match strategies[i].stage_count() {
                        Some(first) => {
                            if first > u64::MAX - total {
                                return None;
                            }
                            total = first + total;
                        },
                        None => {
                            return None;
                        },
                    }
                }
                assert(strategies@.skip(0) =~= strategies@);
                Some(total)
            },
            _ => Some(1),
        }
    }
}

/// The end of a chain has no more stages than the chain.
proof fn chain_stages_grow(strategies: Seq<FuzzerStrategy>, from: int)
    requires
        0 <= from <= strategies.len(),
    ensures
        chain_stages(strategies.skip(from)) <= chain_stages(strategies),
    decreases from,
{
    if from == 0 {
        assert(strategies.skip(0) =~= strategies);
    } else {
        chain_stages_grow(strategies, from - 1);
        assert(strategies.skip(from - 1).drop_first() =~= strategies.skip(from));
    }
}

/// Whether one more transmission can be processed, and what is held released, without a counter
/// overflowing.
pub open spec fn is_ready(state: FuzzState, strategy: FuzzerStrategy) -> bool {
    &&& delays_in_order(strategy)
    &&& state.passed + state.delayed.len() + stages(strategy) <= u64::MAX
    &&& state.dropped < u64::MAX
}

impl Fuzzer {
    /// Check whether one more transmission can be processed.
    pub fn can_process(&self) -> (r: bool)
        ensures
            r == is_ready(self@, self.strategy()),
            r ==> has_room(self@, self.strategy()),
            r ==> self@.passed + self@.delayed.len() <= u64::MAX,
    {
        match self.strategy.stage_count() {
            Some(ahead) => {
                let held: usize = self.core.delayed_queue.len();
                let needed: u128 = self.core.pass_counter as u128 + held as u128 + ahead as u128;
                needed <= u64::MAX as u128 && self.core.drop_counter < u64::MAX
                    && self.strategy.is_valid()
            },
            None => false,
        }
    }
}

} // verus!
