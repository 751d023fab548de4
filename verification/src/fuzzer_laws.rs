//! What holds of every strategy and of the delay queue.
use vstd::prelude::*;

use crate::arith::Arithmetic;
use crate::detector::Frame;
use crate::fuzzer::{
    alone_is_strategy, between, chain_is_strategy, chain_stages, chained, corrupted, corrupted_once,
    due, due_and_waiting, due_or_waiting, flipped, fuzzed, held_frames, newest, next_state,
    none_due_or_waiting, random_delay_ms, released, reworked, reworks, share, stages, truncated_len,
    waiting, FuzzState, FuzzerStrategy, Held, Outcome,
};
use crate::signal::IqSample;
use crate::span::Span;

verus! {

/// Whether a strategy may put an earlier transmission in the place of the current one.
pub open spec fn replays(strategy: FuzzerStrategy) -> bool
    decreases strategy,
{
    match strategy {
        FuzzerStrategy::Replay { .. } => true,
        FuzzerStrategy::Chain(strategies) => exists|i: int|
            0 <= i < strategies@.len() && replays(#[trigger] strategies@[i]),
        _ => false,
    }
}

/// `after` is `before` with other samples: no more of them, and some where there were some.
pub open spec fn same_transmission(before: Frame, after: Frame) -> bool {
    &&& after == (Frame { samples: after.samples, ..before })
    &&& after.samples.len() <= before.samples.len()
    &&& before.samples.len() > 0 ==> after.samples.len() > 0
}

/// Corrupting samples keeps their number.
proof fn corrupting_keeps_length<A: Arithmetic>(
    arith: &A,
    times: nat,
    random: u64,
    samples: Seq<IqSample>,
    random_after: u64,
    after: Seq<IqSample>,
)
    requires
        corrupted(arith, times, random, samples, random_after, after),
    ensures
        after.len() == samples.len(),
    decreases times,
{
    if times > 0 {
        let (r, s) = choose|r: u64, s: Seq<IqSample>| #[trigger]
            corrupted_once(arith, r, s, random_after, after) && corrupted(
                arith,
                (times - 1) as nat,
                random,
                samples,
                r,
                s,
            );
        corrupting_keeps_length(arith, (times - 1) as nat, random, samples, r, s);
    }
}

/// Corruption touches no more samples than the share that it is told to: all others are as they
/// were.
pub proof fn corruption_is_limited<A: Arithmetic>(
    arith: &A,
    times: nat,
    random: u64,
    samples: Seq<IqSample>,
    random_after: u64,
    after: Seq<IqSample>,
) -> (touched: Set<int>)
    requires
        corrupted(arith, times, random, samples, random_after, after),
    ensures
        after.len() == samples.len(),
        touched.finite(),
        touched.len() <= times,
        forall|i: int|
            0 <= i < samples.len() && !touched.contains(i) ==> #[trigger] after[i] == samples[i],
    decreases times,
{
    if times == 0 {
        Set::empty()
    } else {
        let (r, s) = choose|r: u64, s: Seq<IqSample>| #[trigger]
            corrupted_once(arith, r, s, random_after, after) && corrupted(
                arith,
                (times - 1) as nat,
                random,
                samples,
                r,
                s,
            );
        let before = corruption_is_limited(arith, (times - 1) as nat, random, samples, r, s);
        let idx = (next_state(r) as usize) as int % s.len() as int;
        let touched = before.insert(idx);
        assert forall|i: int| 0 <= i < samples.len() && !touched.contains(i) implies
            #[trigger] after[i] == samples[i] by {
            assert(after[i] == s.update(idx, after[idx])[i]);
            assert(s[i] == samples[i]);
        }
        touched
    }
}

/// Corruption, bit flips, attenuation, noise and reversal keep the number of samples; truncation
/// leaves the share of them that it states, at least one and at most all.
pub proof fn rework_keeps_length<A: Arithmetic>(
    arith: &A,
    strategy: FuzzerStrategy,
    random: u64,
    samples: Seq<IqSample>,
    random_after: u64,
    after: Seq<IqSample>,
)
    requires
        reworked(arith, strategy, random, samples, random_after, after),
    ensures
        match strategy {
            FuzzerStrategy::Truncate(percent) => after.len() == truncated_len(
                samples.len(),
                percent,
            ) && after == samples.take(after.len() as int),
            _ => after.len() == samples.len(),
        },
{
    if let FuzzerStrategy::CorruptSamples(percent) = strategy {
        corrupting_keeps_length(
            arith,
            share(samples.len(), percent),
            random,
            samples,
            random_after,
            after,
        );
    }
}

/// Unless a strategy replays, a transmission that it passes on is the one that it was given, with
/// number, position and levels as they were and no more samples than before. This holds of chains
/// too.
pub proof fn metadata_survives<A: Arithmetic>(
    arith: &A,
    strategy: FuzzerStrategy,
    now: nat,
    pre: FuzzState,
    frame: Frame,
    post: FuzzState,
    out: Outcome,
)
    requires
        fuzzed(arith, strategy, now, pre, frame, post, out),
        !replays(strategy),
    ensures
        match out {
            Outcome::Pass(f) | Outcome::Modified(f) => same_transmission(frame, f),
            _ => true,
        },
    decreases strategy,
{
    if let FuzzerStrategy::Chain(strategies) = strategy {
        chain_is_strategy(arith, strategy, now, pre, frame, post, out);
        assert(decreases_to!(strategy => strategy->Chain_0));
        assert(decreases_to!(strategies => strategies@));
        metadata_survives_chain(arith, strategies@, now, pre, frame, post, out);
    } else {
        alone_is_strategy(arith, strategy, now, pre, frame, post, out);
        if reworks(strategy) {
            rework_keeps_length(
                arith,
                strategy,
                pre.random,
                frame.samples,
                post.random,
                out->Modified_0.samples,
            );
        }
    }
}

proof fn metadata_survives_chain<A: Arithmetic>(
    arith: &A,
    strategies: Seq<FuzzerStrategy>,
    now: nat,
    pre: FuzzState,
    frame: Frame,
    post: FuzzState,
    out: Outcome,
)
    requires
        chained(arith, strategies, now, pre, frame, post, out),
        forall|i: int| 0 <= i < strategies.len() ==> !replays(#[trigger] strategies[i]),
    ensures
        match out {
            Outcome::Pass(f) | Outcome::Modified(f) => same_transmission(frame, f),
            _ => true,
        },
    decreases strategies,
{
    if strategies.len() == 0 {
        reveal_with_fuel(chained, 1);
    } else {
        let (mid, said) = chain_parts(arith, strategies, now, pre, frame, post, out);
        assert(decreases_to!(strategies => strategies[0]));
        metadata_survives(arith, strategies[0], now, pre, frame, mid, said);
        match said {
            Outcome::Pass(f) | Outcome::Modified(f) => {
                let rest = strategies.drop_first();
                assert(decreases_to!(strategies => rest));
                assert forall|i: int| 0 <= i < rest.len() implies !replays(#[trigger] rest[i]) by {
                    assert(rest[i] == strategies[i + 1]);
                }
                metadata_survives_chain(arith, rest, now, mid, f, post, out);
            },
            _ => {},
        }
    }
}

/// What the first strategy of a chain did.
pub proof fn chain_parts<A: Arithmetic>(
    arith: &A,
    strategies: Seq<FuzzerStrategy>,
    now: nat,
    pre: FuzzState,
    frame: Frame,
    post: FuzzState,
    out: Outcome,
) -> (parts: (FuzzState, Outcome))
    requires
        strategies.len() > 0,
        chained(arith, strategies, now, pre, frame, post, out),
    ensures
        fuzzed(arith, strategies[0], now, pre, frame, parts.0, parts.1),
        match parts.1 {
            Outcome::Pass(f) | Outcome::Modified(f) => chained(
                arith,
                strategies.drop_first(),
                now,
                parts.0,
                f,
                post,
                out,
            ),
            Outcome::Drop | Outcome::Delayed => post == parts.0 && out == parts.1,
        },
{
    reveal_with_fuel(chained, 1);
    reveal_with_fuel(fuzzed, 1);
    let (mid, said) = choose|mid: FuzzState, o: Outcome| #[trigger]
        between(mid, o) && fuzzed(arith, strategies[0], now, pre, frame, mid, o) && match o {
            Outcome::Pass(f) | Outcome::Modified(f) => chained(
                arith,
                strategies.drop_first(),
                now,
                mid,
                f,
                post,
                out,
            ),
            Outcome::Drop | Outcome::Delayed => post == mid && out == o,
        };
    (mid, said)
}

/// A passed transmission is the one that came in, sample for sample, whatever the strategy, unless
/// it is a chain.
pub proof fn pass_is_unchanged<A: Arithmetic>(
    arith: &A,
    strategy: FuzzerStrategy,
    now: nat,
    pre: FuzzState,
    frame: Frame,
    post: FuzzState,
    out: Outcome,
)
    requires
        strategy !is Chain,
        fuzzed(arith, strategy, now, pre, frame, post, out),
    ensures
        out matches Outcome::Pass(f) ==> f == frame,
        strategy is Passthrough ==> out == Outcome::Pass(frame) && post == (FuzzState {
            passed: pre.passed + 1,
            ..pre
        }),
{
    alone_is_strategy(arith, strategy, now, pre, frame, post, out);
}

/// Dropping 0 percent never drops, dropping 100 percent or more always does.
pub proof fn drop_extremes<A: Arithmetic>(
    arith: &A,
    percent: u8,
    now: nat,
    pre: FuzzState,
    frame: Frame,
    post: FuzzState,
    out: Outcome,
)
    requires
        fuzzed(arith, FuzzerStrategy::DropPercent(percent), now, pre, frame, post, out),
    ensures
        percent == 0 ==> out == Outcome::Pass(frame),
        percent >= 100 ==> out == Outcome::Drop && post.dropped == pre.dropped + 1,
{
    alone_is_strategy(
        arith,
        FuzzerStrategy::DropPercent(percent),
        now,
        pre,
        frame,
        post,
        out,
    );
}

/// The transmissions that a fuzzer has dealt with or holds.
pub open spec fn accounted(state: FuzzState) -> nat {
    state.passed + state.dropped + state.delayed.len()
}

/// Every transmission counts once: as passed, as dropped or as delayed. (A chain counts every
/// strategy that a transmission went through.)
pub proof fn each_counts_once<A: Arithmetic>(
    arith: &A,
    strategy: FuzzerStrategy,
    now: nat,
    pre: FuzzState,
    frame: Frame,
    post: FuzzState,
    out: Outcome,
)
    requires
        strategy !is Chain,
        fuzzed(arith, strategy, now, pre, frame, post, out),
    ensures
        accounted(post) == accounted(pre) + 1,
        post.dropped == pre.dropped + if out is Drop {
            1nat
        } else {
            0
        },
        post.delayed.len() == pre.delayed.len() + if out is Delayed {
            1nat
        } else {
            0
        },
        post.passed == pre.passed + if out is Pass || out is Modified {
            1nat
        } else {
            0
        },
{
    alone_is_strategy(arith, strategy, now, pre, frame, post, out);
}

/// One transmission counts at most as often as there are strategies for it to go through.
pub proof fn counts_are_bounded<A: Arithmetic>(
    arith: &A,
    strategy: FuzzerStrategy,
    now: nat,
    pre: FuzzState,
    frame: Frame,
    post: FuzzState,
    out: Outcome,
)
    requires
        fuzzed(arith, strategy, now, pre, frame, post, out),
    ensures
        pre.passed <= post.passed,
        pre.delayed.len() <= post.delayed.len(),
        pre.dropped <= post.dropped <= pre.dropped + 1,
        post.passed + post.delayed.len() <= pre.passed + pre.delayed.len() + stages(strategy),
        out is Pass || out is Modified ==> post.dropped == pre.dropped,
    decreases strategy,
{
    if let FuzzerStrategy::Chain(strategies) = strategy {
        chain_is_strategy(arith, strategy, now, pre, frame, post, out);
        assert(decreases_to!(strategy => strategy->Chain_0));
        assert(decreases_to!(strategies => strategies@));
        chain_counts_are_bounded(arith, strategies@, now, pre, frame, post, out);
        assert(stages(strategy) == chain_stages(strategies@)) by {
            reveal_with_fuel(stages, 1);
        }
    } else {
        alone_is_strategy(arith, strategy, now, pre, frame, post, out);
        reveal_with_fuel(stages, 1);
    }
}

proof fn chain_counts_are_bounded<A: Arithmetic>(
    arith: &A,
    strategies: Seq<FuzzerStrategy>,
    now: nat,
    pre: FuzzState,
    frame: Frame,
    post: FuzzState,
    out: Outcome,
)
    requires
        chained(arith, strategies, now, pre, frame, post, out),
    ensures
        pre.passed <= post.passed,
        pre.delayed.len() <= post.delayed.len(),
        pre.dropped <= post.dropped <= pre.dropped + 1,
        post.passed + post.delayed.len() <= pre.passed + pre.delayed.len() + chain_stages(
            strategies,
        ),
        out is Pass || out is Modified ==> post.dropped == pre.dropped,
    decreases strategies,
{
    if strategies.len() == 0 {
        reveal_with_fuel(chained, 1);
    } else {
        let (mid, said) = chain_parts(arith, strategies, now, pre, frame, post, out);
        assert(decreases_to!(strategies => strategies[0]));
        counts_are_bounded(arith, strategies[0], now, pre, frame, mid, said);
        match said {
            Outcome::Pass(f) | Outcome::Modified(f) => {
                let rest = strategies.drop_first();
                assert(decreases_to!(strategies => rest));
                chain_counts_are_bounded(arith, rest, now, mid, f, post, out);
            },
            _ => {},
        }
    }
}

/// Releasing delayed transmissions loses and invents none: those released and those still held are
/// together those that were held, and each released one counts as passed.
pub proof fn release_conserves(pre: FuzzState, now: nat, post: FuzzState, ready: Seq<Frame>)
    requires
        released(pre, now, post, ready),
    ensures
        ready.to_multiset().add(held_frames(post.delayed).to_multiset()) == held_frames(
            pre.delayed,
        ).to_multiset(),
        ready.len() + post.delayed.len() == pre.delayed.len(),
        accounted(post) == accounted(pre),
        post.passed == pre.passed + ready.len(),
        post.dropped == pre.dropped,
{
    due_and_waiting(pre.delayed, now);
    frames_are_conserved(pre.delayed, now);
}

proof fn frames_are_conserved(queue: Seq<Held>, now: nat)
    ensures
        held_frames(due(queue, now)).to_multiset().add(
            held_frames(waiting(queue, now)).to_multiset(),
        ) == held_frames(queue).to_multiset(),
    decreases queue.len(),
{
    broadcast use vstd::seq_lib::group_to_multiset_ensures;

    if queue.len() == 0 {
        none_due_or_waiting(now);
        assert(queue =~= Seq::empty());
        assert(held_frames(queue) =~= Seq::empty());
        assert(held_frames(queue).to_multiset().add(held_frames(queue).to_multiset())
            =~= held_frames(queue).to_multiset());
    } else {
        let rest = queue.drop_last();
        let last = queue.last();
        frames_are_conserved(rest, now);
        assert(rest.push(last) =~= queue);
        due_or_waiting(rest, last, now);
        assert(held_frames(queue) =~= held_frames(rest).push(last.frame));
        assert(held_frames(due(rest, now).push(last)) =~= held_frames(due(rest, now)).push(
            last.frame,
        ));
        assert(held_frames(waiting(rest, now).push(last)) =~= held_frames(
            waiting(rest, now),
        ).push(last.frame));
        assert(held_frames(due(queue, now)).to_multiset().add(
            held_frames(waiting(queue, now)).to_multiset(),
        ) =~= held_frames(queue).to_multiset());
    }
}

/// Whatever the strategy held them back for, a poll releases the transmissions whose time has come,
/// all of them and no others: what stays has to wait.
pub proof fn all_due_are_released(pre: FuzzState, now: nat, post: FuzzState, ready: Seq<Frame>)
    requires
        released(pre, now, post, ready),
    ensures
        forall|i: int|
            0 <= i < pre.delayed.len() && pre.delayed[i].release <= now ==> ready.contains(
                (#[trigger] pre.delayed[i]).frame,
            ),
        forall|i: int|
            0 <= i < pre.delayed.len() && pre.delayed[i].release > now ==> post.delayed.contains(
                #[trigger] pre.delayed[i],
            ),
        forall|i: int|
            0 <= i < ready.len() ==> pre.delayed.contains(
                #[trigger] due(pre.delayed, now)[i],
            ) && ready[i] == due(pre.delayed, now)[i].frame && due(pre.delayed, now)[i].release
                <= now,
        forall|i: int|
            0 <= i < post.delayed.len() ==> pre.delayed.contains(#[trigger] post.delayed[i])
                && post.delayed[i].release > now,
{
    due_is_due(pre.delayed, now);
    assert forall|i: int| 0 <= i < pre.delayed.len() && pre.delayed[i].release
        <= now implies ready.contains((#[trigger] pre.delayed[i]).frame) by {
        let j = due(pre.delayed, now).index_of(pre.delayed[i]);
        assert(ready[j] == pre.delayed[i].frame);
    }
}

/// What is due and what has to wait comes from the queue, and all of the queue is one or the other.
proof fn due_is_due(queue: Seq<Held>, now: nat)
    ensures
        forall|i: int|
            0 <= i < queue.len() ==> if (#[trigger] queue[i]).release <= now {
                due(queue, now).contains(queue[i])
            } else {
                waiting(queue, now).contains(queue[i])
            },
        forall|i: int|
            0 <= i < due(queue, now).len() ==> queue.contains(#[trigger] due(queue, now)[i])
                && due(queue, now)[i].release <= now,
        forall|i: int|
            0 <= i < waiting(queue, now).len() ==> queue.contains(
                #[trigger] waiting(queue, now)[i],
            ) && waiting(queue, now)[i].release > now,
    decreases queue.len(),
{
    if queue.len() == 0 {
        none_due_or_waiting(now);
        assert(queue =~= Seq::empty());
    } else {
        let rest = queue.drop_last();
        let last = queue.last();
        due_is_due(rest, now);
        assert(rest.push(last) =~= queue);
        due_or_waiting(rest, last, now);
        assert(queue[queue.len() - 1] == last);
        assert forall|h: Held| rest.contains(h) implies #[trigger] queue.contains(h) by {
            assert(queue[rest.index_of(h)] == h);
        }
        assert forall|h: Held| due(rest, now).contains(h) implies #[trigger] due(
            queue,
            now,
        ).contains(h) by {
            assert(due(queue, now)[due(rest, now).index_of(h)] == h);
        }
        assert forall|h: Held| waiting(rest, now).contains(h) implies #[trigger] waiting(
            queue,
            now,
        ).contains(h) by {
            assert(waiting(queue, now)[waiting(rest, now).index_of(h)] == h);
        }
        if last.release <= now {
            assert(due(queue, now)[due(rest, now).len() as int] == last);
        } else {
            assert(waiting(queue, now)[waiting(rest, now).len() as int] == last);
        }
        assert forall|i: int| 0 <= i < queue.len() implies if (#[trigger] queue[i]).release
            <= now {
            due(queue, now).contains(queue[i])
        } else {
            waiting(queue, now).contains(queue[i])
        } by {
            if i < rest.len() {
                assert(rest[i] == queue[i]);
            }
        }
        assert forall|i: int| 0 <= i < due(queue, now).len() implies queue.contains(
            #[trigger] due(queue, now)[i],
        ) && due(queue, now)[i].release <= now by {
            if i < due(rest, now).len() {
                assert(due(rest, now)[i] == due(queue, now)[i]);
            }
        }
        assert forall|i: int| 0 <= i < waiting(queue, now).len() implies queue.contains(
            #[trigger] waiting(queue, now)[i],
        ) && waiting(queue, now)[i].release > now by {
            if i < waiting(rest, now).len() {
                assert(waiting(rest, now)[i] == waiting(queue, now)[i]);
            }
        }
    }
}

/// A transmission under a fixed delay is held until exactly that much time has gone by: a poll
/// releases it, after all that were held before it and are due, if and only if it comes no earlier.
pub proof fn fixed_delay_is_kept<A: Arithmetic>(
    arith: &A,
    duration: Span,
    now: nat,
    pre: FuzzState,
    frame: Frame,
    mid: FuzzState,
    out: Outcome,
    later: nat,
    post: FuzzState,
    ready: Seq<Frame>,
)
    requires
        fuzzed(arith, FuzzerStrategy::FixedDelay(duration), now, pre, frame, mid, out),
        released(mid, later, post, ready),
    ensures
        out == Outcome::Delayed,
        mid.delayed == pre.delayed.push(Held { frame, release: now + duration.total_nanos() }),
        later >= now + duration.total_nanos() ==> {
            &&& ready == held_frames(due(pre.delayed, later)).push(frame)
            &&& post.delayed == waiting(pre.delayed, later)
        },
        later < now + duration.total_nanos() ==> {
            &&& ready == held_frames(due(pre.delayed, later))
            &&& post.delayed == waiting(pre.delayed, later).push(mid.delayed.last())
        },
{
    alone_is_strategy(
        arith,
        FuzzerStrategy::FixedDelay(duration),
        now,
        pre,
        frame,
        mid,
        out,
    );
    let held = Held { frame, release: now + duration.total_nanos() };
    due_or_waiting(pre.delayed, held, later);
    assert(held_frames(due(pre.delayed, later).push(held)) =~= held_frames(
        due(pre.delayed, later),
    ).push(frame));
}

/// A random delay lies between its bounds: at least the minimum and, where the bounds differ, less
/// than the maximum.
pub proof fn random_delay_within_bounds(min: Span, max: Span, state: u64)
    requires
        min.total_millis() <= max.total_millis(),
        max.total_millis() <= u64::MAX,
    ensures
        min.total_millis() <= random_delay_ms(min, max, state),
        random_delay_ms(min, max, state) <= max.total_millis(),
        min.total_millis() < max.total_millis() ==> random_delay_ms(min, max, state)
            < max.total_millis(),
{
    let range = max.total_millis() - min.total_millis();
    if range >= 1 {
        vstd::arithmetic::div_mod::lemma_mod_bound(state as int, range);
    }
}

/// A replayed transmission is one that came in earlier, never the current one, and at most
/// `buffer_size` transmissions are remembered.
pub proof fn replay_is_an_earlier_one<A: Arithmetic>(
    arith: &A,
    buffer_size: usize,
    now: nat,
    pre: FuzzState,
    frame: Frame,
    post: FuzzState,
    out: Outcome,
)
    requires
        pre.replay.len() <= buffer_size,
        fuzzed(arith, FuzzerStrategy::Replay { buffer_size }, now, pre, frame, post, out),
    ensures
        post.replay.len() <= buffer_size,
        out is Pass || out is Modified,
        out matches Outcome::Pass(f) ==> f == frame,
        out matches Outcome::Modified(f) ==> pre.replay.contains(f),
        out is Modified <==> pre.replay.len() > 0 && buffer_size > 1,
{
    let strategy = FuzzerStrategy::Replay { buffer_size };
    alone_is_strategy(arith, strategy, now, pre, frame, post, out);
    let all = pre.replay.push(frame);
    let kept = newest(all, buffer_size);
    if kept.len() > 1 {
        let drawn = next_state(pre.random);
        let idx = (drawn as usize) as int % (kept.len() - 1);
        vstd::arithmetic::div_mod::lemma_mod_bound((drawn as usize) as int, kept.len() - 1);
        let at = idx + (all.len() - kept.len());
        assert(kept[idx] == all[at]);
        assert(pre.replay[at] == all[at]);
    }
}

/// A chain ends at its first strategy if that one drops: nothing else of the chain runs.
pub proof fn drop_ends_a_chain<A: Arithmetic>(
    arith: &A,
    strategies: Seq<FuzzerStrategy>,
    now: nat,
    pre: FuzzState,
    frame: Frame,
    post: FuzzState,
    out: Outcome,
)
    requires
        strategies.len() > 0,
        strategies[0] matches FuzzerStrategy::DropPercent(percent) && percent >= 100,
        chained(arith, strategies, now, pre, frame, post, out),
    ensures
        out == Outcome::Drop,
        post == (FuzzState {
            dropped: pre.dropped + 1,
            random: next_state(pre.random),
            ..pre
        }),
{
    let (mid, said) = chain_parts(arith, strategies, now, pre, frame, post, out);
    alone_is_strategy(arith, strategies[0], now, pre, frame, mid, said);
}

/// Reversing a transmission twice gives it back.
pub proof fn reverse_undoes_itself<A: Arithmetic>(
    arith: &A,
    random: u64,
    samples: Seq<IqSample>,
    random_mid: u64,
    mid: Seq<IqSample>,
    random_after: u64,
    after: Seq<IqSample>,
)
    requires
        reworked(arith, FuzzerStrategy::Reverse, random, samples, random_mid, mid),
        reworked(arith, FuzzerStrategy::Reverse, random_mid, mid, random_after, after),
    ensures
        after == samples,
{
    assert(after =~= samples);
}

/// Flipping a bit changes both parts of a sample, and flipping it again gives the sample back.
pub proof fn flip_undoes_itself(x: IqSample, bit: u32)
    requires
        bit < 32,
    ensures
        flipped(flipped(x, bit), bit) == x,
        flipped(x, bit).re != x.re,
        flipped(x, bit).im != x.im,
{
    let re = x.re.bits;
    let im = x.im.bits;
    assert((re ^ (1u32 << bit)) ^ (1u32 << bit) == re && (re ^ (1u32 << bit)) != re)
        by (bit_vector)
        requires
            bit < 32,
    ;
    assert((im ^ (1u32 << bit)) ^ (1u32 << bit) == im && (im ^ (1u32 << bit)) != im)
        by (bit_vector)
        requires
            bit < 32,
    ;
}

} // verus!
