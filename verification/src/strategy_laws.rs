//! What each strategy does to a transmission, number by number and sample by sample.
use vstd::prelude::*;

use crate::arith::{count_of, difference_of, product_of, quotient_of, sum_of, Arithmetic, Single};
use crate::detector::{Frame, Transmission};
use crate::fuzzer::{
    alike, alone_is_strategy, chain_is_strategy, chain_stages, chained, corrupted, corrupted_once,
    delays_in_order, due, flipped, flipped_all, flipped_once, fraction_of, frames_of, fuzzed,
    held_frames, next_state, noisy_all, noisy_once, noisy_value, random_delay_ms, released,
    signed_of, stages, waiting, FuzzState, Fuzzer, FuzzerAction, FuzzerStats, FuzzerStrategy, Held,
    Outcome,
};
use crate::fuzzer_laws::{all_due_are_released, chain_parts, release_conserves};
use crate::signal::IqSample;
use crate::span::{shown_by_clock, Span};

verus! {

/// The number that follows `state` in the generator: multiplied, and one more, in 64 bits.
pub open spec fn following(state: int) -> int {
    (state * 6364136223846793005 + 1) % 0x1_0000_0000_0000_0000
}

/// The generator is a linear congruence.
pub proof fn the_generator_is_linear(state: u64)
    ensures
        next_state(state) == following(state as int),
{
    let m: int = 0x1_0000_0000_0000_0000;
    let x = state as int * 6364136223846793005;
    let y = state.wrapping_mul(6364136223846793005);
    assert(y == x % m);
    vstd::arithmetic::div_mod::lemma_add_mod_noop(x, 1, m);
    vstd::arithmetic::div_mod::lemma_small_mod(1, m as nat);
    let z = y.wrapping_add(1);
    if y == u64::MAX {
        assert(z == 0);
        assert((x % m + 1) % m == 0);
    } else {
        assert(z == y + 1);
        vstd::arithmetic::div_mod::lemma_small_mod((x % m + 1) as nat, m as nat);
    }
}

/// The number after `k` draws from a generator that stands at `state`.
pub open spec fn draw(state: u64, k: nat) -> u64
    decreases k,
{
    if k == 0 {
        state
    } else {
        following(draw(state, (k - 1) as nat) as int) as u64
    }
}

/// One more draw.
proof fn one_more_draw(state: u64, k: nat)
    ensures
        next_state(draw(state, k)) == draw(state, k + 1),
{
    the_generator_is_linear(draw(state, k));
}

/// `f` is the fraction that the lower 24 bits of a number make of the largest such value.
pub open spec fn fraction<A: Arithmetic>(arith: &A, number: u64, f: Single) -> bool {
    exists|n: Single|
        call_ensures(A::count, (arith, (number as int % 0x100_0000) as u64), n)
            && #[trigger] call_ensures(A::over, (arith, n, Single { bits: 0x4B7F_FFFF }), f)
}

proof fn fractions_are_of_the_lower_bits<A: Arithmetic>(arith: &A, number: u64, f: Single)
    requires
        fraction_of(arith, number, f),
    ensures
        fraction(arith, number, f),
{
    assert(number & 0xFF_FFFF == number % 0x100_0000) by (bit_vector);
    let n = choose|n: Single|
        count_of(arith, number & 0xFF_FFFF, n) && #[trigger] quotient_of(
            arith,
            n,
            Single { bits: 0x4B7F_FFFF },
            f,
        );
    assert(call_ensures(A::over, (arith, n, Single { bits: 0x4B7F_FFFF }), f));
}

/// `x` is the fraction of a number, doubled, less one.
pub open spec fn signed_fraction<A: Arithmetic>(arith: &A, number: u64, x: Single) -> bool {
    exists|f: Single, d: Single|
        fraction(arith, number, f) && #[trigger] call_ensures(
            A::times,
            (arith, f, Single { bits: 0x4000_0000 }),
            d,
        ) && call_ensures(A::minus, (arith, d, Single { bits: 0x3F80_0000 }), x)
}

proof fn signed_fractions_are_doubled_less_one<A: Arithmetic>(arith: &A, number: u64, x: Single)
    requires
        signed_of(arith, number, x),
    ensures
        signed_fraction(arith, number, x),
{
    let (f, d) = choose|f: Single, d: Single|
        fraction_of(arith, number, f) && #[trigger] product_of(
            arith,
            f,
            Single { bits: 0x4000_0000 },
            d,
        ) && difference_of(arith, d, Single { bits: 0x3F80_0000 }, x);
    fractions_are_of_the_lower_bits(arith, number, f);
    assert(call_ensures(A::times, (arith, f, Single { bits: 0x4000_0000 }), d));
}

/// Passing a transmission through leaves it as it is and counts it as passed; nothing else changes.
pub proof fn passing_through_changes_nothing<A: Arithmetic>(
    arith: &A,
    now: nat,
    pre: FuzzState,
    frame: Frame,
    post: FuzzState,
    out: Outcome,
)
    requires
        fuzzed(arith, FuzzerStrategy::Passthrough, now, pre, frame, post, out),
    ensures
        out == Outcome::Pass(frame),
        post.passed == pre.passed + 1,
        post.dropped == pre.dropped,
        post.delayed == pre.delayed,
        post.replay == pre.replay,
        post.random == pre.random,
{
    alone_is_strategy(arith, FuzzerStrategy::Passthrough, now, pre, frame, post, out);
}

/// One number is drawn for each transmission, and it is dropped if and only if the last two decimal
/// digits of that number are below the percentage; if not it passes unchanged.
pub proof fn dropping_goes_by_one_draw<A: Arithmetic>(
    arith: &A,
    percent: u8,
    now: nat,
    pre: FuzzState,
    frame: Frame,
    post: FuzzState,
    out: Outcome,
)
    requires
        fuzzed(arith, FuzzerStrategy::DropPercent(percent), now, pre, frame, post, out),
    ensures
        post.random == following(pre.random as int),
        out == Outcome::Drop <==> following(pre.random as int) % 100 < percent,
        out == Outcome::Drop ==> post.dropped == pre.dropped + 1 && post.passed == pre.passed,
        out != Outcome::Drop ==> out == Outcome::Pass(frame) && post.passed == pre.passed + 1
            && post.dropped == pre.dropped,
        post.delayed == pre.delayed,
        post.replay == pre.replay,
{
    alone_is_strategy(arith, FuzzerStrategy::DropPercent(percent), now, pre, frame, post, out);
    the_generator_is_linear(pre.random);
}

/// A fixed delay holds a transmission back until that much time has gone by since it came, behind
/// those held already, and counts nothing.
pub proof fn a_fixed_delay_holds_back<A: Arithmetic>(
    arith: &A,
    duration: Span,
    now: nat,
    pre: FuzzState,
    frame: Frame,
    post: FuzzState,
    out: Outcome,
)
    requires
        fuzzed(arith, FuzzerStrategy::FixedDelay(duration), now, pre, frame, post, out),
    ensures
        out == Outcome::Delayed,
        post.delayed.len() == pre.delayed.len() + 1,
        post.delayed.drop_last() == pre.delayed,
        post.delayed.last().frame == frame,
        post.delayed.last().release == now + duration.secs * 1_000_000_000 + duration.nanos,
        post.passed == pre.passed && post.dropped == pre.dropped,
        post.replay == pre.replay,
        post.random == pre.random,
{
    alone_is_strategy(arith, FuzzerStrategy::FixedDelay(duration), now, pre, frame, post, out);
    assert(post.delayed.drop_last() =~= pre.delayed);
}

/// The whole milliseconds of a length of time.
pub open spec fn millis(span: Span) -> int {
    (span.secs * 1_000_000_000 + span.nanos) / 1_000_000
}

proof fn delays_drawn(min: Span, max: Span, number: u64)
    requires
        millis(min) <= millis(max) <= u64::MAX,
    ensures
        ({
            let ms = random_delay_ms(min, max, number);
            &&& millis(min) == millis(max) ==> ms == millis(min)
            &&& millis(min) < millis(max) ==> ms == millis(min) + number as int % (millis(max)
                - millis(min))
            &&& millis(min) <= ms
            &&& millis(min) < millis(max) ==> ms < millis(max)
        }),
{
    assert(millis(min) == min.total_millis() && millis(max) == max.total_millis());
    if millis(min) < millis(max) {
        vstd::arithmetic::div_mod::lemma_mod_bound(number as int, millis(max) - millis(min));
    } else {
        assert(number as int % 1 == 0);
    }
}

/// A random delay is the shortest one and as many milliseconds more as the number drawn leaves over
/// when divided by the difference of both; so it is never shorter than the shortest and never as long
/// as the longest, unless they are the same.
pub proof fn a_random_delay_goes_by_one_draw<A: Arithmetic>(
    arith: &A,
    min: Span,
    max: Span,
    now: nat,
    pre: FuzzState,
    frame: Frame,
    post: FuzzState,
    out: Outcome,
)
    requires
        fuzzed(arith, FuzzerStrategy::RandomDelay { min, max }, now, pre, frame, post, out),
        millis(min) <= millis(max) <= u64::MAX,
    ensures
        out == Outcome::Delayed,
        post.random == following(pre.random as int),
        post.delayed.len() == pre.delayed.len() + 1,
        post.delayed.drop_last() == pre.delayed,
        post.delayed.last().frame == frame,
        ({
            let wait = post.delayed.last().release - now;
            &&& wait % 1_000_000 == 0
            &&& millis(min) == millis(max) ==> wait == millis(min) * 1_000_000
            &&& millis(min) < millis(max) ==> wait == (millis(min) + following(pre.random as int)
                % (millis(max) - millis(min))) * 1_000_000
            &&& millis(min) * 1_000_000 <= wait
            &&& millis(min) < millis(max) ==> wait < millis(max) * 1_000_000
        }),
        post.passed == pre.passed && post.dropped == pre.dropped,
        post.replay == pre.replay,
{
    let strategy = FuzzerStrategy::RandomDelay { min, max };
    alone_is_strategy(arith, strategy, now, pre, frame, post, out);
    the_generator_is_linear(pre.random);
    assert(post.delayed.drop_last() =~= pre.delayed);
    delays_drawn(min, max, post.random);
    let ms = random_delay_ms(min, max, post.random) as int;
    assert(post.delayed.last().release - now == ms * 1_000_000);
}

/// A replayed transmission is an earlier one. The transmissions of late are remembered, the current
/// one among them, no more than asked for; where there is one before the current one, the number
/// drawn says which of them goes out in its place.
pub proof fn a_replay_draws_an_earlier_one<A: Arithmetic>(
    arith: &A,
    buffer_size: usize,
    now: nat,
    pre: FuzzState,
    frame: Frame,
    post: FuzzState,
    out: Outcome,
)
    requires
        fuzzed(arith, FuzzerStrategy::Replay { buffer_size }, now, pre, frame, post, out),
    ensures
        post.passed == pre.passed + 1,
        post.dropped == pre.dropped,
        post.delayed == pre.delayed,
        pre.replay.len() < buffer_size ==> post.replay == pre.replay.push(frame),
        pre.replay.len() >= buffer_size ==> post.replay.len() == buffer_size && post.replay
            == pre.replay.push(frame).skip(pre.replay.len() + 1 - buffer_size),
        post.replay.len() <= 1 ==> out == Outcome::Pass(frame) && post.random == pre.random,
        post.replay.len() > 1 ==> post.random == following(pre.random as int) && out
            == Outcome::Modified(
            post.replay[(post.random as usize) as int % (post.replay.len() - 1)],
        ),
{
    alone_is_strategy(
        arith,
        FuzzerStrategy::Replay { buffer_size },
        now,
        pre,
        frame,
        post,
        out,
    );
    the_generator_is_linear(pre.random);
    let all = pre.replay.push(frame);
    if pre.replay.len() < buffer_size {
        assert(post.replay =~= all);
    } else {
        assert(post.replay =~= all.skip(pre.replay.len() + 1 - buffer_size));
    }
}

/// A strategy that changes samples gives a modified transmission: the one that came, with other
/// samples and all else as it was. It counts as passed, and neither what is held back nor what is
/// remembered changes.
pub proof fn reworking_changes_samples_only<A: Arithmetic>(
    arith: &A,
    strategy: FuzzerStrategy,
    now: nat,
    pre: FuzzState,
    frame: Frame,
    post: FuzzState,
    out: Outcome,
)
    requires
        strategy is CorruptSamples || strategy is BitFlip || strategy is Attenuate
            || strategy is AddNoise || strategy is Truncate || strategy is Reverse,
        fuzzed(arith, strategy, now, pre, frame, post, out),
    ensures
        out is Modified,
        ({
            let after = out->Modified_0;
            &&& after.start_sample == frame.start_sample
            &&& after.peak_level == frame.peak_level
            &&& after.avg_level == frame.avg_level
            &&& after.id == frame.id
        }),
        post.passed == pre.passed + 1,
        post.dropped == pre.dropped,
        post.delayed == pre.delayed,
        post.replay == pre.replay,
        strategy is Attenuate || strategy is Truncate || strategy is Reverse ==> post.random
            == pre.random,
{
    alone_is_strategy(arith, strategy, now, pre, frame, post, out);
}

/// Attenuation multiplies both parts of every sample by the factor.
pub proof fn attenuating_multiplies_every_part<A: Arithmetic>(
    arith: &A,
    factor: Single,
    now: nat,
    pre: FuzzState,
    frame: Frame,
    post: FuzzState,
    out: Outcome,
)
    requires
        fuzzed(arith, FuzzerStrategy::Attenuate(factor), now, pre, frame, post, out),
    ensures
        out->Modified_0.samples.len() == frame.samples.len(),
        forall|i: int|
            0 <= i < frame.samples.len() ==> call_ensures(
                A::times,
                (arith, (#[trigger] frame.samples[i]).re, factor),
                out->Modified_0.samples[i].re,
            ) && call_ensures(
                A::times,
                (arith, frame.samples[i].im, factor),
                out->Modified_0.samples[i].im,
            ),
{
    alone_is_strategy(arith, FuzzerStrategy::Attenuate(factor), now, pre, frame, post, out);
    let after = out->Modified_0.samples;
    assert forall|i: int| 0 <= i < frame.samples.len() implies call_ensures(
        A::times,
        (arith, (#[trigger] frame.samples[i]).re, factor),
        after[i].re,
    ) && call_ensures(A::times, (arith, frame.samples[i].im, factor), after[i].im) by {
        assert(product_of(arith, frame.samples[i].re, factor, after[i].re));
    }
}

/// Truncation keeps the beginning of a transmission: that percentage of its samples, rounded down,
/// but at least one where there are any, and never more than there are.
pub proof fn truncating_keeps_the_beginning<A: Arithmetic>(
    arith: &A,
    percent: u8,
    now: nat,
    pre: FuzzState,
    frame: Frame,
    post: FuzzState,
    out: Outcome,
)
    requires
        fuzzed(arith, FuzzerStrategy::Truncate(percent), now, pre, frame, post, out),
    ensures
        ({
            let n = frame.samples.len() as int;
            let after = out->Modified_0.samples;
            let kept = n * percent / 100;
            &&& after.len() <= n
            &&& forall|i: int| 0 <= i < after.len() ==> #[trigger] after[i] == frame.samples[i]
            &&& 1 <= kept <= n ==> after.len() == kept
            &&& kept < 1 && n > 0 ==> after.len() == 1
            &&& kept > n ==> after.len() == n
        }),
{
    alone_is_strategy(arith, FuzzerStrategy::Truncate(percent), now, pre, frame, post, out);
}

/// Reversal puts the samples in the opposite order.
pub proof fn reversing_turns_the_order_round<A: Arithmetic>(
    arith: &A,
    now: nat,
    pre: FuzzState,
    frame: Frame,
    post: FuzzState,
    out: Outcome,
)
    requires
        fuzzed(arith, FuzzerStrategy::Reverse, now, pre, frame, post, out),
    ensures
        out->Modified_0.samples.len() == frame.samples.len(),
        forall|i: int|
            0 <= i < frame.samples.len() ==> out->Modified_0.samples[i]
                == #[trigger] frame.samples[frame.samples.len() - 1 - i],
{
    alone_is_strategy(arith, FuzzerStrategy::Reverse, now, pre, frame, post, out);
}

/// `y` is `x` with one bit turned over in both parts, the same in both.
pub open spec fn one_bit_off(x: IqSample, y: IqSample, bit: u32) -> bool {
    &&& bit < 32
    &&& y.re.bits ^ x.re.bits == 1u32 << bit
    &&& y.im.bits ^ x.im.bits == 1u32 << bit
}

/// With the generator at `state` a number is drawn for a sample, and `f` is its fraction. The sample
/// changes if and only if that is below the probability: in one bit of each part, which one more
/// number names. `next` is where the generator then stands.
pub open spec fn flip_followed<A: Arithmetic>(
    arith: &A,
    probability: Single,
    before: IqSample,
    after: IqSample,
    state: u64,
    next: u64,
    f: Single,
) -> bool {
    let drawn = draw(state, 1);
    &&& fraction(arith, drawn, f)
    &&& after != before <==> f.below(probability)
    &&& after == before ==> next == drawn
    &&& after != before ==> next == draw(state, 2) && one_bit_off(
        before,
        after,
        (next % 32) as u32,
    )
}

/// For each sample a fraction is drawn, and the sample changes if and only if that fraction is below
/// the probability. A sample that changes does so in one bit of each part, which one more number
/// drawn names; all others stay as they are.
pub proof fn a_bit_flips_only_below_the_probability<A: Arithmetic>(
    arith: &A,
    probability: Single,
    now: nat,
    pre: FuzzState,
    frame: Frame,
    post: FuzzState,
    out: Outcome,
) -> (r: (Seq<u64>, Seq<Single>))
    requires
        fuzzed(arith, FuzzerStrategy::BitFlip { probability }, now, pre, frame, post, out),
    ensures
        out is Modified,
        out->Modified_0.samples.len() == frame.samples.len(),
        r.0.len() == frame.samples.len() + 1,
        r.1.len() == frame.samples.len(),
        r.0[0] == pre.random,
        r.0.last() == post.random,
        forall|i: int|
            0 <= i < frame.samples.len() ==> flip_followed(
                arith,
                probability,
                #[trigger] frame.samples[i],
                out->Modified_0.samples[i],
                r.0[i],
                r.0[i + 1],
                r.1[i],
            ),
{
    alone_is_strategy(
        arith,
        FuzzerStrategy::BitFlip { probability },
        now,
        pre,
        frame,
        post,
        out,
    );
    flips_follow_fractions(
        arith,
        probability,
        pre.random,
        frame.samples,
        post.random,
        out->Modified_0.samples,
    )
}

proof fn flips_follow_fractions<A: Arithmetic>(
    arith: &A,
    probability: Single,
    random: u64,
    samples: Seq<IqSample>,
    random_after: u64,
    after: Seq<IqSample>,
) -> (r: (Seq<u64>, Seq<Single>))
    requires
        flipped_all(arith, probability, random, samples, random_after, after),
    ensures
        after.len() == samples.len(),
        r.0.len() == samples.len() + 1,
        r.1.len() == samples.len(),
        r.0[0] == random,
        r.0.last() == random_after,
        forall|i: int|
            0 <= i < samples.len() ==> flip_followed(
                arith,
                probability,
                #[trigger] samples[i],
                after[i],
                r.0[i],
                r.0[i + 1],
                r.1[i],
            ),
    decreases samples.len(),
{
    if samples.len() == 0 {
        (seq![random], Seq::empty())
    } else {
        let mid = choose|mid: u64| #[trigger]
            flipped_once(arith, probability, mid, samples.last(), random_after, after.last())
                && flipped_all(
                arith,
                probability,
                random,
                samples.drop_last(),
                mid,
                after.drop_last(),
            );
        let r = flips_follow_fractions(
            arith,
            probability,
            random,
            samples.drop_last(),
            mid,
            after.drop_last(),
        );
        let f = one_flip_followed(
            arith,
            probability,
            mid,
            samples.last(),
            random_after,
            after.last(),
        );
        let states = r.0.push(random_after);
        let fractions = r.1.push(f);
        assert forall|i: int| 0 <= i < samples.len() implies flip_followed(
            arith,
            probability,
            #[trigger] samples[i],
            after[i],
            states[i],
            states[i + 1],
            fractions[i],
        ) by {
            if i < samples.len() - 1 {
                assert(samples.drop_last()[i] == samples[i]);
                assert(after.drop_last()[i] == after[i]);
            }
        }
        (states, fractions)
    }
}

proof fn one_flip_followed<A: Arithmetic>(
    arith: &A,
    probability: Single,
    state: u64,
    before: IqSample,
    next: u64,
    after: IqSample,
) -> (f: Single)
    requires
        flipped_once(arith, probability, state, before, next, after),
    ensures
        flip_followed(arith, probability, before, after, state, next, f),
{
    one_more_draw(state, 0);
    one_more_draw(state, 1);
    assert(draw(state, 0) == state);
    let drawn = next_state(state);
    let f = choose|f: Single| #[trigger]
        fraction_of(arith, drawn, f) && if f.below(probability) {
            next == next_state(drawn) && after == flipped(before, (next % 32) as u32)
        } else {
            next == drawn && after == before
        };
    fractions_are_of_the_lower_bits(arith, drawn, f);
    if f.below(probability) {
        let bit = (next % 32) as u32;
        let re = before.re.bits;
        let im = before.im.bits;
        assert(bit < 32);
        assert((re ^ (1u32 << bit)) ^ re == 1u32 << bit && (re ^ (1u32 << bit)) != re)
            by (bit_vector)
            requires
                bit < 32,
        ;
        assert((im ^ (1u32 << bit)) ^ im == 1u32 << bit) by (bit_vector)
            requires
                bit < 32,
        ;
        assert(after.re.bits == re ^ (1u32 << bit));
    }
    f
}

/// `y` is `x` and a signed fraction of `amplitude`.
pub open spec fn with_noise<A: Arithmetic>(
    arith: &A,
    amplitude: Single,
    number: u64,
    x: Single,
    y: Single,
) -> bool {
    exists|s: Single, n: Single|
        signed_fraction(arith, number, s) && #[trigger] call_ensures(
            A::times,
            (arith, s, amplitude),
            n,
        ) && call_ensures(A::plus, (arith, x, n), y)
}

/// Noise is added to both parts of every sample, each time by a number drawn for it and scaled to the
/// amplitude: two numbers for each sample, in turn.
pub proof fn noise_is_added_to_every_part<A: Arithmetic>(
    arith: &A,
    amplitude: Single,
    now: nat,
    pre: FuzzState,
    frame: Frame,
    post: FuzzState,
    out: Outcome,
)
    requires
        fuzzed(arith, FuzzerStrategy::AddNoise { amplitude }, now, pre, frame, post, out),
    ensures
        out->Modified_0.samples.len() == frame.samples.len(),
        post.random == draw(pre.random, 2 * frame.samples.len()),
        forall|i: int|
            0 <= i < frame.samples.len() ==> {
                let before = #[trigger] frame.samples[i];
                let after = out->Modified_0.samples[i];
                &&& with_noise(
                    arith,
                    amplitude,
                    draw(pre.random, (2 * i + 1) as nat),
                    before.re,
                    after.re,
                )
                &&& with_noise(
                    arith,
                    amplitude,
                    draw(pre.random, (2 * i + 2) as nat),
                    before.im,
                    after.im,
                )
            },
{
    alone_is_strategy(arith, FuzzerStrategy::AddNoise { amplitude }, now, pre, frame, post, out);
    noise_comes_by_twos(
        arith,
        amplitude,
        pre.random,
        frame.samples,
        post.random,
        out->Modified_0.samples,
    );
}

proof fn noise_comes_by_twos<A: Arithmetic>(
    arith: &A,
    amplitude: Single,
    random: u64,
    samples: Seq<IqSample>,
    random_after: u64,
    after: Seq<IqSample>,
)
    requires
        noisy_all(arith, amplitude, random, samples, random_after, after),
    ensures
        after.len() == samples.len(),
        random_after == draw(random, 2 * samples.len()),
        forall|i: int|
            0 <= i < samples.len() ==> {
                &&& with_noise(
                    arith,
                    amplitude,
                    draw(random, (2 * i + 1) as nat),
                    (#[trigger] samples[i]).re,
                    after[i].re,
                )
                &&& with_noise(
                    arith,
                    amplitude,
                    draw(random, (2 * i + 2) as nat),
                    samples[i].im,
                    after[i].im,
                )
            },
    decreases samples.len(),
{
    if samples.len() > 0 {
        let n = (samples.len() - 1) as nat;
        let mid = choose|mid: u64| #[trigger]
            noisy_once(arith, amplitude, mid, samples.last(), random_after, after.last())
                && noisy_all(
                arith,
                amplitude,
                random,
                samples.drop_last(),
                mid,
                after.drop_last(),
            );
        noise_comes_by_twos(
            arith,
            amplitude,
            random,
            samples.drop_last(),
            mid,
            after.drop_last(),
        );
        one_more_draw(random, 2 * n);
        one_more_draw(random, 2 * n + 1);
        noise_is_scaled(
            arith,
            amplitude,
            draw(random, 2 * n + 1),
            samples.last().re,
            after.last().re,
        );
        noise_is_scaled(
            arith,
            amplitude,
            draw(random, 2 * n + 2),
            samples.last().im,
            after.last().im,
        );
        assert forall|i: int| 0 <= i < samples.len() implies {
            &&& with_noise(
                arith,
                amplitude,
                draw(random, (2 * i + 1) as nat),
                (#[trigger] samples[i]).re,
                after[i].re,
            )
            &&& with_noise(
                arith,
                amplitude,
                draw(random, (2 * i + 2) as nat),
                samples[i].im,
                after[i].im,
            )
        } by {
            if i < n {
                assert(samples.drop_last()[i] == samples[i]);
                assert(after.drop_last()[i] == after[i]);
            }
        }
    }
}

proof fn noise_is_scaled<A: Arithmetic>(
    arith: &A,
    amplitude: Single,
    number: u64,
    x: Single,
    y: Single,
)
    requires
        noisy_value(arith, amplitude, number, x, y),
    ensures
        with_noise(arith, amplitude, number, x, y),
{
    let (s, n) = choose|s: Single, n: Single|
        signed_of(arith, number, s) && #[trigger] product_of(arith, s, amplitude, n) && sum_of(
            arith,
            x,
            n,
            y,
        );
    signed_fractions_are_doubled_less_one(arith, number, s);
    assert(call_ensures(A::times, (arith, s, amplitude), n));
}

/// Whether round `k` of corruption hits place `i` of `len`.
pub open spec fn hits(state: u64, k: int, len: int, i: int) -> bool {
    (draw(state, (3 * k + 1) as nat) as usize) as int % len == i
}

/// Corruption replaces samples in as many rounds as the percentage is of their number, rounded down.
/// In each round three numbers are drawn: one for the place, and one for each part of the sample that
/// is put there. A place that no round hits is left as it is; another has the sample of the last round
/// that hit it.
pub proof fn corruption_replaces_the_places_drawn<A: Arithmetic>(
    arith: &A,
    percent: u8,
    now: nat,
    pre: FuzzState,
    frame: Frame,
    post: FuzzState,
    out: Outcome,
)
    requires
        fuzzed(arith, FuzzerStrategy::CorruptSamples(percent), now, pre, frame, post, out),
    ensures
        ({
            let n = frame.samples.len() as int;
            let rounds = n * percent / 100;
            let after = out->Modified_0.samples;
            &&& after.len() == n
            &&& post.random == draw(pre.random, (3 * rounds) as nat)
            &&& forall|i: int|
                0 <= i < n && (forall|k: int|
                    0 <= k < rounds ==> !#[trigger] hits(pre.random, k, n, i))
                    ==> #[trigger] after[i] == frame.samples[i]
            &&& forall|i: int, k: int|
                0 <= i < n && 0 <= k < rounds && #[trigger] hits(pre.random, k, n, i) && (forall|
                    later: int,
                |
                    k < later < rounds ==> !#[trigger] hits(pre.random, later, n, i)) ==> {
                    &&& signed_fraction(
                        arith,
                        draw(pre.random, (3 * k + 2) as nat),
                        (#[trigger] after[i]).re,
                    )
                    &&& signed_fraction(arith, draw(pre.random, (3 * k + 3) as nat), after[i].im)
                }
        }),
{
    alone_is_strategy(
        arith,
        FuzzerStrategy::CorruptSamples(percent),
        now,
        pre,
        frame,
        post,
        out,
    );
    let n = frame.samples.len() as int;
    assert(0 <= n * percent) by (nonlinear_arith)
        requires
            0 <= n,
    ;
    let rounds = (n * percent / 100) as nat;
    rounds_replace(
        arith,
        rounds,
        pre.random,
        frame.samples,
        post.random,
        out->Modified_0.samples,
    );
}

proof fn rounds_replace<A: Arithmetic>(
    arith: &A,
    rounds: nat,
    random: u64,
    samples: Seq<IqSample>,
    random_after: u64,
    after: Seq<IqSample>,
)
    requires
        corrupted(arith, rounds, random, samples, random_after, after),
    ensures
        after.len() == samples.len(),
        random_after == draw(random, 3 * rounds),
        forall|i: int|
            0 <= i < samples.len() && (forall|k: int|
                0 <= k < rounds ==> !#[trigger] hits(random, k, samples.len() as int, i))
                ==> #[trigger] after[i] == samples[i],
        forall|i: int, k: int|
            0 <= i < samples.len() && 0 <= k < rounds && #[trigger] hits(
                random,
                k,
                samples.len() as int,
                i,
            ) && (forall|later: int|
                k < later < rounds ==> !#[trigger] hits(random, later, samples.len() as int, i))
                ==> {
                &&& signed_fraction(
                    arith,
                    draw(random, (3 * k + 2) as nat),
                    (#[trigger] after[i]).re,
                )
                &&& signed_fraction(arith, draw(random, (3 * k + 3) as nat), after[i].im)
            },
    decreases rounds,
{
    if rounds > 0 {
        let n = samples.len() as int;
        let before = (rounds - 1) as nat;
        let (r, s) = choose|r: u64, s: Seq<IqSample>| #[trigger]
            corrupted_once(arith, r, s, random_after, after) && corrupted(
                arith,
                before,
                random,
                samples,
                r,
                s,
            );
        rounds_replace(arith, before, random, samples, r, s);
        one_more_draw(random, 3 * before);
        one_more_draw(random, 3 * before + 1);
        one_more_draw(random, 3 * before + 2);
        let idx = (next_state(r) as usize) as int % s.len() as int;
        signed_fractions_are_doubled_less_one(arith, draw(random, 3 * before + 2), after[idx].re);
        signed_fractions_are_doubled_less_one(arith, draw(random, 3 * before + 3), after[idx].im);
        assert forall|i: int| 0 <= i < n implies (hits(random, before as int, n, i) <==> i == idx)
            by {}
        assert forall|i: int| 0 <= i < n && i != idx implies #[trigger] after[i] == s[i] by {
            assert(after[i] == s.update(idx, after[idx])[i]);
        }
        assert forall|i: int|
            0 <= i < n && (forall|k: int| 0 <= k < rounds ==> !#[trigger] hits(random, k, n, i))
            implies #[trigger] after[i] == samples[i] by {
            assert(!hits(random, before as int, n, i));
            assert(s[i] == samples[i]);
        }
        assert forall|i: int, k: int|
            0 <= i < n && 0 <= k < rounds && #[trigger] hits(random, k, n, i) && (forall|
                later: int,
            |
                k < later < rounds ==> !#[trigger] hits(random, later, n, i)) implies {
            &&& signed_fraction(arith, draw(random, (3 * k + 2) as nat), (#[trigger] after[i]).re)
            &&& signed_fraction(arith, draw(random, (3 * k + 3) as nat), after[i].im)
        } by {
            if k < before {
                assert(!hits(random, before as int, n, i));
                assert(after[i] == s[i]);
            }
        }
    }
}

/// What a strategy hands on, if it does.
pub open spec fn handed_on(out: Outcome) -> Option<Frame> {
    match out {
        Outcome::Pass(f) | Outcome::Modified(f) => Some(f),
        _ => None,
    }
}

/// A chain runs its strategies one after the other: the first takes the transmission that came, each
/// other one what the one before it handed on. It ends early only with a strategy that hands nothing
/// on, and then with what that one said; if it runs to its end, what the last one handed on goes out
/// as modified.
pub proof fn a_chain_runs_in_order<A: Arithmetic>(
    arith: &A,
    strategies: Seq<FuzzerStrategy>,
    now: nat,
    pre: FuzzState,
    frame: Frame,
    post: FuzzState,
    out: Outcome,
) -> (r: (Seq<FuzzState>, Seq<Frame>, Seq<Outcome>))
    requires
        chained(arith, strategies, now, pre, frame, post, out),
    ensures
        r.2.len() <= strategies.len(),
        r.0.len() == r.2.len() + 1,
        r.1.len() == r.2.len() + 1,
        r.0[0] == pre,
        r.0.last() == post,
        r.1[0] == frame,
        forall|i: int|
            0 <= i < r.2.len() ==> fuzzed(
                arith,
                strategies[i],
                now,
                r.0[i],
                r.1[i],
                r.0[i + 1],
                #[trigger] r.2[i],
            ),
        forall|i: int|
            0 <= i < r.2.len() - 1 ==> handed_on(#[trigger] r.2[i]) == Some(r.1[i + 1]),
        r.2.len() < strategies.len() ==> r.2.len() > 0 && handed_on(r.2.last()) is None,
        r.2.len() > 0 && handed_on(r.2.last()) is None ==> out == r.2.last(),
        r.2.len() > 0 && handed_on(r.2.last()) is Some ==> out == Outcome::Modified(
            handed_on(r.2.last())->0,
        ),
        strategies.len() == 0 ==> out == Outcome::Modified(frame),
    decreases strategies.len(),
{
    if strategies.len() == 0 {
        reveal_with_fuel(chained, 1);
        (seq![pre], seq![frame], Seq::empty())
    } else {
        let (mid, said) = chain_parts(arith, strategies, now, pre, frame, post, out);
        match said {
            Outcome::Pass(f) | Outcome::Modified(f) => {
                let rest = strategies.drop_first();
                let r = a_chain_runs_in_order(arith, rest, now, mid, f, post, out);
                let states = seq![pre] + r.0;
                let frames = seq![frame] + r.1;
                let outs = seq![said] + r.2;
                assert forall|i: int| 0 <= i < outs.len() implies fuzzed(
                    arith,
                    strategies[i],
                    now,
                    states[i],
                    frames[i],
                    states[i + 1],
                    #[trigger] outs[i],
                ) by {
                    if i > 0 {
                        assert(outs[i] == r.2[i - 1]);
                        assert(rest[i - 1] == strategies[i]);
                    }
                }
                assert forall|i: int| 0 <= i < outs.len() - 1 implies handed_on(
                    #[trigger] outs[i],
                ) == Some(frames[i + 1]) by {
                    if i > 0 {
                        assert(outs[i] == r.2[i - 1]);
                        assert(frames[i + 1] == r.1[i]);
                    }
                }
                if r.2.len() > 0 {
                    assert(outs.last() == r.2.last());
                } else {
                    assert(outs.last() == said);
                }
                assert(states.last() == r.0.last());
                (states, frames, outs)
            },
            _ => (seq![pre, post], seq![frame, frame], seq![said]),
        }
    }
}

/// What a fuzzer does with a transmission is what its strategy does, at the moment that it is given;
/// strategy and origin stay as they are.
pub proof fn processing_is_fuzzing<A: Arithmetic>(
    fuzzer: &mut Fuzzer,
    arith: &A,
    now: Span,
    tx: Transmission,
    action: FuzzerAction,
)
    requires
        call_ensures(Fuzzer::process_at::<A>, (fuzzer, arith, now, tx), action),
    ensures
        final(fuzzer).strategy() == old(fuzzer).strategy(),
        final(fuzzer).origin() == old(fuzzer).origin(),
        fuzzed(
            arith,
            old(fuzzer).strategy(),
            (now.secs * 1_000_000_000 + now.nanos) as nat,
            old(fuzzer)@,
            tx@,
            final(fuzzer)@,
            action@,
        ),
{
}

/// The same of processing now: the moment is what the clock shows.
pub proof fn processing_now_is_fuzzing<A: Arithmetic>(
    fuzzer: &mut Fuzzer,
    arith: &A,
    tx: Transmission,
    action: FuzzerAction,
)
    requires
        call_ensures(Fuzzer::process::<A>, (fuzzer, arith, tx), action),
    ensures
        final(fuzzer).strategy() == old(fuzzer).strategy(),
        final(fuzzer).origin() == old(fuzzer).origin(),
        exists|now: Span| #[trigger]
            shown_by_clock(old(fuzzer).origin(), now) && fuzzed(
                arith,
                old(fuzzer).strategy(),
                (now.secs * 1_000_000_000 + now.nanos) as nat,
                old(fuzzer)@,
                tx@,
                final(fuzzer)@,
                action@,
            ),
{
    let now = choose|now: Span| #[trigger]
        shown_by_clock(old(fuzzer).origin(), now) && fuzzed(
            arith,
            old(fuzzer).strategy(),
            now.total_nanos(),
            old(fuzzer)@,
            tx@,
            final(fuzzer)@,
            action@,
        );
    assert(now.total_nanos() == (now.secs * 1_000_000_000 + now.nanos) as nat);
}

/// A chain of a fuzzer does what its strategies do in turn.
pub proof fn a_fuzzer_runs_its_chain<A: Arithmetic>(
    fuzzer: &mut Fuzzer,
    arith: &A,
    now: Span,
    tx: Transmission,
    action: FuzzerAction,
)
    requires
        call_ensures(Fuzzer::process_at::<A>, (fuzzer, arith, now, tx), action),
        old(fuzzer).strategy() is Chain,
    ensures
        chained(
            arith,
            old(fuzzer).strategy()->Chain_0@,
            (now.secs * 1_000_000_000 + now.nanos) as nat,
            old(fuzzer)@,
            tx@,
            final(fuzzer)@,
            action@,
        ),
{
    chain_is_strategy(
        arith,
        old(fuzzer).strategy(),
        now.total_nanos(),
        old(fuzzer)@,
        tx@,
        final(fuzzer)@,
        action@,
    );
}

/// A poll hands over every transmission whose time has come and no other, each as it was held and
/// once; those stay that have to wait. What is handed over counts as passed.
pub proof fn a_poll_releases_what_is_due(fuzzer: &mut Fuzzer, now: Span, ready: Vec<Transmission>)
    requires
        call_ensures(Fuzzer::poll_delayed_at, (fuzzer, now), ready),
    ensures
        final(fuzzer).strategy() == old(fuzzer).strategy(),
        final(fuzzer).origin() == old(fuzzer).origin(),
        ready_at(
            old(fuzzer)@,
            (now.secs * 1_000_000_000 + now.nanos) as nat,
            final(fuzzer)@,
            ready@,
        ),
{
    let t = now.total_nanos();
    due_are_ready(old(fuzzer)@, t, final(fuzzer)@, ready@);
}

/// The same of polling now: the moment is what the clock shows.
pub proof fn a_poll_now_releases_what_is_due(fuzzer: &mut Fuzzer, ready: Vec<Transmission>)
    requires
        call_ensures(Fuzzer::poll_delayed, (fuzzer,), ready),
    ensures
        final(fuzzer).strategy() == old(fuzzer).strategy(),
        final(fuzzer).origin() == old(fuzzer).origin(),
        exists|now: Span| #[trigger]
            shown_by_clock(old(fuzzer).origin(), now) && ready_at(
                old(fuzzer)@,
                (now.secs * 1_000_000_000 + now.nanos) as nat,
                final(fuzzer)@,
                ready@,
            ),
{
    let now = choose|now: Span| #[trigger]
        shown_by_clock(old(fuzzer).origin(), now) && released(
            old(fuzzer)@,
            now.total_nanos(),
            final(fuzzer)@,
            frames_of(ready@),
        );
    due_are_ready(old(fuzzer)@, now.total_nanos(), final(fuzzer)@, ready@);
}

/// `ready` are the transmissions whose time had come by `now`, in the order they were held, and
/// `post` is what is left.
pub open spec fn ready_at(
    pre: FuzzState,
    now: nat,
    post: FuzzState,
    ready: Seq<Transmission>,
) -> bool {
    let there = pre.delayed.filter(|h: Held| h.release <= now);
    &&& ready.len() == there.len()
    &&& forall|i: int| 0 <= i < ready.len() ==> (#[trigger] ready[i])@ == there[i].frame
    &&& post.delayed == pre.delayed.filter(|h: Held| h.release > now)
    &&& post.passed == pre.passed + ready.len()
    &&& post.dropped == pre.dropped
    &&& post.replay == pre.replay
    &&& post.random == pre.random
    &&& ready.len() + post.delayed.len() == pre.delayed.len()
    &&& forall|i: int|
        0 <= i < pre.delayed.len() && (#[trigger] pre.delayed[i]).release > now
            ==> post.delayed.contains(pre.delayed[i])
    &&& forall|i: int| 0 <= i < post.delayed.len() ==> (#[trigger] post.delayed[i]).release > now
}

pub proof fn due_are_ready(pre: FuzzState, now: nat, post: FuzzState, ready: Seq<Transmission>)
    requires
        released(pre, now, post, frames_of(ready)),
    ensures
        ready_at(pre, now, post, ready),
{
    release_conserves(pre, now, post, frames_of(ready));
    all_due_are_released(pre, now, post, frames_of(ready));
    let there = pre.delayed.filter(|h: Held| h.release <= now);
    assert(there == due(pre.delayed, now));
    assert(post.delayed == pre.delayed.filter(|h: Held| h.release > now)) by {
        assert(post.delayed == waiting(pre.delayed, now));
    }
    assert(frames_of(ready).len() == held_frames(there).len());
    assert forall|i: int| 0 <= i < ready.len() implies (#[trigger] ready[i])@ == there[i].frame by {
        assert(frames_of(ready)[i] == held_frames(there)[i]);
    }
}

/// A new fuzzer has counted nothing, holds nothing and remembers nothing; its generator stands at
/// its seed.
pub proof fn a_new_fuzzer_is_empty(strategy: FuzzerStrategy, fuzzer: Fuzzer)
    requires
        call_ensures(Fuzzer::new, (strategy,), fuzzer),
    ensures
        fuzzer.strategy() == strategy,
        fuzzer@.passed == 0 && fuzzer@.dropped == 0,
        fuzzer@.delayed.len() == 0 && fuzzer@.replay.len() == 0,
        fuzzer@.random == 0x1234_5678,
{
}

/// What a fuzzer says of itself is what it has counted and holds.
pub proof fn statistics_are_the_counters(fuzzer: Fuzzer, stats: FuzzerStats, held: usize)
    requires
        call_ensures(Fuzzer::stats, (&fuzzer,), stats),
        call_ensures(Fuzzer::delayed_count, (&fuzzer,), held),
    ensures
        stats.passed == fuzzer@.passed,
        stats.dropped == fuzzer@.dropped,
        stats.delayed == fuzzer@.delayed.len(),
        held == fuzzer@.delayed.len(),
{
}

/// A strategy is valid if no random delay in it has a smallest delay above its largest, in whole
/// milliseconds; a chain is if each of its strategies is.
pub proof fn delays_are_to_be_in_order(strategy: FuzzerStrategy, r: bool)
    requires
        call_ensures(FuzzerStrategy::is_valid, (&strategy,), r),
    ensures
        strategy matches FuzzerStrategy::RandomDelay { min, max } ==> (r <==> millis(min)
            <= millis(max)),
        strategy matches FuzzerStrategy::Chain(parts) ==> (r <==> forall|i: int|
            0 <= i < parts@.len() ==> delays_in_order(#[trigger] parts@[i])),
        !(strategy is RandomDelay) && !(strategy is Chain) ==> r,
        r <==> delays_in_order(strategy),
{
}

/// A chain has as many stages as its strategies have together; any other strategy has one.
pub proof fn stages_add_up(strategy: FuzzerStrategy, n: Option<u64>)
    requires
        call_ensures(FuzzerStrategy::stage_count, (&strategy,), n),
    ensures
        !(strategy is Chain) ==> n == Some(1u64),
        n matches Some(count) ==> count == stages(strategy),
        strategy is Chain && strategy->Chain_0@.len() == 0 ==> n == Some(0u64),
        strategy is Chain && strategy->Chain_0@.len() == 1 ==> stages(strategy) == stages(
            strategy->Chain_0@[0],
        ),
        n is None <==> stages(strategy) > 0xFFFF_FFFF_FFFF_FFFF,
{
    if strategy is Chain && strategy->Chain_0@.len() == 1 {
        let parts = strategy->Chain_0@;
        assert(chain_stages(parts.drop_first()) == 0);
    }
}

/// Chains put together have the stages of both.
pub proof fn stages_of_both_chains(a: Seq<FuzzerStrategy>, b: Seq<FuzzerStrategy>)
    ensures
        chain_stages(a + b) == chain_stages(a) + chain_stages(b),
    decreases a.len(),
{
    if a.len() == 0 {
        assert(a + b =~= b);
    } else {
        assert((a + b).drop_first() =~= a.drop_first() + b);
        stages_of_both_chains(a.drop_first(), b);
    }
}

/// A fuzzer takes one more transmission if and only if its strategy is valid and no counter can run
/// over: that of those passed by a stage each, of those held and of this one, nor that of those
/// dropped.
pub proof fn a_fuzzer_takes_what_it_can_count(fuzzer: Fuzzer, r: bool)
    requires
        call_ensures(Fuzzer::can_process, (&fuzzer,), r),
    ensures
        r <==> delays_in_order(fuzzer.strategy()) && fuzzer@.passed + fuzzer@.delayed.len() + stages(
            fuzzer.strategy(),
        ) <= 0xFFFF_FFFF_FFFF_FFFF && fuzzer@.dropped < 0xFFFF_FFFF_FFFF_FFFF,
{
}

/// A copy of a strategy is the same, and that of a chain has copies of the same strategies in the same
/// order.
pub proof fn a_copy_of_a_strategy_is_the_same(strategy: FuzzerStrategy, copy: FuzzerStrategy)
    requires
        call_ensures(FuzzerStrategy::clone, (&strategy,), copy),
    ensures
        !(strategy is Chain) ==> copy == strategy,
        strategy matches FuzzerStrategy::Chain(parts) ==> copy is Chain && copy->Chain_0@.len()
            == parts@.len() && forall|i: int|
            0 <= i < parts@.len() ==> alike(#[trigger] parts@[i], copy->Chain_0@[i]),
{
}

/// What comes of a transmission stays the same in a copy.
pub proof fn a_copy_of_an_action_is_the_same(action: FuzzerAction, copy: FuzzerAction)
    requires
        call_ensures(FuzzerAction::clone, (&action,), copy),
    ensures
        action is Drop ==> copy is Drop,
        action is Delayed ==> copy is Delayed,
        action matches FuzzerAction::Pass(tx) ==> (copy matches FuzzerAction::Pass(other)
            && other@ == tx@),
        action matches FuzzerAction::Modified(tx) ==> (copy matches FuzzerAction::Modified(other)
            && other@ == tx@),
{
}

} // verus!
