//! What holds of every run of the transmission detector.
use vstd::prelude::*;

use crate::arith::{
    count_of, largest, one_running_sum, quotient_of, repeatable, root_of, running_sum, Arithmetic,
    Single,
};
use crate::detector::{
    all_realise, average_of, consistent, detect, detect_one, detected, finished, flushed, grown,
    idle_after, initial_progress, kept, over, realises, size_limit, DetectorConfig, Progress,
    Segment, Transmission,
};
use crate::fuzzer::frames_of;
use crate::signal::{levels_of, magnitude_of, mean_of, one_power, power_of, IqSample};

verus! {

/// How a stream is cut into stretches does not matter: two in a row do what the whole does.
pub proof fn buffers_do_not_matter(
    config: DetectorConfig,
    p: Progress,
    first: Seq<IqSample>,
    first_levels: Seq<Single>,
    second: Seq<IqSample>,
    second_levels: Seq<Single>,
)
    requires
        first.len() == first_levels.len(),
        second.len() == second_levels.len(),
    ensures
        ({
            let a = detect(config, p, first, first_levels);
            let b = detect(config, a.0, second, second_levels);
            detect(config, p, first + second, first_levels + second_levels) == (b.0, a.1 + b.1)
        }),
    decreases second.len(),
{
    let whole = first + second;
    let whole_levels = first_levels + second_levels;
    let a = detect(config, p, first, first_levels);
    if second.len() == 0 {
        assert(whole =~= first);
        assert(whole_levels =~= first_levels);
        assert(a.1 + Seq::<Segment>::empty() =~= a.1);
    } else {
        buffers_do_not_matter(
            config,
            p,
            first,
            first_levels,
            second.drop_last(),
            second_levels.drop_last(),
        );
        assert(whole.drop_last() =~= first + second.drop_last());
        assert(whole_levels.drop_last() =~= first_levels + second_levels.drop_last());
        let before = detect(config, a.0, second.drop_last(), second_levels.drop_last());
        let last = detect_one(config, before.0, second.last(), second_levels.last());
        if let Some(segment) = last.1 {
            assert((a.1 + before.1).push(segment) =~= a.1 + before.1.push(segment));
        }
    }
}

/// The host finds the same level whenever it measures a sample, and the same average whenever it
/// averages levels.
pub open spec fn measures_alike<A: Arithmetic>(arith: &A) -> bool {
    &&& forall|s: IqSample, x: Single, y: Single|
        #[trigger] magnitude_of(arith, s, x) && #[trigger] magnitude_of(arith, s, y) ==> x == y
    &&& forall|levels: Seq<Single>, x: Single, y: Single|
        #[trigger] average_of(arith, levels, x) && #[trigger] average_of(arith, levels, y) ==> x
            == y
}

/// A host whose operations give one result for the same operands measures alike.
pub proof fn repeatable_measures_alike<A: Arithmetic>(arith: &A)
    requires
        repeatable(arith),
    ensures
        measures_alike(arith),
{
    assert forall|s: IqSample, x: Single, y: Single|
        #[trigger] magnitude_of(arith, s, x) && #[trigger] magnitude_of(arith, s, y) implies x
        == y by {
        let p = choose|p: Single| power_of(arith, s, p) && #[trigger] root_of(arith, p, x);
        let q = choose|q: Single| power_of(arith, s, q) && #[trigger] root_of(arith, q, y);
        one_power(arith, s, p, q);
    }
    assert forall|levels: Seq<Single>, x: Single, y: Single|
        #[trigger] average_of(arith, levels, x) && #[trigger] average_of(
            arith,
            levels,
            y,
        ) implies x == y by {
        let n = levels.len() as u64;
        let first = levels[0];
        let rest = levels.drop_first();
        let a = choose|a: Single|
            running_sum(arith, first, rest, a) && #[trigger] mean_of(arith, a, n, x);
        let b = choose|b: Single|
            running_sum(arith, first, rest, b) && #[trigger] mean_of(arith, b, n, y);
        one_running_sum(arith, first, rest, a, b);
        let d = choose|d: Single| count_of(arith, n, d) && #[trigger] quotient_of(arith, a, d, x);
        let e = choose|e: Single| count_of(arith, n, e) && #[trigger] quotient_of(arith, b, e, y);
        assert(d == e);
    }
}

/// With levels and averages that a host finds alike, two lists of transmissions that come of the
/// same segments hold the same.
proof fn one_realisation<A: Arithmetic>(
    arith: &A,
    segments: Seq<Segment>,
    x: Seq<Transmission>,
    y: Seq<Transmission>,
)
    requires
        measures_alike(arith),
        all_realise(arith, x, segments),
        all_realise(arith, y, segments),
    ensures
        frames_of(x) == frames_of(y),
{
    assert forall|i: int| 0 <= i < x.len() implies frames_of(x)[i] == frames_of(y)[i] by {
        assert(realises(arith, x[i]@, segments[i]));
        assert(realises(arith, y[i]@, segments[i]));
    }
    assert(frames_of(x) =~= frames_of(y));
}

/// Levels that are found alike are the same.
proof fn one_measurement<A: Arithmetic>(
    arith: &A,
    samples: Seq<IqSample>,
    x: Seq<Single>,
    y: Seq<Single>,
)
    requires
        measures_alike(arith),
        levels_of(arith, samples, x),
        levels_of(arith, samples, y),
    ensures
        x == y,
{
    assert forall|i: int| 0 <= i < x.len() implies x[i] == y[i] by {
        assert(magnitude_of(arith, samples[i], x[i]));
        assert(magnitude_of(arith, samples[i], y[i]));
    }
    assert(x =~= y);
}

/// Two detectors with the same configuration that remember the same behave alike: the same samples
/// leave them remembering the same, and they find the same transmissions.
pub proof fn detectors_behave_alike<A: Arithmetic>(
    arith: &A,
    config: DetectorConfig,
    pre: Progress,
    samples: Seq<IqSample>,
    post: Progress,
    found: Seq<Transmission>,
    other_post: Progress,
    other_found: Seq<Transmission>,
)
    requires
        measures_alike(arith),
        detected(arith, config, pre, samples, post, found),
        detected(arith, config, pre, samples, other_post, other_found),
    ensures
        post == other_post,
        frames_of(found) == frames_of(other_found),
{
    let x = choose|x: Seq<Single>| #[trigger]
        levels_of(arith, samples, x) && {
            let run = detect(config, pre, samples, x);
            post == run.0 && all_realise(arith, found, run.1)
        };
    let y = choose|y: Seq<Single>| #[trigger]
        levels_of(arith, samples, y) && {
            let run = detect(config, pre, samples, y);
            other_post == run.0 && all_realise(arith, other_found, run.1)
        };
    one_measurement(arith, samples, x, y);
    one_realisation(arith, detect(config, pre, samples, x).1, found, other_found);
}

/// The same of a flush.
pub proof fn flushes_behave_alike<A: Arithmetic>(
    arith: &A,
    config: DetectorConfig,
    pre: Progress,
    post: Progress,
    found: Option<Transmission>,
    other_post: Progress,
    other_found: Option<Transmission>,
)
    requires
        measures_alike(arith),
        flushed(arith, config, pre, post, found),
        flushed(arith, config, pre, other_post, other_found),
    ensures
        post == other_post,
        found is Some <==> other_found is Some,
        found is Some ==> found->0@ == other_found->0@,
{
    if found is Some && other_found is Some {
        let segment = finished(config, pre).1->0;
        assert(realises(arith, found->0@, segment));
        assert(realises(arith, other_found->0@, segment));
        assert(found->0@ =~= other_found->0@);
    }
}

/// How a stream is cut into buffers does not show in what is found: a detector that takes two
/// buffers in a row finds in the first and then in the second, field by field, the transmissions that
/// one finds which takes both as a single buffer, and the two remember the same afterwards.
pub proof fn cuts_do_not_show<A: Arithmetic>(
    arith: &A,
    config: DetectorConfig,
    pre: Progress,
    a: Seq<IqSample>,
    b: Seq<IqSample>,
    post: Progress,
    found: Seq<Transmission>,
    mid: Progress,
    found_a: Seq<Transmission>,
    end: Progress,
    found_b: Seq<Transmission>,
)
    requires
        measures_alike(arith),
        detected(arith, config, pre, a + b, post, found),
        detected(arith, config, pre, a, mid, found_a),
        detected(arith, config, mid, b, end, found_b),
    ensures
        post == end,
        frames_of(found) == frames_of(found_a) + frames_of(found_b),
{
    let x = choose|x: Seq<Single>| #[trigger]
        levels_of(arith, a, x) && {
            let run = detect(config, pre, a, x);
            mid == run.0 && all_realise(arith, found_a, run.1)
        };
    let y = choose|y: Seq<Single>| #[trigger]
        levels_of(arith, b, y) && {
            let run = detect(config, mid, b, y);
            end == run.0 && all_realise(arith, found_b, run.1)
        };
    buffers_do_not_matter(config, pre, a, x, b, y);
    assert forall|i: int| 0 <= i < (a + b).len() implies magnitude_of(
        arith,
        (a + b)[i],
        #[trigger] (x + y)[i],
    ) by {
        if i < a.len() {
            assert(magnitude_of(arith, a[i], x[i]));
        } else {
            assert(magnitude_of(arith, b[i - a.len()], y[i - a.len()]));
        }
    }
    let parts = found_a + found_b;
    let segments = detect(config, pre, a + b, x + y).1;
    assert forall|i: int| 0 <= i < parts.len() implies realises(
        arith,
        (#[trigger] parts[i])@,
        segments[i],
    ) by {
        if i < found_a.len() {
            assert(realises(arith, found_a[i]@, detect(config, pre, a, x).1[i]));
        } else {
            let k = i - found_a.len();
            assert(realises(arith, found_b[k]@, detect(config, mid, b, y).1[k]));
        }
    }
    assert(levels_of(arith, a + b, x + y) && all_realise(arith, parts, segments));
    assert(detected(arith, config, pre, a + b, end, parts));
    detectors_behave_alike(arith, config, pre, a + b, post, found, end, parts);
    assert(frames_of(parts) =~= frames_of(found_a) + frames_of(found_b));
}

/// `segment` is a stretch of `stream` that begins above the threshold and does not end below it, of a
/// length within the limits. Its levels are those of its samples, and its peak is the largest.
pub open spec fn is_stretch(
    config: DetectorConfig,
    stream: Seq<IqSample>,
    levels: Seq<Single>,
    segment: Segment,
) -> bool {
    let end = segment.start + segment.samples.len();
    &&& 0 <= segment.start < end <= stream.len()
    &&& segment.samples == stream.subrange(segment.start, end)
    &&& segment.counted == levels.subrange(segment.start, end)
    &&& segment.peak == largest(levels[segment.start], levels.subrange(segment.start + 1, end))
    &&& config.squelch_threshold.below(levels[segment.start])
    &&& !levels[end - 1].below(config.squelch_threshold)
    &&& config.min_transmission_samples <= segment.samples.len() <= size_limit(config)
}

/// What a detector remembers after `stream`.
pub open spec fn tracks(
    config: DetectorConfig,
    p: Progress,
    stream: Seq<IqSample>,
    levels: Seq<Single>,
) -> bool {
    let start = p.total - p.buffer.len();
    let end = p.total - p.hangtime;
    &&& consistent(config, p)
    &&& p.total == stream.len()
    &&& p.buffer == stream.subrange(start, p.total as int)
    &&& p.counted == levels.subrange(start, p.total as int)
    &&& p.state !is Idle ==> {
        &&& config.squelch_threshold.below(levels[start])
        &&& !levels[end - 1].below(config.squelch_threshold)
    }
    &&& forall|i: int|
        end <= i < p.total ==> !config.squelch_threshold.below(#[trigger] levels[i])
}

/// Every transmission found in a stream is a stretch of it: its samples are those of the stream
/// from its start position on, the first of them is above the threshold, and the last is not below
/// it. Its peak and its average are taken over the levels of all of them. It has no fewer samples
/// than the minimum and no more than the maximum. Transmissions are numbered 1, 2, 3, ... in the
/// order of their positions and do not overlap.
pub proof fn transmissions_are_stretches(
    config: DetectorConfig,
    stream: Seq<IqSample>,
    levels: Seq<Single>,
)
    requires
        levels.len() == stream.len(),
    ensures
        ({
            let run = detect(config, initial_progress(), stream, levels);
            &&& tracks(config, run.0, stream, levels)
            &&& run.0.count == run.1.len()
            &&& forall|i: int|
                0 <= i < run.1.len() ==> is_stretch(config, stream, levels, #[trigger] run.1[i])
            &&& forall|i: int| 0 <= i < run.1.len() ==> (#[trigger] run.1[i]).id == i + 1
            &&& forall|i: int, j: int|
                0 <= i < j < run.1.len() ==> (#[trigger] run.1[i]).start + run.1[i].samples.len()
                    <= (#[trigger] run.1[j]).start
            &&& forall|i: int|
                0 <= i < run.1.len() ==> (#[trigger] run.1[i]).start + run.1[i].samples.len()
                    <= run.0.total - run.0.buffer.len()
        }),
    decreases stream.len(),
{
    if stream.len() > 0 {
        let stream0 = stream.drop_last();
        let levels0 = levels.drop_last();
        transmissions_are_stretches(config, stream0, levels0);
        let before = detect(config, initial_progress(), stream0, levels0);
        let run = detect(config, initial_progress(), stream, levels);
        one_step_tracks(config, before.0, stream, levels);
        assert forall|i: int| 0 <= i < before.1.len() implies is_stretch(
            config,
            stream,
            levels,
            #[trigger] before.1[i],
        ) by {
            stretch_of_more(config, stream, levels, before.1[i]);
        }
        assert forall|i: int| 0 <= i < run.1.len() implies is_stretch(
            config,
            stream,
            levels,
            #[trigger] run.1[i],
        ) by {
            if i < before.1.len() {
                assert(run.1[i] == before.1[i]);
            }
        }
        assert forall|i: int| 0 <= i < run.1.len() implies (#[trigger] run.1[i]).id == i + 1 by {
            if i < before.1.len() {
                assert(run.1[i] == before.1[i]);
            }
        }
        assert forall|i: int, j: int| 0 <= i < j < run.1.len() implies (#[trigger] run.1[i]).start
            + run.1[i].samples.len() <= (#[trigger] run.1[j]).start by {
            assert(run.1[i] == before.1[i]);
            if j < before.1.len() {
                assert(run.1[j] == before.1[j]);
            }
        }
        assert forall|i: int| 0 <= i < run.1.len() implies (#[trigger] run.1[i]).start
            + run.1[i].samples.len() <= run.0.total - run.0.buffer.len() by {
            if i < before.1.len() {
                assert(run.1[i] == before.1[i]);
            }
        }
    } else {
        assert(stream.subrange(0, 0) =~= Seq::<IqSample>::empty());
        assert(levels.subrange(0, 0) =~= Seq::<Single>::empty());
    }
}

/// A stretch of a stream is one of the stream with a sample more.
proof fn stretch_of_more(
    config: DetectorConfig,
    stream: Seq<IqSample>,
    levels: Seq<Single>,
    segment: Segment,
)
    requires
        stream.len() > 0,
        levels.len() == stream.len(),
        is_stretch(config, stream.drop_last(), levels.drop_last(), segment),
    ensures
        is_stretch(config, stream, levels, segment),
{
    let stream0 = stream.drop_last();
    let levels0 = levels.drop_last();
    let start = segment.start;
    let end = start + segment.samples.len();
    assert(stream.subrange(start, end) =~= stream0.subrange(start, end));
    assert(levels.subrange(start, end) =~= levels0.subrange(start, end));
    assert(levels.subrange(start + 1, end) =~= levels0.subrange(start + 1, end));
}

/// One sample keeps `tracks`, and what it completes is a stretch.
proof fn one_step_tracks(
    config: DetectorConfig,
    p: Progress,
    stream: Seq<IqSample>,
    levels: Seq<Single>,
)
    requires
        stream.len() > 0,
        levels.len() == stream.len(),
        tracks(config, p, stream.drop_last(), levels.drop_last()),
    ensures
        ({
            let step = detect_one(config, p, stream.last(), levels.last());
            &&& tracks(config, step.0, stream, levels)
            &&& step.0.total - step.0.buffer.len() >= p.total - p.buffer.len()
            &&& step.0.count == p.count + (if step.1 is Some {
                1int
            } else {
                0
            })
            &&& step.1 is Some ==> {
                &&& is_stretch(config, stream, levels, step.1->0)
                &&& step.1->0.id == p.count + 1
                &&& step.1->0.start == p.total - p.buffer.len()
                &&& step.1->0.start + step.1->0.samples.len() <= step.0.total
                    - step.0.buffer.len()
            }
        }),
{
    let n = stream.len() as int;
    let b = p.buffer.len() as int;
    let levels0 = levels.drop_last();
    let next = grown(config, p, stream.last(), levels.last());
    let step = detect_one(config, p, stream.last(), levels.last());
    assert(stream.subrange(n, n) =~= Seq::<IqSample>::empty());
    assert(levels.subrange(n, n) =~= Seq::<Single>::empty());
    assert(stream.subrange(n - 1 - b, n) =~= p.buffer.push(stream.last()));
    assert(levels.subrange(n - 1 - b, n) =~= p.counted.push(levels.last()));
    assert forall|i: int| n - next.hangtime <= i < n implies !config.squelch_threshold.below(
        #[trigger] levels[i],
    ) by {
        if i < n - 1 {
            assert(levels[i] == levels0[i]);
        }
    }
    if next.hangtime < n {
        let last = n - next.hangtime - 1;
        if last < n - 1 {
            assert(levels[last] == levels0[last]);
        }
    }
    if p.state is Idle {
        assert(p.buffer =~= stream.subrange(n, n));
        assert(p.counted =~= levels.subrange(n, n));
    } else {
        assert(levels[n - 1 - b] == levels0[n - 1 - b]);
    }
    if step.1 is Some {
        cut_is_stretch(config, next, stream, levels);
    }
}

/// What ends while it has the form that `tracks` says is a stretch.
proof fn cut_is_stretch(
    config: DetectorConfig,
    p: Progress,
    stream: Seq<IqSample>,
    levels: Seq<Single>,
)
    requires
        levels.len() == stream.len(),
        p.total == stream.len(),
        0 <= p.hangtime < p.buffer.len() <= p.total,
        p.buffer.len() <= size_limit(config),
        p.buffer == stream.subrange(p.total - p.buffer.len(), p.total as int),
        p.counted == levels.subrange(p.total - p.buffer.len(), p.total as int),
        config.squelch_threshold.below(levels[p.total - p.buffer.len()]),
        !levels[p.total - p.hangtime - 1].below(config.squelch_threshold),
    ensures
        finished(config, p).1 is Some ==> is_stretch(config, stream, levels, finished(config, p).1->0),
{
    let start = p.total - p.buffer.len();
    let end = p.total - p.hangtime;
    assert(p.buffer.subrange(0, kept(p)) =~= stream.subrange(start, end));
    let counted = p.counted.subrange(0, kept(p));
    assert(counted =~= levels.subrange(start, end));
    assert(counted.drop_first() =~= levels.subrange(start + 1, end));
}

/// The same holds of what a flush hands over: it is a stretch of the stream, and it comes after all
/// that was found before.
pub proof fn the_rest_is_a_stretch(
    config: DetectorConfig,
    stream: Seq<IqSample>,
    levels: Seq<Single>,
)
    requires
        levels.len() == stream.len(),
    ensures
        ({
            let run = detect(config, initial_progress(), stream, levels);
            let rest = finished(config, run.0).1;
            run.0.state !is Idle && rest is Some ==> {
                &&& is_stretch(config, stream, levels, rest->0)
                &&& rest->0.id == run.1.len() + 1
                &&& forall|i: int|
                    0 <= i < run.1.len() ==> (#[trigger] run.1[i]).start + run.1[i].samples.len()
                        <= rest->0.start
            }
        }),
{
    transmissions_are_stretches(config, stream, levels);
    let p = detect(config, initial_progress(), stream, levels).0;
    if p.state !is Idle {
        cut_is_stretch(config, p, stream, levels);
    }
}

/// No transmission has fewer samples than the minimum.
pub proof fn no_shorter_than_the_minimum(
    config: DetectorConfig,
    stream: Seq<IqSample>,
    levels: Seq<Single>,
)
    requires
        levels.len() == stream.len(),
    ensures
        ({
            let run = detect(config, initial_progress(), stream, levels);
            let rest = finished(config, run.0).1;
            &&& forall|i: int|
                0 <= i < run.1.len() ==> (#[trigger] run.1[i]).samples.len()
                    >= config.min_transmission_samples
            &&& run.0.state !is Idle && rest is Some ==> rest->0.samples.len()
                >= config.min_transmission_samples
        }),
{
    transmissions_are_stretches(config, stream, levels);
    the_rest_is_a_stretch(config, stream, levels);
}

/// No transmission has more samples than the maximum, which is one or more.
pub proof fn no_longer_than_the_maximum(
    config: DetectorConfig,
    stream: Seq<IqSample>,
    levels: Seq<Single>,
)
    requires
        levels.len() == stream.len(),
        config.max_transmission_samples >= 1,
    ensures
        ({
            let run = detect(config, initial_progress(), stream, levels);
            let rest = finished(config, run.0).1;
            &&& forall|i: int|
                0 <= i < run.1.len() ==> (#[trigger] run.1[i]).samples.len()
                    <= config.max_transmission_samples
            &&& run.0.state !is Idle && rest is Some ==> rest->0.samples.len()
                <= config.max_transmission_samples
        }),
{
    transmissions_are_stretches(config, stream, levels);
    the_rest_is_a_stretch(config, stream, levels);
}

/// The levels that the peak and the average of a transmission are taken over are those of its
/// samples, one for one.
pub proof fn levels_of_a_transmission(
    config: DetectorConfig,
    stream: Seq<IqSample>,
    levels: Seq<Single>,
    i: int,
)
    requires
        levels.len() == stream.len(),
        0 <= i < detect(config, initial_progress(), stream, levels).1.len(),
    ensures
        ({
            let segment = detect(config, initial_progress(), stream, levels).1[i];
            &&& segment.counted == levels.subrange(
                segment.start,
                segment.start + segment.samples.len(),
            )
            &&& segment.peak == largest(segment.counted[0], segment.counted.drop_first())
        }),
{
    transmissions_are_stretches(config, stream, levels);
    let segment = detect(config, initial_progress(), stream, levels).1[i];
    let end = segment.start + segment.samples.len();
    assert(is_stretch(config, stream, levels, segment));
    assert(segment.counted.drop_first() =~= levels.subrange(segment.start + 1, end));
}

/// As many samples in a row below the threshold as the hangtime has end a transmission: whatever
/// came before them, none is in progress then.
pub proof fn hangtime_ends_a_transmission(
    config: DetectorConfig,
    stream: Seq<IqSample>,
    levels: Seq<Single>,
)
    requires
        levels.len() == stream.len(),
        1 <= config.hangtime_samples <= stream.len(),
        forall|i: int|
            stream.len() - config.hangtime_samples <= i < stream.len() ==> (
            #[trigger] levels[i]).below(config.squelch_threshold),
    ensures
        detect(config, initial_progress(), stream, levels).0.state is Idle,
{
    transmissions_are_stretches(config, stream, levels);
    let p = detect(config, initial_progress(), stream, levels).0;
    if p.state !is Idle {
        let last = p.total - p.hangtime - 1;
        assert(!levels[last].below(config.squelch_threshold));
        assert(stream.len() - config.hangtime_samples <= last < stream.len());
    }
}

/// A gap shorter than the hangtime ends nothing: the transmission goes on, unless it reaches the
/// maximum.
pub proof fn a_short_gap_is_bridged(
    config: DetectorConfig,
    p: Progress,
    gap: Seq<IqSample>,
    levels: Seq<Single>,
)
    requires
        levels.len() == gap.len(),
        p.state is Receiving,
        p.hangtime == 0,
        gap.len() < config.hangtime_samples,
        p.buffer.len() + gap.len() < config.max_transmission_samples,
    ensures
        ({
            let run = detect(config, p, gap, levels);
            &&& run.0.state !is Idle
            &&& run.0.buffer == p.buffer + gap
            &&& run.0.counted == p.counted + levels
            &&& run.0.hangtime <= gap.len()
            &&& run.1.len() == 0
        }),
    decreases gap.len(),
{
    if gap.len() > 0 {
        a_short_gap_is_bridged(config, p, gap.drop_last(), levels.drop_last());
        assert((p.buffer + gap.drop_last()).push(gap.last()) =~= p.buffer + gap);
        assert((p.counted + levels.drop_last()).push(levels.last()) =~= p.counted + levels);
    } else {
        assert(p.buffer + gap =~= p.buffer);
        assert(p.counted + levels =~= p.counted);
    }
}

/// While nothing rises above the threshold an idle detector stays idle and finds nothing.
pub proof fn silence_is_not_a_transmission(
    config: DetectorConfig,
    p: Progress,
    stream: Seq<IqSample>,
    levels: Seq<Single>,
)
    requires
        levels.len() == stream.len(),
        p.state is Idle,
        forall|i: int|
            0 <= i < levels.len() ==> !config.squelch_threshold.below(#[trigger] levels[i]),
    ensures
        detect(config, p, stream, levels) == (
            Progress { total: p.total + stream.len(), ..p },
            Seq::<Segment>::empty(),
        ),
    decreases stream.len(),
{
    if stream.len() > 0 {
        assert forall|i: int| 0 <= i < levels.drop_last().len() implies
            !config.squelch_threshold.below(#[trigger] levels.drop_last()[i]) by {
            assert(levels[i] == levels.drop_last()[i]);
        }
        silence_is_not_a_transmission(config, p, stream.drop_last(), levels.drop_last());
        assert(!config.squelch_threshold.below(levels[levels.len() - 1]));
    }
}

/// The sample at position `i` was part of a stretch that was discarded for being too short.
pub open spec fn discarded_with(
    config: DetectorConfig,
    stream: Seq<IqSample>,
    levels: Seq<Single>,
    i: int,
) -> bool
    decreases stream.len(),
{
    if stream.len() == 0 {
        false
    } else {
        let before = detect(config, initial_progress(), stream.drop_last(), levels.drop_last()).0;
        let next = grown(config, before, stream.last(), levels.last());
        ||| discarded_with(config, stream.drop_last(), levels.drop_last(), i)
        ||| {
            &&& before.total - before.buffer.len() <= i < stream.len()
            &&& over(config, next)
            &&& kept(next) < config.min_transmission_samples
        }
    }
}

/// Whether a transmission holds the sample at position `i` of the stream.
pub open spec fn holds(segment: Segment, i: int) -> bool {
    segment.start <= i < segment.start + segment.samples.len()
}

/// Every sample above the threshold is part of a transmission that was found, of the one in progress
/// or of a stretch that was discarded for being too short.
pub proof fn no_loud_sample_is_lost(
    config: DetectorConfig,
    stream: Seq<IqSample>,
    levels: Seq<Single>,
    i: int,
)
    requires
        levels.len() == stream.len(),
        0 <= i < stream.len(),
        config.squelch_threshold.below(levels[i]),
        !discarded_with(config, stream, levels, i),
    ensures
        ({
            let run = detect(config, initial_progress(), stream, levels);
            run.0.total - run.0.buffer.len() <= i || exists|k: int|
                0 <= k < run.1.len() && #[trigger] holds(run.1[k], i)
        }),
    decreases stream.len(),
{
    let stream0 = stream.drop_last();
    let levels0 = levels.drop_last();
    let before = detect(config, initial_progress(), stream0, levels0);
    let run = detect(config, initial_progress(), stream, levels);
    let step = detect_one(config, before.0, stream.last(), levels.last());
    transmissions_are_stretches(config, stream0, levels0);
    assert(before.0.total == stream.len() - 1);
    if i < stream.len() - 1 {
        assert(levels0[i] == levels[i]);
        no_loud_sample_is_lost(config, stream0, levels0, i);
        if exists|k: int| 0 <= k < before.1.len() && #[trigger] holds(before.1[k], i) {
            let k = choose|k: int| 0 <= k < before.1.len() && #[trigger] holds(before.1[k], i);
            assert(run.1[k] == before.1[k]);
            assert(holds(run.1[k], i));
        }
    }
    if let Some(segment) = step.1 {
        let last = run.1.len() - 1;
        assert(run.1[last] == segment);
        if segment.start <= i {
            if i < stream.len() - 1 && before.0.total - before.0.hangtime <= i {
                assert(!config.squelch_threshold.below(levels0[i]));
            }
            assert(holds(run.1[last], i));
        }
    }
}

/// However a transmission ends, nothing of it is remembered. It is handed over if it has the minimum
/// of samples, and is then the next in number.
pub proof fn flush_leaves_nothing(config: DetectorConfig, p: Progress)
    ensures
        finished(config, p).0 == idle_after(p.total, finished(config, p).0.count),
        finished(config, p).1 is Some <==> kept(p) >= config.min_transmission_samples,
        finished(config, p).0.count == p.count + (if finished(config, p).1 is Some {
            1int
        } else {
            0
        }),
        finished(config, p).1 is Some ==> finished(config, p).1->0.id == finished(config, p).0.count,
{
}

} // verus!
