//! What a detector finds in a stream that comes to an end.
use vstd::prelude::*;

use crate::arith::{
    largest, largest_bounds, running_sum, wide_count_of, wide_quotient_of, Arithmetic, Double,
    Single,
};
use crate::arith_laws::the_largest_is_among_them;
use crate::detector::{
    all_realise, average_of, detect, detect_one, finished, grown, initial_progress, over, realises,
    DetectorConfig, DetectorState, Progress, Segment, Transmission, TransmissionDetector,
};
use crate::detector_laws::{
    cuts_do_not_show, discarded_with, holds, is_stretch, measures_alike, no_loud_sample_is_lost,
    the_rest_is_a_stretch, transmissions_are_stretches,
};
use crate::fuzzer::frames_of;
use crate::signal::{levels_of, mean_of, IqSample};
use crate::signal_laws::{divided_by, levels_are_vector_lengths, mean_is_divided, vector_lengths};

verus! {

/// `peak` is one of `levels`, of which there is at least one, and none that is a number is above it,
/// unless the first is no number.
pub open spec fn is_peak(levels: Seq<Single>, peak: Single) -> bool {
    &&& levels.contains(peak)
    &&& levels[0].bits as int % 0x8000_0000 <= 0x7F80_0000 ==> forall|i: int|
        0 <= i < levels.len() && (#[trigger] levels[i]).bits as int % 0x8000_0000 <= 0x7F80_0000
            ==> levels[i].at_most(peak)
}

/// `avg` is the sum of `levels` divided by how many there are.
pub open spec fn is_average<A: Arithmetic>(arith: &A, levels: Seq<Single>, avg: Single) -> bool {
    exists|total: Single| #[trigger]
        running_sum(arith, levels[0], levels.drop_first(), total) && divided_by(
            arith,
            total,
            levels.len(),
            avg,
        )
}

proof fn the_largest_is_a_peak(levels: Seq<Single>)
    requires
        levels.len() > 0,
    ensures
        is_peak(levels, largest(levels[0], levels.drop_first())),
{
    let rest = levels.drop_first();
    let peak = largest(levels[0], rest);
    the_largest_is_among_them(levels[0], rest);
    assert(levels.contains(levels[0]));
    if rest.contains(peak) {
        let i = choose|i: int| 0 <= i < rest.len() && rest[i] == peak;
        assert(levels[i + 1] == peak);
    }
    if levels[0].bits as int % 0x8000_0000 <= 0x7F80_0000 {
        largest_bounds(levels[0], rest);
        assert forall|i: int|
            0 <= i < levels.len() && (#[trigger] levels[i]).bits as int % 0x8000_0000
                <= 0x7F80_0000 implies levels[i].at_most(peak) by {
            if i > 0 {
                assert(rest[i - 1] == levels[i]);
            }
        }
    }
}

proof fn averages_are_of_all<A: Arithmetic>(arith: &A, levels: Seq<Single>, avg: Single)
    requires
        average_of(arith, levels, avg),
    ensures
        is_average(arith, levels, avg),
{
    let total = choose|total: Single|
        running_sum(arith, levels[0], levels.drop_first(), total) && #[trigger] mean_of(
            arith,
            total,
            levels.len() as u64,
            avg,
        );
    mean_is_divided(arith, total, levels.len(), avg);
    assert(running_sum(arith, levels[0], levels.drop_first(), total));
}

/// A flush leaves the detector idle with nothing in progress, whatever state it was in. It hands over
/// a transmission if and only if one was in progress, be the signal there or not, and it has the
/// minimum of samples up to where the signal dropped. That transmission is made of those samples, has
/// the next number, starts where they started, and its levels are theirs.
pub proof fn a_flush_completes_what_is_in_progress<A: Arithmetic>(
    detector: &mut TransmissionDetector<A>,
    found: Option<Transmission>,
)
    requires
        call_ensures(TransmissionDetector::<A>::flush, (detector,), found),
        old(detector).well_formed(),
    ensures
        final(detector)@.state is Idle,
        final(detector)@.buffer.len() == 0,
        final(detector)@.counted.len() == 0,
        final(detector)@.hangtime == 0,
        final(detector)@.total == old(detector)@.total,
        final(detector).configuration() == old(detector).configuration(),
        final(detector).arithmetic() == old(detector).arithmetic(),
        ({
            let p = old(detector)@;
            let n = p.buffer.len() - p.hangtime;
            let min = old(detector).configuration().min_transmission_samples;
            &&& found is Some <==> !(p.state is Idle) && n >= min
            &&& found is None ==> final(detector)@.count == p.count
            &&& found matches Some(tx) ==> {
                &&& tx.samples@ == p.buffer.take(n)
                &&& tx.start_sample == p.total - p.buffer.len()
                &&& tx.id == p.count + 1
                &&& final(detector)@.count == p.count + 1
                &&& is_peak(p.counted.take(n), tx.peak_level)
                &&& is_average(&old(detector).arithmetic(), p.counted.take(n), tx.avg_level)
            }
        }),
{
    let p = old(detector)@;
    if let Some(tx) = found {
        let n = p.buffer.len() - p.hangtime;
        let segment = finished(old(detector).configuration(), p).1->0;
        assert(p.counted.subrange(0, n) =~= p.counted.take(n));
        assert(p.buffer.subrange(0, n) =~= p.buffer.take(n));
        the_largest_is_a_peak(p.counted.take(n));
        averages_are_of_all(&old(detector).arithmetic(), p.counted.take(n), tx.avg_level);
        assert(tx@.samples == segment.samples);
    }
}

/// A new detector is idle and has seen nothing.
pub proof fn a_new_detector_is_idle<A: Arithmetic>(
    config: DetectorConfig,
    arith: A,
    detector: TransmissionDetector<A>,
)
    requires
        call_ensures(TransmissionDetector::<A>::new, (config, arith), detector),
    ensures
        nothing_seen(detector@),
        detector.configuration() == config,
        detector.arithmetic() == arith,
        detector.well_formed(),
{
}

/// What is remembered before the first sample.
pub open spec fn nothing_seen(p: Progress) -> bool {
    &&& p.state is Idle
    &&& p.buffer == Seq::<IqSample>::empty()
    &&& p.counted == Seq::<Single>::empty()
    &&& p.hangtime == 0
    &&& p.total == 0
    &&& p.count == 0
}

/// Whether the level at place `i` is above the threshold.
pub open spec fn loud(config: DetectorConfig, levels: Seq<Single>, i: int) -> bool {
    config.squelch_threshold.below(levels[i])
}

/// No level from `from` up to `to` is above the threshold.
pub open spec fn no_signal(
    config: DetectorConfig,
    levels: Seq<Single>,
    from: int,
    to: int,
) -> bool {
    forall|j: int| from <= j < to && 0 <= j ==> !#[trigger] loud(config, levels, j)
}

/// How many samples without a signal end a transmission.
pub open spec fn patience(config: DetectorConfig) -> int {
    if config.hangtime_samples < 1 {
        1
    } else {
        config.hangtime_samples as int
    }
}

/// `tx` is a transmission of the stream: the samples from its start on, of which the first is above
/// the threshold and the last is not below it, no fewer than the minimum and no more than the
/// maximum, or one where that is none; its peak and its average are those of their levels.
pub open spec fn cut_from<A: Arithmetic>(
    arith: &A,
    config: DetectorConfig,
    stream: Seq<IqSample>,
    levels: Seq<Single>,
    tx: Transmission,
) -> bool {
    let start = tx.start_sample as int;
    let end = start + tx.samples@.len();
    &&& start < end <= stream.len()
    &&& tx.samples@ == stream.subrange(start, end)
    &&& loud(config, levels, start)
    &&& !levels[end - 1].below(config.squelch_threshold)
    &&& tx.samples@.len() >= config.min_transmission_samples
    &&& tx.samples@.len() <= config.max_transmission_samples || tx.samples@.len() == 1
    &&& is_peak(levels.subrange(start, end), tx.peak_level)
    &&& is_average(arith, levels.subrange(start, end), tx.avg_level)
}

/// Whether `tx` holds the sample at place `i`.
pub open spec fn has_place(tx: Transmission, i: int) -> bool {
    tx.start_sample <= i < tx.start_sample + tx.samples@.len()
}

/// The most samples that are taken into a transmission before it is cut.
pub open spec fn longest(config: DetectorConfig) -> int {
    if config.max_transmission_samples < 1 {
        1
    } else {
        config.max_transmission_samples as int
    }
}

/// A stretch may begin at place `a`: before it there is no signal for as long as it takes to end a
/// transmission, or from the beginning, or since a stretch before it was cut for its length.
pub open spec fn may_begin(config: DetectorConfig, levels: Seq<Single>, a: int) -> bool {
    exists|c: int| #[trigger] quiet_since(config, levels, c, a)
}

pub open spec fn quiet_since(config: DetectorConfig, levels: Seq<Single>, c: int, a: int) -> bool {
    &&& 0 <= c <= a
    &&& no_signal(config, levels, c, a)
    &&& c == 0 || a - c >= patience(config) || c >= longest(config) && loud(
        config,
        levels,
        c - longest(config),
    )
}

/// The sample at place `i` is in a stretch with fewer samples than the minimum: it begins where one
/// may, and after it there is no signal for as long as it takes to end a transmission, or to the end,
/// or until as many samples were taken as a transmission can have.
pub open spec fn in_a_short_stretch(config: DetectorConfig, levels: Seq<Single>, i: int) -> bool {
    exists|a: int, b: int, e: int| #[trigger] short_stretch(config, levels, a, b, e) && a <= i < b
}

pub open spec fn short_stretch(
    config: DetectorConfig,
    levels: Seq<Single>,
    a: int,
    b: int,
    e: int,
) -> bool {
    &&& 0 <= a < b <= e <= levels.len()
    &&& b - a < config.min_transmission_samples
    &&& loud(config, levels, a)
    &&& !levels[b - 1].below(config.squelch_threshold)
    &&& may_begin(config, levels, a)
    &&& no_signal(config, levels, b, e)
    &&& e - b >= patience(config) || e == levels.len() || e - a == longest(config)
}

proof fn beginnings_stay(config: DetectorConfig, levels: Seq<Single>, a: int)
    requires
        levels.len() > 0,
        a < levels.len(),
        may_begin(config, levels.drop_last(), a),
    ensures
        may_begin(config, levels, a),
{
    let levels0 = levels.drop_last();
    let c = choose|c: int| #[trigger] quiet_since(config, levels0, c, a);
    assert forall|j: int| c <= j < a && 0 <= j implies !#[trigger] loud(config, levels, j) by {
        assert(levels0[j] == levels[j]);
        assert(!loud(config, levels0, j));
    }
    if c >= longest(config) {
        assert(levels0[c - longest(config)] == levels[c - longest(config)]);
    }
    assert(quiet_since(config, levels, c, a));
}

/// What a sample that ends what is in progress makes of it: it has been without signal for the
/// hangtime, or has as many samples as a transmission can have.
proof fn how_it_ends(
    config: DetectorConfig,
    stream: Seq<IqSample>,
    levels: Seq<Single>,
    p: Progress,
    next: Progress,
)
    requires
        levels.len() == stream.len(),
        stream.len() > 0,
        p == detect(config, initial_progress(), stream.drop_last(), levels.drop_last()).0,
        next == grown(config, p, stream.last(), levels.last()),
        over(config, next),
        !(p.state is Idle) || loud(config, levels, levels.len() - 1),
    ensures
        ({
            let n = stream.len() as int;
            let a = p.total - p.buffer.len();
            let b = n - next.hangtime;
            &&& p.total == n - 1
            &&& 0 <= a < b <= n
            &&& loud(config, levels, a)
            &&& !levels[b - 1].below(config.squelch_threshold)
            &&& no_signal(config, levels, b, n)
            &&& n - b >= patience(config) || n - a == longest(config)
        }),
{
    let stream0 = stream.drop_last();
    let levels0 = levels.drop_last();
    transmissions_are_stretches(config, stream0, levels0);
    let n = stream.len() as int;
    let a = p.total - p.buffer.len();
    let b = n - next.hangtime;
    assert(levels[n - 1] == levels.last());
    if !(p.state is Idle) {
        assert(levels0[a] == levels[a]);
        let end = p.total - p.hangtime;
        assert(levels0[end - 1] == levels[end - 1]);
    }
    assert forall|j: int| b <= j < n && 0 <= j implies !#[trigger] loud(config, levels, j) by {
        if j < n - 1 {
            assert(levels0[j] == levels[j]);
            assert(!config.squelch_threshold.below(levels0[j]));
        }
    }
}

/// Where what is in progress begins, or at the end where nothing is in progress, a stretch may begin.
proof fn quiet_comes_before(config: DetectorConfig, stream: Seq<IqSample>, levels: Seq<Single>)
    requires
        levels.len() == stream.len(),
    ensures
        ({
            let p = detect(config, initial_progress(), stream, levels).0;
            may_begin(config, levels, p.total - p.buffer.len())
        }),
    decreases stream.len(),
{
    if stream.len() == 0 {
        assert(quiet_since(config, levels, 0, 0));
    } else {
        let stream0 = stream.drop_last();
        let levels0 = levels.drop_last();
        let n = stream.len() as int;
        quiet_comes_before(config, stream0, levels0);
        transmissions_are_stretches(config, stream0, levels0);
        let p = detect(config, initial_progress(), stream0, levels0).0;
        let q = detect(config, initial_progress(), stream, levels).0;
        let a = p.total - p.buffer.len();
        assert(q == detect_one(config, p, stream.last(), levels.last()).0);
        assert(levels[n - 1] == levels.last());
        let next = grown(config, p, stream.last(), levels.last());
        beginnings_stay(config, levels, a);
        if p.state is Idle && !loud(config, levels, n - 1) {
            let c = choose|c: int| #[trigger] quiet_since(config, levels, c, n - 1);
            assert(quiet_since(config, levels, c, n));
        } else if over(config, next) {
            how_it_ends(config, stream, levels, p, next);
            let b = n - next.hangtime;
            if n - b >= patience(config) {
                assert(quiet_since(config, levels, b, n));
            } else {
                assert(quiet_since(config, levels, n, n));
            }
        }
    }
}

/// What was discarded was a short stretch.
proof fn only_short_stretches_are_discarded(
    config: DetectorConfig,
    stream: Seq<IqSample>,
    levels: Seq<Single>,
    i: int,
)
    requires
        levels.len() == stream.len(),
        0 <= i < stream.len(),
        loud(config, levels, i),
        discarded_with(config, stream, levels, i),
    ensures
        exists|a: int, b: int, e: int| #[trigger]
            short_stretch(config, levels, a, b, e) && a <= i < b && (e - b >= patience(config) || e
                - a == longest(config)),
    decreases stream.len(),
{
    let stream0 = stream.drop_last();
    let levels0 = levels.drop_last();
    let p = detect(config, initial_progress(), stream0, levels0).0;
    let next = grown(config, p, stream.last(), levels.last());
    transmissions_are_stretches(config, stream0, levels0);
    if i < stream0.len() && discarded_with(config, stream0, levels0, i) {
        assert(levels0[i] == levels[i]);
        assert(loud(config, levels0, i));
        only_short_stretches_are_discarded(config, stream0, levels0, i);
        let (a, b, e) = choose|a: int, b: int, e: int| #[trigger]
            short_stretch(config, levels0, a, b, e) && a <= i < b && (e - b >= patience(config) || e
                - a == longest(config));
        stretches_stay(config, levels, a, b, e);
    } else {
        if discarded_with(config, stream0, levels0, i) {
            discards_are_of_the_past(config, stream0, levels0, i);
        }
        quiet_comes_before(config, stream0, levels0);
        let n = stream.len() as int;
        let a = p.total - p.buffer.len();
        let b = n - next.hangtime;
        how_it_ends(config, stream, levels, p, next);
        beginnings_stay(config, levels, a);
        assert(i < b) by {
            if i >= b {
                assert(!loud(config, levels, i));
            }
        }
        assert(short_stretch(config, levels, a, b, n));
    }
}

proof fn stretches_stay(config: DetectorConfig, levels: Seq<Single>, a: int, b: int, e: int)
    requires
        levels.len() > 0,
        short_stretch(config, levels.drop_last(), a, b, e),
        e - b >= patience(config) || e - a == longest(config),
    ensures
        short_stretch(config, levels, a, b, e),
{
    let levels0 = levels.drop_last();
    assert(levels0[a] == levels[a]);
    assert(levels0[b - 1] == levels[b - 1]);
    assert forall|j: int| b <= j < e && 0 <= j implies !#[trigger] loud(config, levels, j) by {
        assert(levels0[j] == levels[j]);
        assert(!loud(config, levels0, j));
    }
    beginnings_stay(config, levels, a);
}

/// Nothing is discarded before it has come.
proof fn discards_are_of_the_past(
    config: DetectorConfig,
    stream: Seq<IqSample>,
    levels: Seq<Single>,
    i: int,
)
    requires
        discarded_with(config, stream, levels, i),
    ensures
        i < stream.len(),
    decreases stream.len(),
{
    if stream.len() > 0 {
        if discarded_with(config, stream.drop_last(), levels.drop_last(), i) {
            discards_are_of_the_past(config, stream.drop_last(), levels.drop_last(), i);
        }
    }
}

proof fn segments_are_cut_from<A: Arithmetic>(
    arith: &A,
    config: DetectorConfig,
    stream: Seq<IqSample>,
    levels: Seq<Single>,
    segment: Segment,
    tx: Transmission,
)
    requires
        levels.len() == stream.len(),
        is_stretch(config, stream, levels, segment),
        realises(arith, tx@, segment),
    ensures
        cut_from(arith, config, stream, levels, tx),
        tx.start_sample == segment.start,
        tx.samples@.len() == segment.samples.len(),
        tx.id == segment.id,
{
    let part = segment.counted;
    assert(tx@.samples == tx.samples@);
    assert(part.drop_first() =~= levels.subrange(
        segment.start + 1,
        segment.start + segment.samples.len(),
    ));
    the_largest_is_a_peak(part);
    averages_are_of_all(arith, part, tx.avg_level);
}

/// `found` and `rest` are transmissions of the stream, numbered from 1 on in the order of their
/// places, and none begins before the one before it has ended.
pub open spec fn cut_up<A: Arithmetic>(
    arith: &A,
    config: DetectorConfig,
    stream: Seq<IqSample>,
    levels: Seq<Single>,
    found: Seq<Transmission>,
    rest: Option<Transmission>,
) -> bool {
    &&& forall|k: int|
        0 <= k < found.len() ==> cut_from(arith, config, stream, levels, #[trigger] found[k])
            && found[k].id == k + 1
    &&& forall|k: int, l: int|
        0 <= k < l < found.len() ==> (#[trigger] found[k]).start_sample + found[k].samples@.len()
            <= (#[trigger] found[l]).start_sample
    &&& rest matches Some(tx) ==> {
        &&& cut_from(arith, config, stream, levels, tx)
        &&& tx.id == found.len() + 1
        &&& forall|k: int|
            0 <= k < found.len() ==> (#[trigger] found[k]).start_sample + found[k].samples@.len()
                <= tx.start_sample
    }
}

/// Every sample above the threshold is in a transmission or in a stretch that is too short.
pub open spec fn nothing_lost(
    config: DetectorConfig,
    levels: Seq<Single>,
    found: Seq<Transmission>,
    rest: Option<Transmission>,
) -> bool {
    forall|i: int|
        0 <= i < levels.len() && #[trigger] loud(config, levels, i) ==> {
            ||| exists|k: int| 0 <= k < found.len() && has_place(#[trigger] found[k], i)
            ||| rest is Some && has_place(rest->0, i)
            ||| in_a_short_stretch(config, levels, i)
        }
}

/// A stream that a new detector takes, whole, and that then comes to an end with a flush: what is
/// found in it are transmissions of the stream, numbered from 1 on in the order of their places,
/// without overlap, and what the flush hands over comes last. Every sample above the threshold is in
/// one of them, or in a stretch with fewer samples than the minimum.
pub proof fn a_stream_is_cut_into_transmissions<A: Arithmetic>(
    detector: &mut TransmissionDetector<A>,
    samples: &[IqSample],
    found: Vec<Transmission>,
    after: &mut TransmissionDetector<A>,
    rest: Option<Transmission>,
)
    requires
        nothing_seen(old(detector)@),
        old(detector).well_formed(),
        call_ensures(TransmissionDetector::<A>::process, (detector, samples), found),
        *old(after) == *final(detector),
        call_ensures(TransmissionDetector::<A>::flush, (after,), rest),
    ensures
        final(after)@.state is Idle,
        final(after)@.total == samples@.len(),
        exists|levels: Seq<Single>| #[trigger]
            vector_lengths(&old(detector).arithmetic(), samples@, levels) && cut_up(
                &old(detector).arithmetic(),
                old(detector).configuration(),
                samples@,
                levels,
                found@,
                rest,
            ) && nothing_lost(old(detector).configuration(), levels, found@, rest),
{
    let arith = &old(detector).arithmetic();
    let config = old(detector).configuration();
    let stream = samples@;
    let pre = old(detector)@;
    assert(pre =~= initial_progress());
    let levels = choose|levels: Seq<Single>| #[trigger]
        levels_of(arith, stream, levels) && {
            let run = detect(config, pre, stream, levels);
            final(detector)@ == run.0 && all_realise(arith, found@, run.1)
        };
    levels_are_vector_lengths(arith, stream, levels);
    let run = detect(config, pre, stream, levels);
    transmissions_are_stretches(config, stream, levels);
    the_rest_is_a_stretch(config, stream, levels);
    assert forall|k: int| 0 <= k < found@.len() implies cut_from(
        arith,
        config,
        stream,
        levels,
        #[trigger] found@[k],
    ) && found@[k].id == k + 1 && found@[k].start_sample == run.1[k].start
        && found@[k].samples@.len() == run.1[k].samples.len() by {
        assert(is_stretch(config, stream, levels, run.1[k]));
        segments_are_cut_from(arith, config, stream, levels, run.1[k], found@[k]);
    }
    assert forall|k: int, l: int| 0 <= k < l < found@.len() implies (
    #[trigger] found@[k]).start_sample + found@[k].samples@.len() <= (
    #[trigger] found@[l]).start_sample by {
        assert(run.1[k].start + run.1[k].samples.len() <= run.1[l].start);
    }
    let p = run.0;
    if let Some(tx) = rest {
        let segment = finished(config, p).1->0;
        segments_are_cut_from(arith, config, stream, levels, segment, tx);
        assert forall|k: int| 0 <= k < found@.len() implies (#[trigger] found@[k]).start_sample
            + found@[k].samples@.len() <= tx.start_sample by {
            assert(run.1[k].start + run.1[k].samples.len() <= segment.start);
        }
    }
    assert forall|i: int| 0 <= i < stream.len() && #[trigger] loud(config, levels, i) implies {
        ||| exists|k: int| 0 <= k < found@.len() && has_place(#[trigger] found@[k], i)
        ||| rest is Some && has_place(rest->0, i)
        ||| in_a_short_stretch(config, levels, i)
    } by {
        if discarded_with(config, stream, levels, i) {
            only_short_stretches_are_discarded(config, stream, levels, i);
        } else {
            no_loud_sample_is_lost(config, stream, levels, i);
            if exists|k: int| 0 <= k < run.1.len() && #[trigger] holds(run.1[k], i) {
                let k = choose|k: int| 0 <= k < run.1.len() && #[trigger] holds(run.1[k], i);
                assert(has_place(found@[k], i));
            } else {
                what_is_left_is_handed_over(config, stream, levels, i);
                if rest is Some {
                    assert(has_place(rest->0, i));
                }
            }
        }
    }
    assert(cut_up(arith, config, stream, levels, found@, rest));
}

/// A sample above the threshold that is in progress at the end is handed over by a flush, or is in a
/// short stretch.
proof fn what_is_left_is_handed_over(
    config: DetectorConfig,
    stream: Seq<IqSample>,
    levels: Seq<Single>,
    i: int,
)
    requires
        levels.len() == stream.len(),
        0 <= i < stream.len(),
        loud(config, levels, i),
        ({
            let p = detect(config, initial_progress(), stream, levels).0;
            p.total - p.buffer.len() <= i
        }),
    ensures
        ({
            let p = detect(config, initial_progress(), stream, levels).0;
            let rest = finished(config, p).1;
            &&& !(p.state is Idle)
            &&& i < p.total - p.hangtime
            &&& rest is None ==> in_a_short_stretch(config, levels, i)
        }),
{
    transmissions_are_stretches(config, stream, levels);
    quiet_comes_before(config, stream, levels);
    let p = detect(config, initial_progress(), stream, levels).0;
    let n = stream.len() as int;
    let a = p.total - p.buffer.len();
    let b = p.total - p.hangtime;
    assert(i < b) by {
        if i >= b {
            assert(!config.squelch_threshold.below(levels[i]));
        }
    }
    assert forall|j: int| b <= j < n && 0 <= j implies !#[trigger] loud(config, levels, j) by {
        assert(!config.squelch_threshold.below(levels[j]));
    }
    if finished(config, p).1 is None {
        assert(short_stretch(config, levels, a, b, n));
    }
}

/// Processing changes neither configuration nor arithmetic, counts every sample that it is given and
/// every transmission that it hands over, and hands over none that is too short or too long.
pub proof fn processing_counts_what_it_takes<A: Arithmetic>(
    detector: &mut TransmissionDetector<A>,
    samples: &[IqSample],
    found: Vec<Transmission>,
)
    requires
        old(detector).well_formed(),
        call_ensures(TransmissionDetector::<A>::process, (detector, samples), found),
    ensures
        final(detector).configuration() == old(detector).configuration(),
        final(detector).arithmetic() == old(detector).arithmetic(),
        final(detector)@.total == old(detector)@.total + samples@.len(),
        final(detector)@.count == old(detector)@.count + found@.len(),
        forall|k: int|
            0 <= k < found@.len() ==> {
                let n = (#[trigger] found@[k]).samples@.len();
                let config = old(detector).configuration();
                &&& n >= config.min_transmission_samples
                &&& n <= config.max_transmission_samples || n == 1
            },
{
    let arith = &old(detector).arithmetic();
    let config = old(detector).configuration();
    let levels = choose|levels: Seq<Single>| #[trigger]
        levels_of(arith, samples@, levels) && {
            let run = detect(config, old(detector)@, samples@, levels);
            final(detector)@ == run.0 && all_realise(arith, found@, run.1)
        };
    every_sample_counts(config, old(detector)@, samples@, levels);
    assert forall|k: int| 0 <= k < found@.len() implies {
        let n = (#[trigger] found@[k]).samples@.len();
        &&& n >= config.min_transmission_samples
        &&& n <= config.max_transmission_samples || n == 1
    } by {
        assert(found@[k]@.samples == found@[k].samples@);
        assert(realises(arith, found@[k]@, detect(config, old(detector)@, samples@, levels).1[k]));
        assert(crate::detector::valid_length(config, found@[k]@));
        assert(detect(config, old(detector)@, samples@, levels).1[k].samples.len()
            == found@[k].samples@.len());
        some_sample_is_kept(config, old(detector)@, samples@, levels, k);
    }
}

proof fn every_sample_counts(
    config: DetectorConfig,
    p: Progress,
    samples: Seq<IqSample>,
    levels: Seq<Single>,
)
    ensures
        detect(config, p, samples, levels).0.total == p.total + samples.len(),
    decreases samples.len(),
{
    if samples.len() > 0 {
        every_sample_counts(config, p, samples.drop_last(), levels.drop_last());
    }
}

/// No transmission is empty.
proof fn some_sample_is_kept(
    config: DetectorConfig,
    p: Progress,
    samples: Seq<IqSample>,
    levels: Seq<Single>,
    k: int,
)
    requires
        crate::detector::consistent(config, p),
        0 <= k < detect(config, p, samples, levels).1.len(),
    ensures
        detect(config, p, samples, levels).1[k].samples.len() > 0,
        crate::detector::consistent(config, detect(config, p, samples, levels).0),
    decreases samples.len(),
{
    stays_consistent(config, p, samples, levels);
    let before = detect(config, p, samples.drop_last(), levels.drop_last());
    stays_consistent(config, p, samples.drop_last(), levels.drop_last());
    if k < before.1.len() {
        some_sample_is_kept(config, p, samples.drop_last(), levels.drop_last(), k);
    }
}

proof fn stays_consistent(
    config: DetectorConfig,
    p: Progress,
    samples: Seq<IqSample>,
    levels: Seq<Single>,
)
    requires
        crate::detector::consistent(config, p),
    ensures
        crate::detector::consistent(config, detect(config, p, samples, levels).0),
    decreases samples.len(),
{
    if samples.len() > 0 {
        stays_consistent(config, p, samples.drop_last(), levels.drop_last());
    }
}

/// What one sample does. Where nothing is in progress, one that is not above the threshold does
/// nothing, and one that is starts a transmission. A transmission in progress takes every sample, and
/// short of the maximum it goes on: with a signal as long as there is one, and without one for less
/// than the hangtime, which begins with a sample below the threshold.
pub proof fn a_transmission_goes_on_sample_by_sample<A: Arithmetic>(
    detector: &mut TransmissionDetector<A>,
    one: &[IqSample],
    found: Vec<Transmission>,
)
    requires
        old(detector).well_formed(),
        one@.len() == 1,
        call_ensures(TransmissionDetector::<A>::process, (detector, one), found),
    ensures
        exists|levels: Seq<Single>| #[trigger]
            vector_lengths(&old(detector).arithmetic(), one@, levels) && goes_on(
                old(detector).configuration(),
                old(detector)@,
                one@[0],
                levels[0],
                final(detector)@,
                found@.len(),
            ),
{
    let arith = &old(detector).arithmetic();
    let config = old(detector).configuration();
    let p = old(detector)@;
    let levels = choose|levels: Seq<Single>| #[trigger]
        levels_of(arith, one@, levels) && {
            let run = detect(config, p, one@, levels);
            final(detector)@ == run.0 && all_realise(arith, found@, run.1)
        };
    levels_are_vector_lengths(arith, one@, levels);
    reveal_with_fuel(detect, 2);
    assert(one@.last() == one@[0] && levels.last() == levels[0]);
    assert(one@.drop_last().len() == 0);
}

/// What a sample with level `level` makes of `p`, as long as that does not end a transmission.
pub open spec fn goes_on(
    config: DetectorConfig,
    p: Progress,
    sample: IqSample,
    level: Single,
    q: Progress,
    ended: nat,
) -> bool {
    let above = config.squelch_threshold.below(level);
    let below = level.below(config.squelch_threshold);
    let room = p.buffer.len() + 1 < config.max_transmission_samples;
    &&& q.total == p.total + 1
    &&& p.state is Idle && !above ==> ended == 0 && q.state is Idle && q.buffer == p.buffer
        && q.count == p.count
    &&& room && above ==> ended == 0 && q.state is Receiving && q.hangtime == 0 && q.buffer
        == p.buffer.push(sample)
    &&& room && p.state is Receiving && !above && !below ==> ended == 0 && q.state is Receiving
        && q.buffer == p.buffer.push(sample)
    &&& room && p.state is Receiving && below && 1 < config.hangtime_samples ==> ended == 0
        && q.state is Hangtime && q.hangtime == 1 && q.buffer == p.buffer.push(sample)
    &&& room && p.state is Hangtime && !above && p.hangtime + 1 < config.hangtime_samples ==> ended
        == 0 && q.state is Hangtime && q.hangtime == p.hangtime + 1 && q.buffer == p.buffer.push(
        sample,
    )
    &&& p.state is Hangtime && !above && p.hangtime + 1 >= config.hangtime_samples ==> q.state is Idle
    &&& p.state is Receiving && below && config.hangtime_samples <= 1 ==> q.state is Idle
    &&& !(p.state is Idle && !above) && !room ==> q.state is Idle
    &&& q.state is Idle ==> q.buffer.len() == 0 && q.hangtime == 0
}

/// How a stream is cut into buffers does not show: a detector that takes it in two parts finds in
/// them, field by field, what an equal one finds in the whole, and both remember the same.
pub proof fn a_stream_may_come_in_parts<A: Arithmetic>(
    one: &mut TransmissionDetector<A>,
    whole: &[IqSample],
    found: Vec<Transmission>,
    other: &mut TransmissionDetector<A>,
    first: &[IqSample],
    found_first: Vec<Transmission>,
    then: &mut TransmissionDetector<A>,
    second: &[IqSample],
    found_second: Vec<Transmission>,
)
    requires
        measures_alike(&old(one).arithmetic()),
        old(one)@ == old(other)@,
        old(one).configuration() == old(other).configuration(),
        old(one).arithmetic() == old(other).arithmetic(),
        whole@ == first@ + second@,
        call_ensures(TransmissionDetector::<A>::process, (one, whole), found),
        call_ensures(TransmissionDetector::<A>::process, (other, first), found_first),
        *old(then) == *final(other),
        call_ensures(TransmissionDetector::<A>::process, (then, second), found_second),
    ensures
        final(one)@ == final(then)@,
        frames_of(found@) == frames_of(found_first@) + frames_of(found_second@),
{
    cuts_do_not_show(
        &old(one).arithmetic(),
        old(one).configuration(),
        old(one)@,
        first@,
        second@,
        final(one)@,
        found@,
        final(other)@,
        found_first@,
        final(then)@,
        found_second@,
    );
}

/// What a detector says of itself.
pub proof fn a_detector_tells_where_it_stands<A: Arithmetic>(
    detector: TransmissionDetector<A>,
    state: DetectorState,
    receiving: bool,
    count: u64,
    total: u64,
)
    requires
        call_ensures(TransmissionDetector::<A>::state, (&detector,), &state),
        call_ensures(TransmissionDetector::<A>::is_receiving, (&detector,), receiving),
        call_ensures(TransmissionDetector::<A>::transmission_count, (&detector,), count),
        call_ensures(TransmissionDetector::<A>::total_samples, (&detector,), total),
    ensures
        state == detector@.state,
        receiving <==> !(detector@.state is Idle),
        count == detector@.count,
        total == detector@.total,
{
}

/// A transmission lasts as many samples as it has, and as many seconds as they are divided by the
/// rate.
pub proof fn a_transmission_lasts_as_long_as_its_samples<A: Arithmetic>(
    tx: Transmission,
    arith: &A,
    rate: Double,
    n: usize,
    secs: Double,
)
    requires
        call_ensures(Transmission::duration_samples, (&tx,), n),
        call_ensures(Transmission::duration_secs::<A>, (&tx, arith, rate), secs),
    ensures
        n == tx.samples@.len(),
        exists|all: Double|
            call_ensures(A::wide_count, (arith, n as u64), all) && #[trigger] call_ensures(
                A::wide_over,
                (arith, all, rate),
                secs,
            ),
{
    assert(tx@.samples == tx.samples@);
    let all = choose|all: Double|
        wide_count_of(arith, tx@.samples.len() as u64, all) && #[trigger] wide_quotient_of(
            arith,
            all,
            rate,
            secs,
        );
    assert(call_ensures(A::wide_over, (arith, all, rate), secs));
}

/// A copy of a transmission is the same in every respect.
pub proof fn a_copy_of_a_transmission_is_the_same(tx: Transmission, copy: Transmission)
    requires
        call_ensures(Transmission::clone, (&tx,), copy),
    ensures
        copy.samples@ == tx.samples@,
        copy.start_sample == tx.start_sample,
        copy.peak_level == tx.peak_level,
        copy.avg_level == tx.avg_level,
        copy.id == tx.id,
{
    assert(tx@.samples == tx.samples@);
    assert(copy@.samples == copy.samples@);
}

} // verus!
