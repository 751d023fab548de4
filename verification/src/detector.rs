//! Transmission detection: finds individual transmissions (frames) in a continuous stream of IQ
//! samples by their level.
use vstd::prelude::*;

use crate::arith::{
    largest, running_sum, running_sum_push, wide_count_of, wide_quotient_of, Arithmetic, Double,
    Single,
};
use crate::signal::{levels_of, levels_push, mean, mean_of, sample_magnitude, IqSample};

verus! {

/// Bit pattern of 0.003, a level of about -50 dB.
pub const DEFAULT_SQUELCH_BITS: u32 = 0x3B44_9BA6;

/// Configuration for transmission detection.
#[derive(Clone, Copy, Debug)]
pub struct DetectorConfig {
    /// Level above which a transmission starts.
    pub squelch_threshold: Single,
    /// Number of samples below the threshold after which a transmission has ended.
    pub hangtime_samples: usize,
    /// Minimum number of samples of a valid transmission.
    pub min_transmission_samples: usize,
    /// Maximum number of samples of a transmission.
    pub max_transmission_samples: usize,
}

impl Default for DetectorConfig {
    fn default() -> (r: DetectorConfig)
        ensures
            r.squelch_threshold.bits == DEFAULT_SQUELCH_BITS,
            r.hangtime_samples == 8192,
            r.min_transmission_samples == 1024,
            r.max_transmission_samples == 2_000_000,
    {
        DetectorConfig {
            squelch_threshold: Single { bits: DEFAULT_SQUELCH_BITS },
            hangtime_samples: 8192,
            min_transmission_samples: 1024,
            max_transmission_samples: 2_000_000,
        }
    }
}

/// State of the transmission detector.
#[derive(Clone, Copy, Debug, PartialEq, Eq, Structural)]
pub enum DetectorState {
    /// Waiting for a signal above the threshold.
    Idle,
    /// Receiving a transmission.
    Receiving,
    /// The signal dropped, and may come back.
    Hangtime,
}

/// A detected transmission (frame).
#[derive(Debug)]
pub struct Transmission {
    /// The IQ samples of this transmission.
    pub samples: Vec<IqSample>,
    /// Position of the first sample, counted from the start of the stream.
    pub start_sample: u64,
    /// Peak level during the transmission.
    pub peak_level: Single,
    /// Average level during the transmission.
    pub avg_level: Single,
    /// Sequential number.
    pub id: u64,
}

/// What a [`Transmission`] holds.
#[verifier::ext_equal]
pub struct Frame {
    pub samples: Seq<IqSample>,
    pub start_sample: u64,
    pub peak_level: Single,
    pub avg_level: Single,
    pub id: u64,
}

impl View for Transmission {
    type V = Frame;

    open spec fn view(&self) -> Frame {
        Frame {
            samples: self.samples@,
            start_sample: self.start_sample,
            peak_level: self.peak_level,
            avg_level: self.avg_level,
            id: self.id,
        }
    }
}

impl Clone for Transmission {
    fn clone(&self) -> (r: Transmission)
        ensures
            r@ == self@,
    {
        let samples = self.samples.clone();
        assert(samples@ =~= self.samples@);
        Transmission {
            samples,
            start_sample: self.start_sample,
            peak_level: self.peak_level,
            avg_level: self.avg_level,
            id: self.id,
        }
    }
}

impl Transmission {
    /// Duration in samples.
    pub fn duration_samples(&self) -> (n: usize)
        ensures
            n == self@.samples.len(),
    {
        self.samples.len()
    }

    /// Duration in seconds given the sample rate.
    pub fn duration_secs<A: Arithmetic>(&self, arith: &A, sample_rate: Double) -> (secs: Double)
        ensures
            exists|n: Double|
                wide_count_of(arith, self@.samples.len() as u64, n) && #[trigger] wide_quotient_of(
                    arith,
                    n,
                    sample_rate,
                    secs,
                ),
    {
        let n = arith.wide_count(self.samples.len() as u64);
        arith.wide_over(n, sample_rate)
    }
}

/// What a detector remembers.
#[verifier::ext_equal]
pub struct Progress {
    pub state: DetectorState,
    /// The samples of the transmission in progress.
    pub buffer: Seq<IqSample>,
    /// The levels of these samples.
    pub counted: Seq<Single>,
    /// How many of them came since the signal dropped, the one on which it dropped among them.
    pub hangtime: nat,
    /// Samples seen in all.
    pub total: nat,
    /// Transmissions completed.
    pub count: nat,
}

/// A completed transmission, with the levels that its peak and its average are taken over.
#[verifier::ext_equal]
pub struct Segment {
    pub samples: Seq<IqSample>,
    pub start: int,
    pub peak: Single,
    pub counted: Seq<Single>,
    pub id: nat,
}

pub open spec fn initial_progress() -> Progress {
    idle_after(0, 0)
}

/// Nothing in progress, after `total` samples and `count` transmissions.
pub open spec fn idle_after(total: nat, count: nat) -> Progress {
    Progress {
        state: DetectorState::Idle,
        buffer: Seq::empty(),
        counted: Seq::empty(),
        hangtime: 0,
        total,
        count,
    }
}

/// How many samples the transmission in progress has: those of the hangtime do not belong to it.
pub open spec fn kept(p: Progress) -> int {
    p.buffer.len() - p.hangtime
}

/// Ends the transmission in progress. One of fewer samples than the minimum is discarded. Either way
/// nothing of it is remembered.
pub open spec fn finished(config: DetectorConfig, p: Progress) -> (Progress, Option<Segment>) {
    if kept(p) < config.min_transmission_samples {
        (idle_after(p.total, p.count), None)
    } else {
        let counted = p.counted.subrange(0, kept(p));
        (
            idle_after(p.total, p.count + 1),
            Some(
                Segment {
                    samples: p.buffer.subrange(0, kept(p)),
                    start: p.total - p.buffer.len(),
                    peak: largest(counted[0], counted.drop_first()),
                    counted,
                    id: p.count + 1,
                },
            ),
        )
    }
}

/// Whether the transmission in progress is over: the signal has been away for the hangtime, or the
/// maximum is reached.
pub open spec fn over(config: DetectorConfig, p: Progress) -> bool {
    ||| p.state is Hangtime && p.hangtime >= config.hangtime_samples
    ||| p.buffer.len() >= config.max_transmission_samples
}

/// What is remembered once `sample` belongs to the transmission in progress, or starts one. A level
/// above the threshold is signal. One below it starts the hangtime, which goes on until the signal
/// is back. One at the threshold does neither.
pub open spec fn grown(
    config: DetectorConfig,
    p: Progress,
    sample: IqSample,
    level: Single,
) -> Progress {
    let threshold = config.squelch_threshold;
    let dropped = !threshold.below(level) && (p.state is Hangtime || level.below(threshold));
    Progress {
        state: if dropped {
            DetectorState::Hangtime
        } else {
            DetectorState::Receiving
        },
        buffer: p.buffer.push(sample),
        counted: p.counted.push(level),
        hangtime: if dropped {
            p.hangtime + 1
        } else {
            0
        },
        total: p.total + 1,
        count: p.count,
    }
}

/// What one sample with level `level` does.
pub open spec fn detect_one(
    config: DetectorConfig,
    p: Progress,
    sample: IqSample,
    level: Single,
) -> (Progress, Option<Segment>) {
    let next = grown(config, p, sample, level);
    if p.state is Idle && !config.squelch_threshold.below(level) {
        (Progress { total: p.total + 1, ..p }, None)
    } else if over(config, next) {
        finished(config, next)
    } else {
        (next, None)
    }
}

/// What a stretch of samples does, from the first to the last.
pub open spec fn detect(
    config: DetectorConfig,
    p: Progress,
    samples: Seq<IqSample>,
    levels: Seq<Single>,
) -> (Progress, Seq<Segment>)
    decreases samples.len(),
{
    if samples.len() == 0 {
        (p, Seq::empty())
    } else {
        let before = detect(config, p, samples.drop_last(), levels.drop_last());
        let last = detect_one(config, before.0, samples.last(), levels.last());
        (
            last.0,
            match last.1 {
                Some(segment) => before.1.push(segment),
                None => before.1,
            },
        )
    }
}

/// `avg` is the average of `levels`.
pub open spec fn average_of<A: Arithmetic>(arith: &A, levels: Seq<Single>, avg: Single) -> bool {
    exists|total: Single|
        running_sum(arith, levels[0], levels.drop_first(), total) && #[trigger] mean_of(
            arith,
            total,
            levels.len() as u64,
            avg,
        )
}

/// `frame` is the segment, with its average computed.
pub open spec fn realises<A: Arithmetic>(arith: &A, frame: Frame, segment: Segment) -> bool {
    &&& frame.samples == segment.samples
    &&& frame.start_sample == segment.start
    &&& frame.peak_level == segment.peak
    &&& frame.id == segment.id
    &&& average_of(arith, segment.counted, frame.avg_level)
}

/// The same of a list of transmissions.
pub open spec fn all_realise<A: Arithmetic>(
    arith: &A,
    found: Seq<Transmission>,
    segments: Seq<Segment>,
) -> bool {
    &&& found.len() == segments.len()
    &&& forall|i: int|
        0 <= i < found.len() ==> realises(arith, (#[trigger] found[i])@, segments[i])
}

/// A detector that stood at `pre` took `samples`, stands at `post` and has found `found`.
pub open spec fn detected<A: Arithmetic>(
    arith: &A,
    config: DetectorConfig,
    pre: Progress,
    samples: Seq<IqSample>,
    post: Progress,
    found: Seq<Transmission>,
) -> bool {
    exists|levels: Seq<Single>| #[trigger]
        levels_of(arith, samples, levels) && {
            let run = detect(config, pre, samples, levels);
            post == run.0 && all_realise(arith, found, run.1)
        }
}

/// A detector that stood at `pre` was made to end what it was receiving, stands at `post` and has
/// found `found`.
pub open spec fn flushed<A: Arithmetic>(
    arith: &A,
    config: DetectorConfig,
    pre: Progress,
    post: Progress,
    found: Option<Transmission>,
) -> bool {
    if pre.state is Idle {
        found is None && post == pre
    } else {
        let step = finished(config, pre);
        post == step.0 && match found {
            Some(tx) => step.1 is Some && realises(arith, tx@, step.1->0),
            None => step.1 is None,
        }
    }
}

/// The most samples that a transmission can have: at least one is needed to see it.
pub open spec fn size_limit(config: DetectorConfig) -> int {
    if config.max_transmission_samples == 0 {
        1
    } else {
        config.max_transmission_samples as int
    }
}

/// The length of a transmission is within the limits.
pub open spec fn valid_length(config: DetectorConfig, frame: Frame) -> bool {
    config.min_transmission_samples <= frame.samples.len() <= size_limit(config)
}

/// Detector that processes IQ streams and extracts individual transmissions.
pub struct TransmissionDetector<A> {
    arith: A,
    config: DetectorConfig,
    state: DetectorState,
    current_buffer: Vec<IqSample>,
    current_levels: Vec<Single>,
    hangtime_counter: usize,
    total_samples: u64,
    transmission_count: u64,
}

impl<A: Arithmetic> View for TransmissionDetector<A> {
    type V = Progress;

    closed spec fn view(&self) -> Progress {
        Progress {
            state: self.state,
            buffer: self.current_buffer@,
            counted: self.current_levels@,
            hangtime: self.hangtime_counter as nat,
            total: self.total_samples as nat,
            count: self.transmission_count as nat,
        }
    }
}

/// What holds of what is remembered, also when the transmission in progress is about to end.
pub open spec fn stored(p: Progress) -> bool {
    &&& p.state is Idle <==> p.buffer.len() == 0
    &&& p.counted.len() == p.buffer.len()
    &&& p.state is Hangtime <==> p.hangtime > 0
    &&& p.hangtime > 0 ==> p.hangtime < p.buffer.len()
    &&& p.count + p.buffer.len() <= p.total
}

/// What holds of a detector between samples.
pub open spec fn consistent(config: DetectorConfig, p: Progress) -> bool {
    &&& stored(p)
    &&& p.state !is Idle ==> !over(config, p)
}

impl<A: Arithmetic> TransmissionDetector<A> {
    pub closed spec fn arithmetic(&self) -> A {
        self.arith
    }

    pub closed spec fn configuration(&self) -> DetectorConfig {
        self.config
    }

    pub open spec fn well_formed(&self) -> bool {
        consistent(self.configuration(), self@)
    }

    pub fn new(config: DetectorConfig, arith: A) -> (r: TransmissionDetector<A>)
        ensures
            r.well_formed(),
            r@ == initial_progress(),
            r.configuration() == config,
            r.arithmetic() == arith,
    {
        TransmissionDetector {
            arith,
            config,
            state: DetectorState::Idle,
            current_buffer: Vec::new(),
            current_levels: Vec::new(),
            hangtime_counter: 0,
            total_samples: 0,
            transmission_count: 0,
        }
    }

    /// Process incoming IQ samples and return any completed transmissions.
    pub fn process(&mut self, samples: &[IqSample]) -> (completed: Vec<Transmission>)
        requires
            old(self).well_formed(),
            old(self)@.total + samples@.len() <= u64::MAX,
        ensures
            final(self).well_formed(),
            final(self).configuration() == old(self).configuration(),
            final(self).arithmetic() == old(self).arithmetic(),
            detected(
                &old(self).arithmetic(),
                old(self).configuration(),
                old(self)@,
                samples@,
                final(self)@,
                completed@,
            ),
            final(self)@.count == old(self)@.count + completed@.len(),
            forall|k: int|
                0 <= k < completed@.len() ==> valid_length(
                    old(self).configuration(),
                    (#[trigger] completed@[k])@,
                ),
    {
        let mut completed: Vec<Transmission> = Vec::new();
        let ghost mut levels: Seq<Single> = Seq::empty();
        let mut i: usize = 0;
        while i < samples.len()
            invariant
                i <= samples@.len(),
                self.well_formed(),
                self.config == old(self).config,
                self.arith == old(self).arith,
                old(self)@.total + samples@.len() <= u64::MAX,
                self@.total == old(self)@.total + i,
                self@.count == old(self)@.count + completed@.len(),
                levels_of(&old(self).arith, samples@.subrange(0, i as int), levels),
                self@ == detect(
                    old(self).config,
                    old(self)@,
                    samples@.subrange(0, i as int),
                    levels,
                ).0,
                all_realise(
                    &old(self).arith,
                    completed@,
                    detect(
                        old(self).config,
                        old(self)@,
                        samples@.subrange(0, i as int),
                        levels,
                    ).1,
                ),
                forall|k: int|
                    0 <= k < completed@.len() ==> valid_length(
                        old(self).config,
                        (#[trigger] completed@[k])@,
                    ),
            decreases samples@.len() - i,
        {
            let sample = samples[i];
            let magnitude = sample_magnitude(&self.arith, sample);
            proof {
                levels_push(&self.arith, samples@, i as int, levels, magnitude);
                assert(samples@.subrange(0, i + 1).drop_last() =~= samples@.subrange(0, i as int));
                assert(levels.push(magnitude).drop_last() =~= levels);
                levels = levels.push(magnitude);
            }
            let found = self.observe(sample, magnitude);
            if let Some(tx) = found {
                completed.push(tx);
            }
            i += 1;
        }
        assert(samples@.subrange(0, i as int) =~= samples@);
        assert(levels_of(&old(self).arithmetic(), samples@, levels));
        completed
    }

    /// Take in one sample with level `magnitude`.
    fn observe(&mut self, sample: IqSample, magnitude: Single) -> (found: Option<Transmission>)
        requires
            old(self).well_formed(),
            old(self)@.total < u64::MAX,
        ensures
            final(self).well_formed(),
            final(self).config == old(self).config,
            final(self).arith == old(self).arith,
            ({
                let step = detect_one(old(self).config, old(self)@, sample, magnitude);
                &&& final(self)@ == step.0
                &&& found is Some == step.1 is Some
                &&& found is Some ==> realises(&old(self).arith, found->0@, step.1->0)
            }),
            final(self)@.total == old(self)@.total + 1,
            final(self)@.count == old(self)@.count + (if found is Some {
                1int
            } else {
                0
            }),
            found is Some ==> valid_length(old(self).config, found->0@),
    {
        self.total_samples += 1;
        let above = self.config.squelch_threshold.is_below(magnitude);
        match self.state {
            DetectorState::Idle => {
                if !above {
                    return None;
                }
                self.state = DetectorState::Receiving;
            },
            DetectorState::Receiving => {
                if magnitude.is_below(self.config.squelch_threshold) {
                    self.state = DetectorState::Hangtime;
                    self.hangtime_counter = 1;
                }
            },
            DetectorState::Hangtime => {
                if above {
                    self.state = DetectorState::Receiving;
                    self.hangtime_counter = 0;
                } else {
                    self.hangtime_counter += 1;
                }
            },
        }
        self.current_buffer.push(sample);
        self.current_levels.push(magnitude);
        let expired = self.state == DetectorState::Hangtime && self.hangtime_counter
            >= self.config.hangtime_samples;
        if expired || self.current_buffer.len() >= self.config.max_transmission_samples {
            self.finalize_transmission()
        } else {
            None
        }
    }

    /// Finalize the current transmission and reset the state.
    fn finalize_transmission(&mut self) -> (found: Option<Transmission>)
        requires
            stored(old(self)@),
            old(self).state !is Idle,
        ensures
            final(self).well_formed(),
            final(self).config == old(self).config,
            final(self).arith == old(self).arith,
            ({
                let step = finished(old(self).config, old(self)@);
                &&& final(self)@ == step.0
                &&& found is Some == step.1 is Some
                &&& found is Some ==> realises(&old(self).arith, found->0@, step.1->0)
            }),
    {
        let start_sample = self.total_samples - self.current_buffer.len() as u64;
        let end_idx = self.current_buffer.len() - self.hangtime_counter;
        let mut samples: Vec<IqSample> = Vec::new();
        let mut levels: Vec<Single> = Vec::new();
        std::mem::swap(&mut samples, &mut self.current_buffer);
        std::mem::swap(&mut levels, &mut self.current_levels);
        self.state = DetectorState::Idle;
        self.hangtime_counter = 0;
        if end_idx < self.config.min_transmission_samples {
            return None;
        }
        samples.truncate(end_idx);
        levels.truncate(end_idx);
        let (peak_level, sum) = peak_and_sum(&self.arith, &levels);
        let avg_level = mean(&self.arith, sum, end_idx as u64);
        self.transmission_count += 1;
        Some(
            Transmission {
                samples,
                start_sample,
                peak_level,
                avg_level,
                id: self.transmission_count,
            },
        )
    }

    /// Force-complete any in-progress transmission.
    pub fn flush(&mut self) -> (found: Option<Transmission>)
        requires
            old(self).well_formed(),
        ensures
            final(self).well_formed(),
            final(self).configuration() == old(self).configuration(),
            final(self).arithmetic() == old(self).arithmetic(),
            flushed(
                &old(self).arithmetic(),
                old(self).configuration(),
                old(self)@,
                final(self)@,
                found,
            ),
            found is Some ==> valid_length(old(self).configuration(), found->0@),
    {
        if self.state != DetectorState::Idle && self.current_buffer.len() > 0 {
            self.finalize_transmission()
        } else {
            None
        }
    }

    /// Get the current detector state.
    pub fn state(&self) -> (r: &DetectorState)
        ensures
            *r == self@.state,
    {
        &self.state
    }

    /// Get the total number of completed transmissions.
    pub fn transmission_count(&self) -> (r: u64)
        ensures
            r == self@.count,
    {
        self.transmission_count
    }

    /// Get the total number of samples seen.
    pub fn total_samples(&self) -> (r: u64)
        ensures
            r == self@.total,
    {
        self.total_samples
    }

    /// Check if currently receiving.
    pub fn is_receiving(&self) -> (r: bool)
        ensures
            r == (self@.state is Receiving || self@.state is Hangtime),
    {
        match self.state {
            DetectorState::Receiving | DetectorState::Hangtime => true,
            DetectorState::Idle => false,
        }
    }
}

/// The largest of `levels`, and their sum.
fn peak_and_sum<A: Arithmetic>(arith: &A, levels: &Vec<Single>) -> (r: (Single, Single))
    requires
        levels@.len() > 0,
    ensures
        r.0 == largest(levels@[0], levels@.drop_first()),
        running_sum(arith, levels@[0], levels@.drop_first(), r.1),
{
    let mut peak = levels[0];
    let mut sum = levels[0];
    let mut i: usize = 1;
    assert(levels@.subrange(1, 1) =~= Seq::<Single>::empty());
    while i < levels.len()
        invariant
            1 <= i <= levels@.len(),
            peak == largest(levels@[0], levels@.subrange(1, i as int)),
            running_sum(arith, levels@[0], levels@.subrange(1, i as int), sum),
        decreases levels@.len() - i,
    {
        let before = sum;
        peak = peak.max_of(levels[i]);
        sum = arith.plus(before, levels[i]);
        proof {
            let more = levels@.subrange(1, i + 1);
            assert(more =~= levels@.subrange(1, i as int).push(levels@[i as int]));
            assert(more.drop_last() =~= levels@.subrange(1, i as int));
            running_sum_push(
                arith,
                levels@[0],
                levels@.subrange(1, i as int),
                before,
                levels@[i as int],
                sum,
            );
        }
        i += 1;
    }
    assert(levels@.subrange(1, i as int) =~= levels@.drop_first());
    (peak, sum)
}

} // verus!
