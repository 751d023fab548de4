use radiofuzz::arith::{Arithmetic, Double, Single};
use radiofuzz::detector::{DetectorConfig, Transmission, TransmissionDetector};
use radiofuzz::fuzzer::{Fuzzer, FuzzerAction, FuzzerStrategy};
use radiofuzz::pipeline::{dispatch, dispatch_at, finish_reception, receive, replay_one, Dispatch};
use radiofuzz::signal::IqSample;
use radiofuzz::span::Span;
use radiofuzz::stats::{Channel, DebugStats};
use radiofuzz::strategy_text::{describe, parse_strategy, strategy_from};
use radiofuzz::text::{
    append_decimal, append_padded, find_char, parse_unsigned, same_text, split, split_lines,
};

/// Arithmetic of the machine that the tests run on.
#[derive(Clone, Copy)]
struct Host;

fn single(x: f32) -> Single {
    Single { bits: x.to_bits() }
}

fn double(x: f64) -> Double {
    Double { bits: x.to_bits() }
}

fn float(x: Single) -> f32 {
    f32::from_bits(x.bits)
}

fn wide(x: Double) -> f64 {
    f64::from_bits(x.bits)
}

impl Arithmetic for Host {
    fn plus(&self, x: Single, y: Single) -> Single {
        single(float(x) + float(y))
    }

    fn minus(&self, x: Single, y: Single) -> Single {
        single(float(x) - float(y))
    }

    fn times(&self, x: Single, y: Single) -> Single {
        single(float(x) * float(y))
    }

    fn over(&self, x: Single, y: Single) -> Single {
        single(float(x) / float(y))
    }

    fn root(&self, x: Single) -> Single {
        single(float(x).sqrt())
    }

    fn log10(&self, x: Single) -> Single {
        single(float(x).log10())
    }

    fn count(&self, n: u64) -> Single {
        single(n as f32)
    }

    fn parse(&self, text: &str) -> Option<Single> {
        match text.parse::<f32>() {
            Ok(x) => Some(single(x)),
            Err(_) => None,
        }
    }

    fn shortest(&self, x: Single) -> String {
        format!("{:?}", float(x))
    }

    fn wide_plus(&self, x: Double, y: Double) -> Double {
        double(wide(x) + wide(y))
    }

    fn wide_minus(&self, x: Double, y: Double) -> Double {
        double(wide(x) - wide(y))
    }

    fn wide_times(&self, x: Double, y: Double) -> Double {
        double(wide(x) * wide(y))
    }

    fn wide_over(&self, x: Double, y: Double) -> Double {
        double(wide(x) / wide(y))
    }

    fn wide_rem(&self, x: Double, y: Double) -> Double {
        double(wide(x) % wide(y))
    }

    fn wide_cos(&self, x: Double) -> Double {
        double(wide(x).cos())
    }

    fn wide_sin(&self, x: Double) -> Double {
        double(wide(x).sin())
    }

    fn wide_count(&self, n: u64) -> Double {
        double(n as f64)
    }

    fn wide_floor(&self, x: Double) -> u64 {
        wide(x) as u64
    }

    fn narrow(&self, x: Double) -> Single {
        single(wide(x) as f32)
    }

    fn seconds(&self, span: Span) -> Double {
        double(span.secs as f64 + span.nanos as f64 / 1e9)
    }
}

fn sample(re: f32, im: f32) -> IqSample {
    IqSample { re: single(re), im: single(im) }
}

fn make_tx(n: usize) -> Transmission {
    Transmission {
        samples: (0..n).map(|i| sample(i as f32 * 0.01 + 0.01, i as f32 * -0.01 - 0.01)).collect(),
        start_sample: 0,
        peak_level: single(1.0),
        avg_level: single(0.5),
        id: 1,
    }
}

fn next_state(state: u64) -> u64 {
    state.wrapping_mul(6364136223846793005).wrapping_add(1)
}

/// Waits until that much time has passed.
fn wait(millis: u64) {
    let start = std::time::Instant::now();
    while start.elapsed() < std::time::Duration::from_millis(millis) {}
}

fn at(millis: u64) -> Span {
    Span::from_millis(millis)
}

#[test]
fn test_fuzzer_passthrough() {
    let mut f = Fuzzer::new(FuzzerStrategy::Passthrough);
    let tx = make_tx(100);
    let original = tx.samples.clone();
    match f.process(&Host, tx) {
        FuzzerAction::Pass(t) => assert_eq!(t.samples, original),
        _ => panic!("expected Pass"),
    }
}

#[test]
fn test_fuzzer_drop_100() {
    let mut f = Fuzzer::new(FuzzerStrategy::DropPercent(100));
    for _ in 0..20 {
        match f.process(&Host, make_tx(100)) {
            FuzzerAction::Drop => {}
            _ => panic!("expected Drop"),
        }
    }
    assert_eq!(f.stats().dropped, 20);
}

#[test]
fn test_fuzzer_drop_0() {
    let mut f = Fuzzer::new(FuzzerStrategy::DropPercent(0));
    for _ in 0..20 {
        match f.process(&Host, make_tx(100)) {
            FuzzerAction::Pass(_) => {}
            _ => panic!("expected Pass"),
        }
    }
}

#[test]
fn dropping_follows_the_generator() {
    let mut f = Fuzzer::new(FuzzerStrategy::DropPercent(50));
    let mut state: u64 = 0x12345678;
    let mut dropped = 0;
    for _ in 0..50 {
        state = next_state(state);
        match f.process(&Host, make_tx(1)) {
            FuzzerAction::Drop => {
                assert!(state % 100 < 50);
                dropped += 1;
            }
            FuzzerAction::Pass(_) => assert!(state % 100 >= 50),
            _ => panic!("expected Drop or Pass"),
        }
    }
    assert!(dropped > 0 && dropped < 50);
    // Every transmission was passed or dropped.
    assert_eq!(f.stats().dropped, dropped);
    assert_eq!(f.stats().passed + f.stats().dropped, 50);
}

#[test]
fn test_fuzzer_fixed_delay_queues_then_releases() {
    let mut f = Fuzzer::new(FuzzerStrategy::FixedDelay(Span::from_millis(1)));
    match f.process(&Host, make_tx(100)) {
        FuzzerAction::Delayed => {}
        _ => panic!("expected Delayed"),
    }
    assert_eq!(f.delayed_count(), 1);
    let early = f.poll_delayed();
    wait(5);
    let ready = f.poll_delayed();
    assert!(early.len() + ready.len() == 1, "expected exactly 1 released transmission");
    assert_eq!(f.delayed_count(), 0);
}

#[test]
fn test_fuzzer_random_delay() {
    let mut f = Fuzzer::new(FuzzerStrategy::RandomDelay {
        min: Span::from_millis(1),
        max: Span::from_millis(10),
    });
    match f.process(&Host, make_tx(100)) {
        FuzzerAction::Delayed => {}
        _ => panic!("expected Delayed"),
    }
    assert_eq!(f.delayed_count(), 1);
    wait(20);
    let ready = f.poll_delayed();
    assert_eq!(ready.len(), 1);
}

#[test]
fn nothing_is_released_before_its_time() {
    let mut f = Fuzzer::new(FuzzerStrategy::FixedDelay(Span::from_millis(100)));
    for i in 0..3u64 {
        let mut tx = make_tx(1);
        tx.id = i;
        f.process_at(&Host, at(10 * i), tx);
    }
    assert!(f.poll_delayed_at(at(99)).is_empty());
    let first = f.poll_delayed_at(at(100));
    assert_eq!(first.len(), 1);
    assert_eq!(first[0].id, 0);
    // All that are due leave together, in order.
    let rest = f.poll_delayed_at(at(120));
    assert_eq!(rest.len(), 2);
    assert_eq!((rest[0].id, rest[1].id), (1, 2));
    assert_eq!(f.delayed_count(), 0);
    assert_eq!(f.stats().passed, 3);
    assert_eq!(f.stats().delayed, 0);
}

#[test]
fn a_random_delay_lies_within_its_bounds() {
    let drawn = next_state(0x12345678);
    let expected = 100 + drawn % 1900;
    let mut f = Fuzzer::new(FuzzerStrategy::RandomDelay { min: at(100), max: at(2000) });
    f.process_at(&Host, at(0), make_tx(1));
    assert!(f.poll_delayed_at(at(expected - 1)).is_empty());
    assert_eq!(f.poll_delayed_at(at(expected)).len(), 1);
    assert!((100..2000).contains(&expected));
    // Equal bounds leave nothing to chance.
    let mut g = Fuzzer::new(FuzzerStrategy::RandomDelay { min: at(7), max: at(7) });
    g.process_at(&Host, at(0), make_tx(1));
    assert!(g.poll_delayed_at(at(6)).is_empty());
    assert_eq!(g.poll_delayed_at(at(7)).len(), 1);
}

#[test]
fn one_that_has_to_wait_holds_up_no_other() {
    let mut f = Fuzzer::new(FuzzerStrategy::FixedDelay(Span::from_millis(100)));
    f.process_at(&Host, at(50), make_tx(1));
    f.process_at(&Host, at(0), make_tx(2));
    f.process_at(&Host, at(60), make_tx(3));
    f.process_at(&Host, at(10), make_tx(4));
    let lengths = |ready: Vec<Transmission>| -> Vec<usize> {
        ready.iter().map(|tx| tx.samples.len()).collect()
    };
    assert_eq!(lengths(f.poll_delayed_at(at(120))), [2, 4]);
    assert_eq!((f.delayed_count(), f.stats().passed), (2, 2));
    assert!(f.poll_delayed_at(at(149)).is_empty());
    assert_eq!(lengths(f.poll_delayed_at(at(160))), [1, 3]);
    assert_eq!((f.delayed_count(), f.stats().passed), (0, 4));
}

#[test]
fn test_fuzzer_corrupt_samples() {
    let mut f = Fuzzer::new(FuzzerStrategy::CorruptSamples(100));
    let tx = make_tx(100);
    let original = tx.samples.clone();
    match f.process(&Host, tx) {
        FuzzerAction::Modified(t) => {
            let changed = t.samples.iter().zip(&original).filter(|(a, b)| *a != *b).count();
            assert!(changed > 0, "expected at least some samples to be corrupted");
            assert_eq!(t.samples.len(), 100);
        }
        _ => panic!("expected Modified"),
    }
}

#[test]
fn corruption_replaces_the_sample_that_was_drawn() {
    let mut f = Fuzzer::new(FuzzerStrategy::CorruptSamples(10));
    let tx = make_tx(10);
    let original = tx.samples.clone();
    let idx_drawn = next_state(0x12345678);
    let re_drawn = next_state(idx_drawn);
    let im_drawn = next_state(re_drawn);
    let signed = |state: u64| ((state & 0xFFFFFF) as f32 / 0xFFFFFF as f32) * 2.0 - 1.0;
    match f.process(&Host, tx) {
        FuzzerAction::Modified(t) => {
            let idx = idx_drawn as usize % 10;
            for i in 0..10 {
                if i == idx {
                    assert_eq!(t.samples[i], sample(signed(re_drawn), signed(im_drawn)));
                } else {
                    assert_eq!(t.samples[i], original[i]);
                }
            }
        }
        _ => panic!("expected Modified"),
    }
}

#[test]
fn corruption_of_nothing_changes_nothing() {
    let mut f = Fuzzer::new(FuzzerStrategy::CorruptSamples(100));
    match f.process(&Host, make_tx(0)) {
        FuzzerAction::Modified(t) => assert!(t.samples.is_empty()),
        _ => panic!("expected Modified"),
    }
}

#[test]
fn test_fuzzer_replay_first_pass_then_modified() {
    let mut f = Fuzzer::new(FuzzerStrategy::Replay { buffer_size: 10 });
    match f.process(&Host, make_tx(100)) {
        FuzzerAction::Pass(_) => {}
        _ => panic!("expected Pass for first replay"),
    }
    match f.process(&Host, make_tx(200)) {
        FuzzerAction::Modified(_) => {}
        _ => panic!("expected Modified for subsequent replay"),
    }
}

#[test]
fn a_replayed_transmission_is_an_earlier_one() {
    let mut f = Fuzzer::new(FuzzerStrategy::Replay { buffer_size: 3 });
    for i in 0..20u64 {
        let mut tx = make_tx(i as usize + 1);
        tx.id = i;
        match f.process(&Host, tx) {
            FuzzerAction::Pass(t) => assert_eq!((i, t.id), (0, 0)),
            FuzzerAction::Modified(t) => assert!(t.id < i && t.id + 3 > i, "{} for {}", t.id, i),
            _ => panic!("expected Pass or Modified"),
        }
    }
    // A buffer of one remembers only the current transmission.
    let mut g = Fuzzer::new(FuzzerStrategy::Replay { buffer_size: 1 });
    for _ in 0..3 {
        match g.process(&Host, make_tx(1)) {
            FuzzerAction::Pass(_) => {}
            _ => panic!("expected Pass"),
        }
    }
}

#[test]
fn test_fuzzer_bitflip_probability_1() {
    let mut f = Fuzzer::new(FuzzerStrategy::BitFlip { probability: single(1.0) });
    let tx = make_tx(100);
    let original = tx.samples.clone();
    match f.process(&Host, tx) {
        FuzzerAction::Modified(t) => {
            let changed = t.samples.iter().zip(&original).filter(|(a, b)| *a != *b).count();
            assert!(changed > 90, "expected nearly all samples to be bit-flipped, got {}", changed);
            for (a, b) in t.samples.iter().zip(&original) {
                let flipped = a.re.bits ^ b.re.bits;
                assert!(flipped.count_ones() <= 1);
                assert_eq!(flipped, a.im.bits ^ b.im.bits);
            }
        }
        _ => panic!("expected Modified"),
    }
    let mut g = Fuzzer::new(FuzzerStrategy::BitFlip { probability: single(0.0) });
    match g.process(&Host, make_tx(100)) {
        FuzzerAction::Modified(t) => assert_eq!(t.samples, original),
        _ => panic!("expected Modified"),
    }
}

#[test]
fn test_fuzzer_attenuate() {
    let mut f = Fuzzer::new(FuzzerStrategy::Attenuate(single(0.5)));
    let tx = make_tx(100);
    let original = tx.samples.clone();
    match f.process(&Host, tx) {
        FuzzerAction::Modified(t) => {
            for (a, b) in t.samples.iter().zip(&original) {
                assert!((float(a.re) - float(b.re) * 0.5).abs() < 1e-6, "re mismatch");
                assert!((float(a.im) - float(b.im) * 0.5).abs() < 1e-6, "im mismatch");
            }
        }
        _ => panic!("expected Modified"),
    }
}

#[test]
fn test_fuzzer_add_noise_bounded() {
    let amplitude = 0.1f32;
    let mut f = Fuzzer::new(FuzzerStrategy::AddNoise { amplitude: single(amplitude) });
    let tx = make_tx(200);
    let original = tx.samples.clone();
    match f.process(&Host, tx) {
        FuzzerAction::Modified(t) => {
            let max_delta = t
                .samples
                .iter()
                .zip(&original)
                .map(|(a, b)| {
                    (float(a.re) - float(b.re)).abs().max((float(a.im) - float(b.im)).abs())
                })
                .fold(0.0f32, f32::max);
            assert!(max_delta <= amplitude + 1e-5, "noise exceeded amplitude bound: {max_delta}");
            let changed = t.samples.iter().zip(&original).filter(|(a, b)| *a != *b).count();
            assert!(changed > 0, "expected at least one sample to have noise added");
        }
        _ => panic!("expected Modified"),
    }
}

#[test]
fn test_fuzzer_truncate_50_percent() {
    let mut f = Fuzzer::new(FuzzerStrategy::Truncate(50));
    let tx = make_tx(100);
    match f.process(&Host, tx) {
        FuzzerAction::Modified(t) => assert_eq!(t.samples.len(), 50),
        _ => panic!("expected Modified"),
    }
}

#[test]
fn test_fuzzer_truncate_0_clamps_to_1() {
    let mut f = Fuzzer::new(FuzzerStrategy::Truncate(0));
    let tx = make_tx(100);
    match f.process(&Host, tx) {
        FuzzerAction::Modified(t) => assert_eq!(t.samples.len(), 1),
        _ => panic!("expected Modified with 1 sample minimum"),
    }
}

#[test]
fn truncation_never_adds_samples() {
    let mut f = Fuzzer::new(FuzzerStrategy::Truncate(200));
    match f.process(&Host, make_tx(10)) {
        FuzzerAction::Modified(t) => assert_eq!(t.samples.len(), 10),
        _ => panic!("expected Modified"),
    }
    let mut g = Fuzzer::new(FuzzerStrategy::Truncate(50));
    match g.process(&Host, make_tx(0)) {
        FuzzerAction::Modified(t) => assert!(t.samples.is_empty()),
        _ => panic!("expected Modified"),
    }
}

#[test]
fn test_fuzzer_reverse() {
    let mut f = Fuzzer::new(FuzzerStrategy::Reverse);
    let tx = make_tx(5);
    let original = tx.samples.clone();
    match f.process(&Host, tx) {
        FuzzerAction::Modified(t) => {
            let reversed: Vec<_> = original.into_iter().rev().collect();
            assert_eq!(t.samples, reversed);
        }
        _ => panic!("expected Modified"),
    }
}

#[test]
fn reversing_twice_gives_the_transmission_back() {
    let chain = FuzzerStrategy::Chain(vec![FuzzerStrategy::Reverse, FuzzerStrategy::Reverse]);
    let mut f = Fuzzer::new(chain);
    match f.process(&Host, make_tx(6)) {
        FuzzerAction::Modified(t) => assert_eq!(t.samples, make_tx(6).samples),
        _ => panic!("expected Modified"),
    }
    // A chain counts each of its strategies.
    assert_eq!(f.stats().passed, 2);
}

#[test]
fn test_fuzzer_chain_attenuate_twice() {
    let chain = FuzzerStrategy::Chain(vec![
        FuzzerStrategy::Attenuate(single(0.5)),
        FuzzerStrategy::Attenuate(single(0.5)),
    ]);
    let mut f = Fuzzer::new(chain);
    let tx = make_tx(4);
    let original = tx.samples.clone();
    match f.process(&Host, tx) {
        FuzzerAction::Modified(t) => {
            for (a, b) in t.samples.iter().zip(&original) {
                assert!((float(a.re) - float(b.re) * 0.25).abs() < 1e-6, "re mismatch");
                assert!((float(a.im) - float(b.im) * 0.25).abs() < 1e-6, "im mismatch");
            }
        }
        _ => panic!("expected Modified"),
    }
}

#[test]
fn test_fuzzer_chain_drop_short_circuits() {
    let chain = FuzzerStrategy::Chain(vec![
        FuzzerStrategy::DropPercent(100),
        FuzzerStrategy::Attenuate(single(0.5)),
    ]);
    let mut f = Fuzzer::new(chain);
    match f.process(&Host, make_tx(100)) {
        FuzzerAction::Drop => {}
        _ => panic!("expected Drop"),
    }
    assert_eq!(f.stats().passed, 0);
    assert_eq!(f.stats().dropped, 1);
}

#[test]
fn an_empty_chain_hands_the_transmission_on() {
    let mut f = Fuzzer::new(FuzzerStrategy::Chain(vec![]));
    match f.process(&Host, make_tx(3)) {
        FuzzerAction::Modified(t) => assert_eq!(t.samples, make_tx(3).samples),
        _ => panic!("expected Modified"),
    }
    assert_eq!(f.stats().passed, 0);
}

#[test]
fn fuzzing_keeps_the_metadata() {
    let strategies = vec![
        FuzzerStrategy::CorruptSamples(50),
        FuzzerStrategy::BitFlip { probability: single(0.5) },
        FuzzerStrategy::Attenuate(single(0.5)),
        FuzzerStrategy::AddNoise { amplitude: single(0.1) },
        FuzzerStrategy::Truncate(50),
        FuzzerStrategy::Reverse,
    ];
    let mut f = Fuzzer::new(FuzzerStrategy::Chain(strategies));
    let mut tx = make_tx(40);
    tx.id = 77;
    tx.start_sample = 1234;
    match f.process(&Host, tx) {
        FuzzerAction::Modified(t) => {
            assert_eq!((t.id, t.start_sample), (77, 1234));
            assert_eq!((float(t.peak_level), float(t.avg_level)), (1.0, 0.5));
            assert_eq!(t.samples.len(), 20);
        }
        _ => panic!("expected Modified"),
    }
}

#[test]
fn a_fuzzer_knows_what_it_can_take() {
    assert!(Fuzzer::new(FuzzerStrategy::Passthrough).can_process());
    assert!(Fuzzer::new(FuzzerStrategy::Chain(vec![FuzzerStrategy::Reverse; 3])).can_process());
    let backwards = FuzzerStrategy::RandomDelay { min: at(5), max: at(4) };
    assert!(!backwards.is_valid());
    assert!(!Fuzzer::new(FuzzerStrategy::Chain(vec![backwards])).can_process());
    assert_eq!(
        FuzzerStrategy::Chain(vec![
            FuzzerStrategy::Reverse,
            FuzzerStrategy::Chain(vec![FuzzerStrategy::Reverse, FuzzerStrategy::Passthrough]),
        ])
        .stage_count(),
        Some(3)
    );
}

// Strategies as text.

#[test]
fn test_parse_strategy_all_variants() {
    let parse = |s: &str| parse_strategy(&Host, s);
    assert_eq!(parse("passthrough").unwrap(), FuzzerStrategy::Passthrough);
    assert_eq!(parse("pass").unwrap(), FuzzerStrategy::Passthrough);
    assert_eq!(parse("drop:75").unwrap(), FuzzerStrategy::DropPercent(75));
    assert_eq!(parse("drop").unwrap(), FuzzerStrategy::DropPercent(50));
    assert_eq!(
        parse("delay:1000").unwrap(),
        FuzzerStrategy::FixedDelay(Span::from_millis(1000))
    );
    assert_eq!(
        parse("random_delay:100:2000").unwrap(),
        FuzzerStrategy::RandomDelay {
            min: Span::from_millis(100),
            max: Span::from_millis(2000),
        }
    );
    assert_eq!(parse("corrupt:30").unwrap(), FuzzerStrategy::CorruptSamples(30));
    assert_eq!(parse("replay:5").unwrap(), FuzzerStrategy::Replay { buffer_size: 5 });
    assert_eq!(
        parse("bitflip:0.01").unwrap(),
        FuzzerStrategy::BitFlip { probability: single(0.01) }
    );
    assert_eq!(parse("attenuate:0.5").unwrap(), FuzzerStrategy::Attenuate(single(0.5)));
    assert_eq!(
        parse("noise:0.1").unwrap(),
        FuzzerStrategy::AddNoise { amplitude: single(0.1) }
    );
    assert_eq!(parse("truncate:70").unwrap(), FuzzerStrategy::Truncate(70));
    assert_eq!(parse("reverse").unwrap(), FuzzerStrategy::Reverse);
    assert!(parse("unknown_strategy").is_err());
}

#[test]
fn strategies_have_defaults() {
    let parse = |s: &str| parse_strategy(&Host, s).unwrap();
    assert_eq!(parse("delay"), FuzzerStrategy::FixedDelay(at(1000)));
    assert_eq!(
        parse("random_delay"),
        FuzzerStrategy::RandomDelay { min: at(100), max: at(2000) }
    );
    assert_eq!(
        parse("random_delay:7"),
        FuzzerStrategy::RandomDelay { min: at(7), max: at(2000) }
    );
    assert_eq!(parse("corrupt"), FuzzerStrategy::CorruptSamples(10));
    assert_eq!(parse("replay"), FuzzerStrategy::Replay { buffer_size: 10 });
    assert_eq!(parse("bitflip"), FuzzerStrategy::BitFlip { probability: single(0.001) });
    assert_eq!(parse("attenuate"), FuzzerStrategy::Attenuate(single(0.5)));
    assert_eq!(parse("noise"), FuzzerStrategy::AddNoise { amplitude: single(0.1) });
    assert_eq!(parse("truncate"), FuzzerStrategy::Truncate(50));
    // So does what cannot be read.
    assert_eq!(parse("drop:256"), FuzzerStrategy::DropPercent(50));
    assert_eq!(parse("drop:"), FuzzerStrategy::DropPercent(50));
    assert_eq!(parse("drop:-1"), FuzzerStrategy::DropPercent(50));
    assert_eq!(parse("drop: 5"), FuzzerStrategy::DropPercent(50));
    assert_eq!(parse("drop:+5"), FuzzerStrategy::DropPercent(5));
    assert_eq!(parse("drop:0007"), FuzzerStrategy::DropPercent(7));
    assert_eq!(parse("drop:5:6:7"), FuzzerStrategy::DropPercent(5));
    assert_eq!(parse("attenuate:x"), FuzzerStrategy::Attenuate(single(0.5)));
}

#[test]
fn strategies_are_read_in_any_case() {
    assert_eq!(parse_strategy(&Host, "DROP:75").unwrap(), FuzzerStrategy::DropPercent(75));
    assert_eq!(parse_strategy(&Host, "Random_Delay:1:2").unwrap(),
        FuzzerStrategy::RandomDelay { min: at(1), max: at(2) });
    assert_eq!(parse_strategy(&Host, "PassThrough").unwrap(), FuzzerStrategy::Passthrough);
    assert_eq!(
        parse_strategy(&Host, "Nonsense:1").unwrap_err(),
        "Unknown fuzzer strategy: Nonsense:1"
    );
    assert_eq!(parse_strategy(&Host, "").unwrap_err(), "Unknown fuzzer strategy: ");
    assert_eq!(parse_strategy(&Host, " drop").unwrap_err(), "Unknown fuzzer strategy:  drop");
}

#[test]
fn a_keyword_is_found_in_lower_case_only() {
    let parts = vec!["x", "20"];
    assert_eq!(strategy_from(&Host, "truncate", &parts), Some(FuzzerStrategy::Truncate(20)));
    assert_eq!(strategy_from(&Host, "Truncate", &parts), None);
}

#[test]
fn strategies_are_shown() {
    let show = |s: FuzzerStrategy| Fuzzer::new(s).strategy_name(&Host);
    assert_eq!(show(FuzzerStrategy::Passthrough), "Passthrough");
    assert_eq!(show(FuzzerStrategy::DropPercent(50)), "DropPercent(50)");
    assert_eq!(show(FuzzerStrategy::FixedDelay(at(1000))), "FixedDelay(1s)");
    assert_eq!(show(FuzzerStrategy::FixedDelay(at(1500))), "FixedDelay(1.5s)");
    assert_eq!(
        show(FuzzerStrategy::RandomDelay { min: at(100), max: at(2000) }),
        "RandomDelay { min: 100ms, max: 2s }"
    );
    assert_eq!(show(FuzzerStrategy::CorruptSamples(10)), "CorruptSamples(10)");
    assert_eq!(show(FuzzerStrategy::Replay { buffer_size: 10 }), "Replay { buffer_size: 10 }");
    assert_eq!(
        show(FuzzerStrategy::BitFlip { probability: single(0.001) }),
        "BitFlip { probability: 0.001 }"
    );
    assert_eq!(show(FuzzerStrategy::Attenuate(single(1.0))), "Attenuate(1.0)");
    assert_eq!(
        show(FuzzerStrategy::AddNoise { amplitude: single(0.1) }),
        "AddNoise { amplitude: 0.1 }"
    );
    assert_eq!(show(FuzzerStrategy::Truncate(50)), "Truncate(50)");
    assert_eq!(show(FuzzerStrategy::Reverse), "Reverse");
    assert_eq!(
        describe(
            &Host,
            &FuzzerStrategy::Chain(vec![
                FuzzerStrategy::Attenuate(single(0.5)),
                FuzzerStrategy::Chain(vec![]),
                FuzzerStrategy::Reverse,
            ])
        ),
        "Chain([Attenuate(0.5), Chain([]), Reverse])"
    );
}

#[test]
fn a_cloned_strategy_is_the_same() {
    let chain = FuzzerStrategy::Chain(vec![
        FuzzerStrategy::RandomDelay { min: at(1), max: at(2) },
        FuzzerStrategy::Chain(vec![FuzzerStrategy::Reverse]),
    ]);
    assert_eq!(chain.clone(), chain);
    let action = FuzzerAction::Modified(make_tx(3));
    match action.clone() {
        FuzzerAction::Modified(t) => assert_eq!(t.samples, make_tx(3).samples),
        _ => panic!("expected Modified"),
    }
}

// Text.

#[test]
fn numbers_are_read_and_written() {
    assert_eq!(parse_unsigned("0", 255), Some(0));
    assert_eq!(parse_unsigned("255", 255), Some(255));
    assert_eq!(parse_unsigned("256", 255), None);
    assert_eq!(parse_unsigned("18446744073709551615", u64::MAX), Some(u64::MAX));
    assert_eq!(parse_unsigned("18446744073709551616", u64::MAX), None);
    assert_eq!(parse_unsigned("", 255), None);
    assert_eq!(parse_unsigned("+", 255), None);
    assert_eq!(parse_unsigned("++1", 255), None);
    assert_eq!(parse_unsigned("1\u{663}", 255), None);
    for n in [0u128, 7, 10, 99, 100, 1234567890, u128::MAX] {
        let mut text = String::from("n=");
        append_decimal(&mut text, n);
        assert_eq!(text, format!("n={}", n));
        let mut text = String::new();
        append_padded(&mut text, n, 6);
        assert_eq!(text, format!("{:06}", n));
    }
}

#[test]
fn text_is_split() {
    for text in ["", ":", "a", "a:b", ":a:", "a::b", "\u{e9}:\u{4e2d}\u{6587}:c"] {
        let expected: Vec<&str> = text.split(':').collect();
        assert_eq!(split(text, ':'), expected);
    }
    for text in ["", "\n", "a", "a\n", "a\nb", "a\r\nb\r\n", "a\r", "\r\n\n", "a\n\r\nb\r"] {
        let expected: Vec<&str> = text.lines().collect();
        assert_eq!(split_lines(text), expected);
    }
    assert_eq!(find_char("a=b=c", '='), Some(1));
    assert_eq!(find_char("abc", '='), None);
    assert!(same_text("drop", "drop"));
    assert!(!same_text("drop", "dro"));
    assert!(!same_text("drop", "drap"));
}

#[test]
fn values_are_equal_as_numbers() {
    assert_eq!(single(0.0), single(-0.0));
    assert_eq!(single(-1.5), single(-1.5));
    assert_ne!(single(1.5), single(-1.5));
    assert_ne!(single(f32::NAN), single(f32::NAN));
    assert_eq!(single(f32::INFINITY), single(f32::INFINITY));
    assert_eq!(double(0.0), double(-0.0));
    assert_ne!(double(f64::NAN), double(f64::NAN));
    assert_ne!(double(1.0), double(2.0));
    assert_eq!(sample(0.0, -0.0), sample(-0.0, 0.0));
    assert_ne!(sample(0.0, f32::NAN), sample(0.0, f32::NAN));
    assert_ne!(sample(0.0, 1.0), sample(1.0, 0.0));
    // Strategies follow their numbers.
    let flip = |p: f32| FuzzerStrategy::BitFlip { probability: single(p) };
    assert_eq!(flip(0.0), flip(-0.0));
    assert_ne!(flip(f32::NAN), flip(f32::NAN));
    let chain = |p: f32| FuzzerStrategy::Chain(vec![FuzzerStrategy::Attenuate(single(p))]);
    assert_eq!(chain(0.0), chain(-0.0));
    assert_ne!(chain(f32::NAN), chain(f32::NAN));
}

// From buffers through the fuzzer.

fn detector() -> TransmissionDetector<Host> {
    TransmissionDetector::new(
        DetectorConfig {
            squelch_threshold: single(0.1),
            hangtime_samples: 3,
            min_transmission_samples: 2,
            max_transmission_samples: 100,
        },
        Host,
    )
}

fn loud(n: usize) -> Vec<IqSample> {
    vec![sample(1.0, 0.0); n]
}

fn quiet(n: usize) -> Vec<IqSample> {
    vec![sample(0.0, 0.0); n]
}

#[test]
fn a_received_buffer_is_counted_and_searched() {
    let mut d = detector();
    let mut stats = DebugStats::new();
    let mut buffer = loud(6);
    buffer.extend(quiet(6));
    let got = receive(&Host, &mut d, &mut stats, Some(Channel::B), &buffer);
    assert_eq!(got.transmissions.len(), 1);
    assert_eq!((float(got.peak), float(got.avg)), (1.0, 0.5));
    assert_eq!((stats.rx_samples, stats.rx_buffers), (12, 1));
    assert_eq!((stats.transmissions_detected_b, stats.transmission_samples_b), (1, 6));
    assert_eq!(stats.transmissions_detected_a, 0);
    let got = receive(&Host, &mut d, &mut stats, None, &buffer);
    assert_eq!(got.transmissions.len(), 1);
    assert_eq!(stats.transmissions_detected_b, 1);
    receive(&Host, &mut d, &mut stats, Some(Channel::A), &loud(5));
    let last = finish_reception(&mut d, &mut stats, Some(Channel::A));
    assert_eq!(last.map(|t| t.samples.len()), Some(5));
    assert_eq!((stats.transmissions_detected_a, stats.transmission_samples_a), (1, 5));
    assert!(finish_reception(&mut d, &mut stats, Some(Channel::A)).is_none());
    assert_eq!(stats.transmissions_detected_a, 1);
}

#[test]
fn what_passes_goes_out_before_what_is_released() {
    let chain = FuzzerStrategy::FixedDelay(at(10));
    let mut f = Fuzzer::new(chain);
    let mut early = make_tx(1);
    early.id = 1;
    let first = dispatch_at(&Host, &mut f, at(0), at(0), early);
    assert!(matches!(first.action, FuzzerAction::Delayed));
    assert!(first.into_outgoing().is_empty());
    let mut late = make_tx(1);
    late.id = 2;
    let second = dispatch_at(&Host, &mut f, at(20), at(20), late);
    let out = second.into_outgoing();
    assert_eq!(out.len(), 1);
    assert_eq!(out[0].id, 1);
    assert_eq!(f.delayed_count(), 1);
    // One passed, one held earlier.
    let mixed = Dispatch { action: FuzzerAction::Pass(make_tx(1)), released: vec![make_tx(2)] };
    let out = mixed.into_outgoing();
    assert_eq!((out[0].samples.len(), out[1].samples.len()), (1, 2));
}

#[test]
fn passing_everything_through_sends_each_on() {
    let mut f = Fuzzer::new(FuzzerStrategy::Passthrough);
    let out = dispatch(&Host, &mut f, make_tx(9)).into_outgoing();
    assert_eq!(out.len(), 1);
    assert_eq!(out[0].samples, make_tx(9).samples);
    let mut g = Fuzzer::new(FuzzerStrategy::DropPercent(100));
    assert!(dispatch(&Host, &mut g, make_tx(9)).into_outgoing().is_empty());
}

#[test]
fn replayed_samples_count_as_received() {
    let mut f = Fuzzer::new(FuzzerStrategy::Passthrough);
    let mut stats = DebugStats::new();
    match replay_one(&Host, &mut f, &mut stats, make_tx(9)) {
        FuzzerAction::Pass(t) => assert_eq!(t.samples.len(), 9),
        _ => panic!("expected Pass"),
    }
    assert_eq!((stats.rx_samples, stats.rx_buffers), (9, 0));
}
