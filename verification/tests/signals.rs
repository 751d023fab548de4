use radiofuzz::arith::{Arithmetic, Double, Single};
use radiofuzz::autotest::{
    estimate_noise_floor, evaluate_burst, measure_snr, normalised_xcorr_peak, summarise_results,
    AutotestConfig, BurstResult,
};
use radiofuzz::detector::{DetectorConfig, DetectorState, Transmission, TransmissionDetector};
use radiofuzz::session::{capture, next_read, verdict, AutotestSession};
use radiofuzz::signal::{
    analyze_samples, buffer_magnitude, generate_burst, generate_test_tone, level_db, IqSample,
};
use radiofuzz::span::Span;
use radiofuzz::stats::{
    passed_since, report_stats, Channel, DebugStats, SignalStatus, StatsTicker,
};

/// Arithmetic of the machine that the tests run on.
#[derive(Clone, Copy)]
struct Host;

fn single(x: f32) -> Single {
    Single { bits: x.to_bits() }
}

fn double(x: f64) -> Double {
    Double { bits: x.to_bits() }
}

fn float(x: Single) -> f32 {
    f32::from_bits(x.bits)
}

fn wide(x: Double) -> f64 {
    f64::from_bits(x.bits)
}

impl Arithmetic for Host {
    fn plus(&self, x: Single, y: Single) -> Single {
        single(float(x) + float(y))
    }

    fn minus(&self, x: Single, y: Single) -> Single {
        single(float(x) - float(y))
    }

    fn times(&self, x: Single, y: Single) -> Single {
        single(float(x) * float(y))
    }

    fn over(&self, x: Single, y: Single) -> Single {
        single(float(x) / float(y))
    }

    fn root(&self, x: Single) -> Single {
        single(float(x).sqrt())
    }

    fn log10(&self, x: Single) -> Single {
        single(float(x).log10())
    }

    fn count(&self, n: u64) -> Single {
        single(n as f32)
    }

    fn parse(&self, text: &str) -> Option<Single> {
        match text.parse::<f32>() {
            Ok(x) => Some(single(x)),
            Err(_) => None,
        }
    }

    fn shortest(&self, x: Single) -> String {
        format!("{:?}", float(x))
    }

    fn wide_plus(&self, x: Double, y: Double) -> Double {
        double(wide(x) + wide(y))
    }

    fn wide_minus(&self, x: Double, y: Double) -> Double {
        double(wide(x) - wide(y))
    }

    fn wide_times(&self, x: Double, y: Double) -> Double {
        double(wide(x) * wide(y))
    }

    fn wide_over(&self, x: Double, y: Double) -> Double {
        double(wide(x) / wide(y))
    }

    fn wide_rem(&self, x: Double, y: Double) -> Double {
        double(wide(x) % wide(y))
    }

    fn wide_cos(&self, x: Double) -> Double {
        double(wide(x).cos())
    }

    fn wide_sin(&self, x: Double) -> Double {
        double(wide(x).sin())
    }

    fn wide_count(&self, n: u64) -> Double {
        double(n as f64)
    }

    fn wide_floor(&self, x: Double) -> u64 {
        wide(x) as u64
    }

    fn narrow(&self, x: Double) -> Single {
        single(wide(x) as f32)
    }

    fn seconds(&self, span: Span) -> Double {
        double(span.secs as f64 + span.nanos as f64 / 1e9)
    }
}

const TAU: f64 = std::f64::consts::TAU;

fn sample(re: f32, im: f32) -> IqSample {
    IqSample { re: single(re), im: single(im) }
}

fn tone(n: usize) -> Vec<IqSample> {
    let mut samples = Vec::new();
    for i in 0..n {
        let phase = (TAU * 5000.0 * i as f64 / 1_000_000.0) % TAU;
        samples.push(sample((phase.cos() * 0.7) as f32, (phase.sin() * 0.7) as f32));
    }
    samples
}

fn magnitude(s: &IqSample) -> f32 {
    (float(s.re) * float(s.re) + float(s.im) * float(s.im)).sqrt()
}

// Bursts.

#[test]
fn test_generate_burst_length() {
    let burst = generate_burst(&Host, double(2_000_000.0), double(5000.0), 100);
    assert_eq!(burst.len(), 200_000);
}

#[test]
fn test_generate_burst_amplitude() {
    let burst = generate_burst(&Host, double(1_000_000.0), double(1000.0), 10);
    for (i, s) in burst.iter().enumerate() {
        let mag = magnitude(s);
        assert!((0.69..=0.71).contains(&mag), "sample {} magnitude {:.6} out of [0.69, 0.71]", i, mag);
    }
}

#[test]
fn burst_samples_are_those_of_the_tone() {
    let burst = generate_burst(&Host, double(1_000_000.0), double(5000.0), 1);
    assert_eq!(burst.len(), 1000);
    assert_eq!(burst, tone(1000));
    assert_eq!(burst[0], sample(0.7, 0.0));
    assert_eq!(generate_burst(&Host, double(1_000_000.0), double(5000.0), 0).len(), 0);
}

// Noise floor and SNR.

#[test]
fn test_estimate_noise_floor_basic() {
    let samples: Vec<IqSample> = vec![sample(0.01, 0.0); 1000];
    let nf = float(estimate_noise_floor(&Host, &samples));
    assert!((nf - 0.01).abs() < 0.001, "noise floor {:.6} not within 0.001 of 0.01", nf);
}

#[test]
fn noise_floor_looks_at_the_first_tenth() {
    let mut samples: Vec<IqSample> = vec![sample(3.0, 4.0); 10];
    samples.extend(vec![sample(100.0, 0.0); 90]);
    assert_eq!(float(estimate_noise_floor(&Host, &samples)), 5.0);
    // At least one sample, of however few there are.
    assert_eq!(float(estimate_noise_floor(&Host, &[sample(0.0, 2.0), sample(9.0, 0.0)])), 2.0);
    assert_eq!(float(estimate_noise_floor(&Host, &[])), 0.0);
}

#[test]
fn test_measure_snr_known() {
    let signal: Vec<IqSample> = vec![sample(0.7, 0.0); 1000];
    let snr = float(measure_snr(&Host, &signal, single(0.007)));
    assert!((snr - 40.0).abs() < 0.5, "SNR {:.2} dB not within 0.5 dB of 40.0", snr);
}

#[test]
fn test_measure_snr_zero_noise() {
    let signal: Vec<IqSample> = vec![sample(0.7, 0.0); 100];
    let snr = float(measure_snr(&Host, &signal, single(0.0)));
    assert!(snr == f32::NEG_INFINITY, "expected NEG_INFINITY, got {}", snr);
}

#[test]
fn snr_needs_a_signal_and_a_floor() {
    assert_eq!(float(measure_snr(&Host, &[], single(0.1))), f32::NEG_INFINITY);
    assert_eq!(float(measure_snr(&Host, &[sample(1.0, 0.0)], single(-0.5))), f32::NEG_INFINITY);
    assert_eq!(float(measure_snr(&Host, &[sample(1.0, 0.0)], single(-0.0))), f32::NEG_INFINITY);
    assert_eq!(float(measure_snr(&Host, &[sample(10.0, 0.0)], single(1.0))), 20.0);
}

// Cross-correlation.

#[test]
fn test_xcorr_identical() {
    let reference = generate_burst(&Host, double(1_000_000.0), double(5000.0), 1);
    assert_eq!(reference.len(), 1000);
    let received = reference.clone();
    let peak = float(normalised_xcorr_peak(&Host, &reference, &received));
    assert!(peak >= 0.99, "xcorr peak {:.4} < 0.99 for identical signals", peak);
}

#[test]
fn test_xcorr_shifted() {
    let ref_samples = tone(200);
    let mut received: Vec<IqSample> = vec![sample(0.0, 0.0); 100];
    received.extend_from_slice(&ref_samples);
    let peak = float(normalised_xcorr_peak(&Host, &ref_samples, &received));
    assert!(peak >= 0.95, "xcorr peak {:.4} < 0.95 for shifted signal", peak);
}

#[test]
fn test_xcorr_noise_only() {
    let ref_samples = tone(200);
    let mut state: u64 = 0xDEADBEEF;
    let mut received: Vec<IqSample> = Vec::new();
    for _ in 0..1000 {
        state = state.wrapping_mul(6364136223846793005).wrapping_add(1);
        let r = state;
        let re = ((r & 0xFFFF) as f32 / 0xFFFF as f32) * 0.2 - 0.1;
        let im = (((r >> 16) & 0xFFFF) as f32 / 0xFFFF as f32) * 0.2 - 0.1;
        received.push(sample(re, im));
    }
    let peak = float(normalised_xcorr_peak(&Host, &ref_samples, &received));
    assert!(peak < 0.5, "xcorr peak {:.4} >= 0.5 for noise-only received", peak);
}

#[test]
fn xcorr_without_anything_to_compare_is_zero() {
    let one = [sample(1.0, 0.0)];
    let none: [IqSample; 0] = [];
    assert_eq!(float(normalised_xcorr_peak(&Host, &none, &one)), 0.0);
    assert_eq!(float(normalised_xcorr_peak(&Host, &one, &none)), 0.0);
    assert_eq!(float(normalised_xcorr_peak(&Host, &[one[0], one[0]], &one)), 0.0);
    assert_eq!(float(normalised_xcorr_peak(&Host, &[sample(0.0, 0.0)], &one)), 0.0);
    // A silent capture has no score at all.
    assert_eq!(float(normalised_xcorr_peak(&Host, &one, &[sample(0.0, 0.0)])), 0.0);
    // Opposite signals do not count as agreement.
    assert_eq!(float(normalised_xcorr_peak(&Host, &one, &[sample(-1.0, 0.0)])), 0.0);
}

#[test]
fn xcorr_looks_at_the_first_and_the_last_offset() {
    // The lag range is far beyond 1024; the burst is at the very end, then at the very start.
    let mut pulse: Vec<IqSample> = Vec::new();
    for i in 0..50 {
        let sign = if (i * i / 7) % 2 == 0 { 1.0 } else { -1.0 };
        pulse.push(sample(sign, 0.0));
    }
    let mut late: Vec<IqSample> = vec![sample(0.0, 0.0); 5000];
    late.extend_from_slice(&pulse);
    assert!(float(normalised_xcorr_peak(&Host, &pulse, &late)) > 0.99);
    let mut early = pulse.clone();
    early.extend(vec![sample(0.0, 0.0); 5000]);
    assert!(float(normalised_xcorr_peak(&Host, &pulse, &early)) > 0.99);
    // It never exceeds one.
    assert!(float(normalised_xcorr_peak(&Host, &pulse, &late)) <= 1.0);
}

// Evaluation and report.

fn default_test_config() -> AutotestConfig {
    AutotestConfig {
        tx_duration_ms: 10,
        switch_guard_ms: 5,
        relay_delay_ms: 5,
        burst_count: 1,
        snr_threshold_db: single(10.0),
        tone_freq_hz: double(5000.0),
        sample_rate: double(1_000_000.0),
        buffer_size: 1024,
    }
}

#[test]
fn test_evaluate_burst_pass() {
    let ref_samples = tone(500);
    let mut received: Vec<IqSample> = vec![sample(0.001, 0.001); 500];
    received.extend_from_slice(&ref_samples);
    let config = default_test_config();
    let result = evaluate_burst(&Host, &ref_samples, &received, &config, 1);
    assert!(
        result.passed,
        "burst should pass; snr_db={:.2}, threshold={}",
        float(result.snr_db),
        float(config.snr_threshold_db)
    );
    assert_eq!(result.burst_id, 1);
    assert_eq!(result.transmitted_samples, 500);
    assert_eq!(result.received_samples, 1000);
    assert!((float(result.peak_level) - 0.7).abs() < 1e-3);
    assert!(float(result.xcorr_peak) > 0.99);
}

#[test]
fn test_evaluate_burst_fail() {
    let ref_samples = tone(500);
    let received: Vec<IqSample> = vec![sample(0.001, 0.001); 500];
    let config = default_test_config();
    let result = evaluate_burst(&Host, &ref_samples, &received, &config, 2);
    assert!(!result.passed, "burst should fail; snr_db={:.2}", float(result.snr_db));
}

fn make_result(id: u32, passed: bool) -> BurstResult {
    BurstResult {
        burst_id: id,
        transmitted_samples: 500,
        received_samples: 1000,
        peak_level: single(0.7),
        noise_floor: single(0.001),
        snr_db: single(if passed { 40.0 } else { 5.0 }),
        xcorr_peak: single(if passed { 0.99 } else { 0.2 }),
        passed,
    }
}

#[test]
fn test_summarise_results() {
    let mut results: Vec<BurstResult> = (0..8).map(|i| make_result(i, true)).collect();
    results.extend((8..10).map(|i| make_result(i, false)));
    let report = summarise_results(&Host, &results);
    assert_eq!(report.total_bursts, 10);
    assert_eq!(report.passed_bursts, 8);
    assert_eq!(report.failed_bursts, 2);
    assert!(report.overall_pass, "80% pass rate should yield overall_pass == true");
    assert_eq!(float(report.mean_snr_db), 33.0);
    assert_eq!(float(report.min_snr_db), 5.0);
    assert!((float(report.mean_xcorr) - 0.832).abs() < 1e-5);
}

#[test]
fn less_than_four_fifths_fail() {
    let mut results: Vec<BurstResult> = (0..79).map(|i| make_result(i, true)).collect();
    results.extend((79..100).map(|i| make_result(i, false)));
    assert!(!summarise_results(&Host, &results).overall_pass);
    let none = summarise_results(&Host, &[]);
    assert_eq!(none.total_bursts, 0);
    assert!(!none.overall_pass);
    assert_eq!(float(none.mean_snr_db), 0.0);
    assert_eq!(float(none.min_snr_db), 0.0);
    assert!(summarise_results(&Host, &[make_result(0, true)]).overall_pass);
    assert!(!summarise_results(&Host, &[make_result(0, false)]).overall_pass);
}

#[test]
fn a_session_judges_as_many_bursts_as_it_is_told_to() {
    let mut config = default_test_config();
    config.burst_count = 2;
    config.tx_duration_ms = 1;
    config.relay_delay_ms = 3;
    let mut session = AutotestSession::new(&Host, config);
    assert_eq!(session.reference().len(), 1000);
    assert_eq!(session.capture_target(), 4000);
    assert_eq!(session.next_burst(), Some(0));
    let mut heard: Vec<IqSample> = vec![sample(0.001, 0.001); 3000];
    heard.extend_from_slice(session.reference());
    let first = session.evaluate(&Host, &heard);
    assert_eq!(first.burst_id, 0);
    assert!(first.passed);
    assert_eq!(session.next_burst(), Some(1));
    let second = session.evaluate(&Host, &[]);
    assert_eq!(second.burst_id, 1);
    assert!(!second.passed);
    assert_eq!(session.next_burst(), None);
    let report = session.report(&Host);
    assert_eq!((report.total_bursts, report.passed_bursts, report.failed_bursts), (2, 1, 1));
    assert!(!verdict(true, &report));
    assert!(!verdict(false, &report));
}

#[test]
fn a_test_that_passed_once_keeps_its_verdict() {
    let report = summarise_results(&Host, &[make_result(0, true)]);
    assert!(verdict(true, &report));
    assert!(!verdict(false, &report));
}

#[test]
fn a_capture_reads_what_is_missing() {
    assert_eq!(next_read(0, 2500, 1024), Some(1024));
    assert_eq!(next_read(2048, 2500, 1024), Some(452));
    assert_eq!(next_read(2500, 2500, 1024), None);
    assert_eq!(next_read(3000, 2500, 1024), None);
    let mut captured = vec![sample(1.0, 0.0)];
    let mut stats = DebugStats::new();
    let buffer = [sample(2.0, 0.0), sample(3.0, 0.0), sample(4.0, 0.0)];
    capture(&mut captured, &mut stats, &buffer, 2);
    assert_eq!(captured, vec![sample(1.0, 0.0), sample(2.0, 0.0), sample(3.0, 0.0)]);
    assert_eq!(stats.rx_samples, 2);
}

// Detector.

#[test]
fn test_detector_idle() {
    let config = DetectorConfig::default();
    let mut detector = TransmissionDetector::new(config, Host);
    let samples: Vec<IqSample> = (0..1000).map(|_| sample(0.001, 0.001)).collect();
    let transmissions = detector.process(&samples);
    assert!(transmissions.is_empty());
    assert_eq!(*detector.state(), DetectorState::Idle);
}

#[test]
fn test_detector_transmission() {
    let mut config = DetectorConfig::default();
    config.hangtime_samples = 100;
    config.min_transmission_samples = 50;
    let mut detector = TransmissionDetector::new(config, Host);
    let mut samples = Vec::new();
    for _ in 0..100 {
        samples.push(sample(0.001, 0.001));
    }
    for _ in 0..500 {
        samples.push(sample(0.5, 0.5));
    }
    for _ in 0..200 {
        samples.push(sample(0.001, 0.001));
    }
    let transmissions = detector.process(&samples);
    assert_eq!(transmissions.len(), 1);
    assert!(transmissions[0].samples.len() >= 500);
}

fn small_config() -> DetectorConfig {
    DetectorConfig {
        squelch_threshold: single(0.1),
        hangtime_samples: 3,
        min_transmission_samples: 4,
        max_transmission_samples: 20,
    }
}

fn stream(levels: &[(usize, f32)]) -> Vec<IqSample> {
    let mut samples = Vec::new();
    for (n, level) in levels {
        for _ in 0..*n {
            samples.push(sample(*level, 0.0));
        }
    }
    samples
}

#[test]
fn a_transmission_is_cut_out_of_the_stream() {
    let mut detector = TransmissionDetector::new(small_config(), Host);
    let samples = stream(&[(5, 0.0), (6, 1.0), (10, 0.0)]);
    let found = detector.process(&samples);
    assert_eq!(found.len(), 1);
    let tx = &found[0];
    assert_eq!(tx.id, 1);
    assert_eq!(tx.start_sample, 5);
    assert_eq!(tx.samples.len(), 6);
    assert_eq!(tx.samples[..], samples[5..11]);
    assert_eq!(float(tx.peak_level), 1.0);
    assert_eq!(float(tx.avg_level), 1.0);
    assert_eq!(tx.duration_samples(), 6);
    assert_eq!(wide(tx.duration_secs(&Host, double(2.0))), 3.0);
    assert_eq!(detector.transmission_count(), 1);
    assert_eq!(detector.total_samples(), 21);
    assert!(!detector.is_receiving());
}

#[test]
fn a_short_gap_does_not_end_a_transmission() {
    let mut detector = TransmissionDetector::new(small_config(), Host);
    let found = detector.process(&stream(&[(3, 1.0), (2, 0.0), (3, 1.0), (9, 0.0)]));
    assert_eq!(found.len(), 1);
    assert_eq!(found[0].samples.len(), 8);
}

#[test]
fn what_is_too_short_is_discarded() {
    let mut config = small_config();
    config.min_transmission_samples = 10;
    let mut detector = TransmissionDetector::new(config, Host);
    assert!(detector.process(&stream(&[(1, 0.0), (2, 1.0), (9, 0.0)])).is_empty());
    assert_eq!(detector.transmission_count(), 0);
}

#[test]
fn what_is_too_long_is_cut() {
    let mut detector = TransmissionDetector::new(small_config(), Host);
    let found = detector.process(&stream(&[(45, 1.0)]));
    assert_eq!(found.len(), 2);
    assert_eq!(found[0].samples.len(), 20);
    assert_eq!(found[1].samples.len(), 20);
    assert_eq!((found[0].start_sample, found[1].start_sample), (0, 20));
    assert_eq!((found[0].id, found[1].id), (1, 2));
    assert!(detector.is_receiving());
    assert_eq!(*detector.state(), DetectorState::Receiving);
    let last = detector.flush();
    match last {
        Some(tx) => {
            assert_eq!(tx.samples.len(), 5);
            assert_eq!(tx.id, 3);
        }
        None => panic!("expected what was left"),
    }
    assert_eq!(*detector.state(), DetectorState::Idle);
    assert!(detector.flush().is_none());
}

fn config(hangtime: usize, min: usize, max: usize) -> DetectorConfig {
    DetectorConfig {
        squelch_threshold: single(0.25),
        hangtime_samples: hangtime,
        min_transmission_samples: min,
        max_transmission_samples: max,
    }
}

#[test]
fn the_hangtime_ends_a_transmission() {
    let mut detector = TransmissionDetector::new(config(2, 1, 100), Host);
    let found = detector.process(&stream(&[(1, 1.0), (2, 0.0)]));
    assert_eq!(found.len(), 1);
    assert_eq!(found[0].samples.len(), 1);
    assert_eq!(*detector.state(), DetectorState::Idle);
    // One sample below the threshold is enough where the hangtime is one, and where it is none.
    for hangtime in [0, 1] {
        let mut detector = TransmissionDetector::new(config(hangtime, 1, 100), Host);
        assert_eq!(detector.process(&stream(&[(3, 1.0), (1, 0.0)])).len(), 1);
        assert_eq!(*detector.state(), DetectorState::Idle);
    }
    let mut detector = TransmissionDetector::new(config(3, 1, 100), Host);
    assert!(detector.process(&stream(&[(1, 1.0), (2, 0.0)])).is_empty());
    assert_eq!(*detector.state(), DetectorState::Hangtime);
    assert!(detector.process(&stream(&[(1, 1.0)])).is_empty());
    assert_eq!(*detector.state(), DetectorState::Receiving);
}

#[test]
fn a_level_at_the_threshold_starts_and_ends_nothing() {
    let mut detector = TransmissionDetector::new(config(2, 1, 100), Host);
    assert!(detector.process(&stream(&[(5, 0.25)])).is_empty());
    assert_eq!(*detector.state(), DetectorState::Idle);
    assert!(detector.process(&stream(&[(1, 1.0), (5, 0.25)])).is_empty());
    assert_eq!(*detector.state(), DetectorState::Receiving);
    // Once the signal has dropped it does not bring it back.
    let found = detector.process(&stream(&[(1, 0.0), (1, 0.25)]));
    assert_eq!(found.len(), 1);
    assert_eq!(found[0].samples.len(), 6);
}

#[test]
fn the_minimum_is_kept() {
    let mut detector = TransmissionDetector::new(config(4, 5, 100), Host);
    assert!(detector.process(&stream(&[(1, 1.0), (5, 0.0)])).is_empty());
    assert_eq!(*detector.state(), DetectorState::Idle);
    assert_eq!(detector.transmission_count(), 0);
    assert!(detector.process(&stream(&[(4, 1.0), (5, 0.0)])).is_empty());
    let found = detector.process(&stream(&[(5, 1.0), (5, 0.0)]));
    assert_eq!(found.len(), 1);
    assert_eq!((found[0].samples.len(), found[0].id), (5, 1));
}

#[test]
fn the_maximum_is_kept() {
    let mut detector = TransmissionDetector::new(config(10, 1, 3), Host);
    let found = detector.process(&stream(&[(1, 1.0), (3, 0.0), (2, 1.0)]));
    assert_eq!(found.len(), 1);
    assert_eq!(found[0].samples.len(), 1);
    assert_eq!(detector.flush().map(|tx| tx.samples.len()), Some(2));
    let mut detector = TransmissionDetector::new(small_config(), Host);
    let found = detector.process(&stream(&[(18, 1.0), (2, 0.0), (30, 1.0), (9, 0.0)]));
    let lengths: Vec<usize> = found.iter().map(|tx| tx.samples.len()).collect();
    assert_eq!(lengths, [18, 20, 10]);
    let mut detector = TransmissionDetector::new(small_config(), Host);
    let found = detector.process(&stream(&[(8, 1.0), (2, 0.0), (30, 1.0), (9, 0.0)]));
    let lengths: Vec<usize> = found.iter().map(|tx| tx.samples.len()).collect();
    assert_eq!(lengths, [20, 20]);
    // A maximum of one, and one of none, make every loud sample a transmission.
    for max in [0, 1] {
        let mut detector = TransmissionDetector::new(config(2, 1, max), Host);
        let found = detector.process(&stream(&[(3, 1.0), (1, 0.0)]));
        assert_eq!(found.len(), 3);
        assert!(found.iter().all(|tx| tx.samples.len() == 1));
    }
}

#[test]
fn levels_cover_the_whole_transmission() {
    let mut detector = TransmissionDetector::new(small_config(), Host);
    let found = detector.process(&stream(&[(2, 0.25), (1, 0.75), (1, 0.5), (6, 0.0)]));
    assert_eq!(found.len(), 1);
    assert_eq!(found[0].samples.len(), 4);
    assert_eq!(float(found[0].peak_level), 0.75);
    assert_eq!(float(found[0].avg_level), 1.75 / 4.0);
    // A gap belongs to it, and so does the sample on which the signal comes back.
    let mut detector = TransmissionDetector::new(config(2, 1, 100), Host);
    let found = detector.process(&stream(&[(1, 0.5), (1, 0.0), (1, 1.0), (3, 0.0)]));
    assert_eq!(found.len(), 1);
    assert_eq!(found[0].samples.len(), 3);
    assert_eq!(float(found[0].peak_level), 1.0);
    assert_eq!(float(found[0].avg_level), 0.5);
}

#[test]
fn what_is_discarded_leaves_nothing_behind() {
    let mut detector = TransmissionDetector::new(config(2, 5, 100), Host);
    assert!(detector.process(&stream(&[(1, 1.0), (3, 0.0)])).is_empty());
    assert!(detector.process(&stream(&[(6, 1.0)])).is_empty());
    match detector.flush() {
        Some(tx) => {
            assert_eq!(tx.samples, stream(&[(6, 1.0)]));
            assert_eq!((tx.start_sample, tx.id), (4, 1));
            assert_eq!((float(tx.peak_level), float(tx.avg_level)), (1.0, 1.0));
        }
        None => panic!("expected the second burst"),
    }
}

fn same(a: &Transmission, b: &Transmission) -> bool {
    a.samples == b.samples && a.start_sample == b.start_sample && a.peak_level == b.peak_level
        && a.avg_level == b.avg_level && a.id == b.id
}

#[test]
fn buffers_do_not_matter_to_the_detector() {
    let samples = stream(&[(5, 0.0), (6, 1.0), (10, 0.0), (8, 0.5), (2, 0.05), (4, 0.7), (12, 0.0)]);
    let mut whole = TransmissionDetector::new(small_config(), Host);
    let expected = whole.process(&samples);
    assert_eq!(expected.len(), 2);
    for cut in 0..samples.len() {
        let mut parts = TransmissionDetector::new(small_config(), Host);
        let mut found = parts.process(&samples[..cut]);
        found.extend(parts.process(&samples[cut..]));
        assert_eq!(found.len(), expected.len());
        for (a, b) in found.iter().zip(&expected) {
            assert!(same(a, b), "cut at {}", cut);
        }
    }
}

#[test]
fn transmissions_follow_each_other() {
    let mut detector = TransmissionDetector::new(small_config(), Host);
    let mut found = Vec::new();
    for _ in 0..4 {
        found.extend(detector.process(&stream(&[(6, 1.0), (5, 0.0)])));
    }
    assert_eq!(found.len(), 4);
    for (i, tx) in found.iter().enumerate() {
        assert_eq!(tx.id, i as u64 + 1);
        assert_eq!(tx.start_sample, 11 * i as u64);
    }
}

#[test]
fn a_cloned_transmission_is_the_same() {
    let mut detector = TransmissionDetector::new(small_config(), Host);
    let found = detector.process(&stream(&[(6, 1.0), (5, 0.0)]));
    assert!(same(&found[0], &found[0].clone()));
}

// Levels and tones.

#[test]
fn levels_of_a_buffer() {
    let buffer = [sample(3.0, 4.0), sample(0.0, 0.0)];
    let (peak, avg, rms) = analyze_samples(&Host, &buffer);
    assert_eq!(float(peak), 5.0);
    assert_eq!(float(avg), 2.5);
    assert_eq!(float(rms), 12.5f32.sqrt());
    let (peak, avg, rms) = analyze_samples(&Host, &[]);
    assert_eq!((float(peak), float(avg), float(rms)), (0.0, 0.0, 0.0));
    assert_eq!(float(buffer_magnitude(&Host, &buffer)), 2.5);
    assert_eq!(float(buffer_magnitude(&Host, &[])), 0.0);
}

#[test]
fn levels_in_decibels() {
    assert_eq!(float(level_db(&Host, single(1.0))), 0.0);
    assert_eq!(float(level_db(&Host, single(10.0))), 20.0);
    assert_eq!(float(level_db(&Host, single(0.0))), -100.0);
    assert_eq!(float(level_db(&Host, single(-1.0))), -100.0);
}

#[test]
fn a_test_tone_turns_with_its_frequency() {
    let mut buffer = vec![sample(0.0, 0.0); 5];
    let mut phase = double(0.0);
    generate_test_tone(&Host, &mut buffer, double(4.0), double(1.0), &mut phase);
    assert_eq!(buffer[0], sample(0.7, 0.0));
    assert!((float(buffer[1].im) - 0.7).abs() < 1e-6);
    assert!((float(buffer[2].re) + 0.7).abs() < 1e-6);
    assert!((float(buffer[3].im) + 0.7).abs() < 1e-6);
    // After one turn and a quarter the phase is kept within a turn.
    assert!(wide(phase) >= 0.0 && wide(phase) <= TAU);
    let before = wide(phase);
    generate_test_tone(&Host, &mut buffer, double(4.0), double(1.0), &mut phase);
    assert!((wide(phase) - before - TAU / 4.0).abs() < 1e-9);
}

// Order of single-precision values.

#[test]
fn the_order_is_that_of_the_numbers() {
    let values = [f32::NEG_INFINITY, -2.0, -0.5, -0.0, 0.0, 1e-40, 0.5, 2.0, f32::INFINITY];
    for a in values {
        for b in values {
            assert_eq!(single(a).is_below(single(b)), a < b);
            assert_eq!(single(a).is_at_most(single(b)), a <= b);
            assert_eq!(float(single(a).max_of(single(b))), a.max(b));
            assert_eq!(float(single(a).min_of(single(b))), a.min(b));
        }
        assert_eq!(single(a).is_zero(), a == 0.0);
        assert_eq!(single(a).is_finite(), a.is_finite());
        assert!(!single(a).is_nan());
        assert!(!single(a).is_below(single(f32::NAN)));
        assert!(!single(f32::NAN).is_at_most(single(a)));
        assert_eq!(float(single(a).max_of(single(f32::NAN))), a);
        assert_eq!(float(single(f32::NAN).min_of(single(a))), a);
    }
    assert!(single(f32::NAN).is_nan());
    assert!(!single(f32::NAN).is_finite());
    assert!(double(1.0).is_below(double(2.0)));
    assert!(!double(2.0).is_below(double(2.0)));
    assert!(double(-1.0).is_below(double(0.0)));
    assert!(!double(f64::NAN).is_below(double(0.0)));
    assert!(double(f64::NAN).is_nan());
}

// Statistics.

#[test]
fn peaks_only_rise_until_reset() {
    let mut stats = DebugStats::new();
    stats.update_rx_peak(single(0.5));
    stats.update_rx_peak(single(0.25));
    stats.update_rx_peak(single(f32::INFINITY));
    stats.update_rx_peak(single(f32::NAN));
    stats.update_tx_peak(single(0.75));
    stats.update_rx_avg(single(0.1));
    stats.update_tx_avg(single(0.2));
    assert_eq!(float(stats.get_rx_peak()), 0.5);
    assert_eq!(float(stats.get_tx_peak()), 0.75);
    assert_eq!(float(stats.get_rx_avg()), 0.1);
    assert_eq!(float(stats.get_tx_avg()), 0.2);
    stats.reset_peaks();
    assert_eq!(float(stats.get_rx_peak()), 0.0);
    assert_eq!(float(stats.get_tx_peak()), 0.0);
    assert_eq!(float(stats.get_rx_avg()), 0.1);
}

#[test]
fn transmissions_are_counted_by_channel() {
    let mut stats = DebugStats::default();
    stats.record_transmission_a(100);
    stats.record_transmission_a(50);
    stats.record_transmission_b(7);
    stats.record_transmission(Channel::B, 3);
    assert_eq!(stats.transmissions_detected_a, 2);
    assert_eq!(stats.transmission_samples_a, 150);
    assert_eq!(stats.transmissions_detected_b, 2);
    assert_eq!(stats.transmission_samples_b, 10);
    assert_eq!(stats.total_transmissions(), 4);
    stats.record_transmission(Channel::A, 1);
    assert_eq!(stats.total_transmissions(), 5);
}

#[test]
fn counters_wrap_round() {
    let mut stats = DebugStats::new();
    stats.rx_samples = u64::MAX;
    stats.tx_errors = u64::MAX;
    stats.received(&Host, &[sample(1.0, 0.0), sample(0.0, 0.0)]);
    stats.send_failed();
    assert_eq!(stats.rx_samples, 1);
    assert_eq!(stats.rx_buffers, 1);
    assert_eq!(stats.tx_errors, 0);
    assert_eq!(float(stats.get_rx_peak()), 1.0);
    assert_eq!(float(stats.get_rx_avg()), 0.5);
}

#[test]
fn sending_is_counted() {
    let mut stats = DebugStats::new();
    let (peak, avg) = stats.sending(&Host, &[sample(3.0, 4.0), sample(0.0, 0.0)]);
    assert_eq!((float(peak), float(avg)), (5.0, 2.5));
    assert_eq!(float(stats.get_tx_peak()), 5.0);
    assert_eq!(stats.tx_samples, 0);
    stats.sent(2);
    assert_eq!((stats.tx_samples, stats.tx_buffers), (2, 1));
    stats.receive_failed();
    assert_eq!(stats.rx_errors, 1);
}

#[test]
fn the_report_works_out_rates_and_levels() {
    let mut stats = DebugStats::new();
    stats.rx_samples = 3_000_000;
    stats.tx_samples = 1_000_000;
    stats.update_rx_peak(single(10.0));
    stats.update_rx_avg(single(1.0));
    let report = report_stats(&Host, &stats, Span::from_secs(2), double(2_000_000.0), single(0.1));
    assert_eq!(wide(report.elapsed_secs), 2.0);
    assert_eq!(wide(report.rx_rate), 1.5);
    assert_eq!(wide(report.tx_rate), 0.5);
    assert_eq!(float(report.rx_peak_db), 20.0);
    assert_eq!(float(report.rx_avg_db), 0.0);
    assert_eq!(float(report.squelch_db), -20.0);
    assert_eq!(report.status, SignalStatus::AboveSquelch);
    assert!(!report.any_detected);
    assert_eq!(report.rx_efficiency.map(wide), Some(75.0));
    let start = report_stats(&Host, &stats, Span::from_secs(0), double(2_000_000.0), single(5.0));
    assert_eq!(wide(start.rx_rate), 0.0);
    assert_eq!(wide(start.tx_rate), 0.0);
    assert_eq!(start.rx_efficiency, None);
    assert_eq!(start.status, SignalStatus::PeakAboveSquelch);
    stats.record_transmission_b(0);
    let quiet = report_stats(&Host, &stats, Span::from_secs(1), double(1.0), single(20.0));
    assert_eq!(quiet.status, SignalStatus::BelowSquelch);
    assert!(quiet.any_detected);
}

#[test]
fn statistics_come_at_intervals() {
    let mut ticker = StatsTicker::new(2, 5, Span::from_secs(0));
    assert!(!ticker.tick(Span::from_millis(1999)).print);
    let tick = ticker.tick(Span::from_secs(2));
    assert!(tick.print && !tick.stop);
    assert!(!ticker.tick(Span::from_millis(3900)).print);
    let tick = ticker.tick(Span::from_secs(5));
    assert!(tick.print && tick.stop);
    let mut endless = StatsTicker::new(1, 0, Span::from_secs(0));
    assert!(!endless.tick(Span::from_secs(1_000_000)).stop);
    assert!(passed_since(Span::from_secs(1), Span::from_secs(3), Span::from_secs(2)));
    assert!(!passed_since(Span::from_secs(3), Span::from_secs(1), Span::from_secs(1)));
    assert!(passed_since(Span::from_secs(3), Span::from_secs(1), Span::from_secs(0)));
}
