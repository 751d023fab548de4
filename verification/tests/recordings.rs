use radiofuzz::arith::{Arithmetic, Double, Single};
use radiofuzz::decimals::append_six_decimals;
use radiofuzz::detector::Transmission;
use radiofuzz::recording::{
    decode_samples, encode_samples, load_transmission, parse_metadata, save_transmission,
    MetaSource, Recorder, RecordingFiles, RecordingMetadata,
};
use radiofuzz::replay::{is_recording_name, list_recordings, ReplayError, Replayer};
use radiofuzz::signal::IqSample;
use radiofuzz::span::Span;

/// Arithmetic of the machine that the tests run on.
#[derive(Clone, Copy)]
struct Host;

fn single(x: f32) -> Single {
    Single { bits: x.to_bits() }
}

fn double(x: f64) -> Double {
    Double { bits: x.to_bits() }
}

fn float(x: Single) -> f32 {
    f32::from_bits(x.bits)
}

fn wide(x: Double) -> f64 {
    f64::from_bits(x.bits)
}

impl Arithmetic for Host {
    fn plus(&self, x: Single, y: Single) -> Single {
        single(float(x) + float(y))
    }

    fn minus(&self, x: Single, y: Single) -> Single {
        single(float(x) - float(y))
    }

    fn times(&self, x: Single, y: Single) -> Single {
        single(float(x) * float(y))
    }

    fn over(&self, x: Single, y: Single) -> Single {
        single(float(x) / float(y))
    }

    fn root(&self, x: Single) -> Single {
        single(float(x).sqrt())
    }

    fn log10(&self, x: Single) -> Single {
        single(float(x).log10())
    }

    fn count(&self, n: u64) -> Single {
        single(n as f32)
    }

    fn parse(&self, text: &str) -> Option<Single> {
        match text.parse::<f32>() {
            Ok(x) => Some(single(x)),
            Err(_) => None,
        }
    }

    fn shortest(&self, x: Single) -> String {
        format!("{:?}", float(x))
    }

    fn wide_plus(&self, x: Double, y: Double) -> Double {
        double(wide(x) + wide(y))
    }

    fn wide_minus(&self, x: Double, y: Double) -> Double {
        double(wide(x) - wide(y))
    }

    fn wide_times(&self, x: Double, y: Double) -> Double {
        double(wide(x) * wide(y))
    }

    fn wide_over(&self, x: Double, y: Double) -> Double {
        double(wide(x) / wide(y))
    }

    fn wide_rem(&self, x: Double, y: Double) -> Double {
        double(wide(x) % wide(y))
    }

    fn wide_cos(&self, x: Double) -> Double {
        double(wide(x).cos())
    }

    fn wide_sin(&self, x: Double) -> Double {
        double(wide(x).sin())
    }

    fn wide_count(&self, n: u64) -> Double {
        double(n as f64)
    }

    fn wide_floor(&self, x: Double) -> u64 {
        wide(x) as u64
    }

    fn narrow(&self, x: Double) -> Single {
        single(wide(x) as f32)
    }

    fn seconds(&self, span: Span) -> Double {
        double(span.secs as f64 + span.nanos as f64 / 1e9)
    }
}

fn sample(re: f32, im: f32) -> IqSample {
    IqSample { re: single(re), im: single(im) }
}

/// A directory in memory.
struct Directory {
    files: Vec<(Vec<u8>, Vec<u8>)>,
    now: u128,
}

impl Directory {
    fn new() -> Directory {
        Directory { files: Vec::new(), now: 1_700_000_000_000 }
    }

    fn save(&mut self, transmission: &Transmission) -> Result<Vec<u8>, ()> {
        self.now += 1;
        let files: RecordingFiles = save_transmission(transmission, self.now);
        let name = files.file_name.into_bytes();
        self.files.push((name.clone(), files.data));
        self.files.push((files.meta_name.into_bytes(), files.meta.into_bytes()));
        Ok(name)
    }

    fn read(&self, name: &[u8]) -> Option<Vec<u8>> {
        self.files.iter().find(|(n, _)| n == name).map(|(_, data)| data.clone())
    }

    fn names(&self) -> Vec<Vec<u8>> {
        self.files.iter().rev().map(|(name, _)| name.clone()).collect()
    }

    fn load(&self, name: &[u8]) -> Transmission {
        let data = self.read(name).unwrap();
        let mut meta_name = name[..name.len() - 5].to_vec();
        meta_name.extend_from_slice(b".meta");
        let meta = match self.read(&meta_name) {
            Some(text) => MetaSource::Text(String::from_utf8(text).unwrap()),
            None => MetaSource::Missing,
        };
        load_transmission(&Host, &data, &meta)
    }
}

#[test]
fn test_save_and_load() {
    let mut dir = Directory::new();
    let transmission = Transmission {
        samples: vec![sample(0.5, -0.5), sample(0.1, 0.2), sample(-0.3, 0.4)],
        start_sample: 1000,
        peak_level: single(0.707),
        avg_level: single(0.35),
        id: 42,
    };
    let path = dir.save(&transmission).unwrap();
    assert!(dir.read(&path).is_some());

    let loaded = dir.load(&path);
    assert_eq!(loaded.samples.len(), 3);
    assert_eq!(loaded.id, 42);
    assert!((float(loaded.peak_level) - 0.707).abs() < 0.001);
    assert!((float(loaded.samples[0].re) - 0.5).abs() < 0.0001);
    assert!((float(loaded.samples[0].im) - (-0.5)).abs() < 0.0001);
    // The samples come back bit for bit; the position does not.
    assert_eq!(loaded.samples, transmission.samples);
    assert_eq!(float(loaded.avg_level), 0.35);
    assert_eq!(loaded.start_sample, 0);
}

#[test]
fn test_list_recordings() {
    let mut dir = Directory::new();
    for i in 0..3 {
        let tx = Transmission {
            samples: vec![sample(0.1, 0.1); 100],
            start_sample: 0,
            peak_level: single(0.14),
            avg_level: single(0.14),
            id: i,
        };
        dir.save(&tx).unwrap();
    }
    let recordings = list_recordings(&dir.names());
    assert_eq!(recordings.len(), 3);
}

#[test]
fn test_replayer_round_trip_two_transmissions() {
    let mut dir = Directory::new();
    let tx1 = Transmission {
        samples: vec![sample(1.0, 2.0), sample(3.0, 4.0)],
        start_sample: 0,
        peak_level: single(4.0),
        avg_level: single(2.5),
        id: 1,
    };
    let tx2 = Transmission {
        samples: vec![sample(0.5, -0.5), sample(-1.0, 0.1)],
        start_sample: 100,
        peak_level: single(1.0),
        avg_level: single(0.6),
        id: 2,
    };

    let mut recorder = Recorder::new(String::from("recordings"));
    recorder.record(dir.save(&tx1)).unwrap();
    recorder.record(dir.save(&tx2)).unwrap();
    assert_eq!(recorder.count(), 2);

    let mut replayer = Replayer::new(&dir.names(), false).unwrap();
    assert_eq!(replayer.count(), 2);
    assert!(!replayer.is_complete());

    let loaded1 = dir.load(&replayer.next().unwrap());
    assert_eq!(loaded1.samples.len(), 2);
    assert!((float(loaded1.samples[0].re) - 1.0).abs() < 1e-6, "tx1 sample[0].re mismatch");
    assert!((float(loaded1.samples[0].im) - 2.0).abs() < 1e-6, "tx1 sample[0].im mismatch");
    assert!((float(loaded1.samples[1].re) - 3.0).abs() < 1e-6, "tx1 sample[1].re mismatch");

    let loaded2 = dir.load(&replayer.next().unwrap());
    assert_eq!(loaded2.samples.len(), 2);
    assert!((float(loaded2.samples[0].re) - 0.5).abs() < 1e-6, "tx2 sample[0].re mismatch");
    assert!((float(loaded2.samples[0].im) - (-0.5)).abs() < 1e-6, "tx2 sample[0].im mismatch");

    assert!(replayer.is_complete());
    assert!(replayer.next().is_none(), "expected None after all recordings consumed");
    replayer.reset();
    assert!(!replayer.is_complete());
    assert!(replayer.next().is_some());
}

#[test]
fn test_replayer_loop_restarts() {
    let mut dir = Directory::new();
    let tx = Transmission {
        samples: vec![sample(1.0, 0.0)],
        start_sample: 0,
        peak_level: single(1.0),
        avg_level: single(1.0),
        id: 1,
    };
    dir.save(&tx).unwrap();

    let mut replayer = Replayer::new(&dir.names(), true).unwrap();
    for _ in 0..5 {
        assert!(replayer.next().is_some(), "expected Some in loop mode");
        assert!(!replayer.is_complete(), "is_complete should be false in loop mode");
    }
}

#[test]
fn a_loop_goes_round_in_order() {
    let names = vec![b"c.iq32".to_vec(), b"a.iq32".to_vec(), b"b.iq32".to_vec()];
    let mut replayer = Replayer::new(&names, true).unwrap();
    let expected = [b"a.iq32", b"b.iq32", b"c.iq32"];
    for k in 0..10 {
        assert_eq!(replayer.next().unwrap(), expected[k % 3].to_vec());
    }
}

#[test]
fn nothing_to_replay_is_an_error() {
    let names = vec![b"a.meta".to_vec(), b".iq32".to_vec()];
    match Replayer::new(&names, true) {
        Err(e) => assert_eq!(e, ReplayError::NoRecordings),
        Ok(_) => panic!("expected an error"),
    }
    assert!(Replayer::new(&vec![], false).is_err());
}

#[test]
fn recordings_are_told_by_their_extension() {
    assert!(is_recording_name(&b"x.iq32".to_vec()));
    assert!(is_recording_name(&b"a.b.iq32".to_vec()));
    assert!(!is_recording_name(&b".iq32".to_vec()));
    assert!(!is_recording_name(&b"x.iq3".to_vec()));
    assert!(!is_recording_name(&b"x.iq32 ".to_vec()));
    assert!(!is_recording_name(&b"xiq32".to_vec()));
    assert!(!is_recording_name(&b"x.IQ32".to_vec()));
    assert!(!is_recording_name(&Vec::new()));
}

#[test]
fn recordings_are_sorted_by_name() {
    let names = vec![
        b"tx_000010_5_1samples.iq32".to_vec(),
        b"tx_000002_9_1samples.iq32".to_vec(),
        b"notes.txt".to_vec(),
        b"tx_000002_9_1samples.meta".to_vec(),
        b"tx_000002_10_1samples.iq32".to_vec(),
        b"tx_000002_9_1samples.iq32".to_vec(),
        b"a.iq32".to_vec(),
        b"a.iq32x.iq32".to_vec(),
    ];
    let mut expected: Vec<Vec<u8>> =
        names.iter().filter(|n| n.ends_with(b".iq32")).cloned().collect();
    expected.sort();
    assert_eq!(list_recordings(&names), expected);
}

#[test]
fn names_tell_number_time_and_length() {
    let tx = Transmission {
        samples: vec![sample(0.0, 0.0); 12],
        start_sample: 3,
        peak_level: single(0.25),
        avg_level: single(1.0 / 3.0),
        id: 7,
    };
    let files = save_transmission(&tx, 1_700_000_000_123);
    assert_eq!(files.file_name, "tx_000007_1700000000123_12samples.iq32");
    assert_eq!(files.meta_name, "tx_000007_1700000000123_12samples.meta");
    assert_eq!(
        files.meta,
        "id=7\nsamples=12\npeak=0.250000\navg=0.333333\ntimestamp=1700000000123\n"
    );
    assert_eq!(files.data.len(), 96);
    let mut long = tx.clone();
    long.id = 1_234_567;
    assert_eq!(save_transmission(&long, 0).file_name, "tx_1234567_0_12samples.iq32");
}

fn six(x: f32) -> String {
    let mut text = String::from("x=");
    append_six_decimals(&mut text, single(x));
    text
}

#[test]
fn levels_are_written_with_six_decimals() {
    assert_eq!(six(0.25), "x=0.250000");
    assert_eq!(six(-1.5), "x=-1.500000");
    assert_eq!(six(-0.0), "x=-0.000000");
    assert_eq!(six(16777216.0), "x=16777216.000000");
    assert_eq!(six(f32::MAX), "x=340282346638528859811704183484516925440.000000");
    assert_eq!(six(f32::NAN), "x=NaN");
    assert_eq!(six(f32::NEG_INFINITY), "x=-inf");
    // Half way between two, the even one.
    assert_eq!(six(0.0078125), "x=0.007812");
    assert_eq!(six(3.0 * 0.0078125), "x=0.023438");
    // As the machine writes them: ties, every exponent, and patterns all over the range.
    for i in 0..4096u32 {
        let tie = i as f32 * 0.0078125;
        assert_eq!(six(tie), format!("x={:.6}", tie));
    }
    let mut state: u64 = 1;
    for i in 0..200_000u32 {
        state = state.wrapping_mul(6364136223846793005).wrapping_add(1442695040888963407);
        let bits = if i < 512 { i << 23 | (state >> 41) as u32 } else { (state >> 32) as u32 };
        let x = f32::from_bits(bits);
        assert_eq!(six(x), format!("x={:.6}", x), "pattern {:08x}", bits);
    }
}

fn patterns(samples: &[IqSample]) -> Vec<(u32, u32)> {
    samples.iter().map(|s| (s.re.bits, s.im.bits)).collect()
}

#[test]
fn samples_are_little_endian_pairs() {
    let samples = vec![sample(1.0, -2.0), IqSample {
        re: Single { bits: 0x0102_0304 },
        im: Single { bits: 0x7FC0_0001 },
    }];
    let bytes = encode_samples(&samples);
    assert_eq!(
        bytes,
        vec![
            0x00, 0x00, 0x80, 0x3F, 0x00, 0x00, 0x00, 0xC0, 0x04, 0x03, 0x02, 0x01, 0x01, 0x00,
            0xC0, 0x7F
        ]
    );
    assert_eq!(patterns(&decode_samples(&bytes)), patterns(&samples));
    for extra in 1..8 {
        let mut more = bytes.clone();
        more.extend(vec![0xAA; extra]);
        assert_eq!(patterns(&decode_samples(&more)), patterns(&samples));
        assert_eq!(encode_samples(&decode_samples(&more)), bytes);
    }
    assert!(decode_samples(&[]).is_empty());
    assert!(encode_samples(&[]).is_empty());
}

#[test]
fn metadata_is_read_line_by_line() {
    let read = parse_metadata(&Host, "id=5\r\npeak=0.5\navg=0.25\nid=6\nnonsense\n=x\nother=1");
    assert_eq!(read.id, 6);
    assert_eq!(float(read.peak_level), 0.5);
    assert_eq!(float(read.avg_level), 0.25);
    let odd = parse_metadata(&Host, "id=x\npeak=y\navg=a=b\n");
    assert_eq!(odd.id, 0);
    assert_eq!((float(odd.peak_level), float(odd.avg_level)), (0.0, 0.0));
    assert_eq!(parse_metadata(&Host, " id=5").id, 0);
    assert_eq!(parse_metadata(&Host, "id= 5").id, 0);
    assert_eq!(parse_metadata(&Host, "id=5\r").id, 0);
    assert_eq!(parse_metadata(&Host, "id=+5").id, 5);
    assert_eq!(parse_metadata(&Host, "").id, 0);
}

#[test]
fn levels_are_measured_without_metadata() {
    let bytes = encode_samples(&[sample(3.0, 4.0), sample(0.0, 1.0)]);
    let loaded = load_transmission(&Host, &bytes, &MetaSource::Missing);
    assert_eq!(loaded.id, 0);
    assert_eq!(float(loaded.peak_level), 5.0);
    assert_eq!(float(loaded.avg_level), 3.0);
    let empty = load_transmission(&Host, &[], &MetaSource::Missing);
    assert_eq!((float(empty.peak_level), float(empty.avg_level)), (0.0, 0.0));
    assert!(empty.samples.is_empty());
    let unreadable = load_transmission(&Host, &bytes, &MetaSource::Unreadable);
    assert_eq!(unreadable.samples.len(), 2);
    assert_eq!((float(unreadable.peak_level), float(unreadable.avg_level)), (0.0, 0.0));
}

#[test]
fn only_what_was_saved_counts() {
    let mut recorder = Recorder::new(String::from("out"));
    assert_eq!(recorder.output_dir(), "out");
    let failed: Result<u8, &str> = Err("disk full");
    assert_eq!(recorder.record(failed), Err("disk full"));
    assert_eq!(recorder.count(), 0);
    let saved: Result<u8, &str> = Ok(3);
    assert_eq!(recorder.record(saved), Ok(3));
    assert_eq!(recorder.count(), 1);
}

#[test]
fn recording_metadata_is_plain() {
    let metadata = RecordingMetadata {
        id: 1,
        sample_count: 2,
        peak_level: single(0.5),
        avg_level: single(0.25),
        timestamp_ms: 3,
    };
    let copy = metadata.clone();
    assert_eq!((copy.id, copy.sample_count, copy.timestamp_ms), (1, 2, 3));
}
