use radiofuzz::arith::{Arithmetic, Double, Single};
use radiofuzz::config::{check_args, mode_info, run_mode, Args, ArgsError, ModeLine, RunMode};
use radiofuzz::device::{
    check_channels, check_single_device, choose_device, device_index, setup_half_duplex,
    setup_path_a, setup_path_b, ChannelError, DeviceChoice, Way,
};
use radiofuzz::fuzzer::FuzzerStrategy;
use radiofuzz::plan::{
    other_channel, outgoing_link, plan_analysis, plan_autotest, plan_fuzz, plan_normal, plan_relay,
    plan_run, Direction, Link, RecordTo, RelayKind, Role,
};
use radiofuzz::span::Span;
use radiofuzz::stats::{Channel, DebugStats};
use radiofuzz::transmit::{FrameSender, SendState, TxGate, CHUNK_SAMPLES};

/// Arithmetic of the machine that the tests run on.
#[derive(Clone, Copy)]
struct Host;

fn single(x: f32) -> Single {
    Single { bits: x.to_bits() }
}

fn double(x: f64) -> Double {
    Double { bits: x.to_bits() }
}

fn float(x: Single) -> f32 {
    f32::from_bits(x.bits)
}

fn wide(x: Double) -> f64 {
    f64::from_bits(x.bits)
}

impl Arithmetic for Host {
    fn plus(&self, x: Single, y: Single) -> Single {
        single(float(x) + float(y))
    }

    fn minus(&self, x: Single, y: Single) -> Single {
        single(float(x) - float(y))
    }

    fn times(&self, x: Single, y: Single) -> Single {
        single(float(x) * float(y))
    }

    fn over(&self, x: Single, y: Single) -> Single {
        single(float(x) / float(y))
    }

    fn root(&self, x: Single) -> Single {
        single(float(x).sqrt())
    }

    fn log10(&self, x: Single) -> Single {
        single(float(x).log10())
    }

    fn count(&self, n: u64) -> Single {
        single(n as f32)
    }

    fn parse(&self, text: &str) -> Option<Single> {
        match text.parse::<f32>() {
            Ok(x) => Some(single(x)),
            Err(_) => None,
        }
    }

    fn shortest(&self, x: Single) -> String {
        format!("{:?}", float(x))
    }

    fn wide_plus(&self, x: Double, y: Double) -> Double {
        double(wide(x) + wide(y))
    }

    fn wide_minus(&self, x: Double, y: Double) -> Double {
        double(wide(x) - wide(y))
    }

    fn wide_times(&self, x: Double, y: Double) -> Double {
        double(wide(x) * wide(y))
    }

    fn wide_over(&self, x: Double, y: Double) -> Double {
        double(wide(x) / wide(y))
    }

    fn wide_rem(&self, x: Double, y: Double) -> Double {
        double(wide(x) % wide(y))
    }

    fn wide_cos(&self, x: Double) -> Double {
        double(wide(x).cos())
    }

    fn wide_sin(&self, x: Double) -> Double {
        double(wide(x).sin())
    }

    fn wide_count(&self, n: u64) -> Double {
        double(n as f64)
    }

    fn wide_floor(&self, x: Double) -> u64 {
        wide(x) as u64
    }

    fn narrow(&self, x: Double) -> Single {
        single(wide(x) as f32)
    }

    fn seconds(&self, span: Span) -> Double {
        double(span.secs as f64 + span.nanos as f64 / 1e9)
    }
}

fn default_args() -> Args {
    Args {
        device1: String::from("0"),
        device2: String::from("1"),
        single_device: false,
        sample_rate: double(2_000_000.0),
        freq1: double(100_000_000.0),
        freq2: double(200_000_000.0),
        rx_gain1: double(31.0),
        tx_gain1: double(32.0),
        rx_gain2: double(33.0),
        tx_gain2: double(34.0),
        buffer_size: 65_536,
        channel_depth: 16,
        rx_chan1: 0,
        tx_chan1: 0,
        rx_chan2: None,
        tx_chan2: None,
        list_channels: false,
        unidirectional: false,
        reverse: false,
        fuzz: false,
        fuzz_strategy: String::from("passthrough"),
        squelch: single(0.003),
        hangtime_ms: 4,
        min_tx_ms: 1,
        max_tx_ms: 5000,
        record_dir: None,
        replay_dir: None,
        replay_delay_ms: 100,
        replay_loop: false,
        debug: false,
        test_tone_freq: double(1000.0),
        debug_duration: 0,
        stats_interval: 1,
        log_samples: false,
        test_tx_only: false,
        test_rx_only: false,
        autotest: false,
        device3: String::new(),
        autotest_rx_gain: double(35.0),
        autotest_tx_gain: double(36.0),
        autotest_tx_ms: 200,
        autotest_switch_guard_ms: 50,
        autotest_relay_delay_ms: 500,
        autotest_bursts: 10,
        autotest_snr_threshold_db: single(10.0),
        autotest_tone_freq_hz: double(5000.0),
        autotest_channel: 2,
    }
}

// Arguments.

#[test]
fn the_second_path_has_its_own_channel_on_a_single_device() {
    let mut args = default_args();
    assert_eq!((args.rx_chan2(), args.tx_chan2()), (0, 0));
    args.single_device = true;
    assert_eq!((args.rx_chan2(), args.tx_chan2()), (1, 1));
    args.rx_chan2 = Some(3);
    args.tx_chan2 = Some(0);
    assert_eq!((args.rx_chan2(), args.tx_chan2()), (3, 0));
}

#[test]
fn times_become_samples() {
    let args = default_args();
    assert_eq!(args.hangtime_samples(&Host), 8000);
    assert_eq!(args.min_tx_samples(&Host), 2000);
    assert_eq!(args.max_tx_samples(&Host), 10_000_000);
    let config = args.detector_config(&Host);
    assert_eq!(float(config.squelch_threshold), 0.003);
    assert_eq!(config.hangtime_samples, 8000);
    assert_eq!(config.min_transmission_samples, 2000);
    assert_eq!(config.max_transmission_samples, 10_000_000);
    assert_eq!(args.autotest_relay_delay(), Span { secs: 0, nanos: 500_000_000 });
}

#[test]
fn the_automated_test_takes_its_settings_from_the_arguments() {
    let config = default_args().autotest_config();
    assert_eq!(config.tx_duration_ms, 200);
    assert_eq!(config.switch_guard_ms, 50);
    assert_eq!(config.relay_delay_ms, 500);
    assert_eq!(config.burst_count, 10);
    assert_eq!(float(config.snr_threshold_db), 10.0);
    assert_eq!(wide(config.tone_freq_hz), 5000.0);
    assert_eq!(wide(config.sample_rate), 2_000_000.0);
    assert_eq!(config.buffer_size, 65_536);
}

#[test]
fn a_strategy_that_cannot_be_read_gives_way() {
    let mut args = default_args();
    args.fuzz_strategy = String::from("delay:5");
    let (strategy, warning) = args.chosen_strategy(&Host);
    assert_eq!(strategy, FuzzerStrategy::FixedDelay(Span::from_millis(5)));
    assert_eq!(warning, None);
    args.fuzz_strategy = String::from("shuffle");
    let (strategy, warning) = args.chosen_strategy(&Host);
    assert_eq!(strategy, FuzzerStrategy::Passthrough);
    assert_eq!(warning, Some(String::from("Unknown fuzzer strategy: shuffle")));
}

#[test]
fn an_automated_test_needs_a_third_device_and_enough_delay() {
    let mut args = default_args();
    assert_eq!(check_args(&args), Ok(()));
    args.autotest = true;
    assert_eq!(check_args(&args), Err(ArgsError::MissingDevice3));
    args.device3 = String::from("driver=hackrf");
    assert_eq!(check_args(&args), Ok(()));
    args.autotest_relay_delay_ms = 250;
    assert_eq!(check_args(&args), Ok(()));
    args.autotest_relay_delay_ms = 249;
    let short = ArgsError::DelayTooShort { relay_ms: 249, tx_ms: 200, guard_ms: 50 };
    assert_eq!(check_args(&args), Err(short));
    assert_eq!(
        short.message(),
        "--autotest-relay-delay-ms (249) must be >= --autotest-tx-ms (200) + --autotest-switch-guard-ms (50)"
    );
    args.autotest_tx_ms = u64::MAX;
    assert!(check_args(&args).is_err());
    args.autotest_tx_ms = 0;
    args.single_device = true;
    assert_eq!(check_args(&args), Err(ArgsError::SingleDeviceAutotest));
    args.list_channels = true;
    assert_eq!(check_args(&args), Ok(()));
    args.list_channels = false;
    assert_eq!(
        ArgsError::SingleDeviceAutotest.message(),
        "--autotest is not supported with --single-device"
    );
    assert_eq!(
        ArgsError::MissingDevice3.message(),
        "--autotest requires --device3 to be specified"
    );
    args.autotest = false;
    assert_eq!(check_args(&args), Ok(()));
}

#[test]
fn an_automated_test_relays_with_a_fixed_delay() {
    let mut args = default_args();
    args.autotest_relay_delay_ms = 600;
    for strategy in ["pass", "drop:50", "no such strategy"] {
        args.fuzz_strategy = String::from(strategy);
        match args.autotest_strategy() {
            FuzzerStrategy::FixedDelay(delay) => assert_eq!(delay, Span::from_millis(600)),
            _ => panic!("expected a fixed delay"),
        }
    }
}

#[test]
fn the_arguments_tell_what_to_do() {
    let mut args = default_args();
    assert_eq!(run_mode(&args), RunMode::DualDevice);
    args.autotest = true;
    assert_eq!(run_mode(&args), RunMode::Autotest);
    args.single_device = true;
    assert_eq!(run_mode(&args), RunMode::SingleDevice);
    args.list_channels = true;
    assert_eq!(run_mode(&args), RunMode::ListChannels);
}

fn line_names(args: &Args) -> Vec<String> {
    mode_info(args)
        .iter()
        .map(|line| match line {
            ModeLine::SingleDevice { channel_a, channel_b } => {
                format!("single {} {}", channel_a, channel_b)
            }
            ModeLine::DualDevice => String::from("dual"),
            ModeLine::Detection { hangtime_ms, min_tx_ms, max_tx_ms, .. } => {
                format!("detect {} {} {}", hangtime_ms, min_tx_ms, max_tx_ms)
            }
            ModeLine::Fuzzer { strategy } => format!("fuzz {}", strategy),
            ModeLine::RecordingTo { dir } => format!("record {}", dir),
            ModeLine::ReplayingFrom { dir } => format!("replay {}", dir),
            ModeLine::Reverse => String::from("reverse"),
            ModeLine::Forward => String::from("forward"),
            ModeLine::Bidirectional => String::from("both"),
            ModeLine::Debug => String::from("debug"),
            ModeLine::TestTx { tone_freq } => format!("tone {}", wide(*tone_freq)),
            ModeLine::TestRx => String::from("listen"),
            ModeLine::SampleLogging => String::from("log"),
            ModeLine::Duration { secs } => format!("for {}", secs),
        })
        .collect()
}

#[test]
fn a_run_is_announced() {
    let mut args = default_args();
    assert_eq!(line_names(&args), ["dual", "detect 4 1 5000", "both"]);
    args.unidirectional = true;
    assert_eq!(line_names(&args), ["dual", "detect 4 1 5000", "forward"]);
    args.reverse = true;
    args.debug = true;
    args.test_tx_only = true;
    args.test_rx_only = true;
    args.log_samples = true;
    args.debug_duration = 9;
    assert_eq!(
        line_names(&args),
        ["dual", "detect 4 1 5000", "reverse", "debug", "tone 1000", "log", "for 9"]
    );
    args.test_tx_only = false;
    args.log_samples = false;
    args.debug_duration = 0;
    args.fuzz = true;
    args.single_device = true;
    args.record_dir = Some(String::from("out"));
    args.replay_dir = Some(String::from("in"));
    assert_eq!(
        line_names(&args),
        [
            "single 0 1",
            "detect 4 1 5000",
            "fuzz passthrough",
            "record out",
            "replay in",
            "debug",
            "listen"
        ]
    );
}

#[test]
fn the_same_device_twice_is_a_single_device() {
    let mut args = default_args();
    assert!(!args.uses_one_device());
    args.device2 = String::from("same");
    assert!(args.uses_one_device());
    assert_eq!(run_mode(&args), RunMode::SingleDevice);
    assert_eq!((args.rx_chan2(), args.tx_chan2()), (1, 1));
    assert_eq!(line_names(&args)[0], "single 0 1");
    args.autotest = true;
    args.device3 = String::from("x");
    assert_eq!(check_args(&args), Err(ArgsError::SingleDeviceAutotest));
    args.device2 = String::new();
    assert!(args.uses_one_device());
    args.device2 = String::from("0");
    assert!(!args.uses_one_device());
}

// Devices.

#[test]
fn a_device_is_opened_by_index_or_by_filter() {
    assert_eq!(device_index("0"), Some(0));
    assert_eq!(device_index("12"), Some(12));
    assert_eq!(device_index("driver=uhd"), None);
    assert_eq!(device_index(""), None);
    assert_eq!(device_index("99999999999999999999999"), None);
    assert_eq!(choose_device(Some(1), 2), DeviceChoice::Found(1));
    assert_eq!(choose_device(Some(2), 2), DeviceChoice::ByFilter);
    assert_eq!(choose_device(None, 2), DeviceChoice::ByFilter);
}

#[test]
fn channels_have_to_exist() {
    assert_eq!(check_channels(0, 1, 1, 2), Ok(()));
    let rx = ChannelError::NoSuchRx { channel: 2, available: 1 };
    assert_eq!(check_channels(2, 9, 1, 1), Err(rx));
    assert_eq!(rx.message(), "RX channel 2 not available (device has 1 RX channels)");
    let tx = ChannelError::NoSuchTx { channel: 9, available: 1 };
    assert_eq!(check_channels(0, 9, 1, 1), Err(tx));
    assert_eq!(tx.message(), "TX channel 9 not available (device has 1 TX channels)");
    assert_eq!(check_single_device(2, 2), Ok(()));
    let few = ChannelError::TooFew { rx_available: 2, tx_available: 1 };
    assert_eq!(check_single_device(2, 1), Err(few));
    assert!(check_single_device(1, 2).is_err());
    assert_eq!(
        few.message(),
        "Single-device mode requires at least 2 RX and 2 TX channels. Device has 2 RX and 1 TX channels."
    );
}

#[test]
fn channels_are_set_up_from_the_arguments() {
    let mut args = default_args();
    args.rx_chan1 = 5;
    args.tx_chan1 = 6;
    let a = setup_path_a(&args);
    assert_eq!((a[0].way, a[0].channel, wide(a[0].gain)), (Way::Rx, 5, 31.0));
    assert_eq!((a[1].way, a[1].channel, wide(a[1].gain)), (Way::Tx, 6, 32.0));
    assert_eq!(wide(a[0].sample_rate), 2_000_000.0);
    args.single_device = true;
    let b = setup_path_b(&args);
    assert_eq!((b[0].way, b[0].channel, wide(b[0].gain)), (Way::Rx, 1, 33.0));
    assert_eq!((b[1].way, b[1].channel, wide(b[1].gain)), (Way::Tx, 1, 34.0));
    let third = setup_half_duplex(&args);
    assert_eq!((third[0].way, third[0].channel, wide(third[0].gain)), (Way::Tx, 2, 36.0));
    assert_eq!((third[1].way, third[1].channel, wide(third[1].gain)), (Way::Rx, 2, 35.0));
    // It sends where path A listens and listens where path B sends.
    assert_eq!(third[0].frequency, a[0].frequency);
    assert_eq!(third[1].frequency, b[1].frequency);
}

// Sending.

#[test]
fn a_frame_goes_out_in_chunks_and_ends_once() {
    let len = 2 * CHUNK_SAMPLES + 100;
    let mut sender = FrameSender::new(len, CHUNK_SAMPLES);
    let mut stats = DebugStats::new();
    let mut at = 0;
    let mut ends = Vec::new();
    while let Some(chunk) = sender.next_chunk() {
        assert_eq!(chunk.start, at);
        assert!(chunk.end - chunk.start <= 65_536);
        ends.push(chunk.end_of_burst);
        at = chunk.end;
        sender.wrote(&mut stats, chunk.end - chunk.start);
    }
    assert_eq!(at, len);
    assert_eq!(ends, [false, false, true]);
    assert_eq!((sender.written(), sender.chunks()), (len, 3));
    assert_eq!(stats.tx_samples, len as u64);
    assert_eq!(sender.state(), SendState::Sending);
}

#[test]
fn a_partial_write_is_taken_up_where_it_ended() {
    let mut sender = FrameSender::new(100, CHUNK_SAMPLES);
    let mut stats = DebugStats::new();
    assert!(sender.next_chunk().unwrap().end_of_burst);
    sender.wrote(&mut stats, 60);
    let next = sender.next_chunk().unwrap();
    assert_eq!((next.start, next.end, next.end_of_burst), (60, 100, true));
    sender.wrote(&mut stats, 0);
    assert_eq!(sender.state(), SendState::Stalled);
    assert_eq!(sender.next_chunk(), None);
    assert_eq!((sender.written(), sender.chunks(), stats.tx_samples), (60, 2, 60));
    let mut refused = FrameSender::new(100, CHUNK_SAMPLES);
    refused.failed();
    assert_eq!(refused.state(), SendState::Failed);
    assert_eq!(refused.next_chunk(), None);
    assert_eq!(FrameSender::new(0, CHUNK_SAMPLES).next_chunk(), None);
    // Without a limit all that is left goes out at once.
    let whole = FrameSender::new(200_000, usize::MAX);
    let chunk = whole.next_chunk().unwrap();
    assert_eq!((chunk.start, chunk.end, chunk.end_of_burst), (0, 200_000, true));
}

#[test]
fn the_radio_goes_off_when_nothing_is_sent() {
    let mut gate = TxGate::new();
    let mut stats = DebugStats::new();
    assert!(!gate.active);
    assert!(!gate.idle(Span::from_secs(10)));
    gate.activated();
    assert!(gate.active);
    gate.frame_sent(&mut stats, Span::from_millis(1000));
    assert_eq!(stats.tx_buffers, 1);
    assert!(!gate.idle(Span::from_millis(1199)));
    assert!(gate.active);
    gate.frame_sent(&mut stats, Span::from_millis(1199));
    assert!(!gate.idle(Span::from_millis(1398)));
    assert!(gate.idle(Span::from_millis(1399)));
    assert!(!gate.active);
    assert!(gate.last_tx.is_none());
    assert!(!gate.idle(Span::from_millis(5000)));
    // On, but nothing was sent yet.
    gate.activated();
    assert!(gate.idle(Span::from_millis(5000)));
}

// Threads.

fn names(roles: &[Role]) -> Vec<&'static str> {
    roles.iter().map(|role| role.name()).collect()
}

#[test]
fn a_relay_has_a_thread_for_each_end() {
    assert_eq!(
        names(&plan_relay(RelayKind::Plain, Direction::Both)),
        ["ChA-RX", "ChB-TX", "ChB-RX", "ChA-TX"]
    );
    assert_eq!(
        plan_relay(RelayKind::Debug, Direction::From(Channel::B)),
        vec![
            Role::Receive { side: Channel::B, kind: RelayKind::Debug, link: Link::BToA },
            Role::Send { side: Channel::A, kind: RelayKind::Debug, link: Link::BToA },
        ]
    );
    assert_eq!(names(&plan_analysis()), ["ChA-RX", "ChB-RX"]);
    assert_eq!(outgoing_link(Channel::A), Link::AToB);
    assert_eq!(other_channel(Channel::A), Channel::B);
}

#[test]
fn a_normal_run_detects_transmissions() {
    let mut args = default_args();
    assert_eq!(plan_normal(&args), plan_relay(RelayKind::Detect, Direction::Both));
    args.unidirectional = true;
    assert_eq!(
        plan_normal(&args),
        plan_relay(RelayKind::Detect, Direction::From(Channel::A))
    );
    args.reverse = true;
    assert_eq!(
        plan_normal(&args),
        plan_relay(RelayKind::Detect, Direction::From(Channel::B))
    );
    args.debug = true;
    args.test_rx_only = true;
    assert_eq!(
        plan_normal(&args),
        vec![Role::ReceiveOnly { side: Channel::A }, Role::ReceiveOnly { side: Channel::B }]
    );
    args.test_tx_only = true;
    assert_eq!(names(&plan_normal(&args)), ["ChA-TX", "ChB-TX"]);
    assert_eq!(plan_run(&args), plan_normal(&args));
}

#[test]
fn a_fuzzing_run_polls_what_it_delays() {
    let mut args = default_args();
    args.fuzz = true;
    assert_eq!(
        names(&plan_fuzz(&args)),
        ["ChA-RX-Fuzz", "ChB-TX-Fuzz", "ChB-RX-Fuzz", "ChA-TX-Fuzz", "Delay-A2B", "Delay-B2A"]
    );
    args.record_dir = Some(String::from("out"));
    let both = plan_run(&args);
    assert_eq!(
        both[2],
        Role::Fuzz {
            side: Channel::B,
            link: Link::BToA,
            record: RecordTo::Subdirectory(Channel::B)
        }
    );
    args.unidirectional = true;
    args.reverse = true;
    assert_eq!(
        plan_fuzz(&args),
        vec![
            Role::Fuzz { side: Channel::B, link: Link::BToA, record: RecordTo::Directory },
            Role::SendFrames { side: Channel::A, link: Link::BToA },
            Role::Poll { link: Link::BToA, replaying: false },
        ]
    );
    args.replay_dir = Some(String::from("in"));
    assert_eq!(names(&plan_fuzz(&args)), ["Replay", "ChB-TX-Fuzz", "Delay-Replay"]);
    assert_eq!(
        names(&plan_autotest()),
        ["ChA-RX-Fuzz", "ChB-TX-Fuzz", "Delay-A2B", "Dev3-Autotest"]
    );
    assert_eq!(RecordTo::Subdirectory(Channel::A).subdirectory(), Some("channel_a"));
    assert_eq!(RecordTo::Subdirectory(Channel::B).subdirectory(), Some("channel_b"));
    assert_eq!(RecordTo::Directory.subdirectory(), None);
    assert_eq!(RecordTo::Nowhere.subdirectory(), None);
}

#[test]
fn threads_count_for_their_channel() {
    let detect = Role::Receive { side: Channel::B, kind: RelayKind::Detect, link: Link::BToA };
    assert_eq!((detect.counts_for(), detect.counts_at_end()), (Some(Channel::B), Some(Channel::B)));
    let plain = Role::Receive { side: Channel::B, kind: RelayKind::Plain, link: Link::BToA };
    assert_eq!((plain.counts_for(), plain.counts_at_end()), (None, None));
    let fuzz = Role::Fuzz { side: Channel::B, link: Link::BToA, record: RecordTo::Nowhere };
    assert_eq!((fuzz.counts_for(), fuzz.counts_at_end()), (Some(Channel::A), None));
    let recorded = Role::Fuzz { side: Channel::B, link: Link::BToA, record: RecordTo::Directory };
    assert_eq!((recorded.counts_for(), recorded.counts_at_end()), (None, None));
    let only = Role::ReceiveOnly { side: Channel::A };
    assert_eq!((only.counts_for(), only.counts_at_end()), (Some(Channel::A), Some(Channel::A)));
}

#[test]
fn lengths_of_time_add_up() {
    assert_eq!(Span::from_millis(1500), Span { secs: 1, nanos: 500_000_000 });
    assert_eq!(Span::from_millis(1500).as_millis(), 1500);
    assert_eq!(Span::from_secs(3).as_nanos(), 3_000_000_000);
    assert_eq!(Span { secs: 0, nanos: 1_999_999 }.as_millis(), 1);
}
