//! What follows from the arguments.
use vstd::prelude::*;

use crate::arith::{
    wide_count_of, wide_floor_of, wide_product_of, wide_quotient_of, Arithmetic, Double,
};
use crate::autotest::AutotestConfig;
use crate::config::{
    check_args, mode_info, run_mode, samples_in, Args, ArgsError, ModeLine, RunMode,
};
use crate::detector::DetectorConfig;
use crate::fuzzer::FuzzerStrategy;
use crate::signal::as_size;
use crate::span::Span;
use crate::text::decimal;
use crate::text_laws::{decimals_are_written, writes};

verus! {

/// Whether the arguments leave one device for both paths: it is said so, or no second device is
/// named, or it is said to be the same.
pub open spec fn alone(args: Args) -> bool {
    args.single_device || args.device2@ == Seq::<char>::empty() || args.device2@ == seq![
        's',
        'a',
        'm',
        'e',
    ]
}

proof fn alone_is_one_device(args: Args)
    ensures
        alone(args) == crate::config::one_device(args),
{
    reveal_strlit("same");
    assert("same"@ =~= seq!['s', 'a', 'm', 'e']);
    assert(args.device2@.len() == 0 ==> args.device2@ =~= Seq::<char>::empty());
}

/// One device is used if and only if the arguments leave one.
pub proof fn one_device_is_used_if_alone(args: Args, r: bool)
    requires
        call_ensures(Args::uses_one_device, (&args,), r),
    ensures
        r <==> alone(args),
{
    alone_is_one_device(args);
}

/// A channel of path B that is named is used; else it is channel 1 of the only device or channel 0
/// of a device of its own.
pub proof fn channels_of_path_b(args: Args, rx: usize, tx: usize)
    requires
        call_ensures(Args::rx_chan2, (&args,), rx),
        call_ensures(Args::tx_chan2, (&args,), tx),
    ensures
        args.rx_chan2 matches Some(c) ==> rx == c,
        args.tx_chan2 matches Some(c) ==> tx == c,
        args.rx_chan2 is None ==> rx == (if alone(args) {
            1int
        } else {
            0
        }),
        args.tx_chan2 is None ==> tx == (if alone(args) {
            1int
        } else {
            0
        }),
{
    alone_is_one_device(args);
}

/// `n` is the number of samples in `ms` milliseconds: the milliseconds over a thousand, times the
/// rate, rounded down.
pub open spec fn samples_in_millis<A: Arithmetic>(
    arith: &A,
    ms: u64,
    rate: Double,
    n: usize,
) -> bool {
    exists|m: Double, secs: Double, x: Double, whole: u64|
        call_ensures(A::wide_count, (arith, ms), m) && #[trigger] call_ensures(
            A::wide_over,
            (arith, m, Double { bits: 0x408F_4000_0000_0000 }),
            secs,
        ) && #[trigger] call_ensures(A::wide_times, (arith, secs, rate), x)
            && #[trigger] call_ensures(A::wide_floor, (arith, x), whole) && n == (if whole
            > usize::MAX {
            usize::MAX as int
        } else {
            whole as int
        })
}

proof fn lengths_are_converted<A: Arithmetic>(arith: &A, ms: u64, rate: Double, n: usize)
    requires
        samples_in(arith, ms, rate, n),
    ensures
        samples_in_millis(arith, ms, rate, n),
{
    let thousand = Double { bits: 0x408F_4000_0000_0000 };
    let (m, secs, x, whole) = choose|m: Double, secs: Double, x: Double, whole: u64|
        wide_count_of(arith, ms, m) && #[trigger] wide_quotient_of(arith, m, thousand, secs)
            && #[trigger] wide_product_of(arith, secs, rate, x) && #[trigger] wide_floor_of(
            arith,
            x,
            whole,
        ) && n == as_size(whole);
    assert(call_ensures(A::wide_over, (arith, m, thousand), secs));
    assert(call_ensures(A::wide_times, (arith, secs, rate), x));
    assert(call_ensures(A::wide_floor, (arith, x), whole));
}

/// Each length in samples is that of its own milliseconds at the sample rate.
pub proof fn lengths_in_samples<A: Arithmetic>(
    args: Args,
    arith: &A,
    hangtime: usize,
    min: usize,
    max: usize,
)
    requires
        call_ensures(Args::hangtime_samples::<A>, (&args, arith), hangtime),
        call_ensures(Args::min_tx_samples::<A>, (&args, arith), min),
        call_ensures(Args::max_tx_samples::<A>, (&args, arith), max),
    ensures
        samples_in_millis(arith, args.hangtime_ms, args.sample_rate, hangtime),
        samples_in_millis(arith, args.min_tx_ms, args.sample_rate, min),
        samples_in_millis(arith, args.max_tx_ms, args.sample_rate, max),
{
    lengths_are_converted(arith, args.hangtime_ms, args.sample_rate, hangtime);
    lengths_are_converted(arith, args.min_tx_ms, args.sample_rate, min);
    lengths_are_converted(arith, args.max_tx_ms, args.sample_rate, max);
}

/// A detector is set up with the squelch of the arguments and each length in its place.
pub proof fn a_detector_is_set_up_as_asked_for<A: Arithmetic>(
    args: Args,
    arith: &A,
    config: DetectorConfig,
)
    requires
        call_ensures(Args::detector_config::<A>, (&args, arith), config),
    ensures
        config.squelch_threshold == args.squelch,
        samples_in_millis(arith, args.hangtime_ms, args.sample_rate, config.hangtime_samples),
        samples_in_millis(
            arith,
            args.min_tx_ms,
            args.sample_rate,
            config.min_transmission_samples,
        ),
        samples_in_millis(
            arith,
            args.max_tx_ms,
            args.sample_rate,
            config.max_transmission_samples,
        ),
{
    lengths_are_converted(arith, args.hangtime_ms, args.sample_rate, config.hangtime_samples);
    lengths_are_converted(
        arith,
        args.min_tx_ms,
        args.sample_rate,
        config.min_transmission_samples,
    );
    lengths_are_converted(
        arith,
        args.max_tx_ms,
        args.sample_rate,
        config.max_transmission_samples,
    );
}

/// The default detector: a squelch of 0.003, and lengths in samples.
pub proof fn the_default_detector(config: DetectorConfig)
    requires
        call_ensures(DetectorConfig::default, (), config),
    ensures
        config.squelch_threshold.bits == 0x3B44_9BA6,
        config.hangtime_samples == 8192,
        config.min_transmission_samples == 1024,
        config.max_transmission_samples == 2_000_000,
{
}

/// An automated test relays with a fixed delay of as many milliseconds as the arguments say, whatever
/// strategy they name.
pub proof fn an_automated_test_relays_after_a_fixed_delay(
    args: Args,
    delay: Span,
    strategy: FuzzerStrategy,
)
    requires
        call_ensures(Args::autotest_relay_delay, (&args,), delay),
        call_ensures(Args::autotest_strategy, (&args,), strategy),
    ensures
        delay.secs * 1_000_000_000 + delay.nanos == args.autotest_relay_delay_ms * 1_000_000,
        strategy == FuzzerStrategy::FixedDelay(delay),
{
    let other = strategy->FixedDelay_0;
    assert(delay.nanos < 1_000_000_000 && other.nanos < 1_000_000_000);
    assert(delay.secs == other.secs);
}

/// Each setting of an automated test is the argument that is named for it.
pub proof fn an_automated_test_is_set_up_as_asked_for(args: Args, config: AutotestConfig)
    requires
        call_ensures(Args::autotest_config, (&args,), config),
    ensures
        config.tx_duration_ms == args.autotest_tx_ms,
        config.switch_guard_ms == args.autotest_switch_guard_ms,
        config.relay_delay_ms == args.autotest_relay_delay_ms,
        config.burst_count == args.autotest_bursts,
        config.snr_threshold_db == args.autotest_snr_threshold_db,
        config.tone_freq_hz == args.autotest_tone_freq_hz,
        config.sample_rate == args.sample_rate,
        config.buffer_size == args.buffer_size,
{
}

/// Arguments are refused only in automated test mode, and then if and only if no third device is
/// named, or the relay would send before the third device has sent and switched over, or one device
/// is all there is and more than listing channels is asked for. The first of these that holds is the
/// reason, with the numbers that it goes by.
pub proof fn arguments_are_refused_for_a_reason(args: Args, r: Result<(), ArgsError>)
    requires
        call_ensures(check_args, (&args,), r),
    ensures
        ({
            let unnamed = args.device3@ == Seq::<char>::empty();
            let early = args.autotest_relay_delay_ms < args.autotest_tx_ms
                + args.autotest_switch_guard_ms;
            let single = alone(args) && !args.list_channels;
            &&& r is Ok <==> !args.autotest || !unnamed && !early && !single
            &&& args.autotest && unnamed ==> r == Err::<(), _>(ArgsError::MissingDevice3)
            &&& args.autotest && !unnamed && early ==> r == Err::<(), _>(
                ArgsError::DelayTooShort {
                    relay_ms: args.autotest_relay_delay_ms,
                    tx_ms: args.autotest_tx_ms,
                    guard_ms: args.autotest_switch_guard_ms,
                },
            )
            &&& args.autotest && !unnamed && !early && single ==> r == Err::<(), _>(
                ArgsError::SingleDeviceAutotest,
            )
        }),
{
    alone_is_one_device(args);
    assert(args.device3@.len() == 0 ==> args.device3@ =~= Seq::<char>::empty());
}

/// Listing channels comes before everything else; a single device is used where it is all there is;
/// an automated test is run on two if it is asked for.
pub proof fn a_run_does_what_is_asked_for(args: Args, mode: RunMode)
    requires
        call_ensures(run_mode, (&args,), mode),
    ensures
        mode is ListChannels <==> args.list_channels,
        mode is SingleDevice <==> !args.list_channels && alone(args),
        mode is Autotest <==> !args.list_channels && !alone(args) && args.autotest,
        mode is DualDevice <==> !args.list_channels && !alone(args) && !args.autotest,
{
    alone_is_one_device(args);
}

/// One of the lines is such a line.
pub open spec fn says(lines: Seq<ModeLine>, such: spec_fn(ModeLine) -> bool) -> bool {
    exists|i: int| 0 <= i < lines.len() && such(#[trigger] lines[i])
}

/// What is said about a run is what the arguments ask for: which devices, the settings of the
/// detection, the strategy and the directories of the fuzzer or else the direction, and what
/// debugging does.
pub proof fn a_run_is_announced_as_it_is(args: Args, lines: Vec<ModeLine>)
    requires
        call_ensures(mode_info, (&args,), lines),
    ensures
        says(lines@, |l: ModeLine| l is SingleDevice) <==> alone(args),
        says(lines@, |l: ModeLine| l is DualDevice) <==> !alone(args),
        says(lines@, |l: ModeLine| l is Fuzzer) <==> args.fuzz,
        says(lines@, |l: ModeLine| l is RecordingTo) <==> args.fuzz && args.record_dir is Some,
        says(lines@, |l: ModeLine| l is ReplayingFrom) <==> args.fuzz && args.replay_dir is Some,
        says(lines@, |l: ModeLine| l is Reverse) <==> !args.fuzz && args.unidirectional
            && args.reverse,
        says(lines@, |l: ModeLine| l is Forward) <==> !args.fuzz && args.unidirectional
            && !args.reverse,
        says(lines@, |l: ModeLine| l is Bidirectional) <==> !args.fuzz && !args.unidirectional,
        says(lines@, |l: ModeLine| l is Debug) <==> args.debug,
        says(lines@, |l: ModeLine| l is TestTx) <==> args.debug && args.test_tx_only,
        says(lines@, |l: ModeLine| l is TestRx) <==> args.debug && !args.test_tx_only
            && args.test_rx_only,
        says(lines@, |l: ModeLine| l is SampleLogging) <==> args.debug && args.log_samples,
        says(lines@, |l: ModeLine| l is Duration) <==> args.debug && args.debug_duration > 0,
        says(lines@, |l: ModeLine| l is Detection),
        forall|i: int| 0 <= i < lines@.len() ==> is_true(args, #[trigger] lines@[i]),
{
    assert(lines@ == announced(args));
    device_lines_are_announced(args);
    relay_lines_are_announced(args);
    debug_lines_are_announced(args);
    all_lines_are_true(args);
}

/// All that is said.
spec fn announced(args: Args) -> Seq<ModeLine> {
    crate::config::device_lines(args) + crate::config::relay_lines(args)
        + crate::config::debug_lines(args)
}

proof fn all_lines_are_true(args: Args)
    ensures
        ({
            let all = announced(args);
            forall|i: int| 0 <= i < all.len() ==> is_true(args, #[trigger] all[i])
        }),
{
    let a = crate::config::device_lines(args);
    let b = crate::config::relay_lines(args);
    let c = crate::config::debug_lines(args);
    let all = announced(args);
    device_part(args);
    relay_part(args);
    debug_part(args);
    assert forall|i: int| 0 <= i < all.len() implies is_true(args, #[trigger] all[i]) by {
        if i < a.len() {
            assert(all[i] == a[i]);
        } else if i < a.len() + b.len() {
            assert(all[i] == b[i - a.len()]);
        } else {
            assert(all[i] == c[i - a.len() - b.len()]);
        }
    }
}

/// Lines of a kind that only one part has are said if and only if that part has them.
proof fn said_by_one_part(args: Args, such: spec_fn(ModeLine) -> bool)
    ensures
        (forall|l: ModeLine| #[trigger] such(l) ==> l is SingleDevice || l is DualDevice
            || l is Detection) ==> (says(announced(args), such) <==> says(
            crate::config::device_lines(args),
            such,
        )),
        (forall|l: ModeLine| #[trigger] such(l) ==> l is Fuzzer || l is RecordingTo
            || l is ReplayingFrom || l is Reverse || l is Forward || l is Bidirectional) ==> (says(
            announced(args),
            such,
        ) <==> says(crate::config::relay_lines(args), such)),
        (forall|l: ModeLine| #[trigger] such(l) ==> l is Debug || l is TestTx || l is TestRx
            || l is SampleLogging || l is Duration) ==> (says(announced(args), such) <==> says(
            crate::config::debug_lines(args),
            such,
        )),
{
    let a = crate::config::device_lines(args);
    let b = crate::config::relay_lines(args);
    let c = crate::config::debug_lines(args);
    device_part(args);
    relay_part(args);
    debug_part(args);
    parts_say(a, b, c, such);
}

proof fn device_lines_are_announced(args: Args)
    ensures
        says(announced(args), |l: ModeLine| l is SingleDevice) <==> alone(args),
        says(announced(args), |l: ModeLine| l is DualDevice) <==> !alone(args),
        says(announced(args), |l: ModeLine| l is Detection),
{
    device_part(args);
    said_by_one_part(args, |l: ModeLine| l is SingleDevice);
    said_by_one_part(args, |l: ModeLine| l is DualDevice);
    said_by_one_part(args, |l: ModeLine| l is Detection);
}

proof fn relay_lines_are_announced(args: Args)
    ensures
        says(announced(args), |l: ModeLine| l is Fuzzer) <==> args.fuzz,
        says(announced(args), |l: ModeLine| l is RecordingTo) <==> args.fuzz
            && args.record_dir is Some,
        says(announced(args), |l: ModeLine| l is ReplayingFrom) <==> args.fuzz
            && args.replay_dir is Some,
        says(announced(args), |l: ModeLine| l is Reverse) <==> !args.fuzz && args.unidirectional
            && args.reverse,
        says(announced(args), |l: ModeLine| l is Forward) <==> !args.fuzz && args.unidirectional
            && !args.reverse,
        says(announced(args), |l: ModeLine| l is Bidirectional) <==> !args.fuzz
            && !args.unidirectional,
{
    relay_part(args);
    said_by_one_part(args, |l: ModeLine| l is Fuzzer);
    said_by_one_part(args, |l: ModeLine| l is RecordingTo);
    said_by_one_part(args, |l: ModeLine| l is ReplayingFrom);
    said_by_one_part(args, |l: ModeLine| l is Reverse);
    said_by_one_part(args, |l: ModeLine| l is Forward);
    said_by_one_part(args, |l: ModeLine| l is Bidirectional);
}

proof fn debug_lines_are_announced(args: Args)
    ensures
        says(announced(args), |l: ModeLine| l is Debug) <==> args.debug,
        says(announced(args), |l: ModeLine| l is TestTx) <==> args.debug && args.test_tx_only,
        says(announced(args), |l: ModeLine| l is TestRx) <==> args.debug && !args.test_tx_only
            && args.test_rx_only,
        says(announced(args), |l: ModeLine| l is SampleLogging) <==> args.debug
            && args.log_samples,
        says(announced(args), |l: ModeLine| l is Duration) <==> args.debug && args.debug_duration
            > 0,
{
    debug_part(args);
    said_by_one_part(args, |l: ModeLine| l is Debug);
    said_by_one_part(args, |l: ModeLine| l is TestTx);
    said_by_one_part(args, |l: ModeLine| l is TestRx);
    said_by_one_part(args, |l: ModeLine| l is SampleLogging);
    said_by_one_part(args, |l: ModeLine| l is Duration);
}

/// What a line says of the arguments holds of them.
pub open spec fn is_true(args: Args, line: ModeLine) -> bool {
    match line {
        ModeLine::SingleDevice { channel_a, channel_b } => channel_a == args.rx_chan1 && channel_b
            == (match args.rx_chan2 {
            Some(c) => c,
            None => 1,
        }),
        ModeLine::Detection { squelch, hangtime_ms, min_tx_ms, max_tx_ms } => squelch
            == args.squelch && hangtime_ms == args.hangtime_ms && min_tx_ms == args.min_tx_ms
            && max_tx_ms == args.max_tx_ms,
        ModeLine::Fuzzer { strategy } => strategy@ == args.fuzz_strategy@,
        ModeLine::RecordingTo { dir } => args.record_dir is Some && dir@ == args.record_dir->0@,
        ModeLine::ReplayingFrom { dir } => args.replay_dir is Some && dir@ == args.replay_dir->0@,
        ModeLine::TestTx { tone_freq } => tone_freq == args.test_tone_freq,
        ModeLine::Duration { secs } => secs == args.debug_duration,
        _ => true,
    }
}

proof fn parts_say(
    a: Seq<ModeLine>,
    b: Seq<ModeLine>,
    c: Seq<ModeLine>,
    such: spec_fn(ModeLine) -> bool,
)
    ensures
        says(a + b + c, such) <==> says(a, such) || says(b, such) || says(c, such),
{
    let all = a + b + c;
    if says(a, such) {
        let i = choose|i: int| 0 <= i < a.len() && such(#[trigger] a[i]);
        assert(all[i] == a[i]);
    }
    if says(b, such) {
        let i = choose|i: int| 0 <= i < b.len() && such(#[trigger] b[i]);
        assert(all[a.len() + i] == b[i]);
    }
    if says(c, such) {
        let i = choose|i: int| 0 <= i < c.len() && such(#[trigger] c[i]);
        assert(all[a.len() + b.len() + i] == c[i]);
    }
    if says(all, such) {
        let i = choose|i: int| 0 <= i < all.len() && such(#[trigger] all[i]);
        if i < a.len() {
            assert(all[i] == a[i]);
        } else if i < a.len() + b.len() {
            assert(all[i] == b[i - a.len()]);
        } else {
            assert(all[i] == c[i - a.len() - b.len()]);
        }
    }
}

proof fn device_part(args: Args)
    ensures
        ({
            let a = crate::config::device_lines(args);
            &&& a.len() == 2
            &&& a[0] is SingleDevice <==> alone(args)
            &&& a[0] is DualDevice <==> !alone(args)
            &&& a[1] is Detection
            &&& says(a, |l: ModeLine| l is SingleDevice) <==> alone(args)
            &&& says(a, |l: ModeLine| l is DualDevice) <==> !alone(args)
            &&& says(a, |l: ModeLine| l is Detection)
            &&& is_true(args, a[0]) && is_true(args, a[1])
        }),
{
    alone_is_one_device(args);
    let a = crate::config::device_lines(args);
    let single = |l: ModeLine| l is SingleDevice;
    let dual = |l: ModeLine| l is DualDevice;
    let detection = |l: ModeLine| l is Detection;
    assert(detection(a[1]));
    if alone(args) {
        assert(single(a[0]));
    } else {
        assert(dual(a[0]));
    }
}

proof fn relay_part(args: Args)
    ensures
        ({
            let b = crate::config::relay_lines(args);
            &&& says(b, |l: ModeLine| l is Fuzzer) <==> args.fuzz
            &&& says(b, |l: ModeLine| l is RecordingTo) <==> args.fuzz && args.record_dir is Some
            &&& says(b, |l: ModeLine| l is ReplayingFrom) <==> args.fuzz
                && args.replay_dir is Some
            &&& says(b, |l: ModeLine| l is Reverse) <==> !args.fuzz && args.unidirectional
                && args.reverse
            &&& says(b, |l: ModeLine| l is Forward) <==> !args.fuzz && args.unidirectional
                && !args.reverse
            &&& says(b, |l: ModeLine| l is Bidirectional) <==> !args.fuzz && !args.unidirectional
            &&& forall|i: int|
                0 <= i < b.len() ==> is_true(args, #[trigger] b[i]) && (b[i] is Fuzzer
                    || b[i] is RecordingTo || b[i] is ReplayingFrom || b[i] is Reverse
                    || b[i] is Forward || b[i] is Bidirectional)
        }),
{
    let b = crate::config::relay_lines(args);
    let fuzzer = |l: ModeLine| l is Fuzzer;
    let recording = |l: ModeLine| l is RecordingTo;
    let replaying = |l: ModeLine| l is ReplayingFrom;
    let reverse = |l: ModeLine| l is Reverse;
    let forward = |l: ModeLine| l is Forward;
    let both = |l: ModeLine| l is Bidirectional;
    if args.fuzz {
        assert(fuzzer(b[0]));
        if args.record_dir is Some {
            assert(recording(b[1]));
        }
        if args.replay_dir is Some {
            assert(replaying(b[b.len() - 1]));
        }
    } else {
        assert(reverse(b[0]) || forward(b[0]) || both(b[0]));
    }
}

proof fn debug_part(args: Args)
    ensures
        ({
            let c = crate::config::debug_lines(args);
            &&& says(c, |l: ModeLine| l is Debug) <==> args.debug
            &&& says(c, |l: ModeLine| l is TestTx) <==> args.debug && args.test_tx_only
            &&& says(c, |l: ModeLine| l is TestRx) <==> args.debug && !args.test_tx_only
                && args.test_rx_only
            &&& says(c, |l: ModeLine| l is SampleLogging) <==> args.debug && args.log_samples
            &&& says(c, |l: ModeLine| l is Duration) <==> args.debug && args.debug_duration > 0
            &&& forall|i: int|
                0 <= i < c.len() ==> is_true(args, #[trigger] c[i]) && (c[i] is Debug
                    || c[i] is TestTx || c[i] is TestRx || c[i] is SampleLogging
                    || c[i] is Duration)
        }),
{
    let c = crate::config::debug_lines(args);
    let debug = |l: ModeLine| l is Debug;
    let tx = |l: ModeLine| l is TestTx;
    let rx = |l: ModeLine| l is TestRx;
    let log = |l: ModeLine| l is SampleLogging;
    let duration = |l: ModeLine| l is Duration;
    if args.debug {
        assert(debug(c[0]));
        if args.test_tx_only {
            assert(tx(c[1]));
        } else if args.test_rx_only {
            assert(rx(c[1]));
        }
        let tests: int = if args.test_tx_only || args.test_rx_only {
            2
        } else {
            1
        };
        if args.log_samples {
            assert(log(c[tests]));
        }
        if args.debug_duration > 0 {
            assert(duration(c[c.len() - 1]));
        }
    }
}

/// The message on a delay that is too short gives the delay and the two lengths that it has to cover,
/// each after the argument that it comes from.
pub proof fn messages_name_the_arguments(error: ArgsError, text: String)
    requires
        call_ensures(ArgsError::message, (&error,), text),
    ensures
        error is MissingDevice3 ==> text@ == "--autotest requires --device3 to be specified"@,
        error is SingleDeviceAutotest ==> text@
            == "--autotest is not supported with --single-device"@,
        error matches ArgsError::DelayTooShort { relay_ms, tx_ms, guard_ms } ==> exists|
            a: Seq<char>,
            b: Seq<char>,
            c: Seq<char>,
        |
            text@ == "--autotest-relay-delay-ms ("@ + a + ") must be >= --autotest-tx-ms ("@ + b
                + ") + --autotest-switch-guard-ms ("@ + c + ")"@ && #[trigger] writes(
                a,
                relay_ms as int,
            ) && #[trigger] writes(b, tx_ms as int) && #[trigger] writes(c, guard_ms as int),
{
    if let ArgsError::DelayTooShort { relay_ms, tx_ms, guard_ms } = error {
        decimals_are_written(relay_ms as nat);
        decimals_are_written(tx_ms as nat);
        decimals_are_written(guard_ms as nat);
        assert(writes(decimal(relay_ms as nat), relay_ms as int));
        assert(writes(decimal(tx_ms as nat), tx_ms as int));
        assert(writes(decimal(guard_ms as nat), guard_ms as int));
    }
}

/// Where a line comes in what is said about a run.
pub open spec fn rank(line: ModeLine) -> int {
    match line {
        ModeLine::SingleDevice { .. } | ModeLine::DualDevice => 0,
        ModeLine::Detection { .. } => 1,
        ModeLine::Fuzzer { .. } | ModeLine::Reverse | ModeLine::Forward
        | ModeLine::Bidirectional => 2,
        ModeLine::RecordingTo { .. } => 3,
        ModeLine::ReplayingFrom { .. } => 4,
        ModeLine::Debug => 5,
        ModeLine::TestTx { .. } | ModeLine::TestRx => 6,
        ModeLine::SampleLogging => 7,
        ModeLine::Duration { .. } => 8,
    }
}

/// What is said about a run comes in order, nothing twice: the devices, the detection, the fuzzer with
/// its directories or the direction, and debugging with what it does.
pub proof fn a_run_is_announced_in_order(args: Args, lines: Vec<ModeLine>)
    requires
        call_ensures(mode_info, (&args,), lines),
    ensures
        forall|i: int, j: int|
            0 <= i < j < lines@.len() ==> rank(#[trigger] lines@[i]) < rank(#[trigger] lines@[j]),
{
    let a = crate::config::device_lines(args);
    let b = crate::config::relay_lines(args);
    let c = crate::config::debug_lines(args);
    let all = lines@;
    assert(all == a + b + c);
    device_part(args);
    assert forall|i: int, j: int| 0 <= i < j < all.len() implies rank(#[trigger] all[i]) < rank(
        #[trigger] all[j],
    ) by {
        relay_lines_in_order(args);
        debug_lines_in_order(args);
        let x = a.len() as int;
        let y = x + b.len();
        assert(i < x ==> all[i] == a[i]);
        assert(j < x ==> all[j] == a[j]);
        assert(x <= i < y ==> all[i] == b[i - x]);
        assert(x <= j < y ==> all[j] == b[j - x]);
        assert(y <= i ==> all[i] == c[i - y]);
        assert(y <= j ==> all[j] == c[j - y]);
    }
}

proof fn relay_lines_in_order(args: Args)
    ensures
        ({
            let b = crate::config::relay_lines(args);
            &&& forall|i: int| 0 <= i < b.len() ==> 2 <= rank(#[trigger] b[i]) <= 4
            &&& forall|i: int, j: int|
                0 <= i < j < b.len() ==> rank(#[trigger] b[i]) < rank(#[trigger] b[j])
        }),
{
}

proof fn debug_lines_in_order(args: Args)
    ensures
        ({
            let c = crate::config::debug_lines(args);
            &&& forall|i: int| 0 <= i < c.len() ==> 5 <= rank(#[trigger] c[i]) <= 8
            &&& forall|i: int, j: int|
                0 <= i < j < c.len() ==> rank(#[trigger] c[i]) < rank(#[trigger] c[j])
        }),
{
}

} // verus!
