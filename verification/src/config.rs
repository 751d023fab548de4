//! What the command line says, and what follows from it.
use vstd::prelude::*;
use vstd::string::StringExecFns;

use crate::arith::{
    wide_count_of, wide_floor_of, wide_product_of, wide_quotient_of, Arithmetic, Double, Single,
};
use crate::autotest::AutotestConfig;
use crate::detector::DetectorConfig;
use crate::fuzzer::FuzzerStrategy;
use crate::signal::{as_size, to_size, THOUSAND_BITS};
use crate::span::Span;
use crate::strategy_text::{parse_strategy, strategy_of};
use crate::text::{append_decimal, decimal, fields, lowercase, same_text};

verus! {

/// The arguments of the relay.
#[derive(Clone, Debug)]
pub struct Args {
    /// First SDR device filter (e.g., "driver=rtlsdr" or device index "0").
    pub device1: String,
    /// Second SDR device filter (e.g., "driver=hackrf" or device index "1"). If empty or "same",
    /// device1 is used with different channels.
    pub device2: String,
    /// Use single device mode with dual channels.
    pub single_device: bool,
    /// Sample rate in Hz.
    pub sample_rate: Double,
    /// Center frequency in Hz for device 1 / channel A.
    pub freq1: Double,
    /// Center frequency in Hz for device 2 / channel B.
    pub freq2: Double,
    /// RX gain for device 1 / channel A in dB.
    pub rx_gain1: Double,
    /// TX gain for device 1 / channel A in dB.
    pub tx_gain1: Double,
    /// RX gain for device 2 / channel B in dB.
    pub rx_gain2: Double,
    /// TX gain for device 2 / channel B in dB.
    pub tx_gain2: Double,
    /// Buffer size (number of IQ samples per transfer).
    pub buffer_size: usize,
    /// Channel buffer depth (number of buffers to queue).
    pub channel_depth: usize,
    /// RX channel index for device 1 / path A.
    pub rx_chan1: usize,
    /// TX channel index for device 1 / path A.
    pub tx_chan1: usize,
    /// RX channel index for device 2 / path B (default: 0, or 1 in single-device mode).
    pub rx_chan2: Option<usize>,
    /// TX channel index for device 2 / path B (default: 0, or 1 in single-device mode).
    pub tx_chan2: Option<usize>,
    /// List available devices and their channels, then exit.
    pub list_channels: bool,
    /// Only relay from device1/channelA RX to device2/channelB TX.
    pub unidirectional: bool,
    /// Reverse direction in unidirectional mode.
    pub reverse: bool,
    /// Enable fuzzer mode with transmission detection.
    pub fuzz: bool,
    /// Fuzzer strategy.
    pub fuzz_strategy: String,
    /// Squelch threshold for transmission detection (0.0 - 1.0).
    pub squelch: Single,
    /// Hangtime in milliseconds after signal drops before ending transmission.
    pub hangtime_ms: u64,
    /// Minimum transmission length in milliseconds.
    pub min_tx_ms: u64,
    /// Maximum transmission length in milliseconds.
    pub max_tx_ms: u64,
    /// Directory to record transmissions.
    pub record_dir: Option<String>,
    /// Replay transmissions from a directory instead of live RX.
    pub replay_dir: Option<String>,
    /// Delay between replayed transmissions in milliseconds.
    pub replay_delay_ms: u64,
    /// Loop replay indefinitely.
    pub replay_loop: bool,
    /// Enable debug mode with test signal generation and statistics.
    pub debug: bool,
    /// Generate test tone instead of relaying (frequency offset in Hz).
    pub test_tone_freq: Double,
    /// Run for specified seconds then exit (0 = run indefinitely).
    pub debug_duration: u64,
    /// Print statistics every N seconds.
    pub stats_interval: u64,
    /// Log sample values.
    pub log_samples: bool,
    /// Test TX only (generate test signal on TX, no RX relay).
    pub test_tx_only: bool,
    /// Test RX only (receive and analyze, no TX).
    pub test_rx_only: bool,
    /// Enable automated test mode (requires a third device).
    pub autotest: bool,
    /// Third SDR device filter for automated test mode.
    pub device3: String,
    /// RX gain for Device3 in automated test mode (dB).
    pub autotest_rx_gain: Double,
    /// TX gain for Device3 in automated test mode (dB).
    pub autotest_tx_gain: Double,
    /// Duration of each test burst transmitted by Device3 (ms).
    pub autotest_tx_ms: u64,
    /// Guard time after Device3 TX before starting RX (ms).
    pub autotest_switch_guard_ms: u64,
    /// Fixed relay delay in autotest mode (ms).
    pub autotest_relay_delay_ms: u64,
    /// Number of test bursts to send before reporting pass/fail.
    pub autotest_bursts: u32,
    /// Minimum SNR (dB) of the received relay signal for a burst to pass.
    pub autotest_snr_threshold_db: Single,
    /// Frequency offset of the test tone within the channel bandwidth (Hz).
    pub autotest_tone_freq_hz: Double,
    /// Channel index on Device3 (for both TX and RX).
    pub autotest_channel: usize,
}

/// Whether one device is used for both paths: where that is asked for, or where no second device is
/// named, or the same.
pub open spec fn one_device(args: Args) -> bool {
    args.single_device || args.device2@.len() == 0 || args.device2@ == "same"@
}

/// The channel of path B: the one given, or else 1 in single-device mode and 0 otherwise.
pub open spec fn channel_or_default(given: Option<usize>, single_device: bool) -> usize {
    match given {
        Some(channel) => channel,
        None => if single_device {
            1
        } else {
            0
        },
    }
}

/// `n` is how many samples come in `ms` milliseconds at `rate` samples per second.
pub open spec fn samples_in<A: Arithmetic>(arith: &A, ms: u64, rate: Double, n: usize) -> bool {
    exists|m: Double, secs: Double, x: Double, floor: u64|
        wide_count_of(arith, ms, m) && #[trigger] wide_quotient_of(
            arith,
            m,
            Double { bits: THOUSAND_BITS },
            secs,
        ) && #[trigger] wide_product_of(arith, secs, rate, x) && #[trigger] wide_floor_of(
            arith,
            x,
            floor,
        ) && n == as_size(floor)
}

fn millis_to_samples<A: Arithmetic>(arith: &A, ms: u64, rate: Double) -> (n: usize)
    ensures
        samples_in(arith, ms, rate, n),
{
    let m = arith.wide_count(ms);
    let secs = arith.wide_over(m, Double { bits: THOUSAND_BITS });
    let x = arith.wide_times(secs, rate);
    to_size(arith.wide_floor(x))
}

impl Args {
    /// Check whether one device is used for both paths.
    pub fn uses_one_device(&self) -> (r: bool)
        ensures
            r == one_device(*self),
    {
        self.single_device || self.device2.as_str().is_empty() || same_text(
            self.device2.as_str(),
            "same",
        )
    }

    /// Get the RX channel for device/path 2, accounting for single-device mode.
    pub fn rx_chan2(&self) -> (channel: usize)
        ensures
            channel == channel_or_default(self.rx_chan2, one_device(*self)),
    {
        match self.rx_chan2 {
            Some(channel) => channel,
            None => if self.uses_one_device() {
                1
            } else {
                0
            },
        }
    }

    /// Get the TX channel for device/path 2, accounting for single-device mode.
    pub fn tx_chan2(&self) -> (channel: usize)
        ensures
            channel == channel_or_default(self.tx_chan2, one_device(*self)),
    {
        match self.tx_chan2 {
            Some(channel) => channel,
            None => if self.uses_one_device() {
                1
            } else {
                0
            },
        }
    }

    /// Calculate hangtime in samples based on sample rate.
    pub fn hangtime_samples<A: Arithmetic>(&self, arith: &A) -> (n: usize)
        ensures
            samples_in(arith, self.hangtime_ms, self.sample_rate, n),
    {
        millis_to_samples(arith, self.hangtime_ms, self.sample_rate)
    }

    /// Calculate minimum transmission samples based on sample rate.
    pub fn min_tx_samples<A: Arithmetic>(&self, arith: &A) -> (n: usize)
        ensures
            samples_in(arith, self.min_tx_ms, self.sample_rate, n),
    {
        millis_to_samples(arith, self.min_tx_ms, self.sample_rate)
    }

    /// Calculate maximum transmission samples based on sample rate.
    pub fn max_tx_samples<A: Arithmetic>(&self, arith: &A) -> (n: usize)
        ensures
            samples_in(arith, self.max_tx_ms, self.sample_rate, n),
    {
        millis_to_samples(arith, self.max_tx_ms, self.sample_rate)
    }

    /// Returns the relay delay for use with `FuzzerStrategy::FixedDelay`.
    pub fn autotest_relay_delay(&self) -> (delay: Span)
        ensures
            delay.normal(),
            delay.total_nanos() == self.autotest_relay_delay_ms * 1_000_000,
            delay.total_millis() == self.autotest_relay_delay_ms,
    {
        Span::from_millis(self.autotest_relay_delay_ms)
    }

    /// The strategy of the relay in automated test mode: the relay delay, whatever strategy the
    /// arguments ask for otherwise.
    pub fn autotest_strategy(&self) -> (s: FuzzerStrategy)
        ensures
            s matches FuzzerStrategy::FixedDelay(d) && d.normal() && d.total_nanos()
                == self.autotest_relay_delay_ms * 1_000_000,
    {
        FuzzerStrategy::FixedDelay(self.autotest_relay_delay())
    }

    /// The detector configuration that the arguments ask for.
    pub fn detector_config<A: Arithmetic>(&self, arith: &A) -> (config: DetectorConfig)
        ensures
            config.squelch_threshold == self.squelch,
            samples_in(arith, self.hangtime_ms, self.sample_rate, config.hangtime_samples),
            samples_in(arith, self.min_tx_ms, self.sample_rate, config.min_transmission_samples),
            samples_in(arith, self.max_tx_ms, self.sample_rate, config.max_transmission_samples),
    {
        DetectorConfig {
            squelch_threshold: self.squelch,
            hangtime_samples: self.hangtime_samples(arith),
            min_transmission_samples: self.min_tx_samples(arith),
            max_transmission_samples: self.max_tx_samples(arith),
        }
    }

    /// The configuration of automated test mode that the arguments ask for.
    pub fn autotest_config(&self) -> (config: AutotestConfig)
        ensures
            config == (AutotestConfig {
                tx_duration_ms: self.autotest_tx_ms,
                switch_guard_ms: self.autotest_switch_guard_ms,
                relay_delay_ms: self.autotest_relay_delay_ms,
                burst_count: self.autotest_bursts,
                snr_threshold_db: self.autotest_snr_threshold_db,
                tone_freq_hz: self.autotest_tone_freq_hz,
                sample_rate: self.sample_rate,
                buffer_size: self.buffer_size,
            }),
    {
        AutotestConfig {
            tx_duration_ms: self.autotest_tx_ms,
            switch_guard_ms: self.autotest_switch_guard_ms,
            relay_delay_ms: self.autotest_relay_delay_ms,
            burst_count: self.autotest_bursts,
            snr_threshold_db: self.autotest_snr_threshold_db,
            tone_freq_hz: self.autotest_tone_freq_hz,
            sample_rate: self.sample_rate,
            buffer_size: self.buffer_size,
        }
    }

    /// The strategy that the arguments ask for. One that cannot be read gives way to passing
    /// everything through, and the reason is handed back beside it.
    pub fn chosen_strategy<A: Arithmetic>(&self, arith: &A) -> (r: (FuzzerStrategy, Option<String>))
        ensures
            ({
                let parts = fields(self.fuzz_strategy@, ':');
                match r.1 {
                    None => strategy_of(arith, lowercase(parts[0]), parts, Some(r.0)),
                    Some(reason) => r.0 == FuzzerStrategy::Passthrough && strategy_of(
                        arith,
                        lowercase(parts[0]),
                        parts,
                        None,
                    ) && reason@ == "Unknown fuzzer strategy: "@ + self.fuzz_strategy@,
                }
            }),
    {
        match parse_strategy(arith, self.fuzz_strategy.as_str()) {
            Ok(strategy) => (strategy, None),
            Err(reason) => (FuzzerStrategy::Passthrough, Some(reason)),
        }
    }
}

/// Why the arguments cannot be acted on.
#[derive(Clone, Copy, Debug, PartialEq, Eq)]
pub enum ArgsError {
    /// Automated test mode without a third device.
    MissingDevice3,
    /// The relay would send before the third device listens.
    DelayTooShort { relay_ms: u64, tx_ms: u64, guard_ms: u64 },
    /// Automated test mode with a single device.
    SingleDeviceAutotest,
}

/// What is wrong with the arguments, if anything is: automated test mode needs a third device, a
/// delay in which that can send and switch over, and, unless the channels are only to be listed, two
/// devices to relay between.
pub open spec fn args_error(args: Args) -> Option<ArgsError> {
    if !args.autotest {
        None
    } else if args.device3@.len() == 0 {
        Some(ArgsError::MissingDevice3)
    } else if args.autotest_relay_delay_ms < args.autotest_tx_ms + args.autotest_switch_guard_ms {
        Some(
            ArgsError::DelayTooShort {
                relay_ms: args.autotest_relay_delay_ms,
                tx_ms: args.autotest_tx_ms,
                guard_ms: args.autotest_switch_guard_ms,
            },
        )
    } else if one_device(args) && !args.list_channels {
        Some(ArgsError::SingleDeviceAutotest)
    } else {
        None
    }
}

/// Check that the arguments can be acted on.
pub fn check_args(args: &Args) -> (r: Result<(), ArgsError>)
    ensures
        match r {
            Ok(_) => args_error(*args) is None,
            Err(error) => args_error(*args) == Some(error),
        },
{
    if args.autotest {
        if args.device3.as_str().is_empty() {
            return Err(ArgsError::MissingDevice3);
        }
        let min_delay: u128 = args.autotest_tx_ms as u128 + args.autotest_switch_guard_ms as u128;
        if (args.autotest_relay_delay_ms as u128) < min_delay {
            return Err(
                ArgsError::DelayTooShort {
                    relay_ms: args.autotest_relay_delay_ms,
                    tx_ms: args.autotest_tx_ms,
                    guard_ms: args.autotest_switch_guard_ms,
                },
            );
        }
        if args.uses_one_device() && !args.list_channels {
            return Err(ArgsError::SingleDeviceAutotest);
        }
    }
    Ok(())
}

/// What is said of an error in the arguments.
pub open spec fn args_message(error: ArgsError) -> Seq<char> {
    match error {
        ArgsError::MissingDevice3 => "--autotest requires --device3 to be specified"@,
        ArgsError::DelayTooShort { relay_ms, tx_ms, guard_ms } => "--autotest-relay-delay-ms ("@
            + decimal(relay_ms as nat) + ") must be >= --autotest-tx-ms ("@ + decimal(tx_ms as nat)
            + ") + --autotest-switch-guard-ms ("@ + decimal(guard_ms as nat) + ")"@,
        ArgsError::SingleDeviceAutotest => "--autotest is not supported with --single-device"@,
    }
}

impl ArgsError {
    /// Say what is wrong.
    pub fn message(&self) -> (text: String)
        ensures
            text@ == args_message(*self),
    {
        match self {
            ArgsError::MissingDevice3 => "--autotest requires --device3 to be specified".to_owned(),
            ArgsError::DelayTooShort { relay_ms, tx_ms, guard_ms } => {
                let mut text = "--autotest-relay-delay-ms (".to_owned();
                append_decimal(&mut text, *relay_ms as u128);
                text.append(") must be >= --autotest-tx-ms (");
                append_decimal(&mut text, *tx_ms as u128);
                text.append(") + --autotest-switch-guard-ms (");
                append_decimal(&mut text, *guard_ms as u128);
                text.append(")");
                text
            },
            ArgsError::SingleDeviceAutotest => {
                "--autotest is not supported with --single-device".to_owned()
            },
        }
    }
}

/// What the program is to do.
#[derive(Clone, Copy, Debug, PartialEq, Eq)]
pub enum RunMode {
    ListChannels,
    SingleDevice,
    DualDevice,
    Autotest,
}

/// Find what the program is to do.
pub fn run_mode(args: &Args) -> (mode: RunMode)
    ensures
        mode == (if args.list_channels {
            RunMode::ListChannels
        } else if one_device(*args) {
            RunMode::SingleDevice
        } else if args.autotest {
            RunMode::Autotest
        } else {
            RunMode::DualDevice
        }),
{
    if args.list_channels {
        RunMode::ListChannels
    } else if args.uses_one_device() {
        RunMode::SingleDevice
    } else if args.autotest {
        RunMode::Autotest
    } else {
        RunMode::DualDevice
    }
}

/// One piece of what is said about a run before it starts.
pub enum ModeLine {
    SingleDevice { channel_a: usize, channel_b: usize },
    DualDevice,
    Detection { squelch: Single, hangtime_ms: u64, min_tx_ms: u64, max_tx_ms: u64 },
    Fuzzer { strategy: String },
    RecordingTo { dir: String },
    ReplayingFrom { dir: String },
    Reverse,
    Forward,
    Bidirectional,
    Debug,
    TestTx { tone_freq: Double },
    TestRx,
    SampleLogging,
    Duration { secs: u64 },
}

/// `line`, if `shown`.
pub open spec fn line_if(shown: bool, line: ModeLine) -> Seq<ModeLine> {
    if shown {
        seq![line]
    } else {
        Seq::empty()
    }
}

/// The devices, and how transmissions are detected.
pub open spec fn device_lines(args: Args) -> Seq<ModeLine> {
    seq![
        if one_device(args) {
            ModeLine::SingleDevice {
                channel_a: args.rx_chan1,
                channel_b: match args.rx_chan2 {
                    Some(channel) => channel,
                    None => 1,
                },
            }
        } else {
            ModeLine::DualDevice
        },
        ModeLine::Detection {
            squelch: args.squelch,
            hangtime_ms: args.hangtime_ms,
            min_tx_ms: args.min_tx_ms,
            max_tx_ms: args.max_tx_ms,
        },
    ]
}

/// What happens to transmissions: fuzzing, or else the direction that they are relayed in.
pub open spec fn relay_lines(args: Args) -> Seq<ModeLine> {
    if args.fuzz {
        seq![ModeLine::Fuzzer { strategy: args.fuzz_strategy }] + (match args.record_dir {
            Some(dir) => seq![ModeLine::RecordingTo { dir }],
            None => Seq::empty(),
        }) + (match args.replay_dir {
            Some(dir) => seq![ModeLine::ReplayingFrom { dir }],
            None => Seq::empty(),
        })
    } else if args.unidirectional {
        seq![
            if args.reverse {
                ModeLine::Reverse
            } else {
                ModeLine::Forward
            },
        ]
    } else {
        seq![ModeLine::Bidirectional]
    }
}

/// What debugging does.
pub open spec fn debug_lines(args: Args) -> Seq<ModeLine> {
    if args.debug {
        seq![ModeLine::Debug] + line_if(
            args.test_tx_only,
            ModeLine::TestTx { tone_freq: args.test_tone_freq },
        ) + line_if(!args.test_tx_only && args.test_rx_only, ModeLine::TestRx) + line_if(
            args.log_samples,
            ModeLine::SampleLogging,
        ) + line_if(args.debug_duration > 0, ModeLine::Duration { secs: args.debug_duration })
    } else {
        Seq::empty()
    }
}

fn list_devices(args: &Args) -> (lines: Vec<ModeLine>)
    ensures
        lines@ == device_lines(*args),
{
    let mut lines: Vec<ModeLine> = Vec::new();
    if args.uses_one_device() {
        let channel_b: usize = match args.rx_chan2 {
            Some(channel) => channel,
            None => 1,
        };
        lines.push(ModeLine::SingleDevice { channel_a: args.rx_chan1, channel_b });
    } else {
        lines.push(ModeLine::DualDevice);
    }
    lines.push(
        ModeLine::Detection {
            squelch: args.squelch,
            hangtime_ms: args.hangtime_ms,
            min_tx_ms: args.min_tx_ms,
            max_tx_ms: args.max_tx_ms,
        },
    );
    assert(lines@ =~= device_lines(*args));
    lines
}

fn list_relay(args: &Args, lines: &mut Vec<ModeLine>)
    ensures
        final(lines)@ == old(lines)@ + relay_lines(*args),
{
    if args.fuzz {
        lines.push(ModeLine::Fuzzer { strategy: args.fuzz_strategy.clone() });
        if let Some(dir) = &args.record_dir {
            lines.push(ModeLine::RecordingTo { dir: dir.clone() });
        }
        if let Some(dir) = &args.replay_dir {
            lines.push(ModeLine::ReplayingFrom { dir: dir.clone() });
        }
    } else if args.unidirectional {
        if args.reverse {
            lines.push(ModeLine::Reverse);
        } else {
            lines.push(ModeLine::Forward);
        }
    } else {
        lines.push(ModeLine::Bidirectional);
    }
    assert(lines@ =~= old(lines)@ + relay_lines(*args));
}

fn list_debug(args: &Args, lines: &mut Vec<ModeLine>)
    ensures
        final(lines)@ == old(lines)@ + debug_lines(*args),
{
    if args.debug {
        lines.push(ModeLine::Debug);
        if args.test_tx_only {
            lines.push(ModeLine::TestTx { tone_freq: args.test_tone_freq });
        } else if args.test_rx_only {
            lines.push(ModeLine::TestRx);
        }
        if args.log_samples {
            lines.push(ModeLine::SampleLogging);
        }
        if args.debug_duration > 0 {
            lines.push(ModeLine::Duration { secs: args.debug_duration });
        }
    }
    assert(lines@ =~= old(lines)@ + debug_lines(*args));
}

/// List what is said about a run before it starts.
pub fn mode_info(args: &Args) -> (lines: Vec<ModeLine>)
    ensures
        lines@ == device_lines(*args) + relay_lines(*args) + debug_lines(*args),
{
    let mut lines = list_devices(args);
    list_relay(args, &mut lines);
    list_debug(args, &mut lines);
    lines
}

/// With arguments that pass the check, the capture of an automated test covers the relayed burst:
/// counted in milliseconds from the start of the test burst, listening starts after the burst and
/// the guard time and lasts for the delay and a burst, and the relayed burst starts after the delay
/// and lasts for a burst.
pub proof fn capture_covers_the_burst(args: Args)
    requires
        args.autotest,
        args_error(args) is None,
    ensures
        ({
            let listens_from = args.autotest_tx_ms + args.autotest_switch_guard_ms;
            let listens_until = listens_from + args.autotest_relay_delay_ms + args.autotest_tx_ms;
            let burst_from = args.autotest_relay_delay_ms as int;
            let burst_until = burst_from + args.autotest_tx_ms;
            listens_from <= burst_from && burst_until <= listens_until
        }),
{
}

} // verus!
