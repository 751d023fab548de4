//! Which device is opened, and how its channels are set up.
use vstd::prelude::*;
use vstd::string::StringExecFns;

use crate::arith::Double;
use crate::config::{channel_or_default, one_device, Args};
use crate::text::{append_decimal, decimal, parse_unsigned, unsigned};

verus! {

/// The device index that a filter is, if it is one.
pub fn device_index(filter: &str) -> (index: Option<usize>)
    ensures
        match index {
            Some(i) => unsigned(filter@, usize::MAX as nat) == Some(i as nat),
            None => unsigned(filter@, usize::MAX as nat) is None,
        },
{
    match parse_unsigned(filter, usize::MAX as u64) {
        Some(n) => Some(n as usize),
        None => None,
    }
}

/// How a device is opened.
#[derive(Clone, Copy, Debug, PartialEq, Eq)]
pub enum DeviceChoice {
    /// The one that was found at that place.
    Found(usize),
    /// The one that the filter names.
    ByFilter,
}

/// Choose how to open a device: by its index if the filter was one and `found` devices reach that
/// far, else by the filter.
pub fn choose_device(index: Option<usize>, found: usize) -> (choice: DeviceChoice)
    ensures
        choice == (match index {
            Some(i) if i < found => DeviceChoice::Found(i),
            _ => DeviceChoice::ByFilter,
        }),
{
    match index {
        Some(i) => if i < found {
            DeviceChoice::Found(i)
        } else {
            DeviceChoice::ByFilter
        },
        None => DeviceChoice::ByFilter,
    }
}

/// Why channels cannot be used.
#[derive(Clone, Copy, Debug, PartialEq, Eq)]
pub enum ChannelError {
    NoSuchRx { channel: usize, available: usize },
    NoSuchTx { channel: usize, available: usize },
    /// Both paths of the relay need a channel of their own.
    TooFew { rx_available: usize, tx_available: usize },
}

/// Check that a device has the channels it is to use.
pub fn check_channels(
    rx_channel: usize,
    tx_channel: usize,
    rx_available: usize,
    tx_available: usize,
) -> (r: Result<(), ChannelError>)
    ensures
        match r {
            Ok(_) => rx_channel < rx_available && tx_channel < tx_available,
            Err(error) => if rx_channel >= rx_available {
                error == (ChannelError::NoSuchRx { channel: rx_channel, available: rx_available })
            } else {
                tx_channel >= tx_available && error == (ChannelError::NoSuchTx {
                    channel: tx_channel,
                    available: tx_available,
                })
            },
        },
{
    if rx_channel >= rx_available {
        return Err(ChannelError::NoSuchRx { channel: rx_channel, available: rx_available });
    }
    if tx_channel >= tx_available {
        return Err(ChannelError::NoSuchTx { channel: tx_channel, available: tx_available });
    }
    Ok(())
}

/// Check that a device has enough channels to be the only one.
pub fn check_single_device(rx_available: usize, tx_available: usize) -> (r: Result<(), ChannelError>)
    ensures
        match r {
            Ok(_) => rx_available >= 2 && tx_available >= 2,
            Err(error) => (rx_available < 2 || tx_available < 2) && error == (
            ChannelError::TooFew { rx_available, tx_available }),
        },
{
    if rx_available < 2 || tx_available < 2 {
        Err(ChannelError::TooFew { rx_available, tx_available })
    } else {
        Ok(())
    }
}

/// What is said of channels that cannot be used.
pub open spec fn channel_message(error: ChannelError) -> Seq<char> {
    match error {
        ChannelError::NoSuchRx { channel, available } => "RX channel "@ + decimal(channel as nat)
            + " not available (device has "@ + decimal(available as nat) + " RX channels)"@,
        ChannelError::NoSuchTx { channel, available } => "TX channel "@ + decimal(channel as nat)
            + " not available (device has "@ + decimal(available as nat) + " TX channels)"@,
        ChannelError::TooFew { rx_available, tx_available } =>
            "Single-device mode requires at least 2 RX and 2 TX channels. Device has "@ + decimal(
            rx_available as nat,
        ) + " RX and "@ + decimal(tx_available as nat) + " TX channels."@,
    }
}

impl ChannelError {
    /// Say what is wrong.
    pub fn message(&self) -> (text: String)
        ensures
            text@ == channel_message(*self),
    {
        match self {
            ChannelError::NoSuchRx { channel, available } => {
                let mut text = "RX channel ".to_owned();
                append_decimal(&mut text, *channel as u128);
                text.append(" not available (device has ");
                append_decimal(&mut text, *available as u128);
                text.append(" RX channels)");
                text
            },
            ChannelError::NoSuchTx { channel, available } => {
                let mut text = "TX channel ".to_owned();
                append_decimal(&mut text, *channel as u128);
                text.append(" not available (device has ");
                append_decimal(&mut text, *available as u128);
                text.append(" TX channels)");
                text
            },
            ChannelError::TooFew { rx_available, tx_available } => {
                let mut text =
                    "Single-device mode requires at least 2 RX and 2 TX channels. Device has ".to_owned();
                append_decimal(&mut text, *rx_available as u128);
                text.append(" RX and ");
                append_decimal(&mut text, *tx_available as u128);
                text.append(" TX channels.");
                text
            },
        }
    }
}

/// Which way samples go.
#[derive(Clone, Copy, Debug, PartialEq, Eq, Structural)]
pub enum Way {
    Rx,
    Tx,
}

/// The settings of one channel in one direction.
#[derive(Clone, Copy, Debug, PartialEq)]
pub struct ChannelSetup {
    pub way: Way,
    pub channel: usize,
    pub sample_rate: Double,
    pub frequency: Double,
    pub gain: Double,
}

/// The settings of path A: device 1, or channel A of the only one. What comes first is set first.
pub open spec fn path_a(args: Args) -> Seq<ChannelSetup> {
    seq![
        ChannelSetup {
            way: Way::Rx,
            channel: args.rx_chan1,
            sample_rate: args.sample_rate,
            frequency: args.freq1,
            gain: args.rx_gain1,
        },
        ChannelSetup {
            way: Way::Tx,
            channel: args.tx_chan1,
            sample_rate: args.sample_rate,
            frequency: args.freq1,
            gain: args.tx_gain1,
        },
    ]
}

/// The settings of path B: device 2, or channel B of the only one.
pub open spec fn path_b(args: Args) -> Seq<ChannelSetup> {
    seq![
        ChannelSetup {
            way: Way::Rx,
            channel: channel_or_default(args.rx_chan2, one_device(args)),
            sample_rate: args.sample_rate,
            frequency: args.freq2,
            gain: args.rx_gain2,
        },
        ChannelSetup {
            way: Way::Tx,
            channel: channel_or_default(args.tx_chan2, one_device(args)),
            sample_rate: args.sample_rate,
            frequency: args.freq2,
            gain: args.tx_gain2,
        },
    ]
}

/// The settings of the third device, one channel of which sends and receives in turn: it sends on
/// the frequency of path A and listens on that of path B.
pub open spec fn half_duplex(args: Args) -> Seq<ChannelSetup> {
    seq![
        ChannelSetup {
            way: Way::Tx,
            channel: args.autotest_channel,
            sample_rate: args.sample_rate,
            frequency: args.freq1,
            gain: args.autotest_tx_gain,
        },
        ChannelSetup {
            way: Way::Rx,
            channel: args.autotest_channel,
            sample_rate: args.sample_rate,
            frequency: args.freq2,
            gain: args.autotest_rx_gain,
        },
    ]
}

/// List the settings of path A.
pub fn setup_path_a(args: &Args) -> (r: Vec<ChannelSetup>)
    ensures
        r@ == path_a(*args),
{
    let mut setups: Vec<ChannelSetup> = Vec::new();
    setups.push(
        ChannelSetup {
            way: Way::Rx,
            channel: args.rx_chan1,
            sample_rate: args.sample_rate,
            frequency: args.freq1,
            gain: args.rx_gain1,
        },
    );
    setups.push(
        ChannelSetup {
            way: Way::Tx,
            channel: args.tx_chan1,
            sample_rate: args.sample_rate,
            frequency: args.freq1,
            gain: args.tx_gain1,
        },
    );
    assert(setups@ =~= path_a(*args));
    setups
}

/// List the settings of path B.
pub fn setup_path_b(args: &Args) -> (r: Vec<ChannelSetup>)
    ensures
        r@ == path_b(*args),
{
    let mut setups: Vec<ChannelSetup> = Vec::new();
    setups.push(
        ChannelSetup {
            way: Way::Rx,
            channel: args.rx_chan2(),
            sample_rate: args.sample_rate,
            frequency: args.freq2,
            gain: args.rx_gain2,
        },
    );
    setups.push(
        ChannelSetup {
            way: Way::Tx,
            channel: args.tx_chan2(),
            sample_rate: args.sample_rate,
            frequency: args.freq2,
            gain: args.tx_gain2,
        },
    );
    assert(setups@ =~= path_b(*args));
    setups
}

/// List the settings of the third device.
pub fn setup_half_duplex(args: &Args) -> (r: Vec<ChannelSetup>)
    ensures
        r@ == half_duplex(*args),
{
    let mut setups: Vec<ChannelSetup> = Vec::new();
    setups.push(
        ChannelSetup {
            way: Way::Tx,
            channel: args.autotest_channel,
            sample_rate: args.sample_rate,
            frequency: args.freq1,
            gain: args.autotest_tx_gain,
        },
    );
    setups.push(
        ChannelSetup {
            way: Way::Rx,
            channel: args.autotest_channel,
            sample_rate: args.sample_rate,
            frequency: args.freq2,
            gain: args.autotest_rx_gain,
        },
    );
    assert(setups@ =~= half_duplex(*args));
    setups
}

/// The third device sends where path A listens and listens where path B sends, at one sample rate.
pub proof fn third_device_meets_the_relay(args: Args)
    ensures
        ({
            let sends = half_duplex(args)[0];
            let hears = half_duplex(args)[1];
            let relay_hears = path_a(args)[0];
            let relay_sends = path_b(args)[1];
            &&& sends.way is Tx && relay_hears.way is Rx
            &&& sends.frequency == relay_hears.frequency
            &&& sends.sample_rate == relay_hears.sample_rate
            &&& hears.way is Rx && relay_sends.way is Tx
            &&& hears.frequency == relay_sends.frequency
            &&& hears.sample_rate == relay_sends.sample_rate
        }),
{
}

/// On a single device, unless channels are given, the two paths use channels of their own.
pub proof fn paths_are_apart(args: Args)
    requires
        one_device(args),
        args.rx_chan1 == 0,
        args.tx_chan1 == 0,
        args.rx_chan2 is None,
        args.tx_chan2 is None,
    ensures
        path_a(args)[0].channel != path_b(args)[0].channel,
        path_a(args)[1].channel != path_b(args)[1].channel,
{
}

} // verus!
