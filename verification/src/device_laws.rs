//! What the settings of the devices have to do with the arguments.
use vstd::prelude::*;

use crate::config::Args;
use crate::device::{
    check_channels, check_single_device, choose_device, device_index, setup_half_duplex,
    setup_path_a, setup_path_b, ChannelError, ChannelSetup, DeviceChoice,
};
use crate::text::decimal;
use crate::text_laws::{decimals_are_written, reads_as, unsigned_is_read, writes};

verus! {

/// Path A is tuned to the first frequency, receiving and sending; each direction has the sample rate
/// of the arguments, and the channel and the gain that are named for it.
pub proof fn path_a_is_tuned_to_the_first_frequency(args: Args, r: Vec<ChannelSetup>)
    requires
        call_ensures(setup_path_a, (&args,), r),
    ensures
        r@.len() == 2,
        r@[0].way != r@[1].way,
        forall|i: int|
            0 <= i < r@.len() ==> {
                let setup = #[trigger] r@[i];
                &&& setup.frequency == args.freq1
                &&& setup.sample_rate == args.sample_rate
                &&& setup.way is Rx ==> setup.channel == args.rx_chan1 && setup.gain
                    == args.rx_gain1
                &&& setup.way is Tx ==> setup.channel == args.tx_chan1 && setup.gain
                    == args.tx_gain1
            },
{
}

/// Path B is tuned to the second frequency, receiving and sending; each direction has the sample rate
/// of the arguments, the gain that is named for it, and the channel that is named for it, if one is.
pub proof fn path_b_is_tuned_to_the_second_frequency(args: Args, r: Vec<ChannelSetup>)
    requires
        call_ensures(setup_path_b, (&args,), r),
    ensures
        r@.len() == 2,
        r@[0].way != r@[1].way,
        forall|i: int|
            0 <= i < r@.len() ==> {
                let setup = #[trigger] r@[i];
                &&& setup.frequency == args.freq2
                &&& setup.sample_rate == args.sample_rate
                &&& setup.way is Rx ==> setup.gain == args.rx_gain2 && (args.rx_chan2 matches Some(
                    c,
                ) ==> setup.channel == c)
                &&& setup.way is Tx ==> setup.gain == args.tx_gain2 && (args.tx_chan2 matches Some(
                    c,
                ) ==> setup.channel == c)
            },
{
}

/// A channel of path B that is not named is the second one of the only device, and the first one of
/// a device of its own.
pub proof fn path_b_falls_back_on_a_free_channel(args: Args, r: Vec<ChannelSetup>)
    requires
        call_ensures(setup_path_b, (&args,), r),
    ensures
        forall|i: int|
            0 <= i < r@.len() ==> {
                let setup = #[trigger] r@[i];
                let unnamed = if setup.way is Rx {
                    args.rx_chan2 is None
                } else {
                    args.tx_chan2 is None
                };
                let alone = args.single_device || args.device2@ == Seq::<char>::empty()
                    || args.device2@ == seq!['s', 'a', 'm', 'e'];
                &&& unnamed && alone ==> setup.channel == 1
                &&& unnamed && !alone ==> setup.channel == 0
            },
{
    reveal_strlit("same");
    assert("same"@ =~= seq!['s', 'a', 'm', 'e']);
    assert(args.device2@.len() == 0 ==> args.device2@ =~= Seq::<char>::empty());
}

/// Nothing of path A has to do with what is said of path B, and the other way round: arguments that
/// agree on one path and the sample rate set it up alike.
pub proof fn paths_are_set_up_apart(
    args: Args,
    others: Args,
    a: Vec<ChannelSetup>,
    other_a: Vec<ChannelSetup>,
)
    requires
        call_ensures(setup_path_a, (&args,), a),
        call_ensures(setup_path_a, (&others,), other_a),
        args.sample_rate == others.sample_rate,
        args.freq1 == others.freq1,
        args.rx_gain1 == others.rx_gain1,
        args.tx_gain1 == others.tx_gain1,
        args.rx_chan1 == others.rx_chan1,
        args.tx_chan1 == others.tx_chan1,
    ensures
        a@ == other_a@,
{
    assert(a@ =~= other_a@);
}

/// The third device sends on the frequency of path A, where the relay listens, and listens on that
/// of path B, where the relay sends; it does both on its one channel, each with the gain named for
/// it.
pub proof fn third_device_is_tuned_to_both_frequencies(args: Args, r: Vec<ChannelSetup>)
    requires
        call_ensures(setup_half_duplex, (&args,), r),
    ensures
        r@.len() == 2,
        r@[0].way != r@[1].way,
        forall|i: int|
            0 <= i < r@.len() ==> {
                let setup = #[trigger] r@[i];
                &&& setup.channel == args.autotest_channel
                &&& setup.sample_rate == args.sample_rate
                &&& setup.way is Tx ==> setup.frequency == args.freq1 && setup.gain
                    == args.autotest_tx_gain
                &&& setup.way is Rx ==> setup.frequency == args.freq2 && setup.gain
                    == args.autotest_rx_gain
            },
{
}

/// In every set of settings the receiving one of a path comes first, and of the third device the
/// sending one.
pub proof fn settings_come_in_order(
    args: Args,
    a: Vec<ChannelSetup>,
    b: Vec<ChannelSetup>,
    third: Vec<ChannelSetup>,
)
    requires
        call_ensures(setup_path_a, (&args,), a),
        call_ensures(setup_path_b, (&args,), b),
        call_ensures(setup_half_duplex, (&args,), third),
    ensures
        a@[0].way is Rx && a@[1].way is Tx,
        b@[0].way is Rx && b@[1].way is Tx,
        third@[0].way is Tx && third@[1].way is Rx,
{
}

/// A device is opened by its place only if the filter gave a place that there is, and then at that
/// place; in all other cases by the filter.
pub proof fn a_device_is_opened_where_it_was_found(
    index: Option<usize>,
    found: usize,
    choice: DeviceChoice,
)
    requires
        call_ensures(choose_device, (index, found), choice),
    ensures
        choice matches DeviceChoice::Found(i) ==> index == Some(i) && i < found,
        choice is ByFilter ==> index is None || index->0 >= found,
{
}

/// Channels are in order exactly if the device has both; an error names the direction that is
/// lacking, receiving first, with the channel asked for and how many there are.
pub proof fn channels_are_checked(
    rx: usize,
    tx: usize,
    rx_available: usize,
    tx_available: usize,
    r: Result<(), ChannelError>,
)
    requires
        call_ensures(check_channels, (rx, tx, rx_available, tx_available), r),
    ensures
        r is Ok <==> rx < rx_available && tx < tx_available,
        r matches Err(ChannelError::NoSuchRx { channel, available }) ==> channel == rx && available
            == rx_available && rx >= rx_available,
        r matches Err(ChannelError::NoSuchTx { channel, available }) ==> channel == tx && available
            == tx_available && tx >= tx_available && rx < rx_available,
        !(r matches Err(ChannelError::TooFew { .. })),
{
}

/// A device can be the only one exactly if it has two channels in each direction.
pub proof fn one_device_needs_two_of_each(
    rx_available: usize,
    tx_available: usize,
    r: Result<(), ChannelError>,
)
    requires
        call_ensures(check_single_device, (rx_available, tx_available), r),
    ensures
        r is Ok <==> 2 <= rx_available && 2 <= tx_available,
        r matches Err(e) ==> e == (ChannelError::TooFew { rx_available, tx_available }),
{
}

/// A filter that is a number is read as an index by its digits; any other is none.
pub proof fn a_filter_of_digits_is_an_index(filter: &str, index: Option<usize>)
    requires
        call_ensures(device_index, (filter,), index),
    ensures
        reads_as(
            filter@,
            usize::MAX as int,
            match index {
                Some(i) => Some(i as int),
                None => None,
            },
        ),
{
    unsigned_is_read(filter@, usize::MAX as nat);
}

/// `text` has two numbers in it, with `before`, `between` and `after` round them.
pub open spec fn has_two_numbers(
    text: Seq<char>,
    before: Seq<char>,
    first: int,
    between: Seq<char>,
    second: int,
    after: Seq<char>,
) -> bool {
    exists|a: Seq<char>, b: Seq<char>|
        text == before + a + between + b + after && #[trigger] writes(a, first)
            && #[trigger] writes(b, second)
}

/// A message on channels says which channel is missing and how many of its way there are, or how many
/// of each way there are.
pub proof fn messages_give_the_channels(error: ChannelError, text: String)
    requires
        call_ensures(ChannelError::message, (&error,), text),
    ensures
        error matches ChannelError::NoSuchRx { channel, available } ==> has_two_numbers(
            text@,
            "RX channel "@,
            channel as int,
            " not available (device has "@,
            available as int,
            " RX channels)"@,
        ),
        error matches ChannelError::NoSuchTx { channel, available } ==> has_two_numbers(
            text@,
            "TX channel "@,
            channel as int,
            " not available (device has "@,
            available as int,
            " TX channels)"@,
        ),
        error matches ChannelError::TooFew { rx_available, tx_available } ==> has_two_numbers(
            text@,
            "Single-device mode requires at least 2 RX and 2 TX channels. Device has "@,
            rx_available as int,
            " RX and "@,
            tx_available as int,
            " TX channels."@,
        ),
{
    let (first, second) = match error {
        ChannelError::NoSuchRx { channel, available } => (channel, available),
        ChannelError::NoSuchTx { channel, available } => (channel, available),
        ChannelError::TooFew { rx_available, tx_available } => (rx_available, tx_available),
    };
    decimals_are_written(first as nat);
    decimals_are_written(second as nat);
    assert(writes(decimal(first as nat), first as int));
    assert(writes(decimal(second as nat), second as int));
}

} // verus!
