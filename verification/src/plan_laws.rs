//! Which way a run relays, and what its threads do.
use vstd::prelude::*;

use crate::config::Args;
use crate::plan::{
    other_channel, outgoing_link, plan_analysis, plan_autotest, plan_fuzz, plan_normal, plan_relay,
    plan_run, Direction, Link, RecordTo, RelayKind, Role,
};
use crate::stats::Channel;

verus! {

/// The channel that a thread receives on, if it receives from the radios of the relay.
pub open spec fn listens_on(role: Role) -> Option<Channel> {
    match role {
        Role::Receive { side, .. } => Some(side),
        Role::ReceiveOnly { side } => Some(side),
        Role::Analyze { side } => Some(side),
        Role::Fuzz { side, .. } => Some(side),
        _ => None,
    }
}

/// The channel that a thread sends on, if it sends to the radios of the relay.
pub open spec fn sends_on(role: Role) -> Option<Channel> {
    match role {
        Role::Send { side, .. } => Some(side),
        Role::TestTone { side } => Some(side),
        Role::SendFrames { side, .. } => Some(side),
        _ => None,
    }
}

/// The queue that a thread has to do with, if any.
pub open spec fn works_on(role: Role) -> Option<Link> {
    match role {
        Role::Receive { link, .. } => Some(link),
        Role::Send { link, .. } => Some(link),
        Role::Fuzz { link, .. } => Some(link),
        Role::SendFrames { link, .. } => Some(link),
        Role::Poll { link, .. } => Some(link),
        Role::Replay { link } => Some(link),
        _ => None,
    }
}

/// Some thread receives on `side`.
pub open spec fn heard(roles: Seq<Role>, side: Channel) -> bool {
    exists|i: int| 0 <= i < roles.len() && #[trigger] listens_on(roles[i]) == Some(side)
}

/// Some thread sends on `side`.
pub open spec fn served(roles: Seq<Role>, side: Channel) -> bool {
    exists|i: int| 0 <= i < roles.len() && #[trigger] sends_on(roles[i]) == Some(side)
}

/// The threads relay from `from` to the other channel and do nothing else: the one is received and
/// the other sent on, not the other way round, and all go by the queue between them.
pub open spec fn relays_only(roles: Seq<Role>, from: Channel) -> bool {
    &&& heard(roles, Channel::A) == (from is A)
    &&& heard(roles, Channel::B) == (from is B)
    &&& served(roles, Channel::A) == (from is B)
    &&& served(roles, Channel::B) == (from is A)
    &&& forall|i: int|
        0 <= i < roles.len() ==> (#[trigger] works_on(roles[i]) == Some(
            if from is A {
                Link::AToB
            } else {
                Link::BToA
            },
        ))
}

/// What is received on a channel goes into the queue that leads away from it, and what is sent on a
/// channel comes out of the queue that leads to it.
pub open spec fn queues_lead_across(roles: Seq<Role>) -> bool {
    forall|i: int| 0 <= i < roles.len() ==> leads_across(#[trigger] roles[i])
}

pub open spec fn leads_across(role: Role) -> bool {
    &&& works_on(role) is Some && listens_on(role) is Some ==> (listens_on(role) == Some(
        Channel::A,
    ) <==> works_on(role) == Some(Link::AToB))
    &&& works_on(role) is Some && sends_on(role) is Some ==> (sends_on(role) == Some(Channel::B)
        <==> works_on(role) == Some(Link::AToB))
}

/// A run in one direction that does not replay receives on channel A and sends on channel B, or the
/// other way round where that is asked for, with the fuzzer and without it, and uses no other radio.
pub proof fn one_way_goes_the_way_asked_for(args: Args, roles: Vec<Role>)
    requires
        call_ensures(plan_run, (&args,), roles),
        args.unidirectional,
        args.fuzz ==> args.replay_dir is None,
        !args.fuzz ==> !args.debug || !args.test_tx_only && !args.test_rx_only,
    ensures
        relays_only(
            roles@,
            if args.reverse {
                Channel::B
            } else {
                Channel::A
            },
        ),
        queues_lead_across(roles@),
{
    let r = roles@;
    assert(listens_on(r[0]) is Some);
    assert(sends_on(r[1]) is Some);
}

/// The same of a run that is known to use the fuzzer.
pub proof fn fuzzing_one_way_goes_the_way_asked_for(args: Args, roles: Vec<Role>)
    requires
        call_ensures(plan_fuzz, (&args,), roles),
        args.unidirectional,
        args.replay_dir is None,
    ensures
        relays_only(
            roles@,
            if args.reverse {
                Channel::B
            } else {
                Channel::A
            },
        ),
        queues_lead_across(roles@),
{
    let r = roles@;
    assert(listens_on(r[0]) is Some);
    assert(sends_on(r[1]) is Some);
}

/// And of one that is known not to.
pub proof fn relaying_one_way_goes_the_way_asked_for(args: Args, roles: Vec<Role>)
    requires
        call_ensures(plan_normal, (&args,), roles),
        args.unidirectional,
        !args.debug || !args.test_tx_only && !args.test_rx_only,
    ensures
        relays_only(
            roles@,
            if args.reverse {
                Channel::B
            } else {
                Channel::A
            },
        ),
        queues_lead_across(roles@),
{
    let r = roles@;
    assert(listens_on(r[0]) is Some);
    assert(sends_on(r[1]) is Some);
}

/// A run in both directions that does not replay receives and sends on both channels.
pub proof fn both_ways_use_both_channels(args: Args, roles: Vec<Role>)
    requires
        call_ensures(plan_run, (&args,), roles),
        !args.unidirectional,
        args.fuzz ==> args.replay_dir is None,
        !args.fuzz ==> !args.debug || !args.test_tx_only && !args.test_rx_only,
    ensures
        heard(roles@, Channel::A) && heard(roles@, Channel::B),
        served(roles@, Channel::A) && served(roles@, Channel::B),
        queues_lead_across(roles@),
{
    let r = roles@;
    assert(listens_on(r[0]) == Some(Channel::A));
    assert(listens_on(r[2]) == Some(Channel::B));
    assert(sends_on(r[1]) == Some(Channel::B));
    assert(sends_on(r[3]) == Some(Channel::A));
}

/// A run that replays recordings receives nothing: they go out on channel B, through the fuzzer, and
/// what that holds back is polled for.
pub proof fn a_replay_receives_nothing(args: Args, roles: Vec<Role>)
    requires
        call_ensures(plan_fuzz, (&args,), roles),
        args.replay_dir is Some,
    ensures
        !heard(roles@, Channel::A) && !heard(roles@, Channel::B),
        served(roles@, Channel::B) && !served(roles@, Channel::A),
        exists|i: int| 0 <= i < roles@.len() && #[trigger] roles@[i] is Replay,
        forall|i: int|
            0 <= i < roles@.len() ==> #[trigger] works_on(roles@[i]) == Some(Link::AToB),
        forall|i: int|
            0 <= i < roles@.len() && #[trigger] roles@[i] is Poll ==> roles@[i]->replaying,
{
    assert(roles@[0] is Replay);
    assert(sends_on(roles@[1]) == Some(Channel::B));
}

/// Only a run that replays has threads that replay, and says so to those that poll.
pub proof fn only_a_replay_replays(args: Args, roles: Vec<Role>)
    requires
        call_ensures(plan_run, (&args,), roles),
        args.replay_dir is None || !args.fuzz,
    ensures
        forall|i: int| 0 <= i < roles@.len() ==> !(#[trigger] roles@[i] is Replay),
        forall|i: int|
            0 <= i < roles@.len() && #[trigger] roles@[i] is Poll ==> !roles@[i]->replaying,
{
}

/// With the fuzzer, what is received goes through it, complete transmissions are sent, and each queue
/// is polled; without it buffers are relayed and searched for transmissions.
pub proof fn the_fuzzer_runs_if_asked_for(args: Args, roles: Vec<Role>)
    requires
        call_ensures(plan_run, (&args,), roles),
    ensures
        args.fuzz ==> forall|i: int|
            0 <= i < roles@.len() ==> {
                let role = #[trigger] roles@[i];
                role is Fuzz || role is SendFrames || role is Poll || role is Replay
            },
        !args.fuzz ==> forall|i: int|
            0 <= i < roles@.len() ==> {
                let role = #[trigger] roles@[i];
                role is Receive || role is ReceiveOnly || role is Send || role is TestTone
            },
        forall|i: int|
            0 <= i < roles@.len() ==> {
                &&& (#[trigger] roles@[i]) is Receive ==> roles@[i]->Receive_kind is Detect
                &&& roles@[i] is Send ==> roles@[i]->Send_kind is Detect
            },
{
}

/// Without the fuzzer, a test of sending only sends, on both channels, and a test of receiving only
/// receives, on both; where both are asked for, that of sending is run.
pub proof fn tests_use_one_direction(args: Args, roles: Vec<Role>)
    requires
        call_ensures(plan_normal, (&args,), roles),
        args.debug,
    ensures
        args.test_tx_only ==> {
            &&& served(roles@, Channel::A) && served(roles@, Channel::B)
            &&& forall|i: int| 0 <= i < roles@.len() ==> #[trigger] roles@[i] is TestTone
        },
        args.test_rx_only && !args.test_tx_only ==> {
            &&& heard(roles@, Channel::A) && heard(roles@, Channel::B)
            &&& forall|i: int| 0 <= i < roles@.len() ==> #[trigger] roles@[i] is ReceiveOnly
        },
        roles@.len() >= 2,
{
    if args.test_tx_only {
        assert(sends_on(roles@[0]) == Some(Channel::A));
        assert(sends_on(roles@[1]) == Some(Channel::B));
    } else if args.test_rx_only {
        assert(listens_on(roles@[0]) == Some(Channel::A));
        assert(listens_on(roles@[1]) == Some(Channel::B));
    }
}

/// What the fuzzer receives is recorded if and only if a directory is given for it: in that directory
/// itself where the relay goes one way, and in a subdirectory for the channel it came from where it
/// goes both ways.
pub proof fn recordings_go_where_asked_for(args: Args, roles: Vec<Role>)
    requires
        call_ensures(plan_fuzz, (&args,), roles),
    ensures
        forall|i: int|
            0 <= i < roles@.len() && #[trigger] roles@[i] is Fuzz ==> {
                let record = roles@[i]->record;
                &&& args.record_dir is None ==> record is Nowhere
                &&& args.record_dir is Some && args.unidirectional ==> record is Directory
                &&& args.record_dir is Some && !args.unidirectional ==> record
                    == RecordTo::Subdirectory(roles@[i]->Fuzz_side)
            },
{
}

/// Relaying raw buffers goes the way asked for, in the manner asked for, whatever that is.
pub proof fn a_plain_relay_goes_the_way_asked_for(
    kind: RelayKind,
    direction: Direction,
    roles: Vec<Role>,
)
    requires
        call_ensures(plan_relay, (kind, direction), roles),
    ensures
        queues_lead_across(roles@),
        direction matches Direction::From(side) ==> relays_only(roles@, side) && roles@.len() == 2,
        direction is Both ==> heard(roles@, Channel::A) && heard(roles@, Channel::B) && served(
            roles@,
            Channel::A,
        ) && served(roles@, Channel::B) && roles@.len() == 4,
        forall|i: int|
            0 <= i < roles@.len() ==> {
                let role = #[trigger] roles@[i];
                &&& role is Receive || role is Send
                &&& role is Receive ==> role->Receive_kind == kind
                &&& role is Send ==> role->Send_kind == kind
            },
{
    let r = roles@;
    assert(listens_on(r[0]) is Some && sends_on(r[1]) is Some);
    if direction is Both {
        assert(listens_on(r[2]) is Some && sends_on(r[3]) is Some);
    }
}

/// An analysis receives on both channels and sends nothing.
pub proof fn an_analysis_only_listens(roles: Vec<Role>)
    requires
        call_ensures(plan_analysis, (), roles),
    ensures
        heard(roles@, Channel::A) && heard(roles@, Channel::B),
        roles@.len() == 2,
        forall|i: int| 0 <= i < roles@.len() ==> #[trigger] roles@[i] is Analyze,
{
    assert(listens_on(roles@[0]) == Some(Channel::A));
    assert(listens_on(roles@[1]) == Some(Channel::B));
}

/// An automated test relays from channel A to channel B through a fuzzer that is polled, records
/// nothing, and has one thread for the third device, which comes last.
pub proof fn an_automated_test_relays_forward(roles: Vec<Role>)
    requires
        call_ensures(plan_autotest, (), roles),
    ensures
        heard(roles@, Channel::A) && !heard(roles@, Channel::B),
        served(roles@, Channel::B) && !served(roles@, Channel::A),
        queues_lead_across(roles@),
        roles@.len() == 4,
        roles@.last() is ThirdDevice,
        forall|i: int|
            0 <= i < roles@.len() && #[trigger] roles@[i] is Fuzz ==> roles@[i]->record is Nowhere,
        exists|i: int|
            0 <= i < roles@.len() && #[trigger] roles@[i] == (Role::Poll {
                link: Link::AToB,
                replaying: false,
            }),
        forall|i: int|
            0 <= i < roles@.len() - 1 ==> {
                let role = #[trigger] roles@[i];
                role is Fuzz || role is SendFrames || role is Poll
            },
{
    assert(listens_on(roles@[0]) == Some(Channel::A));
    assert(sends_on(roles@[1]) == Some(Channel::B));
    assert(roles@[2] == (Role::Poll { link: Link::AToB, replaying: false }));
}

/// With the fuzzer, each queue that transmissions go into has a thread that polls it.
pub proof fn every_fuzzed_queue_is_polled(args: Args, roles: Vec<Role>, link: Link)
    requires
        call_ensures(plan_fuzz, (&args,), roles),
        exists|i: int|
            0 <= i < roles@.len() && (#[trigger] roles@[i] is Fuzz || roles@[i] is Replay)
                && works_on(roles@[i]) == Some(link),
    ensures
        exists|i: int|
            0 <= i < roles@.len() && #[trigger] roles@[i] is Poll && works_on(roles@[i]) == Some(
                link,
            ),
{
    let r = roles@;
    if r.len() == 3 {
        assert(r[2] is Poll);
    } else {
        assert(r[4] is Poll && r[5] is Poll);
    }
}

/// The name of a thread that uses a radio says which channel it is on, which way, and whether
/// transmissions go through the fuzzer.
pub proof fn names_say_channel_and_direction(role: Role, name: &'static str)
    requires
        call_ensures(Role::name, (&role,), name),
        listens_on(role) is Some || sends_on(role) is Some,
    ensures
        ({
            let side = if listens_on(role) is Some {
                listens_on(role)->0
            } else {
                sends_on(role)->0
            };
            let start = seq![
                'C',
                'h',
                if side is A {
                    'A'
                } else {
                    'B'
                },
                '-',
                if listens_on(role) is Some {
                    'R'
                } else {
                    'T'
                },
                'X',
            ];
            name@ == if role is Fuzz || role is SendFrames {
                start + seq!['-', 'F', 'u', 'z', 'z']
            } else {
                start
            }
        }),
{
    reveal_strlit("ChA-RX");
    reveal_strlit("ChB-RX");
    reveal_strlit("ChA-TX");
    reveal_strlit("ChB-TX");
    reveal_strlit("ChA-RX-Fuzz");
    reveal_strlit("ChB-RX-Fuzz");
    reveal_strlit("ChA-TX-Fuzz");
    reveal_strlit("ChB-TX-Fuzz");
    let side = if listens_on(role) is Some {
        listens_on(role)->0
    } else {
        sends_on(role)->0
    };
    let start = seq![
        'C',
        'h',
        if side is A {
            'A'
        } else {
            'B'
        },
        '-',
        if listens_on(role) is Some {
            'R'
        } else {
            'T'
        },
        'X',
    ];
    assert(name@ =~= if role is Fuzz || role is SendFrames {
        start + seq!['-', 'F', 'u', 'z', 'z']
    } else {
        start
    });
}

/// The name of a thread that polls says which way its queue leads, unless it polls for a replay.
pub proof fn names_of_polling_threads(link: Link, replaying: bool, name: &'static str)
    requires
        call_ensures(Role::name, (&Role::Poll { link, replaying },), name),
    ensures
        replaying ==> name@ == seq!['D', 'e', 'l', 'a', 'y', '-', 'R', 'e', 'p', 'l', 'a', 'y'],
        !replaying && link is AToB ==> name@ == seq!['D', 'e', 'l', 'a', 'y', '-', 'A', '2', 'B'],
        !replaying && link is BToA ==> name@ == seq!['D', 'e', 'l', 'a', 'y', '-', 'B', '2', 'A'],
{
    reveal_strlit("Delay-Replay");
    reveal_strlit("Delay-A2B");
    reveal_strlit("Delay-B2A");
    assert(replaying ==> name@ =~= seq![
        'D',
        'e',
        'l',
        'a',
        'y',
        '-',
        'R',
        'e',
        'p',
        'l',
        'a',
        'y',
    ]);
    assert(!replaying && link is AToB ==> name@ =~= seq![
        'D',
        'e',
        'l',
        'a',
        'y',
        '-',
        'A',
        '2',
        'B',
    ]);
    assert(!replaying && link is BToA ==> name@ =~= seq![
        'D',
        'e',
        'l',
        'a',
        'y',
        '-',
        'B',
        '2',
        'A',
    ]);
}

/// Transmissions count for the channel that a thread of a plain relay receives on, where it looks for
/// them, when they end and when the thread does.
pub proof fn relayed_transmissions_count_where_received(
    role: Role,
    counted: Option<Channel>,
    at_end: Option<Channel>,
)
    requires
        call_ensures(Role::counts_for, (&role,), counted),
        call_ensures(Role::counts_at_end, (&role,), at_end),
    ensures
        role is ReceiveOnly || role is Receive && role->Receive_kind is Detect ==> counted
            == listens_on(role) && at_end == listens_on(role),
        role is Receive && !(role->Receive_kind is Detect) ==> counted is None && at_end is None,
        role is Fuzz ==> at_end is None && counted == (if role->record is Nowhere {
            Some(Channel::A)
        } else {
            None
        }),
        listens_on(role) is None || role is Analyze ==> counted is None && at_end is None,
        counted is Some && at_end is Some ==> counted == at_end,
{
}

/// Each channel is the other of the other, and the queue that goes out from one leads away from it.
pub proof fn channels_are_across_from_one_another(side: Channel, across: Channel, link: Link)
    requires
        call_ensures(other_channel, (side,), across),
        call_ensures(outgoing_link, (side,), link),
    ensures
        across != side,
        link is AToB <==> side is A,
{
}

/// Recordings of a channel that has a directory of its own go to the one named after it.
pub proof fn recordings_of_a_channel_go_to_its_directory(to: RecordTo, name: Option<&'static str>)
    requires
        call_ensures(RecordTo::subdirectory, (&to,), name),
    ensures
        name is Some <==> to is Subdirectory,
        to == RecordTo::Subdirectory(Channel::A) ==> name->0@ == seq![
            'c',
            'h',
            'a',
            'n',
            'n',
            'e',
            'l',
            '_',
            'a',
        ],
        to == RecordTo::Subdirectory(Channel::B) ==> name->0@ == seq![
            'c',
            'h',
            'a',
            'n',
            'n',
            'e',
            'l',
            '_',
            'b',
        ],
{
    reveal_strlit("channel_a");
    reveal_strlit("channel_b");
    assert("channel_a"@ =~= seq!['c', 'h', 'a', 'n', 'n', 'e', 'l', '_', 'a']);
    assert("channel_b"@ =~= seq!['c', 'h', 'a', 'n', 'n', 'e', 'l', '_', 'b']);
}

/// A run is planned with the fuzzer if that is asked for, whatever else is, and without it else.
pub proof fn a_run_is_planned_with_or_without_the_fuzzer(
    args: Args,
    roles: Vec<Role>,
    with: Vec<Role>,
    without: Vec<Role>,
)
    requires
        call_ensures(plan_run, (&args,), roles),
        call_ensures(plan_fuzz, (&args,), with),
        call_ensures(plan_normal, (&args,), without),
    ensures
        args.fuzz ==> roles@ == with@,
        !args.fuzz ==> roles@ == without@,
{
}

/// A run has as many threads as there is work: with the fuzzer three for each way, without it two, and
/// two for a test of one direction. No queue is polled by two, and no recording replayed by two.
pub proof fn a_run_has_no_thread_too_many(args: Args, with: Vec<Role>, without: Vec<Role>)
    requires
        call_ensures(plan_fuzz, (&args,), with),
        call_ensures(plan_normal, (&args,), without),
    ensures
        args.replay_dir is Some || args.unidirectional ==> with@.len() == 3,
        args.replay_dir is None && !args.unidirectional ==> with@.len() == 6,
        args.unidirectional || args.debug && (args.test_tx_only || args.test_rx_only)
            ==> without@.len() == 2,
        !args.unidirectional && !(args.debug && (args.test_tx_only || args.test_rx_only))
            ==> without@.len() == 4,
        forall|i: int, j: int|
            0 <= i < j < with@.len() && with@[i] is Poll && with@[j] is Poll ==> works_on(
                #[trigger] with@[i],
            ) != works_on(#[trigger] with@[j]),
        forall|i: int, j: int|
            0 <= i < j < with@.len() ==> !((#[trigger] with@[i]) is Replay && (
            #[trigger] with@[j]) is Replay),
{
}

/// The threads that replay and that run the third device are named after that.
pub proof fn names_of_the_other_threads(role: Role, name: &'static str)
    requires
        call_ensures(Role::name, (&role,), name),
    ensures
        role is Replay ==> name@ == seq!['R', 'e', 'p', 'l', 'a', 'y'],
        role is ThirdDevice ==> name@ == seq![
            'D',
            'e',
            'v',
            '3',
            '-',
            'A',
            'u',
            't',
            'o',
            't',
            'e',
            's',
            't',
        ],
{
    reveal_strlit("Replay");
    reveal_strlit("Dev3-Autotest");
    assert(role is Replay ==> name@ =~= seq!['R', 'e', 'p', 'l', 'a', 'y']);
    assert(role is ThirdDevice ==> name@ =~= seq![
        'D',
        'e',
        'v',
        '3',
        '-',
        'A',
        'u',
        't',
        'o',
        't',
        'e',
        's',
        't',
    ]);
}

} // verus!
