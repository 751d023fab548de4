//! Which threads a run has, and what connects them.
use vstd::prelude::*;

use crate::config::Args;
use crate::stats::Channel;

verus! {

/// A queue from the receiving side of one channel to the sending side of the other. Each has a
/// fuzzer of its own.
#[derive(Clone, Copy, Debug, PartialEq, Eq, Structural)]
pub enum Link {
    AToB,
    BToA,
}

/// Where received transmissions are recorded.
#[derive(Clone, Copy, Debug, PartialEq, Eq, Structural)]
pub enum RecordTo {
    Nowhere,
    /// The recording directory itself.
    Directory,
    /// Its subdirectory for one of the channels.
    Subdirectory(Channel),
}

/// How raw buffers are relayed.
#[derive(Clone, Copy, Debug, PartialEq, Eq, Structural)]
pub enum RelayKind {
    /// Nothing but relaying.
    Plain,
    /// With statistics.
    Debug,
    /// With statistics and detection of transmissions.
    Detect,
}

/// Which way the relay goes.
#[derive(Clone, Copy, Debug, PartialEq, Eq, Structural)]
pub enum Direction {
    /// From one channel to the other.
    From(Channel),
    /// Both ways.
    Both,
}

/// What a thread does.
#[derive(Clone, Copy, Debug, PartialEq, Eq, Structural)]
pub enum Role {
    /// Receives buffers and passes them on.
    Receive { side: Channel, kind: RelayKind, link: Link },
    /// Receives buffers and looks for transmissions, without passing anything on.
    ReceiveOnly { side: Channel },
    /// Receives and analyses buffers.
    Analyze { side: Channel },
    /// Sends the buffers that were passed on.
    Send { side: Channel, kind: RelayKind, link: Link },
    /// Sends a test tone.
    TestTone { side: Channel },
    /// Receives transmissions and puts them through the fuzzer.
    Fuzz { side: Channel, link: Link, record: RecordTo },
    /// Sends transmissions.
    SendFrames { side: Channel, link: Link },
    /// Passes on the delayed transmissions that are due.
    Poll { link: Link, replaying: bool },
    /// Puts recorded transmissions through the fuzzer.
    Replay { link: Link },
    /// Sends test bursts and captures what comes back.
    ThirdDevice,
}

/// What only one thread can use.
#[derive(Clone, Copy, Debug, PartialEq, Eq, Structural)]
pub enum Stream {
    Rx(Channel),
    Tx(Channel),
    Third,
}

/// The other channel.
pub open spec fn other(side: Channel) -> Channel {
    match side {
        Channel::A => Channel::B,
        Channel::B => Channel::A,
    }
}

/// The queue that goes out from a channel.
pub open spec fn link_from(side: Channel) -> Link {
    match side {
        Channel::A => Link::AToB,
        Channel::B => Link::BToA,
    }
}

/// The stream that a role uses, if any.
pub open spec fn stream_of(role: Role) -> Option<Stream> {
    match role {
        Role::Receive { side, .. } => Some(Stream::Rx(side)),
        Role::ReceiveOnly { side } => Some(Stream::Rx(side)),
        Role::Analyze { side } => Some(Stream::Rx(side)),
        Role::Fuzz { side, .. } => Some(Stream::Rx(side)),
        Role::Send { side, .. } => Some(Stream::Tx(side)),
        Role::TestTone { side } => Some(Stream::Tx(side)),
        Role::SendFrames { side, .. } => Some(Stream::Tx(side)),
        Role::ThirdDevice => Some(Stream::Third),
        Role::Poll { .. } | Role::Replay { .. } => None,
    }
}

/// Whether a role puts something into a queue.
pub open spec fn feeds(role: Role, l: Link) -> bool {
    match role {
        Role::Receive { link, .. } => link == l,
        Role::Fuzz { link, .. } => link == l,
        Role::Poll { link, .. } => link == l,
        Role::Replay { link } => link == l,
        _ => false,
    }
}

/// Whether a role takes everything out of a queue.
pub open spec fn drains(role: Role, l: Link) -> bool {
    match role {
        Role::Send { link, .. } => link == l,
        Role::SendFrames { link, .. } => link == l,
        _ => false,
    }
}

/// Whether a role hands transmissions to the fuzzer of a queue, which may hold them back.
pub open spec fn may_hold_back(role: Role, l: Link) -> bool {
    match role {
        Role::Fuzz { link, .. } => link == l,
        Role::Replay { link } => link == l,
        _ => false,
    }
}

/// Whether a role releases what the fuzzer of a queue holds back.
pub open spec fn releases(role: Role, l: Link) -> bool {
    match role {
        Role::Poll { link, .. } => link == l,
        _ => false,
    }
}

/// What holds of every set of threads: no two use one stream; what is put into a queue is taken out
/// and the other way round; and what is held back is released.
pub open spec fn sound(roles: Seq<Role>) -> bool {
    &&& forall|i: int, j: int|
        0 <= i < j < roles.len() && stream_of(roles[i]) is Some ==> stream_of(#[trigger] roles[i])
            != stream_of(#[trigger] roles[j])
    &&& forall|i: int, l: Link|
        0 <= i < roles.len() && #[trigger] feeds(roles[i], l) ==> exists|j: int|
            0 <= j < roles.len() && #[trigger] drains(roles[j], l)
    &&& forall|i: int, l: Link|
        0 <= i < roles.len() && #[trigger] drains(roles[i], l) ==> exists|j: int|
            0 <= j < roles.len() && #[trigger] feeds(roles[j], l)
    &&& forall|i: int, l: Link|
        0 <= i < roles.len() && #[trigger] may_hold_back(roles[i], l) ==> exists|j: int|
            0 <= j < roles.len() && #[trigger] releases(roles[j], l)
}

/// The threads that relay raw buffers one way.
pub open spec fn one_way(kind: RelayKind, from: Channel) -> Seq<Role> {
    seq![
        Role::Receive { side: from, kind, link: link_from(from) },
        Role::Send { side: other(from), kind, link: link_from(from) },
    ]
}

/// The threads that relay raw buffers.
pub open spec fn relay_roles(kind: RelayKind, direction: Direction) -> Seq<Role> {
    match direction {
        Direction::From(side) => one_way(kind, side),
        Direction::Both => one_way(kind, Channel::A) + one_way(kind, Channel::B),
    }
}

/// The threads that relay transmissions one way, through the fuzzer.
pub open spec fn fuzz_one_way(from: Channel, record: RecordTo) -> Seq<Role> {
    seq![
        Role::Fuzz { side: from, link: link_from(from), record },
        Role::SendFrames { side: other(from), link: link_from(from) },
        Role::Poll { link: link_from(from), replaying: false },
    ]
}

/// The threads that relay transmissions both ways, through a fuzzer for each.
pub open spec fn fuzz_both_ways(record: bool) -> Seq<Role> {
    let to = |side: Channel|
        if record {
            RecordTo::Subdirectory(side)
        } else {
            RecordTo::Nowhere
        };
    seq![
        Role::Fuzz { side: Channel::A, link: Link::AToB, record: to(Channel::A) },
        Role::SendFrames { side: Channel::B, link: Link::AToB },
        Role::Fuzz { side: Channel::B, link: Link::BToA, record: to(Channel::B) },
        Role::SendFrames { side: Channel::A, link: Link::BToA },
        Role::Poll { link: Link::AToB, replaying: false },
        Role::Poll { link: Link::BToA, replaying: false },
    ]
}

/// The threads that replay recordings to channel B.
pub open spec fn replay_roles() -> Seq<Role> {
    seq![
        Role::Replay { link: Link::AToB },
        Role::SendFrames { side: Channel::B, link: Link::AToB },
        Role::Poll { link: Link::AToB, replaying: true },
    ]
}

/// The threads of a run without the fuzzer.
pub open spec fn normal_roles(args: Args) -> Seq<Role> {
    if args.debug && args.test_tx_only {
        seq![Role::TestTone { side: Channel::A }, Role::TestTone { side: Channel::B }]
    } else if args.debug && args.test_rx_only {
        seq![Role::ReceiveOnly { side: Channel::A }, Role::ReceiveOnly { side: Channel::B }]
    } else if args.unidirectional {
        one_way(
            RelayKind::Detect,
            if args.reverse {
                Channel::B
            } else {
                Channel::A
            },
        )
    } else {
        relay_roles(RelayKind::Detect, Direction::Both)
    }
}

/// The threads of a run with the fuzzer.
pub open spec fn fuzz_roles(args: Args) -> Seq<Role> {
    if args.replay_dir is Some {
        replay_roles()
    } else if args.unidirectional {
        fuzz_one_way(
            if args.reverse {
                Channel::B
            } else {
                Channel::A
            },
            if args.record_dir is Some {
                RecordTo::Directory
            } else {
                RecordTo::Nowhere
            },
        )
    } else {
        fuzz_both_ways(args.record_dir is Some)
    }
}

/// The threads of an automated test: the relay from channel A to channel B, and the third device.
pub open spec fn autotest_roles() -> Seq<Role> {
    fuzz_one_way(Channel::A, RecordTo::Nowhere).push(Role::ThirdDevice)
}

/// Two threads of which one feeds the queue that the other drains.
proof fn one_way_is_sound(kind: RelayKind, from: Channel)
    ensures
        sound(one_way(kind, from)),
{
    let roles = one_way(kind, from);
    assert forall|i: int, l: Link| 0 <= i < roles.len() && #[trigger] feeds(
        roles[i],
        l,
    ) implies exists|j: int| 0 <= j < roles.len() && #[trigger] drains(roles[j], l) by {
        assert(drains(roles[1], l));
    }
    assert forall|i: int, l: Link| 0 <= i < roles.len() && #[trigger] drains(
        roles[i],
        l,
    ) implies exists|j: int| 0 <= j < roles.len() && #[trigger] feeds(roles[j], l) by {
        assert(feeds(roles[0], l));
    }
}

/// The threads that relay raw buffers fit together.
pub proof fn relay_is_sound(kind: RelayKind, direction: Direction)
    ensures
        sound(relay_roles(kind, direction)),
{
    one_way_is_sound(kind, Channel::A);
    one_way_is_sound(kind, Channel::B);
    if let Direction::Both = direction {
        let roles = relay_roles(kind, direction);
        assert(roles.len() == 4);
        assert forall|i: int, l: Link| 0 <= i < roles.len() && #[trigger] feeds(
            roles[i],
            l,
        ) implies exists|j: int| 0 <= j < roles.len() && #[trigger] drains(roles[j], l) by {
            assert(drains(roles[1], Link::AToB));
            assert(drains(roles[3], Link::BToA));
        }
        assert forall|i: int, l: Link| 0 <= i < roles.len() && #[trigger] drains(
            roles[i],
            l,
        ) implies exists|j: int| 0 <= j < roles.len() && #[trigger] feeds(roles[j], l) by {
            assert(feeds(roles[0], Link::AToB));
            assert(feeds(roles[2], Link::BToA));
        }
    }
}

/// The threads of every run fit together, whatever the arguments.
pub proof fn every_run_is_sound(args: Args)
    ensures
        sound(normal_roles(args)),
        sound(fuzz_roles(args)),
        sound(autotest_roles()),
{
    relay_is_sound(RelayKind::Detect, Direction::Both);
    one_way_is_sound(RelayKind::Detect, Channel::A);
    one_way_is_sound(RelayKind::Detect, Channel::B);
    fuzz_one_way_is_sound(Channel::A, RecordTo::Nowhere);
    fuzz_one_way_is_sound(Channel::B, RecordTo::Nowhere);
    fuzz_one_way_is_sound(Channel::A, RecordTo::Directory);
    fuzz_one_way_is_sound(Channel::B, RecordTo::Directory);
    fuzz_both_ways_is_sound(args.record_dir is Some);
    replay_is_sound();
    autotest_is_sound();
}

proof fn fuzz_one_way_is_sound(from: Channel, record: RecordTo)
    ensures
        sound(fuzz_one_way(from, record)),
{
    let roles = fuzz_one_way(from, record);
    three_fit_together(roles, link_from(from));
}

proof fn replay_is_sound()
    ensures
        sound(replay_roles()),
{
    three_fit_together(replay_roles(), Link::AToB);
}

/// A thread that feeds a queue through its fuzzer, one that drains it and one that polls it.
proof fn three_fit_together(roles: Seq<Role>, l: Link)
    requires
        roles.len() == 3,
        may_hold_back(roles[0], l) && feeds(roles[0], l),
        drains(roles[1], l),
        releases(roles[2], l) && feeds(roles[2], l),
        stream_of(roles[0]) != stream_of(roles[1]),
        stream_of(roles[2]) is None,
    ensures
        sound(roles),
{
    assert forall|i: int, k: Link| 0 <= i < roles.len() && #[trigger] feeds(
        roles[i],
        k,
    ) implies exists|j: int| 0 <= j < roles.len() && #[trigger] drains(roles[j], k) by {
        assert(drains(roles[1], k));
    }
    assert forall|i: int, k: Link| 0 <= i < roles.len() && #[trigger] drains(
        roles[i],
        k,
    ) implies exists|j: int| 0 <= j < roles.len() && #[trigger] feeds(roles[j], k) by {
        assert(feeds(roles[0], k));
    }
    assert forall|i: int, k: Link| 0 <= i < roles.len() && #[trigger] may_hold_back(
        roles[i],
        k,
    ) implies exists|j: int| 0 <= j < roles.len() && #[trigger] releases(roles[j], k) by {
        assert(releases(roles[2], k));
    }
}

proof fn fuzz_both_ways_is_sound(record: bool)
    ensures
        sound(fuzz_both_ways(record)),
{
    let roles = fuzz_both_ways(record);
    assert(drains(roles[1], Link::AToB) && drains(roles[3], Link::BToA));
    assert(feeds(roles[0], Link::AToB) && feeds(roles[2], Link::BToA));
    assert(releases(roles[4], Link::AToB) && releases(roles[5], Link::BToA));
    assert forall|i: int, k: Link| 0 <= i < roles.len() && #[trigger] feeds(
        roles[i],
        k,
    ) implies exists|j: int| 0 <= j < roles.len() && #[trigger] drains(roles[j], k) by {
        if k == Link::AToB {
            assert(drains(roles[1], k));
        } else {
            assert(drains(roles[3], k));
        }
    }
    assert forall|i: int, k: Link| 0 <= i < roles.len() && #[trigger] drains(
        roles[i],
        k,
    ) implies exists|j: int| 0 <= j < roles.len() && #[trigger] feeds(roles[j], k) by {
        if k == Link::AToB {
            assert(feeds(roles[0], k));
        } else {
            assert(feeds(roles[2], k));
        }
    }
    assert forall|i: int, k: Link| 0 <= i < roles.len() && #[trigger] may_hold_back(
        roles[i],
        k,
    ) implies exists|j: int| 0 <= j < roles.len() && #[trigger] releases(roles[j], k) by {
        if k == Link::AToB {
            assert(releases(roles[4], k));
        } else {
            assert(releases(roles[5], k));
        }
    }
}

proof fn autotest_is_sound()
    ensures
        sound(autotest_roles()),
{
    let roles = autotest_roles();
    assert(roles.len() == 4);
    assert forall|i: int, k: Link| 0 <= i < roles.len() && #[trigger] feeds(
        roles[i],
        k,
    ) implies exists|j: int| 0 <= j < roles.len() && #[trigger] drains(roles[j], k) by {
        assert(drains(roles[1], k));
    }
    assert forall|i: int, k: Link| 0 <= i < roles.len() && #[trigger] drains(
        roles[i],
        k,
    ) implies exists|j: int| 0 <= j < roles.len() && #[trigger] feeds(roles[j], k) by {
        assert(feeds(roles[0], k));
    }
    assert forall|i: int, k: Link| 0 <= i < roles.len() && #[trigger] may_hold_back(
        roles[i],
        k,
    ) implies exists|j: int| 0 <= j < roles.len() && #[trigger] releases(roles[j], k) by {
        assert(releases(roles[2], k));
    }
}

/// The queue that goes out from a channel.
pub fn outgoing_link(side: Channel) -> (link: Link)
    ensures
        link == link_from(side),
{
    match side {
        Channel::A => Link::AToB,
        Channel::B => Link::BToA,
    }
}

/// The other channel.
pub fn other_channel(side: Channel) -> (r: Channel)
    ensures
        r == other(side),
{
    match side {
        Channel::A => Channel::B,
        Channel::B => Channel::A,
    }
}

fn push_one_way(roles: &mut Vec<Role>, kind: RelayKind, from: Channel)
    ensures
        final(roles)@ == old(roles)@ + one_way(kind, from),
{
    let link = outgoing_link(from);
    roles.push(Role::Receive { side: from, kind, link });
    roles.push(Role::Send { side: other_channel(from), kind, link });
    assert(roles@ =~= old(roles)@ + one_way(kind, from));
}

/// Plan the threads that relay raw buffers.
pub fn plan_relay(kind: RelayKind, direction: Direction) -> (roles: Vec<Role>)
    ensures
        roles@ == relay_roles(kind, direction),
        sound(roles@),
{
    let mut roles: Vec<Role> = Vec::new();
    match direction {
        Direction::From(side) => {
            push_one_way(&mut roles, kind, side);
        },
        Direction::Both => {
            push_one_way(&mut roles, kind, Channel::A);
            push_one_way(&mut roles, kind, Channel::B);
        },
    }
    assert(roles@ =~= relay_roles(kind, direction));
    proof {
        relay_is_sound(kind, direction);
    }
    roles
}

/// Plan the threads that receive and analyse on both channels.
pub fn plan_analysis() -> (roles: Vec<Role>)
    ensures
        roles@ == seq![Role::Analyze { side: Channel::A }, Role::Analyze { side: Channel::B }],
        sound(roles@),
{
    let mut roles: Vec<Role> = Vec::new();
    roles.push(Role::Analyze { side: Channel::A });
    roles.push(Role::Analyze { side: Channel::B });
    assert(roles@ =~= seq![Role::Analyze { side: Channel::A }, Role::Analyze { side: Channel::B }]);
    roles
}

/// Plan the threads of a run without the fuzzer.
pub fn plan_normal(args: &Args) -> (roles: Vec<Role>)
    ensures
        roles@ == normal_roles(*args),
        sound(roles@),
{
    proof {
        every_run_is_sound(*args);
    }
    if args.debug && args.test_tx_only {
        let mut roles: Vec<Role> = Vec::new();
        roles.push(Role::TestTone { side: Channel::A });
        roles.push(Role::TestTone { side: Channel::B });
        assert(roles@ =~= normal_roles(*args));
        roles
    } else if args.debug && args.test_rx_only {
        let mut roles: Vec<Role> = Vec::new();
        roles.push(Role::ReceiveOnly { side: Channel::A });
        roles.push(Role::ReceiveOnly { side: Channel::B });
        assert(roles@ =~= normal_roles(*args));
        roles
    } else if args.unidirectional {
        let from = if args.reverse {
            Channel::B
        } else {
            Channel::A
        };
        plan_relay(RelayKind::Detect, Direction::From(from))
    } else {
        plan_relay(RelayKind::Detect, Direction::Both)
    }
}

fn list_fuzz_one_way(from: Channel, record: RecordTo) -> (roles: Vec<Role>)
    ensures
        roles@ == fuzz_one_way(from, record),
{
    let link = outgoing_link(from);
    let mut roles: Vec<Role> = Vec::new();
    roles.push(Role::Fuzz { side: from, link, record });
    roles.push(Role::SendFrames { side: other_channel(from), link });
    roles.push(Role::Poll { link, replaying: false });
    assert(roles@ =~= fuzz_one_way(from, record));
    roles
}

/// Plan the threads of a run with the fuzzer.
pub fn plan_fuzz(args: &Args) -> (roles: Vec<Role>)
    ensures
        roles@ == fuzz_roles(*args),
        sound(roles@),
{
    proof {
        every_run_is_sound(*args);
    }
    let record = args.record_dir.is_some();
    if args.replay_dir.is_some() {
        let mut roles: Vec<Role> = Vec::new();
        roles.push(Role::Replay { link: Link::AToB });
        roles.push(Role::SendFrames { side: Channel::B, link: Link::AToB });
        roles.push(Role::Poll { link: Link::AToB, replaying: true });
        assert(roles@ =~= replay_roles());
        roles
    } else if args.unidirectional {
        let from = if args.reverse {
            Channel::B
        } else {
            Channel::A
        };
        let to = if record {
            RecordTo::Directory
        } else {
            RecordTo::Nowhere
        };
        list_fuzz_one_way(from, to)
    } else {
        let to_a = if record {
            RecordTo::Subdirectory(Channel::A)
        } else {
            RecordTo::Nowhere
        };
        let to_b = if record {
            RecordTo::Subdirectory(Channel::B)
        } else {
            RecordTo::Nowhere
        };
        let mut roles: Vec<Role> = Vec::new();
        roles.push(Role::Fuzz { side: Channel::A, link: Link::AToB, record: to_a });
        roles.push(Role::SendFrames { side: Channel::B, link: Link::AToB });
        roles.push(Role::Fuzz { side: Channel::B, link: Link::BToA, record: to_b });
        roles.push(Role::SendFrames { side: Channel::A, link: Link::BToA });
        roles.push(Role::Poll { link: Link::AToB, replaying: false });
        roles.push(Role::Poll { link: Link::BToA, replaying: false });
        assert(roles@ =~= fuzz_both_ways(record));
        roles
    }
}

/// Plan the threads of a run: with the fuzzer if the arguments ask for it, else without.
pub fn plan_run(args: &Args) -> (roles: Vec<Role>)
    ensures
        roles@ == (if args.fuzz {
            fuzz_roles(*args)
        } else {
            normal_roles(*args)
        }),
        sound(roles@),
{
    if args.fuzz {
        plan_fuzz(args)
    } else {
        plan_normal(args)
    }
}

/// Plan the threads of an automated test.
pub fn plan_autotest() -> (roles: Vec<Role>)
    ensures
        roles@ == autotest_roles(),
        sound(roles@),
{
    proof {
        autotest_is_sound();
    }
    let mut roles = list_fuzz_one_way(Channel::A, RecordTo::Nowhere);
    roles.push(Role::ThirdDevice);
    roles
}

/// The name of a thread: its channel and what it does, or its direction.
pub open spec fn role_name(role: Role) -> Seq<char> {
    match role {
        Role::Receive { side, .. } | Role::ReceiveOnly { side } | Role::Analyze { side } => match side {
            Channel::A => "ChA-RX"@,
            Channel::B => "ChB-RX"@,
        },
        Role::Send { side, .. } | Role::TestTone { side } => match side {
            Channel::A => "ChA-TX"@,
            Channel::B => "ChB-TX"@,
        },
        Role::Fuzz { side, .. } => match side {
            Channel::A => "ChA-RX-Fuzz"@,
            Channel::B => "ChB-RX-Fuzz"@,
        },
        Role::SendFrames { side, .. } => match side {
            Channel::A => "ChA-TX-Fuzz"@,
            Channel::B => "ChB-TX-Fuzz"@,
        },
        Role::Poll { replaying, link } => if replaying {
            "Delay-Replay"@
        } else {
            match link {
                Link::AToB => "Delay-A2B"@,
                Link::BToA => "Delay-B2A"@,
            }
        },
        Role::Replay { .. } => "Replay"@,
        Role::ThirdDevice => "Dev3-Autotest"@,
    }
}

impl Role {
    /// The name of the thread.
    pub fn name(&self) -> (name: &'static str)
        ensures
            name@ == role_name(*self),
    {
        match self {
            Role::Receive { side, .. } | Role::ReceiveOnly { side } | Role::Analyze { side } => {
                match side {
                    Channel::A => "ChA-RX",
                    Channel::B => "ChB-RX",
                }
            },
            Role::Send { side, .. } | Role::TestTone { side } => match side {
                Channel::A => "ChA-TX",
                Channel::B => "ChB-TX",
            },
            Role::Fuzz { side, .. } => match side {
                Channel::A => "ChA-RX-Fuzz",
                Channel::B => "ChB-RX-Fuzz",
            },
            Role::SendFrames { side, .. } => match side {
                Channel::A => "ChA-TX-Fuzz",
                Channel::B => "ChB-TX-Fuzz",
            },
            Role::Poll { replaying, link } => if *replaying {
                "Delay-Replay"
            } else {
                match link {
                    Link::AToB => "Delay-A2B",
                    Link::BToA => "Delay-B2A",
                }
            },
            Role::Replay { .. } => "Replay",
            Role::ThirdDevice => "Dev3-Autotest",
        }
    }

    /// The channel that the transmissions found by this thread count for, if they count. Those that
    /// are recorded do not, and all others that go through a fuzzer count for channel A.
    pub fn counts_for(&self) -> (channel: Option<Channel>)
        ensures
            channel == (match *self {
                Role::Receive { side, kind: RelayKind::Detect, .. } => Some(side),
                Role::ReceiveOnly { side } => Some(side),
                Role::Fuzz { record: RecordTo::Nowhere, .. } => Some(Channel::A),
                _ => None,
            }),
    {
        match *self {
            Role::Receive { side, kind, .. } => match kind {
                RelayKind::Detect => Some(side),
                _ => None,
            },
            Role::ReceiveOnly { side } => Some(side),
            Role::Fuzz { record, .. } => match record {
                RecordTo::Nowhere => Some(Channel::A),
                _ => None,
            },
            _ => None,
        }
    }

    /// The channel that a transmission counts for which is cut short when the thread ends.
    pub fn counts_at_end(&self) -> (channel: Option<Channel>)
        ensures
            channel == (match *self {
                Role::Receive { side, kind: RelayKind::Detect, .. } => Some(side),
                Role::ReceiveOnly { side } => Some(side),
                _ => None,
            }),
    {
        match *self {
            Role::Receive { side, kind, .. } => match kind {
                RelayKind::Detect => Some(side),
                _ => None,
            },
            Role::ReceiveOnly { side } => Some(side),
            _ => None,
        }
    }
}

impl RecordTo {
    /// The subdirectory of the recording directory.
    pub fn subdirectory(&self) -> (name: Option<&'static str>)
        ensures
            match name {
                Some(text) => *self == RecordTo::Subdirectory(Channel::A) && text@ == "channel_a"@
                    || *self == RecordTo::Subdirectory(Channel::B) && text@ == "channel_b"@,
                None => *self !is Subdirectory,
            },
    {
        match self {
            RecordTo::Subdirectory(side) => match side {
                Channel::A => Some("channel_a"),
                Channel::B => Some("channel_b"),
            },
            _ => None,
        }
    }
}

/// Threads that use different streams have different names.
pub proof fn streams_have_names_of_their_own(a: Role, b: Role)
    requires
        stream_of(a) is Some,
        stream_of(b) is Some,
        stream_of(a) != stream_of(b),
    ensures
        role_name(a) != role_name(b),
{
    reveal_strlit("ChA-RX");
    reveal_strlit("ChB-RX");
    reveal_strlit("ChA-TX");
    reveal_strlit("ChB-TX");
    reveal_strlit("ChA-RX-Fuzz");
    reveal_strlit("ChB-RX-Fuzz");
    reveal_strlit("ChA-TX-Fuzz");
    reveal_strlit("ChB-TX-Fuzz");
    reveal_strlit("Dev3-Autotest");
    let x = role_name(a);
    let y = role_name(b);
    assert(x.len() != y.len() || x[2] != y[2] || x[4] != y[4]);
}

} // verus!
