//! Which recordings are replayed, and in which order.
use vstd::prelude::*;

use crate::replay::{
    comes_before, is_recording, is_recording_name, list_recordings, names_of, recording_suffix,
    recordings_of, ReplayError, Replayer,
};

verus! {

/// A name ends in `.iq32` and has something before that.
pub open spec fn ends_in_iq32(name: Seq<u8>) -> bool {
    let n = name.len() as int;
    &&& n > 5
    &&& name[n - 5] == 0x2E
    &&& name[n - 4] == 0x69
    &&& name[n - 3] == 0x71
    &&& name[n - 2] == 0x33
    &&& name[n - 1] == 0x32
}

proof fn recordings_end_in_iq32(name: Seq<u8>)
    ensures
        is_recording(name) <==> ends_in_iq32(name),
{
    let n = name.len() as int;
    if n > 5 {
        let end = name.skip(n - 5);
        assert(end.len() == 5);
        assert(end[0] == name[n - 5] && end[1] == name[n - 4] && end[2] == name[n - 3] && end[3]
            == name[n - 2] && end[4] == name[n - 1]);
        if ends_in_iq32(name) {
            assert(end =~= recording_suffix());
        }
        if is_recording(name) {
            assert(end[0] == recording_suffix()[0] && end[1] == recording_suffix()[1] && end[2]
                == recording_suffix()[2] && end[3] == recording_suffix()[3] && end[4]
                == recording_suffix()[4]);
        }
    }
}

/// A file is a recording if and only if its name ends in `.iq32` with something before that.
pub proof fn recordings_are_told_by_their_names(name: Vec<u8>, r: bool)
    requires
        call_ensures(is_recording_name, (&name,), r),
    ensures
        r <==> ends_in_iq32(name@),
{
    recordings_end_in_iq32(name@);
}

/// `a` comes before `b`: where they first differ `a` has the smaller byte, or has ended.
pub open spec fn earlier(a: Seq<u8>, b: Seq<u8>) -> bool {
    exists|k: int| #[trigger] differ_at(a, b, k)
}

/// `a` and `b` are the same up to `k`, and there `a` has the smaller byte, or has ended.
pub open spec fn differ_at(a: Seq<u8>, b: Seq<u8>, k: int) -> bool {
    &&& 0 <= k <= a.len()
    &&& k < b.len()
    &&& forall|i: int| 0 <= i < k ==> #[trigger] a[i] == b[i]
    &&& k < a.len() ==> a[k] < b[k]
}

/// The order of names is by the first byte in which they differ.
pub proof fn order_is_by_the_first_difference(a: Seq<u8>, b: Seq<u8>)
    ensures
        comes_before(a, b) <==> earlier(a, b),
    decreases a.len(),
{
    if b.len() > 0 && a.len() > 0 {
        let x = a.drop_first();
        let y = b.drop_first();
        order_is_by_the_first_difference(x, y);
        if comes_before(a, b) {
            if a[0] < b[0] {
                assert(differ_at(a, b, 0));
            } else {
                let k = choose|k: int| #[trigger] differ_at(x, y, k);
                assert forall|i: int| 0 <= i < k + 1 implies #[trigger] a[i] == b[i] by {
                    if i > 0 {
                        assert(x[i - 1] == y[i - 1]);
                    }
                }
                assert(k < x.len() ==> x[k] == a[k + 1] && y[k] == b[k + 1]);
                assert(differ_at(a, b, k + 1));
            }
        }
        if earlier(a, b) {
            let k = choose|k: int| #[trigger] differ_at(a, b, k);
            if k > 0 {
                assert(a[0] == b[0]);
                assert forall|i: int| 0 <= i < k - 1 implies #[trigger] x[i] == y[i] by {
                    assert(a[i + 1] == b[i + 1]);
                }
                assert(differ_at(x, y, k - 1));
            }
        }
    } else if b.len() > 0 {
        assert(differ_at(a, b, 0));
    }
}

/// How often `name` is among `names`.
pub open spec fn times(names: Seq<Seq<u8>>, name: Seq<u8>) -> int
    decreases names.len(),
{
    if names.len() == 0 {
        0
    } else {
        times(names.drop_last(), name) + if names.last() == name {
            1int
        } else {
            0
        }
    }
}

proof fn times_are_counted(names: Seq<Seq<u8>>, name: Seq<u8>)
    ensures
        times(names, name) == names.to_multiset().count(name),
    decreases names.len(),
{
    if names.len() > 0 {
        let fewer = names.drop_last();
        times_are_counted(fewer, name);
        assert(fewer.push(names.last()) =~= names);
        vstd::seq_lib::to_multiset_build(fewer, names.last());
    } else {
        names.to_multiset_ensures();
        assert(!names.contains(name));
    }
}

proof fn recordings_are_picked_out(names: Seq<Seq<u8>>, name: Seq<u8>)
    ensures
        times(recordings_of(names), name) == if ends_in_iq32(name) {
            times(names, name)
        } else {
            0
        },
    decreases names.len(),
{
    if names.len() > 0 {
        let fewer = names.drop_last();
        recordings_are_picked_out(fewer, name);
        recordings_end_in_iq32(names.last());
        recordings_end_in_iq32(name);
        let before = recordings_of(fewer);
        if is_recording(names.last()) {
            assert(before.push(names.last()).drop_last() =~= before);
        }
    }
}

/// `listed` are the recordings among `names`: each as often as it is among them, no other name, and
/// none before an earlier one.
pub open spec fn sorted_recordings(names: Seq<Seq<u8>>, listed: Seq<Seq<u8>>) -> bool {
    &&& forall|i: int, j: int|
        0 <= i < j < listed.len() ==> !earlier(#[trigger] listed[j], #[trigger] listed[i])
    &&& forall|name: Seq<u8>| #[trigger]
        times(listed, name) == if ends_in_iq32(name) {
            times(names, name)
        } else {
            0
        }
}

proof fn listed_are_sorted(names: Seq<Seq<u8>>, listed: Seq<Seq<u8>>)
    requires
        crate::replay::in_name_order(listed),
        listed.to_multiset() == recordings_of(names).to_multiset(),
    ensures
        sorted_recordings(names, listed),
{
    assert forall|i: int, j: int| 0 <= i < j < listed.len() implies !earlier(
        #[trigger] listed[j],
        #[trigger] listed[i],
    ) by {
        order_is_by_the_first_difference(listed[j], listed[i]);
    }
    assert forall|name: Seq<u8>| #[trigger]
        times(listed, name) == if ends_in_iq32(name) {
            times(names, name)
        } else {
            0
        } by {
        times_are_counted(listed, name);
        times_are_counted(recordings_of(names), name);
        recordings_are_picked_out(names, name);
    }
}

/// The list has every recording as often as the directory has it, no other file, and is sorted by
/// name.
pub proof fn every_recording_is_listed_in_order(names: Vec<Vec<u8>>, r: Vec<Vec<u8>>)
    requires
        call_ensures(list_recordings, (&names,), r),
    ensures
        sorted_recordings(
            Seq::new(names@.len(), |i: int| names@[i]@),
            Seq::new(r@.len(), |i: int| r@[i]@),
        ),
{
    assert(names_of(names@) =~= Seq::new(names@.len(), |i: int| names@[i]@));
    assert(names_of(r@) =~= Seq::new(r@.len(), |i: int| r@[i]@));
    listed_are_sorted(names_of(names@), names_of(r@));
}

proof fn none_picked_out(names: Seq<Seq<u8>>)
    ensures
        recordings_of(names).len() == 0 <==> forall|i: int|
            0 <= i < names.len() ==> !ends_in_iq32(#[trigger] names[i]),
    decreases names.len(),
{
    if names.len() > 0 {
        let fewer = names.drop_last();
        none_picked_out(fewer);
        recordings_end_in_iq32(names.last());
        if recordings_of(names).len() == 0 {
            assert forall|i: int| 0 <= i < names.len() implies !ends_in_iq32(
                #[trigger] names[i],
            ) by {
                if i < fewer.len() {
                    assert(fewer[i] == names[i]);
                }
            }
        }
        if forall|i: int| 0 <= i < names.len() ==> !ends_in_iq32(#[trigger] names[i]) {
            assert forall|i: int| 0 <= i < fewer.len() implies !ends_in_iq32(
                #[trigger] fewer[i],
            ) by {
                assert(fewer[i] == names[i]);
            }
            assert(!ends_in_iq32(names[names.len() - 1]));
        }
    }
}

/// A replay is refused if and only if no file is a recording. Else it stands before the first of
/// them, in the order of their names, and has as many as there are.
pub proof fn a_replay_begins_with_the_first_recording(
    names: Vec<Vec<u8>>,
    looping: bool,
    r: Result<Replayer, ReplayError>,
)
    requires
        call_ensures(Replayer::new, (&names, looping), r),
    ensures
        ({
            let all = Seq::new(names@.len(), |i: int| names@[i]@);
            &&& r is Err <==> forall|i: int|
                0 <= i < all.len() ==> !ends_in_iq32(#[trigger] all[i])
            &&& r matches Ok(replayer) ==> {
                &&& sorted_recordings(all, replayer@.names)
                &&& replayer@.at == 0
                &&& replayer@.looping == looping
            }
        }),
{
    let all = Seq::new(names@.len(), |i: int| names@[i]@);
    assert(names_of(names@) =~= all);
    none_picked_out(all);
    if let Ok(replayer) = r {
        listed_are_sorted(all, replayer@.names);
    }
}

/// The recordings come one after the other. After the last comes the first again if the replay
/// loops; else nothing comes, and the replay is complete. What comes does not change what there is.
pub proof fn recordings_come_one_after_the_other(
    replayer: &mut Replayer,
    before: Replayer,
    after: Replayer,
    name: Option<Vec<u8>>,
    complete: bool,
    count: usize,
)
    requires
        before == *old(replayer),
        after == *final(replayer),
        before@.names.len() > 0,
        call_ensures(Replayer::is_complete, (&before,), complete),
        call_ensures(Replayer::count, (&before,), count),
        call_ensures(Replayer::next, (replayer,), name),
    ensures
        count == before@.names.len(),
        after@.names == before@.names,
        after@.looping == before@.looping,
        complete <==> !before@.looping && before@.at >= count,
        name is None <==> complete,
        name is None ==> after@.at == before@.at,
        before@.at < count ==> name is Some && name->0@ == before@.names[before@.at as int]
            && after@.at == before@.at + 1,
        before@.at >= count && before@.looping ==> name is Some && name->0@ == before@.names[0]
            && after@.at == 1,
{
}

/// A reset takes a replay back before the first recording, and changes nothing else.
pub proof fn a_reset_begins_again(replayer: &mut Replayer)
    requires
        call_ensures(Replayer::reset, (replayer,), ()),
    ensures
        final(replayer)@.at == 0,
        final(replayer)@.names == old(replayer)@.names,
        final(replayer)@.looping == old(replayer)@.looping,
{
}

} // verus!
