//! Replay of recorded transmissions: which files are recordings, and in which order they come.
use vstd::prelude::*;

use crate::recording::stem;
use crate::text::{
    all_digits, decimal, digit_value, digits_value, is_digit, padded, padded_is_digits,
};

verus! {

/// The bytes that the name of a recording ends in: `.iq32`.
pub open spec fn recording_suffix() -> Seq<u8> {
    seq![46u8, 105u8, 113u8, 51u8, 50u8]
}

/// Whether a file of that name is a recording: its extension is `iq32`, and it has a name before
/// that.
pub open spec fn is_recording(name: Seq<u8>) -> bool {
    name.len() > 5 && name.skip(name.len() - 5) == recording_suffix()
}

/// Whether `a` comes before `b`, compared byte by byte.
pub open spec fn comes_before(a: Seq<u8>, b: Seq<u8>) -> bool
    decreases a.len(),
{
    if b.len() == 0 {
        false
    } else if a.len() == 0 {
        true
    } else {
        a[0] < b[0] || (a[0] == b[0] && comes_before(a.drop_first(), b.drop_first()))
    }
}

/// The bytes of names.
pub open spec fn names_of(names: Seq<Vec<u8>>) -> Seq<Seq<u8>> {
    Seq::new(names.len(), |i: int| names[i]@)
}

/// No name comes before an earlier one.
pub open spec fn in_name_order(names: Seq<Seq<u8>>) -> bool {
    forall|i: int, j: int|
        0 <= i < j < names.len() ==> !comes_before(#[trigger] names[j], #[trigger] names[i])
}

/// Those of `names` that are recordings.
pub open spec fn recordings_of(names: Seq<Seq<u8>>) -> Seq<Seq<u8>>
    decreases names.len(),
{
    if names.len() == 0 {
        Seq::empty()
    } else {
        let before = recordings_of(names.drop_last());
        if is_recording(names.last()) {
            before.push(names.last())
        } else {
            before
        }
    }
}

/// A name does not come before another and after it, nor before itself.
pub proof fn order_is_strict(a: Seq<u8>, b: Seq<u8>)
    ensures
        comes_before(a, b) ==> !comes_before(b, a),
        !comes_before(a, a),
        !comes_before(a, b) && !comes_before(b, a) ==> a == b,
    decreases a.len(),
{
    if a.len() > 0 && b.len() > 0 {
        order_is_strict(a.drop_first(), b.drop_first());
        if a.drop_first() == b.drop_first() && a[0] == b[0] {
            assert(a =~= seq![a[0]] + a.drop_first());
            assert(b =~= seq![b[0]] + b.drop_first());
        }
        order_is_strict(a.drop_first(), a.drop_first());
    } else if a.len() > 0 {
        order_is_strict(a.drop_first(), a.drop_first());
    } else {
        assert(a =~= Seq::<u8>::empty());
        assert(b.len() == 0 ==> b =~= a);
    }
}

/// Of three names the order carries over.
pub proof fn order_carries_over(a: Seq<u8>, b: Seq<u8>, c: Seq<u8>)
    requires
        !comes_before(b, a),
        !comes_before(c, b),
    ensures
        !comes_before(c, a),
    decreases a.len(),
{
    if a.len() > 0 && b.len() > 0 && c.len() > 0 {
        if a[0] == b[0] && b[0] == c[0] {
            order_carries_over(a.drop_first(), b.drop_first(), c.drop_first());
        }
    }
}

/// Compares two names.
fn is_before(a: &Vec<u8>, b: &Vec<u8>) -> (r: bool)
    ensures
        r == comes_before(a@, b@),
{
    let mut i: usize = 0;
    assert(a@.skip(0) =~= a@);
    assert(b@.skip(0) =~= b@);
    while i < a.len() && i < b.len()
        invariant
            i <= a@.len(),
            i <= b@.len(),
            comes_before(a@, b@) == comes_before(a@.skip(i as int), b@.skip(i as int)),
        decreases a@.len() - i,
    {
        assert(a@.skip(i as int)[0] == a@[i as int]);
        assert(b@.skip(i as int)[0] == b@[i as int]);
        if a[i] != b[i] {
            return a[i] < b[i];
        }
        assert(a@.skip(i as int).drop_first() =~= a@.skip(i + 1));
        assert(b@.skip(i as int).drop_first() =~= b@.skip(i + 1));
        i = i + 1;
    }
    i < b.len()
}

/// Checks whether a file of that name is a recording.
pub fn is_recording_name(name: &Vec<u8>) -> (r: bool)
    ensures
        r == is_recording(name@),
{
    let n: usize = name.len();
    if n <= 5 {
        return false;
    }
    let r = name[n - 5] == 46 && name[n - 4] == 105 && name[n - 3] == 113 && name[n - 2] == 51
        && name[n - 1] == 50;
    proof {
        let end = name@.skip(n - 5);
        assert(end[0] == name@[n - 5] && end[1] == name@[n - 4] && end[2] == name@[n - 3] && end[3]
            == name@[n - 2] && end[4] == name@[n - 1]);
        if r {
            assert(end =~= recording_suffix());
        }
    }
    r
}

proof fn multiset_after_insert(names: Seq<Seq<u8>>, at: int, name: Seq<u8>)
    requires
        0 <= at <= names.len(),
    ensures
        names.insert(at, name).to_multiset() == names.to_multiset().insert(name),
{
    let more = names.insert(at, name);
    assert(more.remove(at) =~= names);
    assert(more[at] == name);
    vstd::seq_lib::to_multiset_remove(more, at);
    assert(more.contains(name));
    more.to_multiset_ensures();
    assert(more.to_multiset().count(name) > 0);
    assert(more.to_multiset() =~= names.to_multiset().insert(name));
}

/// List the recordings among the names of a directory, sorted by name (which has the ID and the
/// timestamp in it).
pub fn list_recordings(names: &Vec<Vec<u8>>) -> (r: Vec<Vec<u8>>)
    ensures
        in_name_order(names_of(r@)),
        names_of(r@).to_multiset() == recordings_of(names_of(names@)).to_multiset(),
        r@.len() == recordings_of(names_of(names@)).len(),
{
    let mut found: Vec<Vec<u8>> = Vec::new();
    let mut i: usize = 0;
    let ghost all = names_of(names@);
    proof {
        assert(all.take(0) =~= Seq::<Seq<u8>>::empty());
        assert(names_of(found@) =~= recordings_of(all.take(0)));
    }
    while i < names.len()
        invariant
            i <= names@.len(),
            all == names_of(names@),
            in_name_order(names_of(found@)),
            names_of(found@).to_multiset() == recordings_of(all.take(i as int)).to_multiset(),
        decreases names@.len() - i,
    {
        let ghost taken = all.take(i + 1);
        assert(taken.drop_last() =~= all.take(i as int));
        assert(taken.last() == names@[i as int]@);
        if is_recording_name(&names[i]) {
            let name: Vec<u8> = names[i].clone();
            assert(name@ =~= names@[i as int]@);
            let mut at: usize = 0;
            while at < found.len() && !is_before(&name, &found[at])
                invariant
                    at <= found@.len(),
                    forall|j: int|
                        0 <= j < at ==> !comes_before(name@, #[trigger] names_of(found@)[j]),
                decreases found@.len() - at,
            {
                assert(names_of(found@)[at as int] == found@[at as int]@);
                at = at + 1;
            }
            let ghost before = names_of(found@);
            let ghost earlier = recordings_of(all.take(i as int));
            let ghost this = name@;
            proof {
                if at < found@.len() {
                    assert(before[at as int] == found@[at as int]@);
                }
            }
            found.insert(at, name);
            proof {
                let now = names_of(found@);
                assert(now =~= before.insert(at as int, this));
                assert forall|a: int, b: int| 0 <= a < b < now.len() implies !comes_before(
                    #[trigger] now[b],
                    #[trigger] now[a],
                ) by {
                    placed_in_order(before, at as int, this, a, b);
                }
                multiset_after_insert(before, at as int, this);
                vstd::seq_lib::to_multiset_build(earlier, this);
            }
        }
        i = i + 1;
    }
    assert(all.take(i as int) =~= all);
    proof {
        names_of(found@).to_multiset_ensures();
        recordings_of(all).to_multiset_ensures();
    }
    found
}

/// A name put before the first that comes after it keeps the order.
proof fn placed_in_order(names: Seq<Seq<u8>>, at: int, name: Seq<u8>, a: int, b: int)
    requires
        in_name_order(names),
        0 <= at <= names.len(),
        forall|j: int| 0 <= j < at ==> !comes_before(name, #[trigger] names[j]),
        at < names.len() ==> comes_before(name, names[at]),
        0 <= a < b <= names.len(),
    ensures
        !comes_before(names.insert(at, name)[b], names.insert(at, name)[a]),
{
    let more = names.insert(at, name);
    let x = if a < at {
        a
    } else {
        a - 1
    };
    let y = if b < at {
        b
    } else {
        b - 1
    };
    if a == at {
        assert(more[b] == names[b - 1]);
        order_is_strict(name, names[at]);
        if at < b - 1 {
            order_carries_over(name, names[at], names[b - 1]);
        }
    } else if b == at {
        assert(more[a] == names[a]);
    } else {
        assert(more[a] == names[x]);
        assert(more[b] == names[y]);
    }
}

/// The reason why there is nothing to replay.
#[derive(Clone, Copy, Debug, PartialEq, Eq)]
pub enum ReplayError {
    /// No name is that of a recording.
    NoRecordings,
}

/// Replay manager that iterates through recorded transmissions.
pub struct Replayer {
    recordings: Vec<Vec<u8>>,
    current_index: usize,
    loop_enabled: bool,
}

/// Where a [`Replayer`] stands.
#[verifier::ext_equal]
pub struct ReplayState {
    pub names: Seq<Seq<u8>>,
    pub at: nat,
    pub looping: bool,
}

impl View for Replayer {
    type V = ReplayState;

    closed spec fn view(&self) -> ReplayState {
        ReplayState {
            names: names_of(self.recordings@),
            at: self.current_index as nat,
            looping: self.loop_enabled,
        }
    }
}

/// Whether all recordings were given and none comes again.
pub open spec fn at_end(state: ReplayState) -> bool {
    !state.looping && state.at >= state.names.len()
}

/// The recording that comes next, and where the replay then stands.
pub open spec fn next_recording(state: ReplayState) -> (Option<Seq<u8>>, ReplayState) {
    if at_end(state) {
        (None, state)
    } else {
        let at = if state.at >= state.names.len() {
            0
        } else {
            state.at
        };
        (Some(state.names[at as int]), ReplayState { at: at + 1, ..state })
    }
}

impl Replayer {
    #[verifier::type_invariant]
    spec fn well_formed(self) -> bool {
        0 < self.recordings@.len() && self.current_index <= self.recordings@.len()
    }

    /// Prepare to replay the recordings among the names of a directory.
    pub fn new(names: &Vec<Vec<u8>>, loop_enabled: bool) -> (r: Result<Replayer, ReplayError>)
        ensures
            match r {
                Ok(replayer) => recordings_of(names_of(names@)).len() > 0 && replayer@.names.len()
                    == recordings_of(names_of(names@)).len() && in_name_order(replayer@.names)
                    && replayer@.names.to_multiset() == recordings_of(
                    names_of(names@),
                ).to_multiset() && replayer@.at == 0 && replayer@.looping == loop_enabled,
                Err(error) => error == ReplayError::NoRecordings && recordings_of(
                    names_of(names@),
                ).len() == 0,
            },
    {
        let recordings = list_recordings(names);
        if recordings.len() == 0 {
            return Err(ReplayError::NoRecordings);
        }
        Ok(Replayer { recordings, current_index: 0, loop_enabled })
    }

    /// Get the name of the next recording to replay.
    pub fn next(&mut self) -> (r: Option<Vec<u8>>)
        ensures
            final(self)@ == next_recording(old(self)@).1,
            match r {
                Some(name) => next_recording(old(self)@).0 == Some(name@),
                None => next_recording(old(self)@).0 is None,
            },
    {
        proof {
            use_type_invariant(&*self);
        }
        if self.current_index >= self.recordings.len() {
            if self.loop_enabled {
                self.current_index = 0;
            } else {
                return None;
            }
        }
        let at: usize = self.current_index;
        let name: Vec<u8> = self.recordings[at].clone();
        assert(name@ =~= self.recordings@[at as int]@);
        self.current_index = at + 1;
        Some(name)
    }

    /// Get the number of recordings available.
    pub fn count(&self) -> (n: usize)
        ensures
            n == self@.names.len(),
    {
        self.recordings.len()
    }

    /// Check if replay is complete (only relevant when not looping).
    pub fn is_complete(&self) -> (r: bool)
        ensures
            r == at_end(self@),
    {
        !self.loop_enabled && self.current_index >= self.recordings.len()
    }

    /// Reset to the beginning.
    pub fn reset(&mut self)
        ensures
            final(self)@ == (ReplayState { at: 0, ..old(self)@ }),
    {
        proof {
            use_type_invariant(&*self);
        }
        self.current_index = 0;
    }
}

/// Where a replay stands after `k` recordings were asked for.
pub open spec fn advanced(state: ReplayState, k: nat) -> ReplayState
    decreases k,
{
    if k == 0 {
        state
    } else {
        next_recording(advanced(state, (k - 1) as nat)).1
    }
}

/// Replay without looping gives each recording once, in order, and then none.
pub proof fn replays_each_once(state: ReplayState, k: nat)
    requires
        state.at == 0,
        !state.looping,
    ensures
        k < state.names.len() ==> next_recording(advanced(state, k)).0 == Some(
            state.names[k as int],
        ),
        k >= state.names.len() ==> next_recording(advanced(state, k)).0 is None,
        at_end(advanced(state, k)) <==> k >= state.names.len(),
        advanced(state, k) == (ReplayState {
            at: if k < state.names.len() {
                k
            } else {
                state.names.len()
            },
            ..state
        }),
    decreases k,
{
    if k > 0 {
        replays_each_once(state, (k - 1) as nat);
    }
}

/// Replay with looping never ends: the recordings come in order, over and over.
pub proof fn loops_forever(state: ReplayState, k: nat)
    requires
        state.at == 0,
        state.looping,
        state.names.len() > 0,
    ensures
        next_recording(advanced(state, k)).0 == Some(
            state.names[k as int % state.names.len() as int],
        ),
        !at_end(advanced(state, k)),
        advanced(state, k).names == state.names,
        advanced(state, k).looping,
        advanced(state, k).at == (if k == 0 {
            0
        } else {
            (k - 1) as int % state.names.len() as int + 1
        }),
    decreases k,
{
    let n = state.names.len() as int;
    if k > 0 {
        loops_forever(state, (k - 1) as nat);
        wraps_round(k - 1, n);
        if k > 1 {
            wraps_round(k - 2, n);
        } else {
            vstd::arithmetic::div_mod::lemma_small_mod(0, n as nat);
        }
    } else {
        vstd::arithmetic::div_mod::lemma_small_mod(0, n as nat);
    }
}

/// Counting on by one round a circle of `n`.
proof fn wraps_round(m: int, n: int)
    requires
        0 <= m,
        0 < n,
    ensures
        (m + 1) % n == (if m % n + 1 == n {
            0
        } else {
            m % n + 1
        }),
        0 <= m % n < n,
{
    vstd::arithmetic::div_mod::lemma_mod_bound(m, n);
    vstd::arithmetic::div_mod::lemma_fundamental_div_mod(m, n);
    let q = m / n;
    let r = m % n;
    assert(n * q == q * n && n * (q + 1) == n * q + n && (q + 1) * n == n * q + n)
        by (nonlinear_arith);
    if r + 1 < n {
        vstd::arithmetic::div_mod::lemma_fundamental_div_mod_converse(m + 1, n, q, r + 1);
    } else {
        vstd::arithmetic::div_mod::lemma_fundamental_div_mod_converse(m + 1, n, q + 1, 0);
    }
}

/// The bytes of ASCII text.
pub open spec fn ascii_bytes(text: Seq<char>) -> Seq<u8> {
    Seq::new(text.len(), |i: int| text[i] as u8)
}

/// The name of the sample file of a recording.
pub open spec fn sample_file(id: u64, timestamp: u128, count: nat) -> Seq<u8> {
    ascii_bytes(stem(id, timestamp, count) + ".iq32"@)
}

/// The sample file of every recording is listed.
pub proof fn saved_is_listed(id: u64, timestamp: u128, count: nat)
    ensures
        is_recording(sample_file(id, timestamp, count)),
{
    reveal_strlit(".iq32");
    reveal_strlit("tx_");
    let name = sample_file(id, timestamp, count);
    assert(name.skip(name.len() - 5) =~= recording_suffix());
}

proof fn common_start(start: Seq<u8>, a: Seq<u8>, b: Seq<u8>)
    ensures
        comes_before(start + a, start + b) == comes_before(a, b),
    decreases start.len(),
{
    if start.len() == 0 {
        assert(start + a =~= a);
        assert(start + b =~= b);
    } else {
        let rest = start.drop_first();
        assert((start + a).drop_first() =~= rest + a);
        assert((start + b).drop_first() =~= rest + b);
        common_start(rest, a, b);
    }
}

/// Digits are told apart, and ordered, by what they stand for.
proof fn digits_by_value(c: char, d: char)
    requires
        is_digit(c),
        is_digit(d),
    ensures
        digit_value(c) == digit_value(d) ==> c == d,
        digit_value(c) < digit_value(d) ==> (c as u8) < (d as u8),
{
}

proof fn same_value_same_digits(a: Seq<char>, b: Seq<char>)
    requires
        a.len() == b.len(),
        all_digits(a),
        all_digits(b),
        digits_value(a) == digits_value(b),
    ensures
        a == b,
    decreases a.len(),
{
    if a.len() > 0 {
        assert(is_digit(a[a.len() - 1]));
        assert(is_digit(b[b.len() - 1]));
        assert forall|i: int| 0 <= i < a.len() - 1 implies is_digit(
            #[trigger] a.drop_last()[i],
        ) && is_digit(b.drop_last()[i]) by {
            assert(is_digit(a[i]));
            assert(is_digit(b[i]));
        }
        assert(is_digit(a.last()) && is_digit(b.last()));
        assert(digits_value(a.drop_last()) == digits_value(b.drop_last()));
        assert(digit_value(a.last()) == digit_value(b.last()));
        digits_by_value(a.last(), b.last());
        same_value_same_digits(a.drop_last(), b.drop_last());
        assert(a =~= a.drop_last().push(a.last()));
        assert(b =~= b.drop_last().push(b.last()));
    }
    assert(a =~= b);
}

/// Of two rows of digits of one length the smaller number comes first, whatever follows.
proof fn smaller_comes_first(a: Seq<char>, b: Seq<char>, after_a: Seq<u8>, after_b: Seq<u8>)
    requires
        a.len() == b.len(),
        all_digits(a),
        all_digits(b),
        digits_value(a) < digits_value(b),
    ensures
        comes_before(ascii_bytes(a) + after_a, ascii_bytes(b) + after_b),
    decreases a.len(),
{
    assert(a.len() > 0);
    let x = a.drop_last();
    let y = b.drop_last();
    assert(is_digit(a[a.len() - 1]));
    assert(is_digit(b[b.len() - 1]));
    assert forall|i: int| 0 <= i < x.len() implies is_digit(#[trigger] x[i]) && is_digit(y[i]) by {
        assert(is_digit(a[i]));
        assert(is_digit(b[i]));
    }
    let more_a = seq![a.last() as u8] + after_a;
    let more_b = seq![b.last() as u8] + after_b;
    assert(ascii_bytes(a) + after_a =~= ascii_bytes(x) + more_a);
    assert(ascii_bytes(b) + after_b =~= ascii_bytes(y) + more_b);
    if digits_value(x) < digits_value(y) {
        smaller_comes_first(x, y, more_a, more_b);
    } else {
        assert(digits_value(x) == digits_value(y));
        same_value_same_digits(x, y);
        common_start(ascii_bytes(x), more_a, more_b);
        assert(is_digit(a.last()) && is_digit(b.last()));
        assert(digit_value(a.last()) < digit_value(b.last()));
        digits_by_value(a.last(), b.last());
        assert(more_a[0] == a.last() as u8 && more_b[0] == b.last() as u8);
    }
}

/// Recordings with numbers of up to six digits are listed in the order of their numbers, whatever
/// their timestamps and lengths.
pub proof fn listed_by_number(
    first: u64,
    first_time: u128,
    first_count: nat,
    second: u64,
    second_time: u128,
    second_count: nat,
)
    requires
        first < second <= 999_999,
    ensures
        comes_before(
            sample_file(first, first_time, first_count),
            sample_file(second, second_time, second_count),
        ),
{
    let a = padded(first as nat, 6);
    let b = padded(second as nat, 6);
    padded_is_digits(first as nat, 6);
    padded_is_digits(second as nat, 6);
    six_digits(first as nat);
    six_digits(second as nat);
    let start = ascii_bytes("tx_"@);
    let rest_a = ascii_bytes(
        "_"@ + decimal(first_time as nat) + "_"@ + decimal(first_count) + "samples"@ + ".iq32"@,
    );
    let rest_b = ascii_bytes(
        "_"@ + decimal(second_time as nat) + "_"@ + decimal(second_count) + "samples"@ + ".iq32"@,
    );
    assert(sample_file(first, first_time, first_count) =~= start + (ascii_bytes(a) + rest_a));
    assert(sample_file(second, second_time, second_count) =~= start + (ascii_bytes(b) + rest_b));
    smaller_comes_first(a, b, rest_a, rest_b);
    common_start(start, ascii_bytes(a) + rest_a, ascii_bytes(b) + rest_b);
}

proof fn six_digits(n: nat)
    requires
        n <= 999_999,
    ensures
        decimal(n).len() <= 6,
{
    reveal_with_fuel(decimal, 7);
}

} // verus!
