//! What recordings hold, byte by byte and line by line.
use vstd::prelude::*;

use crate::arith::{parsed, running_sum, Arithmetic, Single};
use crate::detector::Transmission;
use crate::recording::{
    decode_samples, decoded, encode_samples, id_read, level_read, levels_measured, line_read,
    lines_read, load_transmission, parse_metadata, sample_at, save_transmission, LoadedMetadata,
    MetaSource, Recorder, RecordingFiles,
};
use crate::recording_laws::samples_read_back;
use crate::signal::{levels_of, mean_of, IqSample};
use crate::signal_laws::{
    divided_by, levels_are_vector_lengths, mean_is_divided, the_largest_tops, tops, vector_lengths,
};
use crate::text::{decimal, first_index, first_index_is_first, lines, padded};
use crate::text_laws::{
    cut_at, decimals_are_written, fields_are_cut_out, line_of, padded_are_written, reads_as,
    six_decimals_are_to_the_millionth, to_the_millionth, unsigned_is_read, writes, writes_padded,
};

verus! {

/// The four bytes from `at` hold `bits`, the lowest byte first.
pub open spec fn holds_at(bytes: Seq<u8>, at: int, bits: u32) -> bool {
    bits == bytes[at] + 0x100 * bytes[at + 1] + 0x1_0000 * bytes[at + 2] + 0x100_0000 * bytes[at
        + 3]
}

/// `bytes` hold `samples` one after the other in eight bytes each, the real part first.
pub open spec fn hold(bytes: Seq<u8>, samples: Seq<IqSample>) -> bool {
    forall|i: int|
        0 <= i < samples.len() ==> holds_at(bytes, 8 * i, (#[trigger] samples[i]).re.bits)
            && holds_at(bytes, 8 * i + 4, samples[i].im.bits)
}

proof fn decoded_are_held(bytes: Seq<u8>)
    ensures
        hold(bytes, decoded(bytes)),
        decoded(bytes).len() == bytes.len() / 8,
{
    let samples = decoded(bytes);
    assert forall|i: int| 0 <= i < samples.len() implies holds_at(
        bytes,
        8 * i,
        (#[trigger] samples[i]).re.bits,
    ) && holds_at(bytes, 8 * i + 4, samples[i].im.bits) by {
        assert(samples[i] == sample_at(bytes, 8 * i));
    }
}

/// A sample file has eight bytes for each sample, with its parts in them.
pub proof fn a_sample_file_holds_the_samples(samples: &[IqSample], bytes: Vec<u8>)
    requires
        call_ensures(encode_samples, (samples,), bytes),
    ensures
        bytes@.len() == 8 * samples@.len(),
        hold(bytes@, samples@),
{
    samples_read_back(samples@, Seq::empty());
    decoded_are_held(bytes@);
}

/// From a sample file as many samples are read as it has whole groups of eight bytes, with the parts
/// that are in them.
pub proof fn the_samples_of_a_file_are_read(bytes: &[u8], samples: Vec<IqSample>)
    requires
        call_ensures(decode_samples, (bytes,), samples),
    ensures
        samples@.len() == bytes@.len() / 8,
        hold(bytes@, samples@),
{
    decoded_are_held(bytes@);
}

/// `name` is that of a recording, without its extension: `tx`, the number with at least six digits,
/// the moment and how many samples there are.
pub open spec fn names_recording(name: Seq<char>, id: int, timestamp: int, count: int) -> bool {
    exists|a: Seq<char>, b: Seq<char>, c: Seq<char>|
        name == seq!['t', 'x', '_'] + a + seq!['_'] + b + seq!['_'] + c + seq![
            's',
            'a',
            'm',
            'p',
            'l',
            'e',
            's',
        ] && #[trigger] writes_padded(a, id, 6) && #[trigger] writes(b, timestamp)
            && #[trigger] writes(c, count)
}

/// `text` is the metadata of a recording: five lines, each a key, an equals sign and a value.
pub open spec fn describes(
    text: Seq<char>,
    id: int,
    count: int,
    peak: Single,
    avg: Single,
    timestamp: int,
) -> bool {
    exists|a: Seq<char>, b: Seq<char>, p: Seq<char>, v: Seq<char>, t: Seq<char>|
        text == seq!['i', 'd', '='] + a + seq!['\n', 's', 'a', 'm', 'p', 'l', 'e', 's', '='] + b
            + seq!['\n', 'p', 'e', 'a', 'k', '='] + p + seq!['\n', 'a', 'v', 'g', '='] + v + seq![
            '\n',
            't',
            'i',
            'm',
            'e',
            's',
            't',
            'a',
            'm',
            'p',
            '=',
        ] + t + seq!['\n'] && #[trigger] writes(a, id) && #[trigger] writes(b, count)
            && #[trigger] to_the_millionth(peak, p) && #[trigger] to_the_millionth(avg, v)
            && #[trigger] writes(t, timestamp)
}

proof fn stems_name_recordings(id: u64, timestamp: u128, count: nat)
    ensures
        names_recording(
            crate::recording::stem(id, timestamp, count),
            id as int,
            timestamp as int,
            count as int,
        ),
{
    reveal_strlit("tx_");
    reveal_strlit("_");
    reveal_strlit("samples");
    let a = padded(id as nat, 6);
    let b = decimal(timestamp as nat);
    let c = decimal(count);
    padded_are_written(id as nat, 6);
    decimals_are_written(timestamp as nat);
    decimals_are_written(count);
    assert("tx_"@ =~= seq!['t', 'x', '_']);
    assert("_"@ =~= seq!['_']);
    assert("samples"@ =~= seq!['s', 'a', 'm', 'p', 'l', 'e', 's']);
    assert(writes_padded(a, id as int, 6));
    assert(writes(b, timestamp as int));
    assert(writes(c, count as int));
}

/// A transmission is saved in two files of one name. One holds the samples; the other says its number
/// and how many samples there are, its levels and the moment.
pub proof fn a_transmission_is_saved_in_two_files(
    tx: Transmission,
    timestamp: u128,
    files: RecordingFiles,
)
    requires
        call_ensures(save_transmission, (&tx, timestamp), files),
    ensures
        files.data@.len() == 8 * tx.samples@.len(),
        hold(files.data@, tx.samples@),
        exists|name: Seq<char>| #[trigger]
            names_recording(
                name,
                tx.id as int,
                timestamp as int,
                tx.samples@.len() as int,
            ) && files.file_name@ == name + seq!['.', 'i', 'q', '3', '2'] && files.meta_name@
                == name + seq!['.', 'm', 'e', 't', 'a'],
        describes(
            files.meta@,
            tx.id as int,
            tx.samples@.len() as int,
            tx.peak_level,
            tx.avg_level,
            timestamp as int,
        ),
{
    assert(tx@.samples == tx.samples@);
    let count = tx.samples@.len();
    samples_read_back(tx.samples@, Seq::empty());
    decoded_are_held(files.data@);
    stems_name_recordings(tx.id, timestamp, count);
    reveal_strlit(".iq32");
    reveal_strlit(".meta");
    assert(".iq32"@ =~= seq!['.', 'i', 'q', '3', '2']);
    assert(".meta"@ =~= seq!['.', 'm', 'e', 't', 'a']);
    metadata_describes(tx.id, count, tx.peak_level, tx.avg_level, timestamp);
}

proof fn metadata_describes(id: u64, count: nat, peak: Single, avg: Single, timestamp: u128)
    ensures
        describes(
            crate::recording::metadata_text(id, count, peak, avg, timestamp),
            id as int,
            count as int,
            peak,
            avg,
            timestamp as int,
        ),
{
    reveal_strlit("id=");
    reveal_strlit("\nsamples=");
    reveal_strlit("\npeak=");
    reveal_strlit("\navg=");
    reveal_strlit("\ntimestamp=");
    reveal_strlit("\n");
    assert("id="@ =~= seq!['i', 'd', '=']);
    assert("\nsamples="@ =~= seq!['\n', 's', 'a', 'm', 'p', 'l', 'e', 's', '=']);
    assert("\npeak="@ =~= seq!['\n', 'p', 'e', 'a', 'k', '=']);
    assert("\navg="@ =~= seq!['\n', 'a', 'v', 'g', '=']);
    assert("\ntimestamp="@ =~= seq!['\n', 't', 'i', 'm', 'e', 's', 't', 'a', 'm', 'p', '=']);
    assert("\n"@ =~= seq!['\n']);
    decimals_are_written(id as nat);
    decimals_are_written(count);
    decimals_are_written(timestamp as nat);
    six_decimals_are_to_the_millionth(peak);
    six_decimals_are_to_the_millionth(avg);
    assert(writes(decimal(id as nat), id as int));
    assert(writes(decimal(count), count as int));
    assert(writes(decimal(timestamp as nat), timestamp as int));
    assert(to_the_millionth(peak, crate::decimals::six_decimals(peak)));
    assert(to_the_millionth(avg, crate::decimals::six_decimals(avg)));
}

/// `line` is `key`, an equals sign and `value`.
pub open spec fn gives(line: Seq<char>, key: Seq<char>, value: Seq<char>) -> bool {
    line == key.push('=') + value
}

/// No line from `from` on gives a value for `key`.
pub open spec fn silent_on(all: Seq<Seq<char>>, from: int, key: Seq<char>) -> bool {
    forall|i: int, value: Seq<char>|
        from <= i < all.len() ==> !#[trigger] gives(all[i], key, value)
}

/// `id` is the number that the last line with the key gives, or 0 where it gives none that fits
/// or where there is no such line.
pub open spec fn last_number(all: Seq<Seq<char>>, key: Seq<char>, id: u64) -> bool {
    ||| silent_on(all, 0, key) && id == 0
    ||| exists|i: int, value: Seq<char>, read: Option<int>|
        0 <= i < all.len() && #[trigger] gives(all[i], key, value) && silent_on(all, i + 1, key)
            && #[trigger] reads_as(value, 0xFFFF_FFFF_FFFF_FFFF, read) && id == match read {
            Some(n) => n,
            None => 0,
        }
}

/// `level` is the number that the last line with the key gives, or zero where it gives none or where
/// there is no such line.
pub open spec fn last_level<A: Arithmetic>(
    arith: &A,
    all: Seq<Seq<char>>,
    key: Seq<char>,
    level: Single,
) -> bool {
    ||| silent_on(all, 0, key) && level.bits == 0
    ||| exists|i: int, value: Seq<char>|
        0 <= i < all.len() && #[trigger] gives(all[i], key, value) && silent_on(all, i + 1, key)
            && number_in(arith, value, level)
}

/// `level` is the number that `value` is parsed as, or zero where it is none.
pub open spec fn number_in<A: Arithmetic>(arith: &A, value: Seq<char>, level: Single) -> bool {
    exists|text: &str, read: Option<Single>|
        text@ == value && #[trigger] call_ensures(A::parse, (arith, text), read) && match read {
            Some(v) => level == v,
            None => level.bits == 0,
        }
}

proof fn given_by_the_line(line: Seq<char>, key: Seq<char>, value: Seq<char>)
    requires
        !key.contains('='),
        gives(line, key, value),
    ensures
        first_index(line, '=') == key.len(),
        first_index(line, '=') < line.len(),
        line.take(first_index(line, '=') as int) == key,
        line.skip(first_index(line, '=') as int + 1) == value,
{
    first_index_is_first(line, '=');
    let at = first_index(line, '=') as int;
    let k = key.len() as int;
    assert(line[k] == '=');
    if at < k {
        assert(line[at] == key[at]);
        assert(key.contains('='));
    }
    assert(line.take(k) =~= key);
    assert(line.skip(k + 1) =~= value);
}

proof fn the_line_gives(line: Seq<char>)
    requires
        first_index(line, '=') < line.len(),
    ensures
        gives(
            line,
            line.take(first_index(line, '=') as int),
            line.skip(first_index(line, '=') as int + 1),
        ),
{
    first_index_is_first(line, '=');
    let at = first_index(line, '=') as int;
    assert(line =~= line.take(at).push('=') + line.skip(at + 1));
}

/// A line gives a value for `key` if and only if that is what stands before its first equals sign.
proof fn keyed_lines(line: Seq<char>, key: Seq<char>)
    requires
        !key.contains('='),
    ensures
        ({
            let at = first_index(line, '=') as int;
            let keyed = at < line.len() && line.take(at) == key;
            &&& keyed ==> gives(line, key, line.skip(at + 1))
            &&& !keyed ==> forall|value: Seq<char>| !#[trigger] gives(line, key, value)
        }),
{
    let at = first_index(line, '=') as int;
    first_index_is_first(line, '=');
    if at < line.len() && line.take(at) == key {
        the_line_gives(line);
    } else {
        assert forall|value: Seq<char>| !#[trigger] gives(line, key, value) by {
            if gives(line, key, value) {
                given_by_the_line(line, key, value);
            }
        }
    }
}

proof fn silent_before(all: Seq<Seq<char>>, from: int, key: Seq<char>)
    requires
        all.len() > 0,
        from >= 0,
        silent_on(all.drop_last(), from, key),
        forall|value: Seq<char>| !#[trigger] gives(all.last(), key, value),
    ensures
        silent_on(all, from, key),
{
    assert forall|i: int, value: Seq<char>| from <= i < all.len() implies !#[trigger] gives(
        all[i],
        key,
        value,
    ) by {
        if i < all.len() - 1 {
            assert(all.drop_last()[i] == all[i]);
            assert(!gives(all.drop_last()[i], key, value));
        } else {
            assert(all[i] == all.last());
        }
    }
}

proof fn still_last_number(all: Seq<Seq<char>>, key: Seq<char>, id: u64)
    requires
        all.len() > 0,
        last_number(all.drop_last(), key, id),
        forall|value: Seq<char>| !#[trigger] gives(all.last(), key, value),
    ensures
        last_number(all, key, id),
{
    let fewer = all.drop_last();
    if silent_on(fewer, 0, key) && id == 0 {
        silent_before(all, 0, key);
    } else {
        let (i, value, read) = choose|i: int, value: Seq<char>, read: Option<int>|
            0 <= i < fewer.len() && #[trigger] gives(fewer[i], key, value) && silent_on(
                fewer,
                i + 1,
                key,
            ) && #[trigger] reads_as(value, 0xFFFF_FFFF_FFFF_FFFF, read) && id == match read {
                Some(n) => n,
                None => 0,
            };
        silent_before(all, i + 1, key);
        assert(gives(all[i], key, value));
        assert(reads_as(value, 0xFFFF_FFFF_FFFF_FFFF, read));
    }
}

proof fn still_last_level<A: Arithmetic>(
    arith: &A,
    all: Seq<Seq<char>>,
    key: Seq<char>,
    level: Single,
)
    requires
        all.len() > 0,
        last_level(arith, all.drop_last(), key, level),
        forall|value: Seq<char>| !#[trigger] gives(all.last(), key, value),
    ensures
        last_level(arith, all, key, level),
{
    let fewer = all.drop_last();
    if silent_on(fewer, 0, key) && level.bits == 0 {
        silent_before(all, 0, key);
    } else {
        let (i, value) = choose|i: int, value: Seq<char>|
            0 <= i < fewer.len() && #[trigger] gives(fewer[i], key, value) && silent_on(
                fewer,
                i + 1,
                key,
            ) && number_in(arith, value, level);
        silent_before(all, i + 1, key);
        assert(gives(all[i], key, value));
    }
}

proof fn now_last_level<A: Arithmetic>(
    arith: &A,
    all: Seq<Seq<char>>,
    key: Seq<char>,
    value: Seq<char>,
    level: Single,
)
    requires
        all.len() > 0,
        gives(all.last(), key, value),
        level_read(arith, value, level),
    ensures
        last_level(arith, all, key, level),
{
    let read = choose|read: Option<Single>| #[trigger]
        parsed(arith, value, read) && level == match read {
            Some(v) => v,
            None => crate::signal::zero(),
        };
    let text = choose|text: &str| text@ == value && #[trigger] call_ensures(
        A::parse,
        (arith, text),
        read,
    );
    assert(call_ensures(A::parse, (arith, text), read));
    assert(number_in(arith, value, level));
    assert(gives(all[all.len() - 1], key, value));
    assert(silent_on(all, all.len() as int, key));
}

#[verifier::rlimit(40)]
proof fn lines_give_the_last<A: Arithmetic>(arith: &A, all: Seq<Seq<char>>, read: LoadedMetadata)
    requires
        lines_read(arith, all, read),
    ensures
        last_number(all, seq!['i', 'd'], read.id),
        last_level(arith, all, seq!['p', 'e', 'a', 'k'], read.peak_level),
        last_level(arith, all, seq!['a', 'v', 'g'], read.avg_level),
    decreases all.len(),
{
    let id = seq!['i', 'd'];
    let peak = seq!['p', 'e', 'a', 'k'];
    let avg = seq!['a', 'v', 'g'];
    if all.len() > 0 {
        let mid = choose|mid: LoadedMetadata| #[trigger]
            line_read(arith, all.last(), mid, read) && lines_read(arith, all.drop_last(), mid);
        lines_give_the_last(arith, all.drop_last(), mid);
        reveal_strlit("id");
        reveal_strlit("peak");
        reveal_strlit("avg");
        assert("id"@ =~= id);
        assert("peak"@ =~= peak);
        assert("avg"@ =~= avg);
        assert(id.len() == 2 && peak.len() == 4 && avg.len() == 3);
        let line = all.last();
        let at = first_index(line, '=') as int;
        first_index_is_first(line, '=');
        keyed_lines(line, id);
        keyed_lines(line, peak);
        keyed_lines(line, avg);
        let value = line.skip(at + 1);
        if at < line.len() && line.take(at) == id {
            unsigned_is_read(value, u64::MAX as nat);
            let got: Option<int> = match crate::text::unsigned(value, u64::MAX as nat) {
                Some(n) => Some(n as int),
                None => None,
            };
            assert(read.id == id_read(value));
            assert(reads_as(value, 0xFFFF_FFFF_FFFF_FFFF, got));
            assert(gives(all[all.len() - 1], id, value));
            assert(silent_on(all, all.len() as int, id));
            assert(last_number(all, id, read.id));
        } else {
            still_last_number(all, id, mid.id);
        }
        if at < line.len() && line.take(at) == peak {
            now_last_level(arith, all, peak, value, read.peak_level);
        } else {
            still_last_level(arith, all, peak, mid.peak_level);
        }
        if at < line.len() && line.take(at) == avg {
            now_last_level(arith, all, avg, value, read.avg_level);
        } else {
            still_last_level(arith, all, avg, mid.avg_level);
        }
    }
}

/// `all` are the lines of `text`: what stands between line feeds, without carriage returns before
/// them, and what comes after the last, if it is anything.
pub open spec fn lines_in(text: Seq<char>, all: Seq<Seq<char>>) -> bool {
    exists|pieces: Seq<Seq<char>>| #[trigger]
        cut_at(text, '\n', pieces) && all.len() == pieces.len() - (if pieces.last().len() == 0 {
            1int
        } else {
            0
        }) && (forall|i: int|
            0 <= i < pieces.len() - 1 ==> line_of(pieces[i], #[trigger] all[i])) && (
        pieces.last().len() > 0 ==> all[pieces.len() - 1] == pieces.last())
}

proof fn lines_are_in_the_text(text: Seq<char>)
    ensures
        lines_in(text, lines(text)),
{
    let pieces = crate::text::fields(text, '\n');
    fields_are_cut_out(text, '\n');
    let all = lines(text);
    assert forall|i: int| 0 <= i < pieces.len() - 1 implies line_of(
        pieces[i],
        #[trigger] all[i],
    ) by {
        let piece = pieces[i];
        if piece.len() > 0 && piece.last() == '\r' {
            assert(piece =~= piece.drop_last().push('\r'));
        }
    }
    assert(cut_at(text, '\n', pieces));
}

/// `r` is what metadata says: of each key the last line counts, and what is not said or cannot be
/// read is zero.
pub open spec fn says<A: Arithmetic>(arith: &A, text: Seq<char>, r: LoadedMetadata) -> bool {
    exists|all: Seq<Seq<char>>| #[trigger]
        lines_in(text, all) && last_number(all, seq!['i', 'd'], r.id) && last_level(
            arith,
            all,
            seq!['p', 'e', 'a', 'k'],
            r.peak_level,
        ) && last_level(arith, all, seq!['a', 'v', 'g'], r.avg_level)
}

proof fn lines_say<A: Arithmetic>(arith: &A, text: Seq<char>, r: LoadedMetadata)
    requires
        lines_read(arith, lines(text), r),
    ensures
        says(arith, text, r),
{
    lines_are_in_the_text(text);
    lines_give_the_last(arith, lines(text), r);
}

/// Metadata is read line by line; of a key that is given twice the last value counts.
pub proof fn metadata_goes_by_the_last_of_each_key<A: Arithmetic>(
    arith: &A,
    text: &str,
    r: LoadedMetadata,
)
    requires
        call_ensures(parse_metadata::<A>, (arith, text), r),
    ensures
        says(arith, text@, r),
{
    lines_say(arith, text@, r);
}

/// A recording is loaded with the samples in its file. What it is besides, its metadata says; where
/// that cannot be read, its number and levels are zero; where there is none, the number is zero and
/// the levels are measured.
pub proof fn a_recording_is_loaded_by_its_files<A: Arithmetic>(
    arith: &A,
    bytes: &[u8],
    meta: MetaSource,
    tx: Transmission,
)
    requires
        call_ensures(load_transmission::<A>, (arith, bytes, &meta), tx),
    ensures
        tx.samples@.len() == bytes@.len() / 8,
        hold(bytes@, tx.samples@),
        tx.start_sample == 0,
        meta matches MetaSource::Text(text) ==> says(
            arith,
            text@,
            LoadedMetadata { id: tx.id, peak_level: tx.peak_level, avg_level: tx.avg_level },
        ),
        meta is Unreadable ==> tx.id == 0 && tx.peak_level.bits == 0 && tx.avg_level.bits == 0,
        meta is Missing ==> tx.id == 0 && exists|levels: Seq<Single>, total: Single|
            vector_lengths(arith, tx.samples@, levels) && tops(levels, tx.peak_level)
                && #[trigger] running_sum(arith, Single { bits: 0 }, levels, total) && divided_by(
                arith,
                total,
                if tx.samples@.len() == 0 {
                    1
                } else {
                    tx.samples@.len()
                },
                tx.avg_level,
            ),
{
    assert(tx@.samples == tx.samples@);
    decoded_are_held(bytes@);
    match meta {
        MetaSource::Text(text) => {
            lines_say(
                arith,
                text@,
                LoadedMetadata { id: tx.id, peak_level: tx.peak_level, avg_level: tx.avg_level },
            );
        },
        MetaSource::Missing => {
            assert(levels_measured(arith, tx.samples@, tx.peak_level, tx.avg_level));
            let (levels, total) = choose|levels: Seq<Single>, total: Single|
                levels_of(arith, tx.samples@, levels) && tx.peak_level == crate::arith::largest(
                    crate::signal::zero(),
                    levels,
                ) && #[trigger] running_sum(arith, crate::signal::zero(), levels, total) && mean_of(
                    arith,
                    total,
                    crate::recording::at_least_one(levels.len()),
                    tx.avg_level,
                );
            levels_are_vector_lengths(arith, tx.samples@, levels);
            the_largest_tops(levels);
            let n: nat = if levels.len() == 0 {
                1
            } else {
                levels.len()
            };
            mean_is_divided(arith, total, n, tx.avg_level);
            assert(running_sum(arith, Single { bits: 0 }, levels, total));
        },
        MetaSource::Unreadable => {},
    }
}

/// A recorder begins with nothing recorded, in the directory it is given.
pub proof fn a_recorder_begins_at_zero(dir: String, recorder: Recorder, n: u64, d: &String)
    requires
        call_ensures(Recorder::new, (dir,), recorder),
        call_ensures(Recorder::count, (&recorder,), n),
        call_ensures(Recorder::output_dir, (&recorder,), d),
    ensures
        n == 0,
        d@ == dir@,
{
}

/// What was saved counts, what failed does not, and the outcome is handed back as it is.
pub proof fn what_was_saved_counts<P, E>(
    recorder: &mut Recorder,
    saved: Result<P, E>,
    r: Result<P, E>,
    before: Recorder,
    after: Recorder,
    n: u64,
    m: u64,
    from: &String,
    to: &String,
)
    requires
        before == *old(recorder),
        after == *final(recorder),
        call_ensures(Recorder::count, (&before,), n),
        call_ensures(Recorder::output_dir, (&before,), from),
        call_ensures(Recorder::record::<P, E>, (recorder, saved), r),
        call_ensures(Recorder::count, (&after,), m),
        call_ensures(Recorder::output_dir, (&after,), to),
    ensures
        r == saved,
        saved is Ok ==> m == n + 1,
        saved is Err ==> m == n,
        to@ == from@,
{
}

} // verus!
