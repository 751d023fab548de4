//! What a recording gives back of the transmission that was saved.
use vstd::prelude::*;

use crate::arith::{Arithmetic, Single};
use crate::decimals::{six_decimals, six_decimals_stay_on_the_line};
use crate::detector::Frame;
use crate::recording::{
    bits_at, decoded, encoded, files_of, id_read, level_read, line_read, lines_read, little_endian,
    loaded, metadata_text, sample_at, LoadedMetadata, MetaSource, RecordingFiles,
};
use crate::signal::IqSample;
use crate::text::{
    decimal, decimal_is_digits, decimal_reads_back, fields, first_field, first_index, is_digit,
    lines, one_field, without_return,
};

verus! {

/// Four bytes give back the bit pattern that they were made of.
proof fn bits_read_back(bytes: Seq<u8>, at: int, bits: u32)
    requires
        0 <= at,
        at + 4 <= bytes.len(),
        bytes.subrange(at, at + 4) == little_endian(bits),
    ensures
        bits_at(bytes, at) == bits,
{
    let four = bytes.subrange(at, at + 4);
    assert(bytes[at] == four[0]);
    assert(bytes[at + 1] == four[1]);
    assert(bytes[at + 2] == four[2]);
    assert(bytes[at + 3] == four[3]);
}

/// A bit pattern gives back the four bytes that it was made of.
proof fn bits_written_back(bytes: Seq<u8>, at: int)
    requires
        0 <= at,
        at + 4 <= bytes.len(),
    ensures
        little_endian(bits_at(bytes, at)) == bytes.subrange(at, at + 4),
{
    let a = bytes[at] as int;
    let b = bytes[at + 1] as int;
    let c = bytes[at + 2] as int;
    let d = bytes[at + 3] as int;
    let bits = a + 256 * b + 65536 * c + 16777216 * d;
    assert(0 <= bits <= u32::MAX);
    assert(bits_at(bytes, at) == bits);
    assert(bits % 256 == a);
    assert(bits / 256 == b + 256 * c + 65536 * d);
    assert(bits / 65536 == c + 256 * d);
    assert(bits / 16777216 == d);
    assert(little_endian(bits_at(bytes, at)) =~= bytes.subrange(at, at + 4));
}

/// Samples take eight bytes each, and those of sample `i` hold it.
proof fn encoded_holds(samples: Seq<IqSample>, tail: Seq<u8>)
    ensures
        encoded(samples).len() == 8 * samples.len(),
        forall|i: int|
            0 <= i < samples.len() ==> sample_at(encoded(samples) + tail, 8 * i)
                == #[trigger] samples[i],
    decreases samples.len(),
{
    if samples.len() > 0 {
        let before = samples.drop_last();
        let re = little_endian(samples.last().re.bits);
        let im = little_endian(samples.last().im.bits);
        encoded_holds(before, re + im + tail);
        let all = encoded(samples) + tail;
        assert(all =~= encoded(before) + (re + im + tail));
        let n = 8 * before.len() as int;
        assert(all.subrange(n, n + 4) =~= re);
        assert(all.subrange(n + 4, n + 8) =~= im);
        bits_read_back(all, n, samples.last().re.bits);
        bits_read_back(all, n + 4, samples.last().im.bits);
        assert forall|i: int| 0 <= i < samples.len() implies sample_at(all, 8 * i)
            == #[trigger] samples[i] by {
            if i < before.len() {
                assert(before[i] == samples[i]);
            }
        }
    }
}

/// Decoding gives back the samples that were encoded, bit for bit, also if up to seven bytes that
/// make up no whole sample come after them.
pub proof fn samples_read_back(samples: Seq<IqSample>, tail: Seq<u8>)
    requires
        tail.len() < 8,
    ensures
        decoded(encoded(samples) + tail) == samples,
        decoded(encoded(samples)) == samples,
        encoded(samples).len() == 8 * samples.len(),
{
    encoded_holds(samples, tail);
    assert(decoded(encoded(samples) + tail) =~= samples);
    encoded_holds(samples, Seq::empty());
    assert(encoded(samples) + Seq::<u8>::empty() =~= encoded(samples));
    assert(decoded(encoded(samples)) =~= samples);
}

/// Encoding gives back the bytes that were decoded, but for those that make up no whole sample.
pub proof fn bytes_written_back(bytes: Seq<u8>)
    ensures
        encoded(decoded(bytes)) == bytes.take(8 * (bytes.len() / 8) as int),
    decreases bytes.len(),
{
    let n = (bytes.len() / 8) as int;
    let whole = bytes.take(8 * n);
    let all = decoded(bytes);
    if n == 0 {
        assert(all.len() == 0);
        assert(whole =~= Seq::<u8>::empty());
    } else {
        let at = 8 * (n - 1);
        let fewer = bytes.take(at);
        bytes_written_back(fewer);
        assert(fewer.len() / 8 == n - 1);
        assert(fewer.take(at) =~= fewer);
        assert forall|i: int| 0 <= i < n - 1 implies #[trigger] all[i] == decoded(fewer)[i] by {
            assert(sample_at(bytes, 8 * i) == sample_at(fewer, 8 * i));
        }
        assert(all.drop_last() =~= decoded(fewer));
        bits_written_back(bytes, at);
        bits_written_back(bytes, at + 4);
        assert(all.last() == sample_at(bytes, at));
        assert(fewer + bytes.subrange(at, at + 4) + bytes.subrange(at + 4, at + 8) =~= whole);
    }
}

/// Text that can be a value in metadata: it has no line ending in it.
pub open spec fn one_line(text: Seq<char>) -> bool {
    !text.contains('\n') && !text.contains('\r')
}

/// A key before an equals sign, and the value after it.
proof fn key_and_value(key: Seq<char>, value: Seq<char>)
    requires
        !key.contains('='),
    ensures
        first_index(key + seq!['='] + value, '=') == key.len(),
        (key + seq!['='] + value).take(key.len() as int) == key,
        (key + seq!['='] + value).skip(key.len() as int + 1) == value,
    decreases key.len(),
{
    let line = key + seq!['='] + value;
    assert(line.take(key.len() as int) =~= key);
    assert(line.skip(key.len() as int + 1) =~= value);
    if key.len() > 0 {
        let rest = key.drop_first();
        assert(line.drop_first() =~= rest + seq!['='] + value);
        assert(key[0] != '=') by {
            assert(key.contains(key[0]));
        }
        assert forall|i: int| 0 <= i < rest.len() implies rest[i] != '=' by {
            assert(rest[i] == key[i + 1]);
            assert(key.contains(key[i + 1]));
        }
        key_and_value(rest, value);
    }
}

/// A line of metadata holds no line ending.
proof fn line_is_one_line(key: Seq<char>, value: Seq<char>)
    requires
        one_line(key),
        one_line(value),
    ensures
        one_line(key + seq!['='] + value),
        (key + seq!['='] + value).len() > 0,
        without_return(key + seq!['='] + value) == key + seq!['='] + value,
{
    let line = key + seq!['='] + value;
    assert forall|i: int| 0 <= i < line.len() implies line[i] != '\n' && line[i] != '\r' by {
        if i < key.len() {
            assert(key.contains(key[i]));
        } else if i > key.len() {
            assert(value.contains(value[i - key.len() - 1]));
        }
    }
}

proof fn decimal_is_one_line(n: nat)
    ensures
        one_line(decimal(n)),
{
    decimal_is_digits(n);
    let text = decimal(n);
    assert forall|i: int| 0 <= i < text.len() implies text[i] != '\n' && text[i] != '\r' by {
        assert(is_digit(text[i]));
    }
}

/// The keys of metadata.
spec fn meta_line(key: &str, value: Seq<char>) -> Seq<char> {
    key@ + seq!['='] + value
}

/// Lines that each end in a line feed are the lines of the text.
#[verifier::rlimit(40)]
proof fn lines_of_five(a: Seq<char>, b: Seq<char>, c: Seq<char>, d: Seq<char>, e: Seq<char>)
    requires
        one_line(a),
        one_line(b),
        one_line(c),
        one_line(d),
        one_line(e),
    ensures
        lines(
            a.push('\n') + (b.push('\n') + (c.push('\n') + (d.push('\n') + (e.push('\n')
                + Seq::empty())))),
        ) == seq![a, b, c, d, e],
{
    let none = Seq::<char>::empty();
    one_field(none, '\n');
    let t4 = e.push('\n') + none;
    let t3 = d.push('\n') + t4;
    let t2 = c.push('\n') + t3;
    let t1 = b.push('\n') + t2;
    first_field(e, '\n', none);
    first_field(d, '\n', t4);
    first_field(c, '\n', t3);
    first_field(b, '\n', t2);
    first_field(a, '\n', t1);
    let all = fields(a.push('\n') + t1, '\n');
    assert(all =~= seq![a, b, c, d, e, none]);
    assert(no_return(a) && no_return(b) && no_return(c) && no_return(d) && no_return(e));
    assert(lines(a.push('\n') + t1) =~= seq![a, b, c, d, e]);
}

spec fn no_return(line: Seq<char>) -> bool {
    without_return(line) == line
}

/// The lines of the metadata of a recording.
#[verifier::rlimit(40)]
proof fn lines_of_metadata(
    id: u64,
    count: nat,
    peak: Single,
    avg: Single,
    timestamp: u128,
)
    ensures
        lines(metadata_text(id, count, peak, avg, timestamp)) == seq![
            meta_line("id", decimal(id as nat)),
            meta_line("samples", decimal(count)),
            meta_line("peak", six_decimals(peak)),
            meta_line("avg", six_decimals(avg)),
            meta_line("timestamp", decimal(timestamp as nat)),
        ],
{
    reveal_strlit("id");
    reveal_strlit("samples");
    reveal_strlit("peak");
    reveal_strlit("avg");
    reveal_strlit("timestamp");
    reveal_strlit("id=");
    reveal_strlit("\nsamples=");
    reveal_strlit("\npeak=");
    reveal_strlit("\navg=");
    reveal_strlit("\ntimestamp=");
    reveal_strlit("\n");
    decimal_is_one_line(id as nat);
    decimal_is_one_line(count);
    decimal_is_one_line(timestamp as nat);
    six_decimals_stay_on_the_line(peak);
    six_decimals_stay_on_the_line(avg);
    let a = meta_line("id", decimal(id as nat));
    let b = meta_line("samples", decimal(count));
    let c = meta_line("peak", six_decimals(peak));
    let d = meta_line("avg", six_decimals(avg));
    let e = meta_line("timestamp", decimal(timestamp as nat));
    line_is_one_line("id"@, decimal(id as nat));
    line_is_one_line("samples"@, decimal(count));
    line_is_one_line("peak"@, six_decimals(peak));
    line_is_one_line("avg"@, six_decimals(avg));
    line_is_one_line("timestamp"@, decimal(timestamp as nat));
    lines_of_five(a, b, c, d, e);
    assert("id="@ =~= "id"@ + seq!['=']);
    assert("\nsamples="@ =~= "\n"@ + "samples"@ + seq!['=']);
    assert("\npeak="@ =~= "\n"@ + "peak"@ + seq!['=']);
    assert("\navg="@ =~= "\n"@ + "avg"@ + seq!['=']);
    assert("\ntimestamp="@ =~= "\n"@ + "timestamp"@ + seq!['=']);
    assert("\n"@ =~= seq!['\n']);
    assert(metadata_text(id, count, peak, avg, timestamp) =~= a.push('\n') + (b.push('\n') + (
    c.push('\n') + (d.push('\n') + (e.push('\n') + Seq::empty())))));
}

/// Metadata that was written for a recording gives back its number, and its levels as they are read
/// from six decimals.
#[verifier::rlimit(40)]
pub proof fn metadata_reads_back<A: Arithmetic>(
    arith: &A,
    id: u64,
    count: nat,
    peak: Single,
    avg: Single,
    timestamp: u128,
    read: LoadedMetadata,
)
    requires
        lines_read(arith, lines(metadata_text(id, count, peak, avg, timestamp)), read),
    ensures
        read.id == id,
        level_read(arith, six_decimals(peak), read.peak_level),
        level_read(arith, six_decimals(avg), read.avg_level),
{
    lines_of_metadata(id, count, peak, avg, timestamp);
    reveal_strlit("id");
    reveal_strlit("samples");
    reveal_strlit("peak");
    reveal_strlit("avg");
    reveal_strlit("timestamp");
    let l0 = meta_line("id", decimal(id as nat));
    let l1 = meta_line("samples", decimal(count));
    let l2 = meta_line("peak", six_decimals(peak));
    let l3 = meta_line("avg", six_decimals(avg));
    let l4 = meta_line("timestamp", decimal(timestamp as nat));
    let all = seq![l0, l1, l2, l3, l4];
    key_and_value("id"@, decimal(id as nat));
    key_and_value("samples"@, decimal(count));
    key_and_value("peak"@, six_decimals(peak));
    key_and_value("avg"@, six_decimals(avg));
    key_and_value("timestamp"@, decimal(timestamp as nat));
    decimal_reads_back(id as nat, u64::MAX as nat);
    assert(id_read(decimal(id as nat)) == id);
    let m4 = choose|mid: LoadedMetadata| #[trigger]
        line_read(arith, all.last(), mid, read) && lines_read(arith, all.drop_last(), mid);
    let s4 = all.drop_last();
    assert(s4 =~= seq![l0, l1, l2, l3]);
    let m3 = choose|mid: LoadedMetadata| #[trigger]
        line_read(arith, s4.last(), mid, m4) && lines_read(arith, s4.drop_last(), mid);
    let s3 = s4.drop_last();
    assert(s3 =~= seq![l0, l1, l2]);
    let m2 = choose|mid: LoadedMetadata| #[trigger]
        line_read(arith, s3.last(), mid, m3) && lines_read(arith, s3.drop_last(), mid);
    let s2 = s3.drop_last();
    assert(s2 =~= seq![l0, l1]);
    let m1 = choose|mid: LoadedMetadata| #[trigger]
        line_read(arith, s2.last(), mid, m2) && lines_read(arith, s2.drop_last(), mid);
    let s1 = s2.drop_last();
    assert(s1 =~= seq![l0]);
    let m0 = choose|mid: LoadedMetadata| #[trigger]
        line_read(arith, s1.last(), mid, m1) && lines_read(arith, s1.drop_last(), mid);
    assert("id"@.len() == 2 && "samples"@.len() == 7 && "peak"@.len() == 4 && "avg"@.len() == 3
        && "timestamp"@.len() == 9);
    assert(line_read(arith, l0, m0, m1));
    assert(m1.id == id);
    assert(line_read(arith, l1, m1, m2));
    assert(m2 == m1);
    assert(line_read(arith, l2, m2, m3));
    assert(line_read(arith, l3, m3, m4));
    assert(line_read(arith, l4, m4, read));
}

/// Loading the files of a saved transmission gives it back: its samples bit for bit, its number, and
/// its levels as they are read from six decimals. Only the position in the stream is not kept.
pub proof fn saved_loads_back<A: Arithmetic>(
    arith: &A,
    frame: Frame,
    timestamp: u128,
    files: RecordingFiles,
    again: Frame,
)
    requires
        files_of(frame, timestamp, files),
        loaded(arith, files.data@, MetaSource::Text(files.meta), again),
    ensures
        again.samples == frame.samples,
        again.id == frame.id,
        again.start_sample == 0,
        level_read(arith, six_decimals(frame.peak_level), again.peak_level),
        level_read(arith, six_decimals(frame.avg_level), again.avg_level),
{
    samples_read_back(frame.samples, Seq::empty());
    metadata_reads_back(
        arith,
        frame.id,
        frame.samples.len(),
        frame.peak_level,
        frame.avg_level,
        timestamp,
        (LoadedMetadata {
            id: again.id,
            peak_level: again.peak_level,
            avg_level: again.avg_level,
        }),
    );
}

} // verus!
