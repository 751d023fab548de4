//! Recorded transmissions: the `.iq32` sample file, its name, and the `.meta` text beside it.
use vstd::prelude::*;
use vstd::string::{StrSliceExecFns, StringExecFns};

use crate::arith::{largest, parsed, running_sum, running_sum_push, Arithmetic, Single};
use crate::decimals::{append_six_decimals, six_decimals};
use crate::detector::{Frame, Transmission};
use crate::signal::{
    levels_of, levels_push, mean, mean_of, sample_magnitude, zero, IqSample,
};
use crate::text::{
    append_decimal, append_padded, contents, decimal, find_char, first_index, lines, padded,
    parse_unsigned, same_text, split_lines, unsigned,
};

verus! {

/// Size of a sample in a `.iq32` file: two single-precision numbers.
pub const SAMPLE_BYTES: usize = 8;

/// Metadata for a recorded transmission.
#[derive(Clone, Copy, Debug)]
pub struct RecordingMetadata {
    pub id: u64,
    pub sample_count: usize,
    pub peak_level: Single,
    pub avg_level: Single,
    pub timestamp_ms: u64,
}

/// The four bytes of a bit pattern, the lowest first.
pub open spec fn little_endian(bits: u32) -> Seq<u8> {
    seq![
        (bits % 256) as u8,
        (bits / 256 % 256) as u8,
        (bits / 65536 % 256) as u8,
        (bits / 16777216) as u8,
    ]
}

/// The bit pattern of the four bytes from `at`, the lowest first.
pub open spec fn bits_at(bytes: Seq<u8>, at: int) -> u32 {
    (bytes[at] + 256 * bytes[at + 1] + 65536 * bytes[at + 2] + 16777216 * bytes[at + 3]) as u32
}

/// The sample in the eight bytes from `at`.
pub open spec fn sample_at(bytes: Seq<u8>, at: int) -> IqSample {
    IqSample {
        re: Single { bits: bits_at(bytes, at) },
        im: Single { bits: bits_at(bytes, at + 4) },
    }
}

/// The bytes of `samples`: of each the real part and then the imaginary part.
pub open spec fn encoded(samples: Seq<IqSample>) -> Seq<u8>
    decreases samples.len(),
{
    if samples.len() == 0 {
        Seq::empty()
    } else {
        encoded(samples.drop_last()) + little_endian(samples.last().re.bits) + little_endian(
            samples.last().im.bits,
        )
    }
}

/// The samples that `bytes` hold; bytes that make up no whole sample are left out.
pub open spec fn decoded(bytes: Seq<u8>) -> Seq<IqSample> {
    Seq::new(bytes.len() / SAMPLE_BYTES as nat, |i: int| sample_at(bytes, SAMPLE_BYTES * i))
}

fn push_bits(out: &mut Vec<u8>, bits: u32)
    ensures
        final(out)@ == old(out)@ + little_endian(bits),
{
    out.push((bits % 256) as u8);
    out.push((bits / 256 % 256) as u8);
    out.push((bits / 65536 % 256) as u8);
    out.push((bits / 16777216) as u8);
    assert(out@ =~= old(out)@ + little_endian(bits));
}

/// The bytes of a `.iq32` file with `samples`.
pub fn encode_samples(samples: &[IqSample]) -> (bytes: Vec<u8>)
    ensures
        bytes@ == encoded(samples@),
{
    let mut bytes: Vec<u8> = Vec::new();
    let mut i: usize = 0;
    assert(samples@.take(0) =~= Seq::<IqSample>::empty());
    while i < samples.len()
        invariant
            i <= samples@.len(),
            bytes@ == encoded(samples@.take(i as int)),
        decreases samples@.len() - i,
    {
        assert(samples@.take(i + 1).drop_last() =~= samples@.take(i as int));
        push_bits(&mut bytes, samples[i].re.bits);
        push_bits(&mut bytes, samples[i].im.bits);
        i = i + 1;
    }
    assert(samples@.take(i as int) =~= samples@);
    bytes
}

fn read_bits(bytes: &[u8], at: usize) -> (bits: u32)
    requires
        at + 4 <= bytes@.len(),
    ensures
        bits == bits_at(bytes@, at as int),
{
    bytes[at] as u32 + 256 * bytes[at + 1] as u32 + 65536 * bytes[at + 2] as u32 + 16777216
        * bytes[at + 3] as u32
}

/// The samples in the bytes of a `.iq32` file.
pub fn decode_samples(bytes: &[u8]) -> (samples: Vec<IqSample>)
    ensures
        samples@ == decoded(bytes@),
{
    let length: usize = bytes.len();
    let count: usize = length / SAMPLE_BYTES;
    let mut samples: Vec<IqSample> = Vec::new();
    let mut i: usize = 0;
    while i < count
        invariant
            length == bytes@.len(),
            count == length / 8,
            i <= count,
            samples@.len() == i,
            forall|j: int|
                0 <= j < i ==> #[trigger] samples@[j] == sample_at(bytes@, SAMPLE_BYTES * j),
        decreases count - i,
    {
        assert(8 * (i + 1) <= length);
        let at: usize = SAMPLE_BYTES * i;
        samples.push(
            IqSample {
                re: Single { bits: read_bits(bytes, at) },
                im: Single { bits: read_bits(bytes, at + 4) },
            },
        );
        i = i + 1;
    }
    assert(samples@ =~= decoded(bytes@));
    samples
}

/// The name that the files of a recording have in common.
pub open spec fn stem(id: u64, timestamp: u128, count: nat) -> Seq<char> {
    "tx_"@ + padded(id as nat, 6) + "_"@ + decimal(timestamp as nat) + "_"@ + decimal(count)
        + "samples"@
}

/// The metadata of a recording.
pub open spec fn metadata_text(
    id: u64,
    count: nat,
    peak: Single,
    avg: Single,
    timestamp: u128,
) -> Seq<char> {
    "id="@ + decimal(id as nat) + "\nsamples="@ + decimal(count) + "\npeak="@ + six_decimals(peak)
        + "\navg="@ + six_decimals(avg) + "\ntimestamp="@ + decimal(timestamp as nat) + "\n"@
}

/// What is written for a transmission: two files, each with its name.
pub struct RecordingFiles {
    pub file_name: String,
    pub data: Vec<u8>,
    pub meta_name: String,
    pub meta: String,
}

/// `files` are those of `frame` at `timestamp`.
pub open spec fn files_of(frame: Frame, timestamp: u128, files: RecordingFiles) -> bool {
    let count = frame.samples.len();
    &&& files.file_name@ == stem(frame.id, timestamp, count) + ".iq32"@
    &&& files.data@ == encoded(frame.samples)
    &&& files.meta_name@ == stem(frame.id, timestamp, count) + ".meta"@
    &&& files.meta@ == metadata_text(
        frame.id,
        count,
        frame.peak_level,
        frame.avg_level,
        timestamp,
    )
}

fn append_stem(out: &mut String, id: u64, timestamp: u128, count: usize)
    ensures
        final(out)@ == old(out)@ + stem(id, timestamp, count as nat),
{
    out.append("tx_");
    append_padded(out, id as u128, 6);
    out.append("_");
    append_decimal(out, timestamp);
    out.append("_");
    append_decimal(out, count as u128);
    out.append("samples");
    assert(out@ =~= old(out)@ + stem(id, timestamp, count as nat));
}

/// Lay out the files that save a transmission at a moment given in milliseconds.
///
/// File format: .iq32 (interleaved 32-bit float I/Q samples).
/// Filename: tx_{id}_{timestamp}_{samples}.iq32
pub fn save_transmission(transmission: &Transmission, timestamp: u128) -> (files: RecordingFiles)
    ensures
        files_of(transmission@, timestamp, files),
{
    let count: usize = transmission.samples.len();
    let id: u64 = transmission.id;
    let mut file_name = String::new();
    append_stem(&mut file_name, id, timestamp, count);
    file_name.append(".iq32");
    assert(file_name@ =~= stem(id, timestamp, count as nat) + ".iq32"@);
    let mut meta_name = String::new();
    append_stem(&mut meta_name, id, timestamp, count);
    meta_name.append(".meta");
    assert(meta_name@ =~= stem(id, timestamp, count as nat) + ".meta"@);
    let data = encode_samples(transmission.samples.as_slice());
    let mut meta = "id=".to_owned();
    append_decimal(&mut meta, id as u128);
    meta.append("\nsamples=");
    append_decimal(&mut meta, count as u128);
    meta.append("\npeak=");
    append_six_decimals(&mut meta, transmission.peak_level);
    meta.append("\navg=");
    append_six_decimals(&mut meta, transmission.avg_level);
    meta.append("\ntimestamp=");
    append_decimal(&mut meta, timestamp);
    meta.append("\n");
    assert(meta@ == metadata_text(
        transmission@.id,
        transmission@.samples.len(),
        transmission@.peak_level,
        transmission@.avg_level,
        timestamp,
    ));
    RecordingFiles { file_name, data, meta_name, meta }
}

/// What is read back from metadata.
#[derive(Clone, Copy)]
pub struct LoadedMetadata {
    pub id: u64,
    pub peak_level: Single,
    pub avg_level: Single,
}

/// What is known before anything is read.
pub open spec fn no_metadata() -> LoadedMetadata {
    LoadedMetadata { id: 0, peak_level: zero(), avg_level: zero() }
}

/// `x` is the number that `text` writes, or zero.
pub open spec fn level_read<A: Arithmetic>(arith: &A, text: Seq<char>, x: Single) -> bool {
    exists|read: Option<Single>| #[trigger]
        parsed(arith, text, read) && x == match read {
            Some(v) => v,
            None => zero(),
        }
}

/// The number that `text` writes, or zero.
pub open spec fn id_read(text: Seq<char>) -> u64 {
    match unsigned(text, u64::MAX as nat) {
        Some(n) => n as u64,
        None => 0,
    }
}

/// What one line adds to what is known. A line is a key and a value with an equals sign between
/// them; lines without one and unknown keys say nothing.
pub open spec fn line_read<A: Arithmetic>(
    arith: &A,
    line: Seq<char>,
    pre: LoadedMetadata,
    post: LoadedMetadata,
) -> bool {
    let at = first_index(line, '=') as int;
    if at == line.len() {
        post == pre
    } else {
        let key = line.take(at);
        let value = line.skip(at + 1);
        if key == "id"@ {
            post == (LoadedMetadata { id: id_read(value), ..pre })
        } else if key == "peak"@ {
            post == (LoadedMetadata { peak_level: post.peak_level, ..pre }) && level_read(
                arith,
                value,
                post.peak_level,
            )
        } else if key == "avg"@ {
            post == (LoadedMetadata { avg_level: post.avg_level, ..pre }) && level_read(
                arith,
                value,
                post.avg_level,
            )
        } else {
            post == pre
        }
    }
}

/// What lines add one after the other: of a key that occurs twice the last value counts.
pub open spec fn lines_read<A: Arithmetic>(
    arith: &A,
    text: Seq<Seq<char>>,
    post: LoadedMetadata,
) -> bool
    decreases text.len(),
{
    if text.len() == 0 {
        post == no_metadata()
    } else {
        exists|mid: LoadedMetadata| #[trigger]
            line_read(arith, text.last(), mid, post) && lines_read(arith, text.drop_last(), mid)
    }
}

fn read_level<A: Arithmetic>(arith: &A, text: &str) -> (x: Single)
    ensures
        level_read(arith, text@, x),
{
    let read = arith.parse(text);
    assert(parsed(arith, text@, read));
    match read {
        Some(v) => v,
        None => Single { bits: 0 },
    }
}

fn read_line<A: Arithmetic>(arith: &A, line: &str, pre: LoadedMetadata) -> (post: LoadedMetadata)
    ensures
        line_read(arith, line@, pre, post),
{
    let mut post = pre;
    match find_char(line, '=') {
        None => {},
        Some(at) => {
            let key: &str = line.substring_char(0, at);
            let length: usize = line.unicode_len();
            let value: &str = line.substring_char(at + 1, length);
            assert(key@ =~= line@.take(at as int));
            assert(value@ =~= line@.skip(at + 1));
            if same_text(key, "id") {
                post.id = match parse_unsigned(value, u64::MAX) {
                    Some(n) => n,
                    None => 0,
                };
            } else if same_text(key, "peak") {
                post.peak_level = read_level(arith, value);
            } else if same_text(key, "avg") {
                post.avg_level = read_level(arith, value);
            }
        },
    }
    post
}

/// Read metadata.
pub fn parse_metadata<A: Arithmetic>(arith: &A, text: &str) -> (r: LoadedMetadata)
    ensures
        lines_read(arith, lines(text@), r),
{
    let all = split_lines(text);
    let mut read = LoadedMetadata {
        id: 0,
        peak_level: Single { bits: 0 },
        avg_level: Single { bits: 0 },
    };
    let mut i: usize = 0;
    while i < all.len()
        invariant
            contents(all@) == lines(text@),
            i <= all@.len(),
            lines_read(arith, contents(all@).take(i as int), read),
        decreases all@.len() - i,
    {
        let ghost before = read;
        let ghost taken = contents(all@).take(i + 1);
        read = read_line(arith, all[i], read);
        assert(taken.drop_last() =~= contents(all@).take(i as int));
        assert(taken.last() == all@[i as int]@);
        assert(line_read(arith, taken.last(), before, read));
        i = i + 1;
    }
    assert(contents(all@).take(i as int) =~= contents(all@));
    read
}

/// What became of the attempt to read the metadata beside a sample file.
pub enum MetaSource {
    /// There is no such file.
    Missing,
    /// There is one, but it could not be read.
    Unreadable,
    /// What it holds.
    Text(String),
}

/// `n`, or one if it is zero.
pub open spec fn at_least_one(n: nat) -> u64 {
    if n == 0 {
        1
    } else {
        n as u64
    }
}

/// What the levels of samples are where no metadata is at hand: the peak and the average of their
/// magnitudes.
pub open spec fn levels_measured<A: Arithmetic>(
    arith: &A,
    samples: Seq<IqSample>,
    peak: Single,
    avg: Single,
) -> bool {
    exists|levels: Seq<Single>, total: Single|
        levels_of(arith, samples, levels) && peak == largest(zero(), levels) && #[trigger]
            running_sum(arith, zero(), levels, total) && mean_of(
                arith,
                total,
                at_least_one(levels.len()),
                avg,
            )
}

/// `frame` is what the bytes of a sample file and its metadata give.
pub open spec fn loaded<A: Arithmetic>(
    arith: &A,
    bytes: Seq<u8>,
    meta: MetaSource,
    frame: Frame,
) -> bool {
    &&& frame.samples == decoded(bytes)
    &&& frame.start_sample == 0
    &&& match meta {
        MetaSource::Missing => frame.id == 0 && levels_measured(
            arith,
            frame.samples,
            frame.peak_level,
            frame.avg_level,
        ),
        MetaSource::Unreadable => frame.id == 0 && frame.peak_level == zero() && frame.avg_level
            == zero(),
        MetaSource::Text(text) => lines_read(
            arith,
            lines(text@),
            (LoadedMetadata {
                id: frame.id,
                peak_level: frame.peak_level,
                avg_level: frame.avg_level,
            }),
        ),
    }
}

fn measure_levels<A: Arithmetic>(arith: &A, samples: &Vec<IqSample>) -> (r: (Single, Single))
    ensures
        levels_measured(arith, samples@, r.0, r.1),
{
    let mut peak = Single { bits: 0 };
    let mut total = Single { bits: 0 };
    let ghost mut levels: Seq<Single> = Seq::empty();
    let mut i: usize = 0;
    while i < samples.len()
        invariant
            i <= samples@.len(),
            levels_of(arith, samples@.take(i as int), levels),
            peak == largest(zero(), levels),
            running_sum(arith, zero(), levels, total),
        decreases samples@.len() - i,
    {
        let level = sample_magnitude(arith, samples[i]);
        let ghost before = levels;
        let ghost total_before = total;
        proof {
            levels_push(arith, samples@, i as int, before, level);
            levels = before.push(level);
            assert(levels.drop_last() =~= before);
        }
        peak = peak.max_of(level);
        total = arith.plus(total, level);
        proof {
            running_sum_push(arith, zero(), before, total_before, level, total);
        }
        i = i + 1;
    }
    assert(samples@.take(i as int) =~= samples@);
    let n: u64 = if samples.len() == 0 {
        1
    } else {
        samples.len() as u64
    };
    let avg = mean(arith, total, n);
    (peak, avg)
}

/// Put together the transmission that the bytes of a `.iq32` file and its metadata hold.
pub fn load_transmission<A: Arithmetic>(arith: &A, bytes: &[u8], meta: &MetaSource) -> (r:
    Transmission)
    ensures
        loaded(arith, bytes@, *meta, r@),
{
    let samples = decode_samples(bytes);
    let known = match meta {
        MetaSource::Text(text) => parse_metadata(arith, text.as_str()),
        MetaSource::Unreadable => LoadedMetadata {
            id: 0,
            peak_level: Single { bits: 0 },
            avg_level: Single { bits: 0 },
        },
        MetaSource::Missing => {
            let measured = measure_levels(arith, &samples);
            LoadedMetadata { id: 0, peak_level: measured.0, avg_level: measured.1 }
        },
    };
    Transmission {
        samples,
        start_sample: 0,
        peak_level: known.peak_level,
        avg_level: known.avg_level,
        id: known.id,
    }
}

/// Recording manager that counts the transmissions it saved.
pub struct Recorder {
    output_dir: String,
    count: u64,
}

impl Recorder {
    /// The directory that recordings go to.
    pub closed spec fn directory(&self) -> Seq<char> {
        self.output_dir@
    }

    /// How many were recorded.
    pub closed spec fn recorded(&self) -> u64 {
        self.count
    }

    pub fn new(output_dir: String) -> (r: Recorder)
        ensures
            r.directory() == output_dir@,
            r.recorded() == 0,
    {
        Recorder { output_dir, count: 0 }
    }

    /// Take note of the attempt to save a transmission, which is handed back; one that succeeded
    /// counts.
    pub fn record<P, E>(&mut self, saved: Result<P, E>) -> (r: Result<P, E>)
        requires
            saved is Ok ==> old(self).recorded() < u64::MAX,
        ensures
            r == saved,
            final(self).directory() == old(self).directory(),
            final(self).recorded() == old(self).recorded() + if saved is Ok {
                1int
            } else {
                0
            },
    {
        if saved.is_ok() {
            self.count = self.count + 1;
        }
        saved
    }

    /// Get the number of transmissions recorded.
    pub fn count(&self) -> (n: u64)
        ensures
            n == self.recorded(),
    {
        self.count
    }

    /// Get the output directory.
    pub fn output_dir(&self) -> (dir: &String)
        ensures
            dir@ == self.directory(),
    {
        &self.output_dir
    }
}

} // verus!
