//! Fuzzing strategies as text: how they are written on the command line and how they are shown.
use vstd::prelude::*;
use vstd::string::StringExecFns;

use crate::arith::{parsed, shortest_text, Arithmetic, Single};
use crate::fuzzer::FuzzerStrategy;
use crate::span::{Span, NANOS_PER_SEC};
use crate::text::{
    all_ascii, append_decimal, ascii_lower, contents, decimal, decimal_is_digits,
    decimal_reads_back, fields, first_field, is_digit, lowercase, one_field, parse_unsigned,
    same_text, split, to_lowercase, unsigned,
};

verus! {

/// Bit patterns of what the strategies fall back on: 0.001, 0.5 and 0.1.
pub const DEFAULT_FLIP_BITS: u32 = 0x3A83_126F;

pub const DEFAULT_FACTOR_BITS: u32 = 0x3F00_0000;

pub const DEFAULT_NOISE_BITS: u32 = 0x3DCC_CCCD;

/// The number in field `i`, or `default` where there is no such field or it is no number of at
/// most `max`.
pub open spec fn number_or(parts: Seq<Seq<char>>, i: int, max: nat, default: nat) -> nat {
    if i < parts.len() {
        match unsigned(parts[i], max) {
            Some(n) => n,
            None => default,
        }
    } else {
        default
    }
}

/// The same of a single-precision number in field 1.
pub open spec fn single_or<A: Arithmetic>(
    arith: &A,
    parts: Seq<Seq<char>>,
    default: Single,
    x: Single,
) -> bool {
    if 1 < parts.len() {
        exists|read: Option<Single>| #[trigger]
            parsed(arith, parts[1], read) && x == match read {
                Some(v) => v,
                None => default,
            }
    } else {
        x == default
    }
}

/// `span` is that many milliseconds.
pub open spec fn is_millis(span: Span, millis: nat) -> bool {
    span.normal() && span.total_nanos() == millis * 1_000_000
}

/// The strategy that `keyword`, in lower case, and the fields after it stand for.
pub open spec fn strategy_of<A: Arithmetic>(
    arith: &A,
    keyword: Seq<char>,
    parts: Seq<Seq<char>>,
    strategy: Option<FuzzerStrategy>,
) -> bool {
    if keyword == "passthrough"@ || keyword == "pass"@ {
        strategy == Some(FuzzerStrategy::Passthrough)
    } else if keyword == "drop"@ {
        strategy == Some(FuzzerStrategy::DropPercent(number_or(parts, 1, 255, 50) as u8))
    } else if keyword == "delay"@ {
        strategy matches Some(FuzzerStrategy::FixedDelay(span)) && is_millis(
            span,
            number_or(parts, 1, u64::MAX as nat, 1000),
        )
    } else if keyword == "random_delay"@ {
        strategy matches Some(FuzzerStrategy::RandomDelay { min, max }) && is_millis(
            min,
            number_or(parts, 1, u64::MAX as nat, 100),
        ) && is_millis(max, number_or(parts, 2, u64::MAX as nat, 2000))
    } else if keyword == "corrupt"@ {
        strategy == Some(FuzzerStrategy::CorruptSamples(number_or(parts, 1, 255, 10) as u8))
    } else if keyword == "replay"@ {
        strategy == Some(
            FuzzerStrategy::Replay {
                buffer_size: number_or(parts, 1, usize::MAX as nat, 10) as usize,
            },
        )
    } else if keyword == "bitflip"@ {
        strategy matches Some(FuzzerStrategy::BitFlip { probability }) && single_or(
            arith,
            parts,
            Single { bits: DEFAULT_FLIP_BITS },
            probability,
        )
    } else if keyword == "attenuate"@ {
        strategy matches Some(FuzzerStrategy::Attenuate(factor)) && single_or(
            arith,
            parts,
            Single { bits: DEFAULT_FACTOR_BITS },
            factor,
        )
    } else if keyword == "noise"@ {
        strategy matches Some(FuzzerStrategy::AddNoise { amplitude }) && single_or(
            arith,
            parts,
            Single { bits: DEFAULT_NOISE_BITS },
            amplitude,
        )
    } else if keyword == "truncate"@ {
        strategy == Some(FuzzerStrategy::Truncate(number_or(parts, 1, 255, 50) as u8))
    } else if keyword == "reverse"@ {
        strategy == Some(FuzzerStrategy::Reverse)
    } else {
        strategy is None
    }
}

fn read_number(parts: &Vec<&str>, i: usize, max: u64, default: u64) -> (n: u64)
    requires
        default <= max,
    ensures
        n == number_or(contents(parts@), i as int, max as nat, default as nat),
        n <= max,
{
    if i < parts.len() {
        assert(contents(parts@)[i as int] == parts@[i as int]@);
        match parse_unsigned(parts[i], max) {
            Some(n) => n,
            None => default,
        }
    } else {
        default
    }
}

fn read_single<A: Arithmetic>(arith: &A, parts: &Vec<&str>, default: u32) -> (x: Single)
    ensures
        single_or(arith, contents(parts@), Single { bits: default }, x),
{
    if 1 < parts.len() {
        assert(contents(parts@)[1] == parts@[1]@);
        let read = arith.parse(parts[1]);
        assert(parsed(arith, contents(parts@)[1], read));
        match read {
            Some(v) => v,
            None => Single { bits: default },
        }
    } else {
        Single { bits: default }
    }
}

/// Find the strategy that a keyword in lower case and the fields after it stand for.
pub fn strategy_from<A: Arithmetic>(arith: &A, keyword: &str, parts: &Vec<&str>) -> (r: Option<
    FuzzerStrategy,
>)
    ensures
        strategy_of(arith, keyword@, contents(parts@), r),
{
    if same_text(keyword, "passthrough") || same_text(keyword, "pass") {
        Some(FuzzerStrategy::Passthrough)
    } else if same_text(keyword, "drop") {
        Some(FuzzerStrategy::DropPercent(read_number(parts, 1, 255, 50) as u8))
    } else if same_text(keyword, "delay") {
        let ms: u64 = read_number(parts, 1, u64::MAX, 1000);
        Some(FuzzerStrategy::FixedDelay(Span::from_millis(ms)))
    } else if same_text(keyword, "random_delay") {
        let min_ms: u64 = read_number(parts, 1, u64::MAX, 100);
        let max_ms: u64 = read_number(parts, 2, u64::MAX, 2000);
        Some(
            FuzzerStrategy::RandomDelay {
                min: Span::from_millis(min_ms),
                max: Span::from_millis(max_ms),
            },
        )
    } else if same_text(keyword, "corrupt") {
        Some(FuzzerStrategy::CorruptSamples(read_number(parts, 1, 255, 10) as u8))
    } else if same_text(keyword, "replay") {
        let size: u64 = read_number(parts, 1, usize::MAX as u64, 10);
        Some(FuzzerStrategy::Replay { buffer_size: size as usize })
    } else if same_text(keyword, "bitflip") {
        let probability = read_single(arith, parts, DEFAULT_FLIP_BITS);
        Some(FuzzerStrategy::BitFlip { probability })
    } else if same_text(keyword, "attenuate") {
        Some(FuzzerStrategy::Attenuate(read_single(arith, parts, DEFAULT_FACTOR_BITS)))
    } else if same_text(keyword, "noise") {
        let amplitude = read_single(arith, parts, DEFAULT_NOISE_BITS);
        Some(FuzzerStrategy::AddNoise { amplitude })
    } else if same_text(keyword, "truncate") {
        Some(FuzzerStrategy::Truncate(read_number(parts, 1, 255, 50) as u8))
    } else if same_text(keyword, "reverse") {
        Some(FuzzerStrategy::Reverse)
    } else {
        None
    }
}

/// Parse a fuzzer strategy from a string: a keyword, in any case, and its arguments, separated by
/// colons. An argument that is missing or cannot be read takes a default.
pub fn parse_strategy<A: Arithmetic>(arith: &A, s: &str) -> (r: Result<FuzzerStrategy, String>)
    ensures
        ({
            let parts = fields(s@, ':');
            match r {
                Ok(strategy) => strategy_of(arith, lowercase(parts[0]), parts, Some(strategy)),
                Err(message) => strategy_of(arith, lowercase(parts[0]), parts, None)
                    && message@ == "Unknown fuzzer strategy: "@ + s@,
            }
        }),
        all_ascii(fields(s@, ':')[0]) ==> lowercase(fields(s@, ':')[0]) == fields(
            s@,
            ':',
        )[0].map_values(|c: char| ascii_lower(c)),
{
    let parts = split(s, ':');
    assert(contents(parts@)[0] == parts@[0]@);
    let keyword = to_lowercase(parts[0]);
    match strategy_from(arith, keyword.as_str(), &parts) {
        Some(strategy) => Ok(strategy),
        None => {
            let mut message = "Unknown fuzzer strategy: ".to_owned();
            message.append(s);
            Err(message)
        },
    }
}

/// An argument written in decimal after the keyword is the number that is read.
pub proof fn argument_is_read(keyword: Seq<char>, n: nat, max: nat, default: nat)
    requires
        !keyword.contains(':'),
        n <= max,
    ensures
        fields(keyword.push(':') + decimal(n), ':') == seq![keyword, decimal(n)],
        number_or(fields(keyword.push(':') + decimal(n), ':'), 1, max, default) == n,
{
    decimal_is_digits(n);
    assert(!decimal(n).contains(':')) by {
        if decimal(n).contains(':') {
            let i = choose|i: int| 0 <= i < decimal(n).len() && decimal(n)[i] == ':';
            assert(is_digit(decimal(n)[i]));
        }
    }
    one_field(decimal(n), ':');
    first_field(keyword, ':', decimal(n));
    decimal_reads_back(n, max);
    assert(fields(keyword.push(':') + decimal(n), ':') =~= seq![keyword, decimal(n)]);
}

/// What the standard library shows of a length of time.
pub uninterp spec fn duration_text(secs: u64, nanos: u32) -> Seq<char>;

/// How [`std::time::Duration`] formats itself for debugging, of a length whose fraction is less
/// than a second.
#[verifier::external_body]
fn show_duration(span: Span) -> (r: String)
    requires
        span.nanos < NANOS_PER_SEC,
    ensures
        r@ == duration_text(span.secs, span.nanos),
{
    format!("{:?}", std::time::Duration::new(span.secs, span.nanos))
}

/// Texts one after the other, with a comma and a space between them.
pub open spec fn joined(texts: Seq<Seq<char>>) -> Seq<char>
    decreases texts.len(),
{
    if texts.len() == 0 {
        Seq::empty()
    } else if texts.len() == 1 {
        texts[0]
    } else {
        joined(texts.drop_last()) + ", "@ + texts.last()
    }
}

/// Whether every length of time in a strategy has its fraction below a second.
pub open spec fn spans_normal(strategy: FuzzerStrategy) -> bool
    decreases strategy,
{
    match strategy {
        FuzzerStrategy::FixedDelay(span) => span.normal(),
        FuzzerStrategy::RandomDelay { min, max } => min.normal() && max.normal(),
        FuzzerStrategy::Chain(strategies) => forall|i: int|
            0 <= i < strategies@.len() ==> spans_normal(#[trigger] strategies@[i]),
        _ => true,
    }
}

/// `text` shows a number with `before` and `after` round it.
pub open spec fn shows_number(text: Seq<char>, before: Seq<char>, n: nat, after: Seq<char>) -> bool {
    text == before + decimal(n) + after
}

/// The same of a single-precision number, in the shortest form that stands for it.
pub open spec fn shows_single<A: Arithmetic>(
    arith: &A,
    text: Seq<char>,
    before: Seq<char>,
    x: Single,
    after: Seq<char>,
) -> bool {
    exists|shown: Seq<char>| #[trigger]
        shortest_text(arith, x, shown) && text == before + shown + after
}

/// How a strategy is shown.
pub open spec fn described<A: Arithmetic>(
    arith: &A,
    strategy: FuzzerStrategy,
    text: Seq<char>,
) -> bool
    decreases strategy,
{
    match strategy {
        FuzzerStrategy::Passthrough => text == "Passthrough"@,
        FuzzerStrategy::DropPercent(percent) => shows_number(
            text,
            "DropPercent("@,
            percent as nat,
            ")"@,
        ),
        FuzzerStrategy::FixedDelay(span) => text == "FixedDelay("@ + duration_text(
            span.secs,
            span.nanos,
        ) + ")"@,
        FuzzerStrategy::RandomDelay { min, max } => text == "RandomDelay { min: "@ + duration_text(
            min.secs,
            min.nanos,
        ) + ", max: "@ + duration_text(max.secs, max.nanos) + " }"@,
        FuzzerStrategy::CorruptSamples(percent) => shows_number(
            text,
            "CorruptSamples("@,
            percent as nat,
            ")"@,
        ),
        FuzzerStrategy::Replay { buffer_size } => shows_number(
            text,
            "Replay { buffer_size: "@,
            buffer_size as nat,
            " }"@,
        ),
        FuzzerStrategy::BitFlip { probability } => shows_single(
            arith,
            text,
            "BitFlip { probability: "@,
            probability,
            " }"@,
        ),
        FuzzerStrategy::Attenuate(factor) => shows_single(arith, text, "Attenuate("@, factor, ")"@),
        FuzzerStrategy::AddNoise { amplitude } => shows_single(
            arith,
            text,
            "AddNoise { amplitude: "@,
            amplitude,
            " }"@,
        ),
        FuzzerStrategy::Truncate(percent) => shows_number(
            text,
            "Truncate("@,
            percent as nat,
            ")"@,
        ),
        FuzzerStrategy::Reverse => text == "Reverse"@,
        FuzzerStrategy::Chain(strategies) => exists|parts: Seq<Seq<char>>|
            text == "Chain(["@ + #[trigger] joined(parts) + "])"@ && parts.len()
                == strategies@.len() && forall|i: int|
                0 <= i < strategies@.len() ==> described(arith, #[trigger] strategies@[i], parts[i]),
    }
}

fn with_number(before: &str, n: u64, after: &str) -> (r: String)
    ensures
        shows_number(r@, before@, n as nat, after@),
{
    let mut out = before.to_owned();
    append_decimal(&mut out, n as u128);
    out.append(after);
    out
}

fn with_single<A: Arithmetic>(arith: &A, before: &str, x: Single, after: &str) -> (r: String)
    ensures
        shows_single(arith, r@, before@, x, after@),
{
    let shown = arith.shortest(x);
    let mut out = before.to_owned();
    out.append(shown.as_str());
    out.append(after);
    assert(shortest_text(arith, x, shown@));
    out
}

/// Show a strategy.
pub fn describe<A: Arithmetic>(arith: &A, strategy: &FuzzerStrategy) -> (r: String)
    requires
        spans_normal(*strategy),
    ensures
        described(arith, *strategy, r@),
    decreases strategy,
{
    match strategy {
        FuzzerStrategy::Passthrough => "Passthrough".to_owned(),
        FuzzerStrategy::DropPercent(percent) => with_number("DropPercent(", *percent as u64, ")"),
        FuzzerStrategy::FixedDelay(span) => {
            let mut out = "FixedDelay(".to_owned();
            out.append(show_duration(*span).as_str());
            out.append(")");
            out
        },
        FuzzerStrategy::RandomDelay { min, max } => {
            let mut out = "RandomDelay { min: ".to_owned();
            out.append(show_duration(*min).as_str());
            out.append(", max: ");
            out.append(show_duration(*max).as_str());
            out.append(" }");
            out
        },
        FuzzerStrategy::CorruptSamples(percent) => with_number(
            "CorruptSamples(",
            *percent as u64,
            ")",
        ),
        FuzzerStrategy::Replay { buffer_size } => with_number(
            "Replay { buffer_size: ",
            *buffer_size as u64,
            " }",
        ),
        FuzzerStrategy::BitFlip { probability } => with_single(
            arith,
            "BitFlip { probability: ",
            *probability,
            " }",
        ),
        FuzzerStrategy::Attenuate(factor) => with_single(arith, "Attenuate(", *factor, ")"),
        FuzzerStrategy::AddNoise { amplitude } => with_single(
            arith,
            "AddNoise { amplitude: ",
            *amplitude,
            " }",
        ),
        FuzzerStrategy::Truncate(percent) => with_number("Truncate(", *percent as u64, ")"),
        FuzzerStrategy::Reverse => "Reverse".to_owned(),
        FuzzerStrategy::Chain(strategies) => {
            let mut out = "Chain([".to_owned();
            let ghost mut parts: Seq<Seq<char>> = Seq::empty();
            let mut i: usize = 0;
            assert(out@ =~= "Chain(["@ + joined(parts));
            while i < strategies.len()
                invariant
                    i <= strategies@.len(),
                    *strategy == FuzzerStrategy::Chain(*strategies),
                    forall|j: int|
                        0 <= j < strategies@.len() ==> spans_normal(#[trigger] strategies@[j]),
                    parts.len() == i,
                    out@ == "Chain(["@ + joined(parts),
                    forall|j: int|
                        0 <= j < i ==> described(arith, #[trigger] strategies@[j], parts[j]),
                decreases strategies@.len() - i,
            {
                assert(decreases_to!(*strategy => strategy->Chain_0));
                assert(decreases_to!(*strategies => strategies@));
                assert(decreases_to!(strategies@ => strategies@[i as int]));
                let text = describe(arith, &strategies[i]);
                if i > 0 {
                    out.append(", ");
                }
                out.append(text.as_str());
                proof {
                    let before = parts;
                    parts = parts.push(text@);
                    assert(parts.drop_last() =~= before);
                    if i == 0 {
                        assert(joined(before) =~= Seq::<char>::empty());
                    }
                    assert(out@ =~= "Chain(["@ + joined(parts));
                }
                i += 1;
            }
            out.append("])");
            assert(out@ == "Chain(["@ + joined(parts) + "])"@);
            out
        },
    }
}

} // verus!
