//! Which strategy a text names, and how a strategy is shown.
use vstd::prelude::*;

use crate::arith::{parsed, shortest_text, Arithmetic, Single};
use crate::config::Args;
use crate::fuzzer::{Fuzzer, FuzzerStrategy};
use crate::span::Span;
use crate::strategy_text::{
    describe, described, duration_text, is_millis, joined, number_or, parse_strategy, shows_number,
    shows_single, single_or, strategy_from, strategy_of,
};
use crate::text::{contents, decimal, fields, lowercase};
use crate::text_laws::{
    cut_at, decimals_are_written, fields_are_cut_out, reads_as, unsigned_is_read, writes,
};

verus! {

/// `n` is the number in field `i`, if there is such a field and it holds a number of at most `max`;
/// else it is `default`.
pub open spec fn argument(
    parts: Seq<Seq<char>>,
    i: int,
    max: int,
    default: int,
    n: int,
) -> bool {
    if i < parts.len() {
        exists|read: Option<int>| #[trigger]
            reads_as(parts[i], max, read) && n == match read {
                Some(value) => value,
                None => default,
            }
    } else {
        n == default
    }
}

proof fn numbers_are_arguments(parts: Seq<Seq<char>>, i: int, max: nat, default: nat)
    ensures
        argument(
            parts,
            i,
            max as int,
            default as int,
            number_or(parts, i, max, default) as int,
        ),
{
    if i < parts.len() {
        unsigned_is_read(parts[i], max);
        let read: Option<int> = match crate::text::unsigned(parts[i], max) {
            Some(n) => Some(n as int),
            None => None,
        };
        assert(reads_as(parts[i], max as int, read));
    }
}

proof fn numbers_are_limited(parts: Seq<Seq<char>>, i: int, max: nat, default: nat)
    requires
        default <= max,
    ensures
        number_or(parts, i, max, default) <= max,
{
}

/// `x` is the number that field 1 is parsed as, or the one of the pattern `default` where there is no
/// such field or it is no number.
pub open spec fn fraction_argument<A: Arithmetic>(
    arith: &A,
    parts: Seq<Seq<char>>,
    default: u32,
    x: Single,
) -> bool {
    if parts.len() > 1 {
        exists|text: &str, read: Option<Single>|
            text@ == parts[1] && #[trigger] call_ensures(A::parse, (arith, text), read)
                && match read {
                Some(v) => x == v,
                None => x.bits == default,
            }
    } else {
        x.bits == default
    }
}

proof fn singles_are_arguments<A: Arithmetic>(
    arith: &A,
    parts: Seq<Seq<char>>,
    default: u32,
    x: Single,
)
    requires
        single_or(arith, parts, Single { bits: default }, x),
    ensures
        fraction_argument(arith, parts, default, x),
{
    if parts.len() > 1 {
        let read = choose|read: Option<Single>| #[trigger]
            parsed(arith, parts[1], read) && x == match read {
                Some(v) => v,
                None => Single { bits: default },
            };
        let text = choose|text: &str| text@ == parts[1] && #[trigger] call_ensures(
            A::parse,
            (arith, text),
            read,
        );
        assert(call_ensures(A::parse, (arith, text), read));
    }
}

/// A length of time is `n` milliseconds.
pub open spec fn lasts(span: Span, n: int) -> bool {
    span.secs * 1_000_000_000 + span.nanos == n * 1_000_000 && span.nanos < 1_000_000_000
}

/// A length of time is the argument in field `i`, in milliseconds.
pub open spec fn lasts_as_said(parts: Seq<Seq<char>>, i: int, default: int, span: Span) -> bool {
    exists|n: int| #[trigger]
        argument(parts, i, 0xFFFF_FFFF_FFFF_FFFF, default, n) && lasts(span, n)
}

proof fn spans_last_as_said(parts: Seq<Seq<char>>, i: int, default: nat, span: Span)
    requires
        is_millis(span, number_or(parts, i, u64::MAX as nat, default)),
    ensures
        lasts_as_said(parts, i, default as int, span),
{
    numbers_are_arguments(parts, i, u64::MAX as nat, default);
}

/// The strategy that a keyword names, with the arguments in the fields after it.
pub open spec fn named<A: Arithmetic>(
    arith: &A,
    keyword: Seq<char>,
    parts: Seq<Seq<char>>,
    strategy: FuzzerStrategy,
) -> bool {
    match strategy {
        FuzzerStrategy::Passthrough => keyword == seq![
            'p',
            'a',
            's',
            's',
            't',
            'h',
            'r',
            'o',
            'u',
            'g',
            'h',
        ] || keyword == seq!['p', 'a', 's', 's'],
        FuzzerStrategy::DropPercent(percent) => keyword == seq!['d', 'r', 'o', 'p'] && argument(
            parts,
            1,
            255,
            50,
            percent as int,
        ),
        FuzzerStrategy::FixedDelay(span) => keyword == seq!['d', 'e', 'l', 'a', 'y']
            && lasts_as_said(parts, 1, 1000, span),
        FuzzerStrategy::RandomDelay { min, max } => keyword == seq![
            'r',
            'a',
            'n',
            'd',
            'o',
            'm',
            '_',
            'd',
            'e',
            'l',
            'a',
            'y',
        ] && lasts_as_said(parts, 1, 100, min) && lasts_as_said(parts, 2, 2000, max),
        FuzzerStrategy::CorruptSamples(percent) => keyword == seq![
            'c',
            'o',
            'r',
            'r',
            'u',
            'p',
            't',
        ] && argument(parts, 1, 255, 10, percent as int),
        FuzzerStrategy::Replay { buffer_size } => keyword == seq!['r', 'e', 'p', 'l', 'a', 'y']
            && argument(parts, 1, usize::MAX as int, 10, buffer_size as int),
        FuzzerStrategy::BitFlip { probability } => keyword == seq![
            'b',
            'i',
            't',
            'f',
            'l',
            'i',
            'p',
        ] && fraction_argument(arith, parts, 0x3A83_126F, probability),
        FuzzerStrategy::Attenuate(factor) => keyword == seq![
            'a',
            't',
            't',
            'e',
            'n',
            'u',
            'a',
            't',
            'e',
        ] && fraction_argument(arith, parts, 0x3F00_0000, factor),
        FuzzerStrategy::AddNoise { amplitude } => keyword == seq!['n', 'o', 'i', 's', 'e']
            && fraction_argument(arith, parts, 0x3DCC_CCCD, amplitude),
        FuzzerStrategy::Truncate(percent) => keyword == seq![
            't',
            'r',
            'u',
            'n',
            'c',
            'a',
            't',
            'e',
        ] && argument(parts, 1, 255, 50, percent as int),
        FuzzerStrategy::Reverse => keyword == seq!['r', 'e', 'v', 'e', 'r', 's', 'e'],
        FuzzerStrategy::Chain(_) => false,
    }
}

/// Whether a keyword names a strategy at all.
pub open spec fn is_keyword(keyword: Seq<char>) -> bool {
    ||| keyword == seq!['p', 'a', 's', 's', 't', 'h', 'r', 'o', 'u', 'g', 'h']
    ||| keyword == seq!['p', 'a', 's', 's']
    ||| keyword == seq!['d', 'r', 'o', 'p']
    ||| keyword == seq!['d', 'e', 'l', 'a', 'y']
    ||| keyword == seq!['r', 'a', 'n', 'd', 'o', 'm', '_', 'd', 'e', 'l', 'a', 'y']
    ||| keyword == seq!['c', 'o', 'r', 'r', 'u', 'p', 't']
    ||| keyword == seq!['r', 'e', 'p', 'l', 'a', 'y']
    ||| keyword == seq!['b', 'i', 't', 'f', 'l', 'i', 'p']
    ||| keyword == seq!['a', 't', 't', 'e', 'n', 'u', 'a', 't', 'e']
    ||| keyword == seq!['n', 'o', 'i', 's', 'e']
    ||| keyword == seq!['t', 'r', 'u', 'n', 'c', 'a', 't', 'e']
    ||| keyword == seq!['r', 'e', 'v', 'e', 'r', 's', 'e']
}

proof fn words()
    ensures
        "passthrough"@ == seq!['p', 'a', 's', 's', 't', 'h', 'r', 'o', 'u', 'g', 'h'],
        "pass"@ == seq!['p', 'a', 's', 's'],
        "drop"@ == seq!['d', 'r', 'o', 'p'],
        "delay"@ == seq!['d', 'e', 'l', 'a', 'y'],
        "random_delay"@ == seq!['r', 'a', 'n', 'd', 'o', 'm', '_', 'd', 'e', 'l', 'a', 'y'],
        "corrupt"@ == seq!['c', 'o', 'r', 'r', 'u', 'p', 't'],
        "replay"@ == seq!['r', 'e', 'p', 'l', 'a', 'y'],
        "bitflip"@ == seq!['b', 'i', 't', 'f', 'l', 'i', 'p'],
        "attenuate"@ == seq!['a', 't', 't', 'e', 'n', 'u', 'a', 't', 'e'],
        "noise"@ == seq!['n', 'o', 'i', 's', 'e'],
        "truncate"@ == seq!['t', 'r', 'u', 'n', 'c', 'a', 't', 'e'],
        "reverse"@ == seq!['r', 'e', 'v', 'e', 'r', 's', 'e'],
{
    reveal_strlit("passthrough");
    reveal_strlit("pass");
    reveal_strlit("drop");
    reveal_strlit("delay");
    reveal_strlit("random_delay");
    reveal_strlit("corrupt");
    reveal_strlit("replay");
    reveal_strlit("bitflip");
    reveal_strlit("attenuate");
    reveal_strlit("noise");
    reveal_strlit("truncate");
    reveal_strlit("reverse");
}

#[verifier::rlimit(40)]
proof fn strategies_are_named<A: Arithmetic>(
    arith: &A,
    keyword: Seq<char>,
    parts: Seq<Seq<char>>,
    r: Option<FuzzerStrategy>,
)
    requires
        strategy_of(arith, keyword, parts, r),
    ensures
        r is Some <==> is_keyword(keyword),
        r matches Some(strategy) ==> named(arith, keyword, parts, strategy),
{
    words();
    numbers_are_arguments(parts, 1, 255, 50);
    numbers_are_arguments(parts, 1, 255, 10);
    numbers_are_arguments(parts, 1, usize::MAX as nat, 10);
    numbers_are_limited(parts, 1, 255, 50);
    numbers_are_limited(parts, 1, 255, 10);
    numbers_are_limited(parts, 1, usize::MAX as nat, 10);
    match r {
        Some(FuzzerStrategy::FixedDelay(span)) => {
            spans_last_as_said(parts, 1, 1000, span);
        },
        Some(FuzzerStrategy::RandomDelay { min, max }) => {
            spans_last_as_said(parts, 1, 100, min);
            spans_last_as_said(parts, 2, 2000, max);
        },
        Some(FuzzerStrategy::BitFlip { probability }) => {
            singles_are_arguments(arith, parts, 0x3A83_126F, probability);
        },
        Some(FuzzerStrategy::Attenuate(factor)) => {
            singles_are_arguments(arith, parts, 0x3F00_0000, factor);
        },
        Some(FuzzerStrategy::AddNoise { amplitude }) => {
            singles_are_arguments(arith, parts, 0x3DCC_CCCD, amplitude);
        },
        _ => {},
    }
}

/// A keyword names its strategy, with the arguments that are given and defaults for the others; any
/// other word names none.
pub proof fn keywords_name_strategies<A: Arithmetic>(
    arith: &A,
    keyword: &str,
    parts: Vec<&str>,
    r: Option<FuzzerStrategy>,
)
    requires
        call_ensures(strategy_from::<A>, (arith, keyword, &parts), r),
    ensures
        r is Some <==> is_keyword(keyword@),
        r matches Some(strategy) ==> named(
            arith,
            keyword@,
            Seq::new(parts@.len(), |i: int| parts@[i]@),
            strategy,
        ),
{
    assert(contents(parts@) =~= Seq::new(parts@.len(), |i: int| parts@[i]@));
    strategies_are_named(arith, keyword@, contents(parts@), r);
}

/// Lower case for upper case in ASCII.
pub open spec fn lower(c: char) -> char {
    if 65 <= c as u32 <= 90 {
        (c as u32 + 32) as char
    } else {
        c
    }
}

/// A text is cut at its colons. Its first field is the keyword, in any case: in ASCII text letters
/// count as small ones. What names no strategy is refused with a message that ends in the text.
pub proof fn a_text_names_a_strategy_by_its_first_field<A: Arithmetic>(
    arith: &A,
    s: &str,
    r: Result<FuzzerStrategy, String>,
)
    requires
        call_ensures(parse_strategy::<A>, (arith, s), r),
    ensures
        exists|parts: Seq<Seq<char>>| #[trigger]
            cut_at(s@, ':', parts) && {
                let keyword = lowercase(parts[0]);
                &&& r is Ok <==> is_keyword(keyword)
                &&& r matches Ok(strategy) ==> named(arith, keyword, parts, strategy)
                &&& (forall|i: int|
                    0 <= i < parts[0].len() ==> (#[trigger] parts[0][i]) as u32 <= 127)
                    ==> keyword.len() == parts[0].len() && forall|i: int|
                    0 <= i < keyword.len() ==> #[trigger] keyword[i] == lower(parts[0][i])
            },
        r matches Err(message) ==> message@ == seq![
            'U',
            'n',
            'k',
            'n',
            'o',
            'w',
            'n',
            ' ',
            'f',
            'u',
            'z',
            'z',
            'e',
            'r',
            ' ',
            's',
            't',
            'r',
            'a',
            't',
            'e',
            'g',
            'y',
            ':',
            ' ',
        ] + s@,
{
    let parts = fields(s@, ':');
    fields_are_cut_out(s@, ':');
    let keyword = lowercase(parts[0]);
    let got = match r {
        Ok(strategy) => Some(strategy),
        Err(_) => None,
    };
    strategies_are_named(arith, keyword, parts, got);
    if forall|i: int| 0 <= i < parts[0].len() ==> (#[trigger] parts[0][i]) as u32 <= 127 {
        assert(crate::text::all_ascii(parts[0]));
        let small = parts[0].map_values(|c: char| crate::text::ascii_lower(c));
        assert(keyword == small);
        assert forall|i: int| 0 <= i < keyword.len() implies #[trigger] keyword[i] == lower(
            parts[0][i],
        ) by {
            assert(small[i] == crate::text::ascii_lower(parts[0][i]));
        }
    }
    reveal_strlit("Unknown fuzzer strategy: ");
    if let Err(message) = r {
        assert("Unknown fuzzer strategy: "@ =~= seq![
            'U',
            'n',
            'k',
            'n',
            'o',
            'w',
            'n',
            ' ',
            'f',
            'u',
            'z',
            'z',
            'e',
            'r',
            ' ',
            's',
            't',
            'r',
            'a',
            't',
            'e',
            'g',
            'y',
            ':',
            ' ',
        ]);
    }
    assert(cut_at(s@, ':', parts));
}

/// `text` is a number with `before` and `after` round it.
pub open spec fn number_between(text: Seq<char>, before: Seq<char>, n: int, after: Seq<char>) -> bool {
    exists|digits: Seq<char>| #[trigger] writes(digits, n) && text == before + digits + after
}

/// `text` is a number in the shortest form that stands for it, with `before` and `after` round it.
pub open spec fn single_between<A: Arithmetic>(
    arith: &A,
    text: Seq<char>,
    before: Seq<char>,
    x: Single,
    after: Seq<char>,
) -> bool {
    exists|shown: String| #[trigger]
        call_ensures(A::shortest, (arith, x), shown) && text == before + shown@ + after
}

/// Texts in a row, with a comma and a space between them.
pub open spec fn in_a_row(texts: Seq<Seq<char>>) -> Seq<char>
    decreases texts.len(),
{
    if texts.len() == 0 {
        Seq::empty()
    } else if texts.len() == 1 {
        texts[0]
    } else {
        texts[0] + seq![',', ' '] + in_a_row(texts.drop_first())
    }
}

proof fn one_more_in_the_row(texts: Seq<Seq<char>>, last: Seq<char>)
    requires
        texts.len() > 0,
    ensures
        in_a_row(texts.push(last)) == in_a_row(texts) + seq![',', ' '] + last,
    decreases texts.len(),
{
    let more = texts.push(last);
    assert(more.drop_first() =~= texts.drop_first().push(last));
    if texts.len() == 1 {
        assert(more.drop_first() =~= seq![last]);
        assert(in_a_row(seq![last]) == last);
        assert(in_a_row(more) =~= texts[0] + seq![',', ' '] + last);
    } else {
        one_more_in_the_row(texts.drop_first(), last);
        assert(in_a_row(more) =~= in_a_row(texts) + seq![',', ' '] + last);
    }
}

proof fn joined_in_a_row(texts: Seq<Seq<char>>)
    ensures
        joined(texts) == in_a_row(texts),
    decreases texts.len(),
{
    if texts.len() > 1 {
        joined_in_a_row(texts.drop_last());
        one_more_in_the_row(texts.drop_last(), texts.last());
        assert(texts.drop_last().push(texts.last()) =~= texts);
        reveal_strlit(", ");
        assert(", "@ =~= seq![',', ' ']);
    }
}

/// How a strategy is shown: its name, and its settings in brackets, each with its name if it has one.
pub open spec fn shown<A: Arithmetic>(arith: &A, strategy: FuzzerStrategy, text: Seq<char>) -> bool
    decreases strategy,
{
    match strategy {
        FuzzerStrategy::Passthrough => text == "Passthrough"@,
        FuzzerStrategy::DropPercent(percent) => number_between(
            text,
            "DropPercent("@,
            percent as int,
            seq![')'],
        ),
        FuzzerStrategy::FixedDelay(span) => text == "FixedDelay("@ + duration_text(
            span.secs,
            span.nanos,
        ) + seq![')'],
        FuzzerStrategy::RandomDelay { min, max } => text == "RandomDelay { min: "@ + duration_text(
            min.secs,
            min.nanos,
        ) + ", max: "@ + duration_text(max.secs, max.nanos) + seq![' ', '}'],
        FuzzerStrategy::CorruptSamples(percent) => number_between(
            text,
            "CorruptSamples("@,
            percent as int,
            seq![')'],
        ),
        FuzzerStrategy::Replay { buffer_size } => number_between(
            text,
            "Replay { buffer_size: "@,
            buffer_size as int,
            seq![' ', '}'],
        ),
        FuzzerStrategy::BitFlip { probability } => single_between(
            arith,
            text,
            "BitFlip { probability: "@,
            probability,
            seq![' ', '}'],
        ),
        FuzzerStrategy::Attenuate(factor) => single_between(
            arith,
            text,
            "Attenuate("@,
            factor,
            seq![')'],
        ),
        FuzzerStrategy::AddNoise { amplitude } => single_between(
            arith,
            text,
            "AddNoise { amplitude: "@,
            amplitude,
            seq![' ', '}'],
        ),
        FuzzerStrategy::Truncate(percent) => number_between(
            text,
            "Truncate("@,
            percent as int,
            seq![')'],
        ),
        FuzzerStrategy::Reverse => text == "Reverse"@,
        FuzzerStrategy::Chain(strategies) => exists|parts: Seq<Seq<char>>|
            text == "Chain(["@ + #[trigger] in_a_row(parts) + seq![']', ')'] && parts.len()
                == strategies@.len() && forall|i: int|
                0 <= i < strategies@.len() ==> shown(arith, #[trigger] strategies@[i], parts[i]),
    }
}

proof fn numbers_are_between(text: Seq<char>, before: Seq<char>, n: nat, after: Seq<char>)
    requires
        shows_number(text, before, n, after),
    ensures
        number_between(text, before, n as int, after),
{
    decimals_are_written(n);
    assert(writes(decimal(n), n as int));
}

proof fn singles_are_between<A: Arithmetic>(
    arith: &A,
    text: Seq<char>,
    before: Seq<char>,
    x: Single,
    after: Seq<char>,
)
    requires
        shows_single(arith, text, before, x, after),
    ensures
        single_between(arith, text, before, x, after),
{
    let out = choose|out: Seq<char>| #[trigger]
        shortest_text(arith, x, out) && text == before + out + after;
    let s = choose|s: String| #[trigger] s@ == out && call_ensures(A::shortest, (arith, x), s);
    assert(call_ensures(A::shortest, (arith, x), s));
}

proof fn described_are_shown<A: Arithmetic>(arith: &A, strategy: FuzzerStrategy, text: Seq<char>)
    requires
        described(arith, strategy, text),
    ensures
        shown(arith, strategy, text),
    decreases strategy,
{
    reveal_strlit(")");
    reveal_strlit(" }");
    reveal_strlit("])");
    assert(")"@ =~= seq![')']);
    assert(" }"@ =~= seq![' ', '}']);
    assert("])"@ =~= seq![']', ')']);
    match strategy {
        FuzzerStrategy::DropPercent(percent) => {
            numbers_are_between(text, "DropPercent("@, percent as nat, ")"@);
        },
        FuzzerStrategy::CorruptSamples(percent) => {
            numbers_are_between(text, "CorruptSamples("@, percent as nat, ")"@);
        },
        FuzzerStrategy::Replay { buffer_size } => {
            numbers_are_between(text, "Replay { buffer_size: "@, buffer_size as nat, " }"@);
        },
        FuzzerStrategy::Truncate(percent) => {
            numbers_are_between(text, "Truncate("@, percent as nat, ")"@);
        },
        FuzzerStrategy::BitFlip { probability } => {
            singles_are_between(arith, text, "BitFlip { probability: "@, probability, " }"@);
        },
        FuzzerStrategy::Attenuate(factor) => {
            singles_are_between(arith, text, "Attenuate("@, factor, ")"@);
        },
        FuzzerStrategy::AddNoise { amplitude } => {
            singles_are_between(arith, text, "AddNoise { amplitude: "@, amplitude, " }"@);
        },
        FuzzerStrategy::Chain(strategies) => {
            let parts = choose|parts: Seq<Seq<char>>|
                text == "Chain(["@ + #[trigger] joined(parts) + "])"@ && parts.len()
                    == strategies@.len() && forall|i: int|
                    0 <= i < strategies@.len() ==> described(
                        arith,
                        #[trigger] strategies@[i],
                        parts[i],
                    );
            joined_in_a_row(parts);
            assert forall|i: int| 0 <= i < strategies@.len() implies shown(
                arith,
                #[trigger] strategies@[i],
                parts[i],
            ) by {
                assert(decreases_to!(strategy => strategy->Chain_0));
                assert(decreases_to!(strategies => strategies@));
                assert(decreases_to!(strategies@ => strategies@[i]));
                described_are_shown(arith, strategies@[i], parts[i]);
            }
            assert(text == "Chain(["@ + in_a_row(parts) + seq![']', ')']);
        },
        _ => {},
    }
}

/// A strategy is shown by its name and its settings, and a chain by those in it.
pub proof fn a_strategy_is_shown_with_its_settings<A: Arithmetic>(
    arith: &A,
    strategy: FuzzerStrategy,
    text: String,
)
    requires
        call_ensures(describe::<A>, (arith, &strategy), text),
    ensures
        shown(arith, strategy, text@),
{
    described_are_shown(arith, strategy, text@);
}

/// A fuzzer is shown by its own strategy.
pub proof fn a_fuzzer_is_shown_by_its_strategy<A: Arithmetic>(
    fuzzer: Fuzzer,
    arith: &A,
    name: String,
)
    requires
        call_ensures(Fuzzer::strategy_name::<A>, (&fuzzer, arith), name),
    ensures
        shown(arith, fuzzer.strategy(), name@),
{
    described_are_shown(arith, fuzzer.strategy(), name@);
}

/// The strategy of a run is the one that its arguments name. If they name none, everything is passed
/// through, and only then there is a reason, which ends in what they say.
pub proof fn the_strategy_of_a_run_is_the_one_named<A: Arithmetic>(
    args: Args,
    arith: &A,
    r: (FuzzerStrategy, Option<String>),
)
    requires
        call_ensures(Args::chosen_strategy::<A>, (&args, arith), r),
    ensures
        exists|parts: Seq<Seq<char>>| #[trigger]
            cut_at(args.fuzz_strategy@, ':', parts) && (r.1 is None <==> is_keyword(
                lowercase(parts[0]),
            )) && (r.1 is None ==> named(arith, lowercase(parts[0]), parts, r.0)),
        r.1 matches Some(reason) ==> r.0 is Passthrough && reason@.len()
            >= args.fuzz_strategy@.len() && reason@.skip(
            reason@.len() - args.fuzz_strategy@.len(),
        ) == args.fuzz_strategy@,
{
    let text = args.fuzz_strategy@;
    let parts = fields(text, ':');
    fields_are_cut_out(text, ':');
    let got = match r.1 {
        None => Some(r.0),
        Some(_) => None,
    };
    strategies_are_named(arith, lowercase(parts[0]), parts, got);
    if let Some(reason) = r.1 {
        assert(reason@.skip(reason@.len() - text.len()) =~= text);
    }
    assert(cut_at(text, ':', parts));
}

} // verus!
