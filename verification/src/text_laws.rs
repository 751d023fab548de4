//! What reading and writing text comes to, character by character.
use vstd::arithmetic::power2::{lemma_pow2_pos, pow2};
use vstd::prelude::*;

use crate::arith::Single;
use crate::decimals::{append_six_decimals, nearest, six_decimals};
use crate::text::{
    append_decimal, append_padded, contents, decimal, decimal_is_digits, digits_value, fields,
    fields_exist, find_char, first_index_is_first, is_digit, padded, padded_is_digits,
    parse_unsigned, same_text, split, split_lines,
};

verus! {

/// Whether `text` is made of the characters from 0 to 9.
pub open spec fn only_digits(text: Seq<char>) -> bool {
    forall|i: int| 0 <= i < text.len() ==> 48 <= (#[trigger] text[i]) as u32 <= 57
}

/// What is read once `text` follows digits that made up `so_far`: every digit counts ten times as
/// much as the next.
pub open spec fn worth(so_far: int, text: Seq<char>) -> int
    decreases text.len(),
{
    if text.len() == 0 {
        so_far
    } else {
        worth(so_far * 10 + (text[0] as u32 - 48), text.drop_first())
    }
}

proof fn worth_goes_on(so_far: int, text: Seq<char>)
    requires
        text.len() > 0,
    ensures
        worth(so_far, text) == worth(so_far, text.drop_last()) * 10 + (text.last() as u32 - 48),
    decreases text.len(),
{
    let next = so_far * 10 + (text[0] as u32 - 48);
    let rest = text.drop_first();
    if text.len() == 1 {
        assert(rest =~= Seq::<char>::empty());
        assert(text.drop_last() =~= Seq::<char>::empty());
        assert(worth(next, rest) == next);
        assert(worth(so_far, text.drop_last()) == so_far);
    } else {
        worth_goes_on(next, rest);
        assert(rest.drop_last() =~= text.drop_last().drop_first());
        assert(text.drop_last()[0] == text[0]);
        assert(rest.last() == text.last());
    }
}

/// A row of digits is worth the number that it stands for.
pub proof fn digits_are_worth_their_value(text: Seq<char>)
    requires
        only_digits(text),
    ensures
        worth(0, text) == digits_value(text),
    decreases text.len(),
{
    if text.len() > 0 {
        worth_goes_on(0, text);
        assert(text.last() == text[text.len() - 1]);
        assert forall|i: int| 0 <= i < text.drop_last().len() implies 48 <= (
        #[trigger] text.drop_last()[i]) as u32 <= 57 by {
            assert(text.drop_last()[i] == text[i]);
        }
        digits_are_worth_their_value(text.drop_last());
    }
}

/// `text` writes `n` without leading zeros.
pub open spec fn writes(text: Seq<char>, n: int) -> bool {
    &&& text.len() > 0
    &&& only_digits(text)
    &&& worth(0, text) == n
    &&& text.len() > 1 ==> text[0] != '0'
}

/// `text` writes `n` with at least `width` digits, and with no more leading zeros than that takes.
pub open spec fn writes_padded(text: Seq<char>, n: int, width: int) -> bool {
    &&& text.len() >= width
    &&& text.len() > 0
    &&& only_digits(text)
    &&& worth(0, text) == n
    &&& text.len() > width && text.len() > 1 ==> text[0] != '0'
}

proof fn no_leading_zero(n: nat)
    ensures
        decimal(n).len() > 0,
        n > 0 ==> decimal(n)[0] != '0',
        n < 10 ==> decimal(n).len() == 1,
    decreases n,
{
    if n >= 10 {
        no_leading_zero(n / 10);
        assert(decimal(n)[0] == decimal(n / 10)[0]);
    }
}

/// A number in decimal is written without leading zeros.
pub proof fn decimals_are_written(n: nat)
    ensures
        writes(decimal(n), n as int),
{
    let text = decimal(n);
    decimal_is_digits(n);
    assert forall|i: int| 0 <= i < text.len() implies 48 <= (#[trigger] text[i]) as u32 <= 57 by {
        assert(is_digit(text[i]));
    }
    digits_are_worth_their_value(text);
    no_leading_zero(n);
}

/// A number with leading zeros has as many as its width takes.
pub proof fn padded_are_written(n: nat, width: nat)
    ensures
        writes_padded(padded(n, width), n as int, width as int),
{
    let text = padded(n, width);
    padded_is_digits(n, width);
    assert forall|i: int| 0 <= i < text.len() implies 48 <= (#[trigger] text[i]) as u32 <= 57 by {
        assert(is_digit(text[i]));
    }
    digits_are_worth_their_value(text);
    no_leading_zero(n);
}

/// A number is written after what is there, in decimal and without leading zeros.
pub proof fn a_number_is_written_in_decimal(out: &mut String, n: u128)
    requires
        call_ensures(append_decimal, (out, n), ()),
    ensures
        final(out)@.len() > old(out)@.len(),
        final(out)@.take(old(out)@.len() as int) == old(out)@,
        writes(final(out)@.skip(old(out)@.len() as int), n as int),
{
    decimals_are_written(n as nat);
    assert(final(out)@.take(old(out)@.len() as int) =~= old(out)@);
    assert(final(out)@.skip(old(out)@.len() as int) =~= decimal(n as nat));
}

/// A number is written after what is there, in decimal, with zeros before it up to the width.
pub proof fn a_number_is_padded_with_zeros(out: &mut String, n: u128, width: usize)
    requires
        call_ensures(append_padded, (out, n, width), ()),
    ensures
        final(out)@.len() > old(out)@.len(),
        final(out)@.take(old(out)@.len() as int) == old(out)@,
        writes_padded(final(out)@.skip(old(out)@.len() as int), n as int, width as int),
{
    padded_are_written(n as nat, width as nat);
    assert(final(out)@.take(old(out)@.len() as int) =~= old(out)@);
    assert(final(out)@.skip(old(out)@.len() as int) =~= padded(n as nat, width as nat));
}

/// The number that is read from `text`: what its digits are worth, after a plus sign or not, if there
/// are any, nothing else is there and they are worth at most `max`.
pub open spec fn reads_as(text: Seq<char>, max: int, read: Option<int>) -> bool {
    let body = if text.len() > 0 && text[0] == '+' {
        text.skip(1)
    } else {
        text
    };
    &&& read is Some <==> body.len() > 0 && only_digits(body) && worth(0, body) <= max
    &&& read matches Some(n) ==> n == worth(0, body)
}

/// What is read by the digits of a number is what they are worth.
pub proof fn unsigned_is_read(text: Seq<char>, max: nat)
    ensures
        reads_as(
            text,
            max as int,
            match crate::text::unsigned(text, max) {
                Some(n) => Some(n as int),
                None => None,
            },
        ),
{
    let body = crate::text::unsigned_body(text);
    assert(text.len() > 0 ==> text.drop_first() =~= text.skip(1));
    if only_digits(body) {
        digits_are_worth_their_value(body);
    }
    assert(crate::text::all_digits(body) <==> only_digits(body)) by {
        if crate::text::all_digits(body) {
            assert forall|i: int| 0 <= i < body.len() implies 48 <= (#[trigger] body[i]) as u32
                <= 57 by {
                assert(is_digit(body[i]));
            }
        }
        if only_digits(body) {
            assert forall|i: int| 0 <= i < body.len() implies is_digit(#[trigger] body[i]) by {}
        }
    }
}

/// A number is read by what its digits are worth.
pub proof fn a_number_is_read_by_its_digits(text: &str, max: u64, r: Option<u64>)
    requires
        call_ensures(parse_unsigned, (text, max), r),
    ensures
        reads_as(
            text@,
            max as int,
            match r {
                Some(n) => Some(n as int),
                None => None,
            },
        ),
{
    unsigned_is_read(text@, max as nat);
}

/// Texts are the same if they have the same characters in the same places.
pub proof fn texts_are_the_same_by_their_characters(a: &str, b: &str, r: bool)
    requires
        call_ensures(same_text, (a, b), r),
    ensures
        r <==> a@.len() == b@.len() && forall|i: int|
            0 <= i < a@.len() ==> #[trigger] a@[i] == b@[i],
{
    if a@.len() == b@.len() && forall|i: int|
        0 <= i < a@.len() ==> #[trigger] a@[i] == b@[i] {
        assert(a@ =~= b@);
    }
}

/// The place that is found has the character, and no place before it does; none is found if and only
/// if the character is nowhere.
pub proof fn the_first_place_is_found(text: &str, c: char, r: Option<usize>)
    requires
        call_ensures(find_char, (text, c), r),
    ensures
        r matches Some(i) ==> i < text@.len() && text@[i as int] == c && forall|j: int|
            0 <= j < i ==> #[trigger] text@[j] != c,
        r is None <==> !text@.contains(c),
{
    first_index_is_first(text@, c);
    if r is Some {
        assert(text@[r->0 as int] == c);
    }
}

/// Pieces one after the other, with `sep` between them.
pub open spec fn put_together(pieces: Seq<Seq<char>>, sep: char) -> Seq<char>
    decreases pieces.len(),
{
    if pieces.len() == 0 {
        Seq::empty()
    } else if pieces.len() == 1 {
        pieces[0]
    } else {
        pieces[0] + seq![sep] + put_together(pieces.drop_first(), sep)
    }
}

/// `pieces` are what `text` is made of between one `sep` and the next.
pub open spec fn cut_at(text: Seq<char>, sep: char, pieces: Seq<Seq<char>>) -> bool {
    &&& pieces.len() > 0
    &&& put_together(pieces, sep) == text
    &&& forall|i: int| 0 <= i < pieces.len() ==> !(#[trigger] pieces[i]).contains(sep)
}

proof fn one_more_piece(pieces: Seq<Seq<char>>, sep: char, last: Seq<char>)
    requires
        pieces.len() > 0,
    ensures
        put_together(pieces.push(last), sep) == put_together(pieces, sep) + seq![sep] + last,
    decreases pieces.len(),
{
    let more = pieces.push(last);
    assert(more.drop_first() =~= pieces.drop_first().push(last));
    if pieces.len() == 1 {
        assert(more.drop_first() =~= seq![last]);
        assert(put_together(seq![last], sep) == last);
        assert(put_together(more, sep) =~= pieces[0] + seq![sep] + last);
    } else {
        one_more_piece(pieces.drop_first(), sep, last);
        assert(put_together(more, sep) =~= put_together(pieces, sep) + seq![sep] + last);
    }
}

proof fn a_longer_last_piece(pieces: Seq<Seq<char>>, sep: char, c: char)
    requires
        pieces.len() > 0,
    ensures
        put_together(pieces.drop_last().push(pieces.last().push(c)), sep) == put_together(
            pieces,
            sep,
        ).push(c),
    decreases pieces.len(),
{
    let longer = pieces.drop_last().push(pieces.last().push(c));
    if pieces.len() > 1 {
        let rest = pieces.drop_first();
        a_longer_last_piece(rest, sep, c);
        assert(longer.drop_first() =~= rest.drop_last().push(rest.last().push(c)));
        assert(longer[0] == pieces[0]);
        assert(put_together(longer, sep) =~= put_together(pieces, sep).push(c));
    }
}

/// The fields of a text are what it is made of between the separators.
pub proof fn fields_are_cut_out(text: Seq<char>, sep: char)
    ensures
        cut_at(text, sep, fields(text, sep)),
    decreases text.len(),
{
    fields_exist(text, sep);
    let all = fields(text, sep);
    if text.len() == 0 {
        assert(put_together(all, sep) =~= text);
    } else {
        let before = fields(text.drop_last(), sep);
        let c = text.last();
        fields_are_cut_out(text.drop_last(), sep);
        assert(text.drop_last().push(c) =~= text);
        if c == sep {
            one_more_piece(before, sep, Seq::empty());
            assert(put_together(all, sep) =~= text);
            assert forall|i: int| 0 <= i < all.len() implies !(#[trigger] all[i]).contains(sep) by {
                if i < before.len() {
                    assert(all[i] == before[i]);
                }
            }
        } else {
            a_longer_last_piece(before, sep, c);
            assert forall|i: int| 0 <= i < all.len() implies !(#[trigger] all[i]).contains(sep) by {
                if i < before.len() - 1 {
                    assert(all[i] == before[i]);
                } else {
                    let piece = before.last().push(c);
                    assert(!before[before.len() - 1].contains(sep));
                    if piece.contains(sep) {
                        let j = choose|j: int| 0 <= j < piece.len() && piece[j] == sep;
                        assert(before.last()[j] == sep);
                    }
                }
            }
        }
    }
}

/// Pieces of a text that is split hold no separator, and with separators between them they are the
/// text again.
pub proof fn a_split_text_is_cut_at_every_separator(text: &str, sep: char, r: Vec<&str>)
    requires
        call_ensures(split, (text, sep), r),
    ensures
        cut_at(text@, sep, Seq::new(r@.len(), |i: int| r@[i]@)),
{
    fields_are_cut_out(text@, sep);
    assert(contents(r@) =~= Seq::new(r@.len(), |i: int| r@[i]@));
}

/// `line` is what a line holds that is written as `piece`: without the carriage return before the
/// line feed, if there is one.
pub open spec fn line_of(piece: Seq<char>, line: Seq<char>) -> bool {
    piece == line.push('\r') || piece == line && (piece.len() == 0 || piece.last() != '\r')
}

/// The lines are what stands between line feeds, each without a carriage return before the line
/// feed; what comes after the last line feed is a line as it stands, if it is anything.
pub proof fn lines_end_in_line_feeds(text: &str, r: Vec<&str>)
    requires
        call_ensures(split_lines, (text,), r),
    ensures
        exists|pieces: Seq<Seq<char>>| #[trigger]
            cut_at(text@, '\n', pieces) && r@.len() == pieces.len() - (if pieces.last().len() == 0 {
                1int
            } else {
                0
            }) && (forall|i: int|
                0 <= i < pieces.len() - 1 ==> line_of(pieces[i], (#[trigger] r@[i])@)) && (
            pieces.last().len() > 0 ==> r@[pieces.len() - 1]@ == pieces.last()),
{
    let pieces = fields(text@, '\n');
    fields_are_cut_out(text@, '\n');
    let all = contents(r@);
    assert(all.len() == r@.len());
    assert forall|i: int| 0 <= i < r@.len() implies all[i] == (#[trigger] r@[i])@ by {}
    assert forall|i: int| 0 <= i < pieces.len() - 1 implies line_of(
        pieces[i],
        (#[trigger] r@[i])@,
    ) by {
        let piece = pieces[i];
        assert(r@[i]@ == all[i]);
        if piece.len() > 0 && piece.last() == '\r' {
            assert(piece =~= piece.drop_last().push('\r'));
        }
    }
    if pieces.last().len() > 0 {
        assert(r@[pieces.len() - 1]@ == all[pieces.len() - 1]);
    }
    assert(cut_at(text@, '\n', pieces));
}

/// What a finite number is without its sign and its power of two.
pub open spec fn significand(x: Single) -> int {
    let fraction = x.bits as int % 0x80_0000;
    if x.bits as int % 0x8000_0000 < 0x80_0000 {
        fraction
    } else {
        fraction + 0x80_0000
    }
}

/// The power of two that belongs to it.
pub open spec fn power(x: Single) -> int {
    let field = x.bits as int % 0x8000_0000 / 0x80_0000;
    if field == 0 {
        -149
    } else {
        field - 150
    }
}

/// `m` millionths are as near to the finite number `x`, without its sign, as any: where the number is
/// whole they are exact, else they are off by at most half of one, and even if by just half.
pub open spec fn nearest_millionths(x: Single, m: int) -> bool {
    if power(x) >= 0 {
        m == significand(x) * pow2(power(x) as nat) * 1_000_000
    } else {
        let parts = pow2((-power(x)) as nat) as int;
        let off = 2 * (m * parts - significand(x) * 1_000_000);
        &&& -parts <= off <= parts
        &&& off == parts || off == -parts ==> m % 2 == 0
    }
}

proof fn rounding_is_to_the_nearest(n: nat, d: nat)
    requires
        d > 0,
    ensures
        ({
            let m = nearest(n, d) as int;
            let off = 2 * (m * d - n);
            &&& -d <= off <= d
            &&& off == d || off == -d ==> m % 2 == 0
        }),
{
    let q = (n / d) as int;
    let r = (n % d) as int;
    vstd::arithmetic::div_mod::lemma_fundamental_div_mod(n as int, d as int);
    vstd::arithmetic::div_mod::lemma_mod_bound(n as int, d as int);
    assert(n == d * q + r);
    assert(d * q == q * d && (q + 1) * d == q * d + d) by (nonlinear_arith);
}

/// A finite number is written with its sign, its whole part, a point and six digits, to the nearest
/// millionth; of an infinite one and of one that is no number the name is written.
pub proof fn a_number_is_written_to_the_millionth(out: &mut String, x: Single)
    requires
        call_ensures(append_six_decimals, (out, x), ()),
    ensures
        final(out)@.len() > old(out)@.len(),
        final(out)@.take(old(out)@.len() as int) == old(out)@,
        to_the_millionth(x, final(out)@.skip(old(out)@.len() as int)),
{
    six_decimals_are_to_the_millionth(x);
    assert(final(out)@.take(old(out)@.len() as int) =~= old(out)@);
    assert(final(out)@.skip(old(out)@.len() as int) =~= six_decimals(x));
}

/// `text` writes `x` with six decimals.
pub open spec fn to_the_millionth(x: Single, text: Seq<char>) -> bool {
    let size = x.bits as int % 0x8000_0000;
    let sign = if x.bits >= 0x8000_0000 {
        seq!['-']
    } else {
        Seq::empty()
    };
    &&& text.len() > 0
    &&& size > 0x7F80_0000 ==> text == seq!['N', 'a', 'N']
    &&& size == 0x7F80_0000 ==> text == sign + seq!['i', 'n', 'f']
    &&& size < 0x7F80_0000 ==> exists|whole: Seq<char>, rest: Seq<char>|
        text == sign + whole + seq!['.'] + rest && #[trigger] writes(whole, worth(0, whole))
            && rest.len() == 6 && #[trigger] only_digits(rest) && nearest_millionths(
            x,
            worth(0, whole) * 1_000_000 + worth(0, rest),
        )
}

/// Six decimals are written to the nearest millionth.
pub proof fn six_decimals_are_to_the_millionth(x: Single)
    ensures
        to_the_millionth(x, six_decimals(x)),
{
    reveal_strlit("");
    reveal_strlit("-");
    reveal_strlit("NaN");
    reveal_strlit("inf");
    reveal_strlit(".");
    let text = six_decimals(x);
    let size = x.bits as int % 0x8000_0000;
    let sign = if x.bits >= 0x8000_0000 {
        seq!['-']
    } else {
        Seq::<char>::empty()
    };
    assert("-"@ =~= seq!['-']);
    assert(""@ =~= Seq::<char>::empty());
    assert("."@ =~= seq!['.']);
    assert(x.magnitude_bits() == size);
    if size > 0x7F80_0000 {
        assert(text =~= seq!['N', 'a', 'N']);
    } else if size == 0x7F80_0000 {
        assert(text =~= sign + seq!['i', 'n', 'f']);
    } else {
        let all = x.millionths();
        let whole = decimal(all / 1_000_000);
        let rest = padded(all % 1_000_000, 6);
        decimals_are_written(all / 1_000_000);
        padded_are_written(all % 1_000_000, 6);
        assert(worth(0, whole) * 1_000_000 + worth(0, rest) == all);
        assert(rest.len() == 6) by {
            small_numbers_are_short(all % 1_000_000);
            padded_is_digits(all % 1_000_000, 6);
        }
        assert(x.bits as int % 0x80_0000 == size % 0x80_0000);
        assert(x.mantissa() == significand(x));
        assert(x.exponent() == power(x));
        if power(x) < 0 {
            lemma_pow2_pos((-power(x)) as nat);
            rounding_is_to_the_nearest(
                (significand(x) * 1_000_000) as nat,
                pow2((-power(x)) as nat),
            );
        }
        assert(text =~= sign + whole + seq!['.'] + rest);
        assert(writes(whole, worth(0, whole)));
        assert(only_digits(rest));
    }
}

proof fn small_numbers_are_short(n: nat)
    requires
        n <= 999_999,
    ensures
        decimal(n).len() <= 6,
{
    reveal_with_fuel(decimal, 7);
}

} // verus!
