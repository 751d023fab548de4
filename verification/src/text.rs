//! Text: decimal numbers, fields and lines.
use vstd::prelude::*;
use vstd::string::{StrSliceExecFns, StringExecFns};

verus! {

/// The character of the decimal digit `d`.
pub open spec fn digit_char(d: nat) -> char {
    ('0' as u32 + d) as char
}

/// Whether `c` is one of the ten decimal digits.
pub open spec fn is_digit(c: char) -> bool {
    '0' as u32 <= c as u32 <= '9' as u32
}

/// The number that a digit stands for.
pub open spec fn digit_value(c: char) -> nat {
    (c as u32 - '0' as u32) as nat
}

/// Whether `text` is made of digits.
pub open spec fn all_digits(text: Seq<char>) -> bool {
    forall|i: int| 0 <= i < text.len() ==> is_digit(#[trigger] text[i])
}

/// The number that a row of digits stands for.
pub open spec fn digits_value(text: Seq<char>) -> nat
    decreases text.len(),
{
    if text.len() == 0 {
        0
    } else {
        digits_value(text.drop_last()) * 10 + digit_value(text.last())
    }
}

/// `n` in decimal, without leading zeros.
pub open spec fn decimal(n: nat) -> Seq<char>
    decreases n,
{
    if n < 10 {
        seq![digit_char(n)]
    } else {
        decimal(n / 10).push(digit_char(n % 10))
    }
}

/// `n` in decimal, with leading zeros up to `width` characters.
pub open spec fn padded(n: nat, width: nat) -> Seq<char> {
    let digits = decimal(n);
    if digits.len() < width {
        Seq::new((width - digits.len()) as nat, |i: int| '0') + digits
    } else {
        digits
    }
}

/// The digits of a number that may have a plus sign before it.
pub open spec fn unsigned_body(text: Seq<char>) -> Seq<char> {
    if text.len() > 0 && text[0] == '+' {
        text.drop_first()
    } else {
        text
    }
}

/// The number of at most `max` that `text` writes in decimal: an optional plus sign and at least
/// one digit, nothing else.
pub open spec fn unsigned(text: Seq<char>, max: nat) -> Option<nat> {
    let body = unsigned_body(text);
    if body.len() > 0 && all_digits(body) && digits_value(body) <= max {
        Some(digits_value(body))
    } else {
        None
    }
}

/// A row of digits that is continued does not stand for a smaller number.
proof fn digits_value_grows(text: Seq<char>, upto: int)
    requires
        0 <= upto <= text.len(),
    ensures
        digits_value(text.take(upto)) <= digits_value(text),
    decreases text.len() - upto,
{
    if upto < text.len() {
        digits_value_grows(text, upto + 1);
        assert(text.take(upto + 1).drop_last() =~= text.take(upto));
    } else {
        assert(text.take(upto) =~= text);
    }
}

/// A number in decimal is a row of digits that stands for it.
pub proof fn decimal_is_digits(n: nat)
    ensures
        decimal(n).len() > 0,
        all_digits(decimal(n)),
        digits_value(decimal(n)) == n,
    decreases n,
{
    reveal_with_fuel(digits_value, 2);
    if n < 10 {
        assert(decimal(n).drop_last() =~= Seq::<char>::empty());
    } else {
        decimal_is_digits(n / 10);
        assert(decimal(n).drop_last() =~= decimal(n / 10));
    }
}

/// Reading a number that was written in decimal gives it back.
pub proof fn decimal_reads_back(n: nat, max: nat)
    requires
        n <= max,
    ensures
        unsigned(decimal(n), max) == Some(n),
{
    decimal_is_digits(n);
    assert(is_digit(decimal(n)[0]));
}

/// A number with leading zeros is a row of digits that stands for it.
pub proof fn padded_is_digits(n: nat, width: nat)
    ensures
        all_digits(padded(n, width)),
        digits_value(padded(n, width)) == n,
        padded(n, width).len() > 0,
        padded(n, width).len() == (if decimal(n).len() < width {
            width
        } else {
            decimal(n).len()
        }),
{
    decimal_is_digits(n);
    let digits = decimal(n);
    if digits.len() < width {
        let zeros = Seq::new((width - digits.len()) as nat, |i: int| '0');
        zeros_before(zeros, digits);
    }
}

/// Leading zeros do not change the number.
pub proof fn padded_reads_back(n: nat, width: nat, max: nat)
    requires
        n <= max,
    ensures
        unsigned(padded(n, width), max) == Some(n),
{
    padded_is_digits(n, width);
    assert(is_digit(padded(n, width)[0]));
}

proof fn zeros_before(zeros: Seq<char>, digits: Seq<char>)
    requires
        forall|i: int| 0 <= i < zeros.len() ==> #[trigger] zeros[i] == '0',
    ensures
        digits_value(zeros + digits) == digits_value(digits),
    decreases zeros.len() + digits.len(),
{
    if digits.len() > 0 {
        assert((zeros + digits).drop_last() =~= zeros + digits.drop_last());
        zeros_before(zeros, digits.drop_last());
    } else {
        assert(zeros + digits =~= zeros);
        if zeros.len() > 0 {
            let fewer = zeros.drop_last();
            zeros_before(fewer, digits);
            assert(fewer + digits =~= fewer);
        }
    }
}

/// The characters of `text`.
pub fn characters(text: &str) -> (r: Vec<char>)
    ensures
        r@ == text@,
{
    let mut all: Vec<char> = Vec::new();
    for c in it: text.chars()
        invariant
            all@ == it.seq().take(it.index() as int),
            it.seq() == text@,
    {
        all.push(c);
    }
    assert(text@.take(text@.len() as int) =~= text@);
    all
}

/// Reads an unsigned decimal number of at most `max`.
pub fn parse_unsigned(text: &str, max: u64) -> (r: Option<u64>)
    ensures
        match r {
            Some(n) => unsigned(text@, max as nat) == Some(n as nat),
            None => unsigned(text@, max as nat) is None,
        },
{
    let all = characters(text);
    let mut i: usize = 0;
    if all.len() > 0 && all[0] == '+' {
        i = 1;
    }
    let from: usize = i;
    let ghost body = unsigned_body(text@);
    assert(body =~= all@.skip(from as int));
    if i == all.len() {
        return None;
    }
    let mut value: u64 = 0;
    while i < all.len()
        invariant
            from <= i <= all.len(),
            body == all@.skip(from as int),
            body == unsigned_body(text@),
            all_digits(body.take(i - from)),
            value == digits_value(body.take(i - from)),
            value <= max,
        decreases all.len() - i,
    {
        let c: char = all[i];
        assert(c == body[i - from]);
        let code: u32 = c as u32;
        if code < '0' as u32 || code > '9' as u32 {
            assert(!is_digit(body[i - from]));
            return None;
        }
        let digit: u64 = (code - '0' as u32) as u64;
        let wide: u128 = value as u128 * 10 + digit as u128;
        assert(body.take(i - from + 1).drop_last() =~= body.take(i - from));
        assert(wide == digits_value(body.take(i - from + 1)));
        if wide > max as u128 {
            proof {
                digits_value_grows(body, i - from + 1);
            }
            return None;
        }
        value = wide as u64;
        i = i + 1;
    }
    assert(body.take(i - from) =~= body);
    Some(value)
}

/// The text of one digit.
fn digit_text(digit: u8) -> (r: &'static str)
    requires
        digit < 10,
    ensures
        r@ == seq![digit_char(digit as nat)],
{
    proof {
        reveal_strlit("0");
        reveal_strlit("1");
        reveal_strlit("2");
        reveal_strlit("3");
        reveal_strlit("4");
        reveal_strlit("5");
        reveal_strlit("6");
        reveal_strlit("7");
        reveal_strlit("8");
        reveal_strlit("9");
    }
    let text: &'static str = match digit {
        0 => "0",
        1 => "1",
        2 => "2",
        3 => "3",
        4 => "4",
        5 => "5",
        6 => "6",
        7 => "7",
        8 => "8",
        _ => "9",
    };
    assert(text@ =~= seq![digit_char(digit as nat)]);
    text
}

/// Appends `n` in decimal.
pub fn append_decimal(out: &mut String, n: u128)
    ensures
        final(out)@ == old(out)@ + decimal(n as nat),
    decreases n,
{
    if n >= 10 {
        append_decimal(out, n / 10);
    }
    out.append(digit_text((n % 10) as u8));
    assert(out@ =~= old(out)@ + decimal(n as nat));
}

/// Appends `n` in decimal, with leading zeros up to `width` characters.
pub fn append_padded(out: &mut String, n: u128, width: usize)
    ensures
        final(out)@ == old(out)@ + padded(n as nat, width as nat),
{
    let mut digits = String::new();
    append_decimal(&mut digits, n);
    assert(digits@ =~= decimal(n as nat));
    let have: usize = digits.as_str().unicode_len();
    let mut len: usize = have;
    while len < width
        invariant
            have <= len,
            have < width ==> len <= width,
            have >= width ==> len == have,
            out@ == old(out)@ + Seq::new((len - have) as nat, |i: int| '0'),
        decreases width - len,
    {
        proof {
            reveal_strlit("0");
        }
        out.append("0");
        len = len + 1;
        assert(out@ =~= old(out)@ + Seq::new((len - have) as nat, |i: int| '0'));
    }
    out.append(digits.as_str());
    assert(out@ =~= old(out)@ + padded(n as nat, width as nat));
}

/// The fields of `text` between the characters `sep`: one more than there are of them.
pub open spec fn fields(text: Seq<char>, sep: char) -> Seq<Seq<char>>
    decreases text.len(),
{
    if text.len() == 0 {
        seq![Seq::empty()]
    } else {
        let before = fields(text.drop_last(), sep);
        if text.last() == sep {
            before.push(Seq::empty())
        } else {
            before.drop_last().push(before.last().push(text.last()))
        }
    }
}

/// What pieces of text hold.
pub open spec fn contents(pieces: Seq<&str>) -> Seq<Seq<char>> {
    Seq::new(pieces.len(), |i: int| pieces[i]@)
}

/// Where `c` first occurs in `text`, or the length of `text`.
pub open spec fn first_index(text: Seq<char>, c: char) -> nat
    decreases text.len(),
{
    if text.len() == 0 || text[0] == c {
        0
    } else {
        1 + first_index(text.drop_first(), c)
    }
}

/// There is at least one field.
pub proof fn fields_exist(text: Seq<char>, sep: char)
    ensures
        fields(text, sep).len() > 0,
    decreases text.len(),
{
    if text.len() > 0 {
        fields_exist(text.drop_last(), sep);
    }
}

/// Text without the separator is one field.
pub proof fn one_field(text: Seq<char>, sep: char)
    requires
        !text.contains(sep),
    ensures
        fields(text, sep) == seq![text],
    decreases text.len(),
{
    if text.len() > 0 {
        let rest = text.drop_last();
        assert forall|i: int| 0 <= i < rest.len() implies rest[i] != sep by {
            assert(rest[i] == text[i]);
        }
        one_field(rest, sep);
        assert(rest.push(text.last()) =~= text);
        assert(text[text.len() - 1] != sep);
        assert(fields(text, sep) =~= seq![text]);
    } else {
        assert(text =~= Seq::empty());
    }
}

/// A field that ends in a separator comes before the fields of what follows.
pub proof fn first_field(first: Seq<char>, sep: char, rest: Seq<char>)
    requires
        !first.contains(sep),
    ensures
        fields(first.push(sep) + rest, sep) == seq![first] + fields(rest, sep),
    decreases rest.len(),
{
    let text = first.push(sep) + rest;
    if rest.len() == 0 {
        assert(text =~= first.push(sep));
        assert(text.drop_last() =~= first);
        one_field(first, sep);
        assert(rest =~= Seq::empty());
        assert(fields(text, sep) =~= seq![first] + fields(rest, sep));
    } else {
        let fewer = rest.drop_last();
        first_field(first, sep, fewer);
        fields_exist(fewer, sep);
        assert(text.drop_last() =~= first.push(sep) + fewer);
        assert(fields(text, sep) =~= seq![first] + fields(rest, sep));
    }
}

/// Splits `text` at every `sep`.
pub fn split<'a>(text: &'a str, sep: char) -> (r: Vec<&'a str>)
    ensures
        contents(r@) == fields(text@, sep),
        r@.len() > 0,
{
    let all = characters(text);
    let mut pieces: Vec<&'a str> = Vec::new();
    let mut start: usize = 0;
    let mut i: usize = 0;
    proof {
        let none = text@.subrange(0, 0);
        assert(text@.take(0) =~= Seq::<char>::empty());
        assert(none =~= Seq::<char>::empty());
        assert(fields(text@.take(0), sep) =~= contents(pieces@).push(none));
    }
    while i < all.len()
        invariant
            all@ == text@,
            start <= i <= all.len(),
            fields(text@.take(i as int), sep) == contents(pieces@).push(
                text@.subrange(start as int, i as int),
            ),
        decreases all.len() - i,
    {
        let ghost taken = text@.take(i + 1);
        assert(taken.drop_last() =~= text@.take(i as int));
        assert(taken.last() == all@[i as int]);
        if all[i] == sep {
            let ghost before = pieces@;
            pieces.push(text.substring_char(start, i));
            assert(contents(pieces@) =~= contents(before).push(
                text@.subrange(start as int, i as int),
            ));
            start = i + 1;
            assert(text@.subrange(i + 1, i + 1) =~= Seq::<char>::empty());
        } else {
            let ghost held = contents(pieces@);
            let ghost field = text@.subrange(start as int, i as int);
            assert(held.push(field).drop_last() =~= held);
            assert(held.push(field).last() == field);
            assert(field.push(all@[i as int]) =~= text@.subrange(start as int, i + 1));
        }
        i = i + 1;
    }
    let ghost before = pieces@;
    pieces.push(text.substring_char(start, all.len()));
    assert(text@.take(i as int) =~= text@);
    assert(contents(pieces@) =~= contents(before).push(
        text@.subrange(start as int, all@.len() as int),
    ));
    pieces
}

/// `line` without a carriage return at its end.
pub open spec fn without_return(line: Seq<char>) -> Seq<char> {
    if line.len() > 0 && line.last() == '\r' {
        line.drop_last()
    } else {
        line
    }
}

/// The lines of `text`: each ends in a line feed, which may have a carriage return before it; the
/// last may go without.
pub open spec fn lines(text: Seq<char>) -> Seq<Seq<char>> {
    let all = fields(text, '\n');
    let ended = Seq::new((all.len() - 1) as nat, |i: int| without_return(all[i]));
    if all.last().len() > 0 {
        ended.push(all.last())
    } else {
        ended
    }
}

/// Splits `text` into its lines.
pub fn split_lines<'a>(text: &'a str) -> (r: Vec<&'a str>)
    ensures
        contents(r@) == lines(text@),
{
    let all = split(text, '\n');
    let mut out: Vec<&'a str> = Vec::new();
    let last: usize = all.len() - 1;
    let mut i: usize = 0;
    while i < last
        invariant
            i <= last,
            last == all@.len() - 1,
            out@.len() == i,
            forall|j: int|
                0 <= j < i ==> (#[trigger] out@[j])@ == without_return(all@[j]@),
        decreases last - i,
    {
        let line: &'a str = all[i];
        let n: usize = line.unicode_len();
        if n > 0 && line.get_char(n - 1) == '\r' {
            assert(line@.subrange(0, n - 1) =~= line@.drop_last());
            out.push(line.substring_char(0, n - 1));
        } else {
            out.push(line);
        }
        i = i + 1;
    }
    let rest: &'a str = all[last];
    assert(contents(all@)[last as int] == rest@);
    if rest.unicode_len() > 0 {
        out.push(rest);
    }
    assert forall|j: int| 0 <= j < last implies (#[trigger] out@[j])@ == without_return(
        contents(all@)[j],
    ) by {}
    assert(contents(out@) =~= lines(text@));
    out
}

/// Finds where `c` first occurs in `text`.
pub fn find_char(text: &str, c: char) -> (r: Option<usize>)
    ensures
        match r {
            Some(i) => i == first_index(text@, c) && i < text@.len(),
            None => first_index(text@, c) == text@.len(),
        },
{
    let all = characters(text);
    let mut i: usize = 0;
    assert(text@.skip(0) =~= text@);
    while i < all.len()
        invariant
            all@ == text@,
            i <= all.len(),
            first_index(text@, c) == i + first_index(text@.skip(i as int), c),
        decreases all.len() - i,
    {
        assert(text@.skip(i as int)[0] == all@[i as int]);
        if all[i] == c {
            return Some(i);
        }
        assert(text@.skip(i as int).drop_first() =~= text@.skip(i + 1));
        i = i + 1;
    }
    None
}

/// What a first index says.
pub proof fn first_index_is_first(text: Seq<char>, c: char)
    ensures
        first_index(text, c) <= text.len(),
        first_index(text, c) < text.len() ==> text[first_index(text, c) as int] == c,
        forall|i: int| 0 <= i < first_index(text, c) ==> #[trigger] text[i] != c,
    decreases text.len(),
{
    if text.len() > 0 && text[0] != c {
        let rest = text.drop_first();
        first_index_is_first(rest, c);
        assert forall|i: int| 0 <= i < first_index(text, c) implies #[trigger] text[i] != c by {
            if i > 0 {
                assert(rest[i - 1] == text[i]);
            }
        }
    }
}

/// Compares two texts.
pub fn same_text(a: &str, b: &str) -> (r: bool)
    ensures
        r == (a@ == b@),
{
    let left = characters(a);
    let right = characters(b);
    if left.len() != right.len() {
        return false;
    }
    let mut i: usize = 0;
    while i < left.len()
        invariant
            left@ == a@,
            right@ == b@,
            left@.len() == right@.len(),
            i <= left@.len(),
            forall|j: int| 0 <= j < i ==> left@[j] == right@[j],
        decreases left.len() - i,
    {
        if left[i] != right[i] {
            return false;
        }
        i = i + 1;
    }
    assert(a@ =~= b@);
    true
}

/// What [`str::to_lowercase`] makes of a text.
pub uninterp spec fn lowercase(text: Seq<char>) -> Seq<char>;

/// `c` in lower case, if it is one of the letters from A to Z.
pub open spec fn ascii_lower(c: char) -> char {
    if 'A' as u32 <= c as u32 <= 'Z' as u32 {
        (c as u32 + 32) as char
    } else {
        c
    }
}

/// Whether all characters are ASCII.
pub open spec fn all_ascii(text: Seq<char>) -> bool {
    forall|i: int| 0 <= i < text.len() ==> (#[trigger] text[i]) as u32 <= 127
}

/// [`str::to_lowercase`]: the text in lower case, by Unicode's rules. Of ASCII text these change
/// the letters from A to Z and nothing else.
#[verifier::external_body]
pub(crate) fn to_lowercase(text: &str) -> (r: String)
    ensures
        r@ == lowercase(text@),
        all_ascii(text@) ==> r@ == text@.map_values(|c: char| ascii_lower(c)),
{
    text.to_lowercase()
}

} // verus!
