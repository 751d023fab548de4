//! What comparing values comes to, in terms of their bit patterns, and what the relations between
//! values say of the host's operations.
use vstd::prelude::*;

use crate::arith::{
    count_of, difference_of, largest, log10_of, narrowed, parsed, product_of, quotient_of, root_of,
    running_sum, seconds_of, shortest_text, smallest, sum_of, wide_cos_of, wide_count_of,
    wide_difference_of, wide_floor_of, wide_product_of, wide_quotient_of, wide_rem_of, wide_sin_of,
    wide_sum_of, Arithmetic, Double, Single,
};
use crate::signal::IqSample;
use crate::span::Span;

verus! {

/// The relations of single precision are what the host's operations give, operand for operand.
pub proof fn relations_are_operations<A: Arithmetic>(arith: &A, x: Single, y: Single, r: Single)
    ensures
        sum_of(arith, x, y, r) <==> call_ensures(A::plus, (arith, x, y), r),
        difference_of(arith, x, y, r) <==> call_ensures(A::minus, (arith, x, y), r),
        product_of(arith, x, y, r) <==> call_ensures(A::times, (arith, x, y), r),
        quotient_of(arith, x, y, r) <==> call_ensures(A::over, (arith, x, y), r),
        root_of(arith, x, r) <==> call_ensures(A::root, (arith, x), r),
        log10_of(arith, x, r) <==> call_ensures(A::log10, (arith, x), r),
        forall|n: u64| #[trigger]
            count_of(arith, n, r) <==> call_ensures(A::count, (arith, n), r),
{
}

/// The same of double precision.
pub proof fn wide_relations_are_operations<A: Arithmetic>(
    arith: &A,
    x: Double,
    y: Double,
    r: Double,
)
    ensures
        wide_sum_of(arith, x, y, r) <==> call_ensures(A::wide_plus, (arith, x, y), r),
        wide_difference_of(arith, x, y, r) <==> call_ensures(A::wide_minus, (arith, x, y), r),
        wide_product_of(arith, x, y, r) <==> call_ensures(A::wide_times, (arith, x, y), r),
        wide_quotient_of(arith, x, y, r) <==> call_ensures(A::wide_over, (arith, x, y), r),
        wide_rem_of(arith, x, y, r) <==> call_ensures(A::wide_rem, (arith, x, y), r),
        wide_cos_of(arith, x, r) <==> call_ensures(A::wide_cos, (arith, x), r),
        wide_sin_of(arith, x, r) <==> call_ensures(A::wide_sin, (arith, x), r),
        forall|n: u64| #[trigger]
            wide_count_of(arith, n, r) <==> call_ensures(A::wide_count, (arith, n), r),
        forall|n: u64| #[trigger]
            wide_floor_of(arith, x, n) <==> call_ensures(A::wide_floor, (arith, x), n),
        forall|n: Single| #[trigger]
            narrowed(arith, x, n) <==> call_ensures(A::narrow, (arith, x), n),
        forall|span: Span| #[trigger]
            seconds_of(arith, span, r) <==> call_ensures(A::seconds, (arith, span), r),
{
}

/// What is read from text and shown as text is what the host reads and shows.
pub proof fn text_relations_are_operations<A: Arithmetic>(
    arith: &A,
    text: Seq<char>,
    read: Option<Single>,
    x: Single,
)
    ensures
        parsed(arith, text, read) <==> exists|s: &str| #[trigger]
            s@ == text && call_ensures(A::parse, (arith, s), read),
        shortest_text(arith, x, text) <==> exists|s: String| #[trigger]
            s@ == text && call_ensures(A::shortest, (arith, x), s),
{
}

/// What is not a number has all exponent bits set and a fraction; an infinity has no fraction.
pub proof fn numbers_are_told_by_their_exponent(x: Single, nan: bool, finite: bool, zero: bool)
    requires
        call_ensures(Single::is_nan, (x,), nan),
        call_ensures(Single::is_finite, (x,), finite),
        call_ensures(Single::is_zero, (x,), zero),
    ensures
        nan <==> x.bits as int % 0x8000_0000 > 0x7F80_0000,
        finite <==> x.bits as int % 0x8000_0000 < 0x7F80_0000,
        zero <==> x.bits as int % 0x8000_0000 == 0,
{
}

/// Of numbers that are not negative the one with the smaller pattern is below, of negative ones the
/// one with the larger, and a negative one is below one that is not, unless both are zero. What is
/// not a number is neither below nor above anything.
pub proof fn below_is_by_pattern(x: Single, y: Single, r: bool)
    requires
        call_ensures(Single::is_below, (x, y), r),
    ensures
        x.bits as int % 0x8000_0000 > 0x7F80_0000 || y.bits as int % 0x8000_0000 > 0x7F80_0000
            ==> !r,
        x.bits <= 0x7F80_0000 && y.bits <= 0x7F80_0000 ==> (r <==> x.bits < y.bits),
        0x8000_0000 <= x.bits <= 0xFF80_0000 && 0x8000_0000 <= y.bits <= 0xFF80_0000 ==> (r
            <==> y.bits < x.bits),
        0x8000_0000 <= x.bits <= 0xFF80_0000 && y.bits <= 0x7F80_0000 ==> (r <==> x.bits
            != 0x8000_0000 || y.bits != 0),
        x.bits <= 0x7F80_0000 && 0x8000_0000 <= y.bits <= 0xFF80_0000 ==> !r,
{
}

/// The same of double precision.
pub proof fn wide_below_is_by_pattern(x: Double, y: Double, r: bool)
    requires
        call_ensures(Double::is_below, (x, y), r),
    ensures
        x.bits as int % 0x8000_0000_0000_0000 > 0x7FF0_0000_0000_0000 || y.bits as int
            % 0x8000_0000_0000_0000 > 0x7FF0_0000_0000_0000 ==> !r,
        x.bits <= 0x7FF0_0000_0000_0000 && y.bits <= 0x7FF0_0000_0000_0000 ==> (r <==> x.bits
            < y.bits),
        0x8000_0000_0000_0000 <= x.bits <= 0xFFF0_0000_0000_0000 && 0x8000_0000_0000_0000 <= y.bits
            <= 0xFFF0_0000_0000_0000 ==> (r <==> y.bits < x.bits),
        0x8000_0000_0000_0000 <= x.bits <= 0xFFF0_0000_0000_0000 && y.bits
            <= 0x7FF0_0000_0000_0000 ==> (r <==> x.bits != 0x8000_0000_0000_0000 || y.bits != 0),
        x.bits <= 0x7FF0_0000_0000_0000 && 0x8000_0000_0000_0000 <= y.bits
            <= 0xFFF0_0000_0000_0000 ==> !r,
{
}

/// What contracts say of the order is what comparing gives.
pub proof fn order_is_what_comparing_gives(x: Single, y: Single, below: bool, at_most: bool)
    requires
        call_ensures(Single::is_below, (x, y), below),
        call_ensures(Single::is_at_most, (x, y), at_most),
    ensures
        below == x.below(y),
        at_most == x.at_most(y),
        x.bits as int % 0x8000_0000 <= 0x7F80_0000 && y.bits as int % 0x8000_0000 <= 0x7F80_0000
            ==> at_most == !y.below(x),
        x.bits as int % 0x8000_0000 > 0x7F80_0000 || y.bits as int % 0x8000_0000 > 0x7F80_0000
            ==> !at_most,
        below ==> at_most && !y.below(x),
{
}

/// Two values are equal if and only if they are numbers and neither is below the other.
pub proof fn equal_is_neither_below(x: Single, y: Single)
    ensures
        x.equals(y) <==> x.at_most(y) && y.at_most(x),
        x.equals(y) ==> x.bits == y.bits || x.bits as int % 0x8000_0000 == 0 && y.bits as int
            % 0x8000_0000 == 0,
{
}

/// The larger of two is one of them and below neither; where one is not a number it is the other.
pub proof fn the_larger_is_below_neither(x: Single, y: Single, r: Single)
    requires
        call_ensures(Single::max_of, (x, y), r),
    ensures
        r == x || r == y,
        !r.below(x) && !r.below(y),
        x.bits as int % 0x8000_0000 > 0x7F80_0000 ==> r == y,
        y.bits as int % 0x8000_0000 > 0x7F80_0000 && x.bits as int % 0x8000_0000 <= 0x7F80_0000
            ==> r == x,
{
}

/// The smaller of two is one of them and above neither; where one is not a number it is the other.
pub proof fn the_smaller_is_above_neither(x: Single, y: Single, r: Single)
    requires
        call_ensures(Single::min_of, (x, y), r),
    ensures
        r == x || r == y,
        !x.below(r) && !y.below(r),
        x.bits as int % 0x8000_0000 > 0x7F80_0000 ==> r == y,
        y.bits as int % 0x8000_0000 > 0x7F80_0000 && x.bits as int % 0x8000_0000 <= 0x7F80_0000
            ==> r == x,
{
}

/// The largest of values is the one to start with or one of them.
pub proof fn the_largest_is_among_them(start: Single, values: Seq<Single>)
    ensures
        largest(start, values) == start || values.contains(largest(start, values)),
    decreases values.len(),
{
    if values.len() > 0 {
        let before = values.drop_last();
        the_largest_is_among_them(start, before);
        assert(values[values.len() - 1] == values.last());
        if before.contains(largest(start, before)) {
            let i = choose|i: int| 0 <= i < before.len() && before[i] == largest(start, before);
            assert(values[i] == before[i]);
        }
    }
}

/// The smallest of values is the one to start with or one of them, and no number among them is below
/// it.
pub proof fn the_smallest_is_above_none(start: Single, values: Seq<Single>)
    requires
        start.bits as int % 0x8000_0000 <= 0x7F80_0000,
    ensures
        smallest(start, values) == start || values.contains(smallest(start, values)),
        !start.below(smallest(start, values)),
        smallest(start, values).bits as int % 0x8000_0000 <= 0x7F80_0000,
        forall|i: int|
            0 <= i < values.len() ==> !(#[trigger] values[i]).below(smallest(start, values)),
    decreases values.len(),
{
    if values.len() > 0 {
        let before = values.drop_last();
        the_smallest_is_above_none(start, before);
        assert(values[values.len() - 1] == values.last());
        if before.contains(smallest(start, before)) {
            let i = choose|i: int| 0 <= i < before.len() && before[i] == smallest(start, before);
            assert(values[i] == before[i]);
        }
        assert forall|i: int| 0 <= i < values.len() implies !(#[trigger] values[i]).below(
            smallest(start, values),
        ) by {
            if i < before.len() {
                assert(before[i] == values[i]);
            }
        }
    }
}

/// A running sum takes the terms one by one, each added to what there was: nothing is left out, and
/// nothing comes in twice.
pub proof fn a_running_sum_takes_every_term<A: Arithmetic>(
    arith: &A,
    start: Single,
    terms: Seq<Single>,
    total: Single,
) -> (sums: Seq<Single>)
    requires
        running_sum(arith, start, terms, total),
    ensures
        sums.len() == terms.len() + 1,
        sums[0] == start,
        sums.last() == total,
        forall|i: int|
            0 <= i < terms.len() ==> call_ensures(
                A::plus,
                (arith, sums[i], #[trigger] terms[i]),
                sums[i + 1],
            ),
    decreases terms.len(),
{
    if terms.len() == 0 {
        seq![start]
    } else {
        let before = choose|before: Single| #[trigger]
            sum_of(arith, before, terms.last(), total) && running_sum(
                arith,
                start,
                terms.drop_last(),
                before,
            );
        let fewer = a_running_sum_takes_every_term(arith, start, terms.drop_last(), before);
        let sums = fewer.push(total);
        assert forall|i: int| 0 <= i < terms.len() implies call_ensures(
            A::plus,
            (arith, sums[i], #[trigger] terms[i]),
            sums[i + 1],
        ) by {
            if i < terms.len() - 1 {
                assert(terms.drop_last()[i] == terms[i]);
            }
        }
        sums
    }
}

/// Two values are the same number if and only if both are numbers and their patterns agree, or both
/// are zero.
pub proof fn sameness_is_by_pattern(x: Single, y: Single, r: bool)
    requires
        call_ensures(Single::eq, (&x, &y), r),
    ensures
        r <==> x.bits as int % 0x8000_0000 <= 0x7F80_0000 && y.bits as int % 0x8000_0000
            <= 0x7F80_0000 && (x.bits == y.bits || x.bits as int % 0x8000_0000 == 0
            && y.bits as int % 0x8000_0000 == 0),
{
}

/// The same in double precision.
pub proof fn wide_sameness_is_by_pattern(x: Double, y: Double, r: bool)
    requires
        call_ensures(Double::eq, (&x, &y), r),
    ensures
        r <==> x.bits as int % 0x8000_0000_0000_0000 <= 0x7FF0_0000_0000_0000 && y.bits as int
            % 0x8000_0000_0000_0000 <= 0x7FF0_0000_0000_0000 && (x.bits == y.bits || x.bits as int
            % 0x8000_0000_0000_0000 == 0 && y.bits as int % 0x8000_0000_0000_0000 == 0),
{
}

/// Samples are the same if and only if both parts are.
pub proof fn samples_are_the_same_by_both_parts(x: IqSample, y: IqSample, r: bool)
    requires
        call_ensures(IqSample::eq, (&x, &y), r),
    ensures
        r <==> x.re.equals(y.re) && x.im.equals(y.im),
{
}

} // verus!
