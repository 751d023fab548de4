//! Binary floating-point values by their bit patterns, the order on them, and the arithmetic that
//! the rest of the library computes with.
//!
//! A [`Single`] or a [`Double`] is the bit pattern of an IEEE 754 value. Comparing two of them is
//! integer work on the patterns and is done here. Adding, multiplying, taking roots and so on is
//! left to whoever implements [`Arithmetic`]: nothing is assumed of the values that an
//! implementation returns. Contracts say which operation was applied to which operands, by the
//! relations below (`sum_of(arith, x, y, r)`: `arith.plus(x, y)` may return `r`).
use vstd::prelude::*;

use crate::span::Span;

verus! {

/// Bit pattern of the positive infinity; patterns of one sign above it are not numbers.
pub const INFINITY_BITS: u32 = 0x7F80_0000;

/// The sign bit; also the number of patterns of one sign.
pub const SIGN_BIT: u32 = 0x8000_0000;

/// Bit pattern of the negative infinity.
pub const NEG_INFINITY_BITS: u32 = 0xFF80_0000;

/// Bit pattern of 1.
pub const ONE_BITS: u32 = 0x3F80_0000;

/// Bit pattern of 2.
pub const TWO_BITS: u32 = 0x4000_0000;

/// The `Double` counterparts of `INFINITY_BITS` and `SIGN_BIT`.
pub const WIDE_INFINITY_BITS: u64 = 0x7FF0_0000_0000_0000;

pub const WIDE_SIGN_BIT: u64 = 0x8000_0000_0000_0000;

/// A single-precision value, as its bit pattern.
#[derive(Clone, Copy, Debug)]
pub struct Single {
    pub bits: u32,
}

/// A double-precision value, as its bit pattern.
#[derive(Clone, Copy, Debug)]
pub struct Double {
    pub bits: u64,
}

impl Single {
    /// The pattern without its sign.
    pub open spec fn magnitude_bits(self) -> int {
        if self.bits >= SIGN_BIT {
            self.bits - SIGN_BIT
        } else {
            self.bits as int
        }
    }

    pub open spec fn nan(self) -> bool {
        self.magnitude_bits() > INFINITY_BITS
    }

    /// Where a number stands in the order of all numbers; both zeros stand at 0.
    pub open spec fn rank(self) -> int {
        if self.bits >= SIGN_BIT {
            -(self.bits - SIGN_BIT)
        } else {
            self.bits as int
        }
    }

    /// `self < other`; nothing is below or above what is not a number.
    pub open spec fn below(self, other: Single) -> bool {
        !self.nan() && !other.nan() && self.rank() < other.rank()
    }

    /// `self <= other`.
    pub open spec fn at_most(self, other: Single) -> bool {
        !self.nan() && !other.nan() && self.rank() <= other.rank()
    }

    /// `self == other`: the zeros of both signs are equal, and nothing equals what is not a number.
    pub open spec fn equals(self, other: Single) -> bool {
        !self.nan() && !other.nan() && self.rank() == other.rank()
    }

    /// Neither infinite nor not a number.
    pub open spec fn finite(self) -> bool {
        self.magnitude_bits() < INFINITY_BITS
    }

    /// The larger of two; where one is not a number, the other.
    pub open spec fn larger(self, other: Single) -> Single {
        if self.nan() || self.below(other) {
            other
        } else {
            self
        }
    }

    /// The smaller of two; where one is not a number, the other.
    pub open spec fn smaller(self, other: Single) -> Single {
        if self.nan() || other.below(self) {
            other
        } else {
            self
        }
    }

    pub fn is_nan(self) -> (r: bool)
        ensures
            r == self.nan(),
    {
        let magnitude: u32 = if self.bits >= SIGN_BIT {
            self.bits - SIGN_BIT
        } else {
            self.bits
        };
        magnitude > INFINITY_BITS
    }

    pub fn is_finite(self) -> (r: bool)
        ensures
            r == self.finite(),
    {
        let magnitude: u32 = if self.bits >= SIGN_BIT {
            self.bits - SIGN_BIT
        } else {
            self.bits
        };
        magnitude < INFINITY_BITS
    }

    fn to_rank(self) -> (r: i64)
        ensures
            r == self.rank(),
    {
        if self.bits >= SIGN_BIT {
            -((self.bits - SIGN_BIT) as i64)
        } else {
            self.bits as i64
        }
    }

    pub fn is_below(self, other: Single) -> (r: bool)
        ensures
            r == self.below(other),
    {
        !self.is_nan() && !other.is_nan() && self.to_rank() < other.to_rank()
    }

    pub fn is_at_most(self, other: Single) -> (r: bool)
        ensures
            r == self.at_most(other),
    {
        !self.is_nan() && !other.is_nan() && self.to_rank() <= other.to_rank()
    }

    /// Equal to zero, of either sign.
    pub fn is_zero(self) -> (r: bool)
        ensures
            r == (self.rank() == 0),
    {
        self.to_rank() == 0
    }

    pub fn max_of(self, other: Single) -> (r: Single)
        ensures
            r == self.larger(other),
    {
        if self.is_nan() || self.is_below(other) {
            other
        } else {
            self
        }
    }

    pub fn min_of(self, other: Single) -> (r: Single)
        ensures
            r == self.smaller(other),
    {
        if self.is_nan() || other.is_below(self) {
            other
        } else {
            self
        }
    }
}

impl Double {
    pub open spec fn nan(self) -> bool {
        (if self.bits >= WIDE_SIGN_BIT {
            self.bits - WIDE_SIGN_BIT
        } else {
            self.bits as int
        }) > WIDE_INFINITY_BITS
    }

    pub open spec fn rank(self) -> int {
        if self.bits >= WIDE_SIGN_BIT {
            -(self.bits - WIDE_SIGN_BIT)
        } else {
            self.bits as int
        }
    }

    /// `self < other`; nothing is below or above what is not a number.
    pub open spec fn below(self, other: Double) -> bool {
        !self.nan() && !other.nan() && self.rank() < other.rank()
    }

    /// `self == other`: the zeros of both signs are equal, and nothing equals what is not a number.
    pub open spec fn equals(self, other: Double) -> bool {
        !self.nan() && !other.nan() && self.rank() == other.rank()
    }

    pub fn is_nan(self) -> (r: bool)
        ensures
            r == self.nan(),
    {
        let magnitude: u64 = if self.bits >= WIDE_SIGN_BIT {
            self.bits - WIDE_SIGN_BIT
        } else {
            self.bits
        };
        magnitude > WIDE_INFINITY_BITS
    }

    fn to_rank(self) -> (r: i128)
        ensures
            r == self.rank(),
    {
        if self.bits >= WIDE_SIGN_BIT {
            -((self.bits - WIDE_SIGN_BIT) as i128)
        } else {
            self.bits as i128
        }
    }

    pub fn is_below(self, other: Double) -> (r: bool)
        ensures
            r == self.below(other),
    {
        !self.is_nan() && !other.is_nan() && self.to_rank() < other.to_rank()
    }
}

impl PartialEq for Single {
    fn eq(&self, other: &Single) -> (r: bool) {
        !self.is_nan() && !other.is_nan() && self.to_rank() == other.to_rank()
    }
}

impl vstd::std_specs::cmp::PartialEqSpecImpl for Single {
    open spec fn obeys_eq_spec() -> bool {
        true
    }

    open spec fn eq_spec(&self, other: &Single) -> bool {
        self.equals(*other)
    }
}

impl PartialEq for Double {
    fn eq(&self, other: &Double) -> (r: bool) {
        !self.is_nan() && !other.is_nan() && self.to_rank() == other.to_rank()
    }
}

impl vstd::std_specs::cmp::PartialEqSpecImpl for Double {
    open spec fn obeys_eq_spec() -> bool {
        true
    }

    open spec fn eq_spec(&self, other: &Double) -> bool {
        self.equals(*other)
    }
}

/// The floating-point operations that the library needs of its host. No method promises anything
/// of its result.
pub trait Arithmetic {
    /// `x + y`.
    fn plus(&self, x: Single, y: Single) -> Single;

    /// `x - y`.
    fn minus(&self, x: Single, y: Single) -> Single;

    /// `x * y`.
    fn times(&self, x: Single, y: Single) -> Single;

    /// `x / y`.
    fn over(&self, x: Single, y: Single) -> Single;

    /// The square root of `x`.
    fn root(&self, x: Single) -> Single;

    /// The decimal logarithm of `x`.
    fn log10(&self, x: Single) -> Single;

    /// The single-precision value nearest to `n`.
    fn count(&self, n: u64) -> Single;

    /// The value that `text` writes, if it writes one.
    fn parse(&self, text: &str) -> Option<Single>;

    /// `x` in the shortest form that reads back as `x`.
    fn shortest(&self, x: Single) -> String;

    /// `x + y`, in double precision.
    fn wide_plus(&self, x: Double, y: Double) -> Double;

    /// `x - y`, in double precision.
    fn wide_minus(&self, x: Double, y: Double) -> Double;

    /// `x * y`, in double precision.
    fn wide_times(&self, x: Double, y: Double) -> Double;

    /// `x / y`, in double precision.
    fn wide_over(&self, x: Double, y: Double) -> Double;

    /// The remainder of `x / y`, in double precision.
    fn wide_rem(&self, x: Double, y: Double) -> Double;

    fn wide_cos(&self, x: Double) -> Double;

    fn wide_sin(&self, x: Double) -> Double;

    /// The double-precision value nearest to `n`.
    fn wide_count(&self, n: u64) -> Double;

    /// `x` rounded towards zero; 0 below zero and for what is not a number, `u64::MAX` above that.
    fn wide_floor(&self, x: Double) -> u64;

    /// The single-precision value nearest to `x`.
    fn narrow(&self, x: Double) -> Single;

    /// The length of `span` in seconds.
    fn seconds(&self, span: Span) -> Double;
}

#[verifier::inline]
pub open spec fn sum_of<A: Arithmetic>(arith: &A, x: Single, y: Single, r: Single) -> bool {
    call_ensures(A::plus, (arith, x, y), r)
}

#[verifier::inline]
pub open spec fn difference_of<A: Arithmetic>(arith: &A, x: Single, y: Single, r: Single) -> bool {
    call_ensures(A::minus, (arith, x, y), r)
}

#[verifier::inline]
pub open spec fn product_of<A: Arithmetic>(arith: &A, x: Single, y: Single, r: Single) -> bool {
    call_ensures(A::times, (arith, x, y), r)
}

#[verifier::inline]
pub open spec fn quotient_of<A: Arithmetic>(arith: &A, x: Single, y: Single, r: Single) -> bool {
    call_ensures(A::over, (arith, x, y), r)
}

#[verifier::inline]
pub open spec fn root_of<A: Arithmetic>(arith: &A, x: Single, r: Single) -> bool {
    call_ensures(A::root, (arith, x), r)
}

#[verifier::inline]
pub open spec fn log10_of<A: Arithmetic>(arith: &A, x: Single, r: Single) -> bool {
    call_ensures(A::log10, (arith, x), r)
}

#[verifier::inline]
pub open spec fn count_of<A: Arithmetic>(arith: &A, n: u64, r: Single) -> bool {
    call_ensures(A::count, (arith, n), r)
}

/// What `parse` may return for a text with the characters `text`.
pub open spec fn parsed<A: Arithmetic>(arith: &A, text: Seq<char>, r: Option<Single>) -> bool {
    exists|s: &str| #[trigger] s@ == text && call_ensures(A::parse, (arith, s), r)
}

pub open spec fn shortest_text<A: Arithmetic>(arith: &A, x: Single, r: Seq<char>) -> bool {
    exists|s: String| #[trigger] s@ == r && call_ensures(A::shortest, (arith, x), s)
}

#[verifier::inline]
pub open spec fn wide_sum_of<A: Arithmetic>(arith: &A, x: Double, y: Double, r: Double) -> bool {
    call_ensures(A::wide_plus, (arith, x, y), r)
}

#[verifier::inline]
pub open spec fn wide_difference_of<A: Arithmetic>(
    arith: &A,
    x: Double,
    y: Double,
    r: Double,
) -> bool {
    call_ensures(A::wide_minus, (arith, x, y), r)
}

#[verifier::inline]
pub open spec fn wide_product_of<A: Arithmetic>(
    arith: &A,
    x: Double,
    y: Double,
    r: Double,
) -> bool {
    call_ensures(A::wide_times, (arith, x, y), r)
}

#[verifier::inline]
pub open spec fn wide_quotient_of<A: Arithmetic>(
    arith: &A,
    x: Double,
    y: Double,
    r: Double,
) -> bool {
    call_ensures(A::wide_over, (arith, x, y), r)
}

#[verifier::inline]
pub open spec fn wide_rem_of<A: Arithmetic>(arith: &A, x: Double, y: Double, r: Double) -> bool {
    call_ensures(A::wide_rem, (arith, x, y), r)
}

#[verifier::inline]
pub open spec fn wide_cos_of<A: Arithmetic>(arith: &A, x: Double, r: Double) -> bool {
    call_ensures(A::wide_cos, (arith, x), r)
}

#[verifier::inline]
pub open spec fn wide_sin_of<A: Arithmetic>(arith: &A, x: Double, r: Double) -> bool {
    call_ensures(A::wide_sin, (arith, x), r)
}

#[verifier::inline]
pub open spec fn wide_count_of<A: Arithmetic>(arith: &A, n: u64, r: Double) -> bool {
    call_ensures(A::wide_count, (arith, n), r)
}

#[verifier::inline]
pub open spec fn wide_floor_of<A: Arithmetic>(arith: &A, x: Double, r: u64) -> bool {
    call_ensures(A::wide_floor, (arith, x), r)
}

#[verifier::inline]
pub open spec fn narrowed<A: Arithmetic>(arith: &A, x: Double, r: Single) -> bool {
    call_ensures(A::narrow, (arith, x), r)
}

#[verifier::inline]
pub open spec fn seconds_of<A: Arithmetic>(arith: &A, span: Span, r: Double) -> bool {
    call_ensures(A::seconds, (arith, span), r)
}

/// `total` is `start` plus each of `terms`, added one after the other from the first to the last.
pub open spec fn running_sum<A: Arithmetic>(
    arith: &A,
    start: Single,
    terms: Seq<Single>,
    total: Single,
) -> bool
    decreases terms.len(),
{
    if terms.len() == 0 {
        total == start
    } else {
        exists|before: Single| #[trigger]
            sum_of(arith, before, terms.last(), total) && running_sum(
                arith,
                start,
                terms.drop_last(),
                before,
            )
    }
}

/// One more term extends a running sum by one addition.
pub proof fn running_sum_push<A: Arithmetic>(
    arith: &A,
    start: Single,
    terms: Seq<Single>,
    before: Single,
    term: Single,
    total: Single,
)
    requires
        running_sum(arith, start, terms, before),
        sum_of(arith, before, term, total),
    ensures
        running_sum(arith, start, terms.push(term), total),
{
    assert(terms.push(term).drop_last() =~= terms);
    assert(terms.push(term).last() == term);
    assert(sum_of(arith, before, terms.push(term).last(), total));
}

/// Every operation that levels are computed with gives one result for the same operands.
pub open spec fn repeatable<A: Arithmetic>(arith: &A) -> bool {
    &&& forall|x: Single, y: Single, r: Single, q: Single|
        #[trigger] sum_of(arith, x, y, r) && #[trigger] sum_of(arith, x, y, q) ==> r == q
    &&& forall|x: Single, y: Single, r: Single, q: Single|
        #[trigger] product_of(arith, x, y, r) && #[trigger] product_of(arith, x, y, q) ==> r == q
    &&& forall|x: Single, y: Single, r: Single, q: Single|
        #[trigger] quotient_of(arith, x, y, r) && #[trigger] quotient_of(arith, x, y, q) ==> r
            == q
    &&& forall|x: Single, r: Single, q: Single|
        #[trigger] root_of(arith, x, r) && #[trigger] root_of(arith, x, q) ==> r == q
    &&& forall|n: u64, r: Single, q: Single|
        #[trigger] count_of(arith, n, r) && #[trigger] count_of(arith, n, q) ==> r == q
}

/// Adding the same terms up in the same order gives one total.
pub proof fn one_running_sum<A: Arithmetic>(
    arith: &A,
    start: Single,
    terms: Seq<Single>,
    x: Single,
    y: Single,
)
    requires
        repeatable(arith),
        running_sum(arith, start, terms, x),
        running_sum(arith, start, terms, y),
    ensures
        x == y,
    decreases terms.len(),
{
    if terms.len() > 0 {
        let before = choose|before: Single| #[trigger]
            sum_of(arith, before, terms.last(), x) && running_sum(
                arith,
                start,
                terms.drop_last(),
                before,
            );
        let earlier = choose|earlier: Single| #[trigger]
            sum_of(arith, earlier, terms.last(), y) && running_sum(
                arith,
                start,
                terms.drop_last(),
                earlier,
            );
        one_running_sum(arith, start, terms.drop_last(), before, earlier);
    }
}

/// The largest of `start` and `values`, taken from the first to the last.
pub open spec fn largest(start: Single, values: Seq<Single>) -> Single
    decreases values.len(),
{
    if values.len() == 0 {
        start
    } else {
        largest(start, values.drop_last()).larger(values.last())
    }
}

/// The smallest of `start` and `values`, taken from the first to the last.
pub open spec fn smallest(start: Single, values: Seq<Single>) -> Single
    decreases values.len(),
{
    if values.len() == 0 {
        start
    } else {
        smallest(start, values.drop_last()).smaller(values.last())
    }
}

/// The order on single-precision numbers is total: of two numbers one is at most the other, and
/// `below` is its strict part.
pub proof fn order_is_total(x: Single, y: Single, z: Single)
    requires
        !x.nan(),
        !y.nan(),
        !z.nan(),
    ensures
        x.at_most(y) || y.at_most(x),
        x.below(y) == !y.at_most(x),
        x.at_most(y) && y.at_most(z) ==> x.at_most(z),
{
}

/// `largest` is an upper bound of every number it was taken over.
pub proof fn largest_bounds(start: Single, values: Seq<Single>)
    requires
        !start.nan(),
    ensures
        !largest(start, values).nan(),
        start.at_most(largest(start, values)),
        forall|i: int|
            0 <= i < values.len() && !values[i].nan() ==> (#[trigger] values[i]).at_most(
                largest(start, values),
            ),
    decreases values.len(),
{
    if values.len() > 0 {
        largest_bounds(start, values.drop_last());
        assert forall|i: int| 0 <= i < values.len() && !values[i].nan() implies (
        #[trigger] values[i]).at_most(largest(start, values)) by {
            if i < values.len() - 1 {
                assert(values.drop_last()[i] == values[i]);
            }
        }
    }
}

} // verus!
