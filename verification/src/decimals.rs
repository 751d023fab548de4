//! Numbers in single precision, written out with six decimals.
use vstd::arithmetic::power2::{
    lemma2_to64, lemma2_to64_rest, lemma_pow2_adds, lemma_pow2_pos,
    lemma_pow2_strictly_increases, lemma_pow2_unfold, pow2,
};
use vstd::prelude::*;
use vstd::string::StringExecFns;

use crate::arith::{Single, SIGN_BIT};
use crate::text::{
    append_decimal, append_padded, decimal, decimal_is_digits, is_digit, padded, padded_is_digits,
};

verus! {

/// The patterns below the exponent.
pub const FRACTION_RANGE: u32 = 0x0080_0000;

pub const MILLION: u64 = 1_000_000;

/// The number that divides `n` by `d`, rounded to the nearest; of two as near, the even one.
pub open spec fn nearest(n: nat, d: nat) -> nat {
    let q = n / d;
    let twice = 2 * (n % d);
    if twice > d || twice == d && q % 2 == 1 {
        q + 1
    } else {
        q
    }
}

impl Single {
    /// What a finite number has before its power of two.
    pub open spec fn mantissa(self) -> nat {
        let fraction = self.magnitude_bits() % FRACTION_RANGE as int;
        if self.magnitude_bits() < FRACTION_RANGE {
            fraction as nat
        } else {
            (fraction + FRACTION_RANGE) as nat
        }
    }

    /// The power of two: a finite number is its mantissa times two to this power, and its sign.
    pub open spec fn exponent(self) -> int {
        let field = self.magnitude_bits() / FRACTION_RANGE as int;
        if field == 0 {
            -149
        } else {
            field - 150
        }
    }

    /// A finite number without its sign, in millionths.
    pub open spec fn millionths(self) -> nat {
        if self.exponent() >= 0 {
            self.mantissa() * pow2(self.exponent() as nat) * MILLION as nat
        } else {
            nearest(self.mantissa() * MILLION as nat, pow2((-self.exponent()) as nat))
        }
    }
}

/// A number as it is written with six decimals.
pub open spec fn six_decimals(x: Single) -> Seq<char> {
    let sign = if x.bits >= SIGN_BIT {
        "-"@
    } else {
        ""@
    };
    if x.nan() {
        "NaN"@
    } else if !x.finite() {
        sign + "inf"@
    } else {
        sign + decimal(x.millionths() / MILLION as nat) + "."@ + padded(
            x.millionths() % MILLION as nat,
            6,
        )
    }
}

fn power_of_two(n: u32) -> (p: u128)
    requires
        n <= 104,
    ensures
        p == pow2(n as nat),
        0 < p <= 0x1_0000_0000_0000_0000_0000_0000_00,
{
    let mut p: u128 = 1;
    let mut i: u32 = 0;
    proof {
        lemma2_to64_rest();
        lemma_pow2_adds(52, 52);
        lemma2_to64();
    }
    while i < n
        invariant
            i <= n <= 104,
            p == pow2(i as nat),
            pow2(104) == 0x1_0000_0000_0000_0000_0000_0000_00,
        decreases n - i,
    {
        proof {
            lemma_pow2_unfold((i + 1) as nat);
            if i + 1 < 104 {
                lemma_pow2_strictly_increases((i + 1) as nat, 104);
            }
        }
        p = 2 * p;
        i += 1;
    }
    proof {
        lemma_pow2_pos(n as nat);
        if n < 104 {
            lemma_pow2_strictly_increases(n as nat, 104);
        }
    }
    p
}

/// A finite number without its sign: its whole part, and the millionths beyond it.
fn whole_and_millionths(x: Single) -> (r: (u128, u128))
    requires
        x.finite(),
    ensures
        r.0 == x.millionths() / MILLION as nat,
        r.1 == x.millionths() % MILLION as nat,
{
    let magnitude: u32 = if x.bits >= SIGN_BIT {
        x.bits - SIGN_BIT
    } else {
        x.bits
    };
    let field: u32 = magnitude / FRACTION_RANGE;
    let fraction: u32 = magnitude % FRACTION_RANGE;
    let mantissa: u128 = if field == 0 {
        fraction as u128
    } else {
        fraction as u128 + FRACTION_RANGE as u128
    };
    assert(mantissa == x.mantissa());
    assert(field < 255);
    if field >= 150 {
        let power = power_of_two(field - 150);
        assert(mantissa * power <= 0xFF_FFFF * 0x1_0000_0000_0000_0000_0000_0000_00)
            by (nonlinear_arith)
            requires
                0 <= mantissa <= 0xFF_FFFF,
                0 <= power <= 0x1_0000_0000_0000_0000_0000_0000_00,
        ;
        return (mantissa * power, 0);
    }
    let shift: u32 = if field == 0 {
        149
    } else {
        150 - field
    };
    assert(shift == -x.exponent());
    let n: u128 = mantissa * 1_000_000;
    let all: u128 = if shift >= 64 {
        proof {
            lemma2_to64();
            lemma_pow2_unfold(64);
            if shift > 64 {
                lemma_pow2_strictly_increases(64, shift as nat);
            }
            let d = pow2(shift as nat) as int;
            vstd::arithmetic::div_mod::lemma_basic_div(n as int, d);
            vstd::arithmetic::div_mod::lemma_small_mod(n as nat, d as nat);
        }
        0
    } else {
        let d = power_of_two(shift);
        let q: u128 = n / d;
        let r: u128 = n % d;
        proof {
            vstd::arithmetic::div_mod::lemma_div_is_ordered_by_denominator(n as int, 1, d as int);
        }
        if 2 * r > d || (2 * r == d && q % 2 == 1) {
            q + 1
        } else {
            q
        }
    };
    (all / 1_000_000, all % 1_000_000)
}

/// Write a number out with six decimals.
pub fn append_six_decimals(out: &mut String, x: Single)
    ensures
        final(out)@ == old(out)@ + six_decimals(x),
{
    if x.is_nan() {
        out.append("NaN");
        return;
    }
    proof {
        reveal_strlit("");
    }
    if x.bits >= SIGN_BIT {
        out.append("-");
    }
    if !x.is_finite() {
        out.append("inf");
    } else {
        let (whole, rest) = whole_and_millionths(x);
        append_decimal(out, whole);
        out.append(".");
        append_padded(out, rest, 6);
    }
    assert(out@ =~= old(out)@ + six_decimals(x));
}

/// A number written out holds no line ending.
pub proof fn six_decimals_stay_on_the_line(x: Single)
    ensures
        !six_decimals(x).contains('\n'),
        !six_decimals(x).contains('\r'),
{
    reveal_strlit("");
    reveal_strlit("-");
    reveal_strlit("NaN");
    reveal_strlit("inf");
    reveal_strlit(".");
    let whole = decimal(x.millionths() / MILLION as nat);
    let rest = padded(x.millionths() % MILLION as nat, 6);
    decimal_is_digits(x.millionths() / MILLION as nat);
    padded_is_digits(x.millionths() % MILLION as nat, 6);
    assert(forall|i: int| 0 <= i < whole.len() ==> is_digit(#[trigger] whole[i]));
    assert(forall|i: int| 0 <= i < rest.len() ==> is_digit(#[trigger] rest[i]));
}

} // verus!
