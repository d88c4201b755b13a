//! Fixed-point decimal arithmetic for monetary values.
//!
//! Every `Decimal` carries nine fractional decimal digits: a value is
//! `units` multiples of 10^-9. All operations are exact integer
//! arithmetic on `units`; an operation whose exact result does not fit
//! the representation reports overflow instead of silently wrapping.
//!
//! The representation is bounded, not arbitrary-precision: a market
//! whose tick or lot size is finer than 10^-9 cannot be represented —
//! such a precision reads as zero and the account rejects it as a
//! non-positive precision rather than trading with wrong rounding.

use vstd::arithmetic::div_mod::{
    lemma_div_is_ordered, lemma_div_multiples_vanish, lemma_div_nonincreasing,
    lemma_div_pos_is_pos, lemma_fundamental_div_mod, lemma_fundamental_div_mod_converse_div,
};
use vstd::prelude::*;

verus! {

/// One whole unit expressed in base units (10^9).
pub const DEC_UNIT: i64 = 1_000_000_000;

/// Fixed-point decimal number: the value is `units` times 10^-9.
#[derive(Clone, Copy, Debug, PartialEq, Eq, Structural, Hash)]
pub struct Decimal {
    pub units: i64,
}

/// Whether a mathematical integer fits the `units` field of a `Decimal`.
pub open spec fn dec_fits(v: int) -> bool {
    i64::MIN <= v <= i64::MAX
}

/// Exact product of two decimals expressed in base units, rounded
/// toward negative infinity to nine fractional digits.
pub open spec fn spec_mul_units(a: int, b: int) -> int {
    (a * b) / (DEC_UNIT as int)
}

/// Largest multiple of `t` that is at most `v` (for `t > 0`).
pub open spec fn spec_round_down(v: int, t: int) -> int {
    (v / t) * t
}

/// Smallest multiple of `t` that is at least `v` (for `t > 0`).
pub open spec fn spec_round_up(v: int, t: int) -> int {
    ((v + t - 1) / t) * t
}

/// Ten to the power `e`.
pub open spec fn spec_pow10(e: nat) -> int
    decreases e,
{
    if e == 0 {
        1
    } else {
        10 * spec_pow10((e - 1) as nat)
    }
}

pub proof fn lemma_pow10_pos(e: nat)
    ensures
        spec_pow10(e) >= 1,
    decreases e,
{
    if e > 0 {
        lemma_pow10_pos((e - 1) as nat);
    }
}

/// Euclidean floor division on `i128`, for a positive divisor.
fn div_floor_i128(a: i128, b: i128) -> (q: i128)
    requires
        b > 0,
        a > i128::MIN,
    ensures
        q == a as int / b as int,
{
    if a >= 0 {
        let qm: u128 = (a as u128) / (b as u128);
        proof {
            lemma_div_nonincreasing(a as int, b as int);
            lemma_div_pos_is_pos(a as int, b as int);
        }
        qm as i128
    } else {
        let am: u128 = (-a) as u128;
        let bm: u128 = b as u128;
        let qm: u128 = (am + bm - 1) / bm;
        proof {
            let x = am as int;
            let d = b as int;
            let qq = (x + d - 1) / d;
            let rr = (x + d - 1) % d;
            lemma_fundamental_div_mod(x + d - 1, d);
            assert(x + d - 1 == d * qq + rr);
            assert(a as int == (-qq) * d + (d - 1 - rr)) by (nonlinear_arith)
                requires
                    a as int == -x,
                    x + d - 1 == d * qq + rr,
            ;
            lemma_fundamental_div_mod_converse_div(a as int, d, -qq, d - 1 - rr);
            // Bound the magnitude of the quotient so the casts are safe.
            assert(x * d + d - 1 == d * x + (d - 1));
            lemma_fundamental_div_mod_converse_div(x * d + d - 1, d, x, d - 1);
            assert(x + d - 1 <= x * d + d - 1) by (nonlinear_arith)
                requires
                    x >= 1,
                    d >= 1,
            ;
            lemma_div_is_ordered(x + d - 1, x * d + d - 1, d);
            assert(qq <= x);
            lemma_div_pos_is_pos(x + d - 1, d);
        }
        -(qm as i128)
    }
}

impl Decimal {
    /// The zero value.
    pub fn zero() -> (r: Decimal)
        ensures
            r.units == 0,
    {
        Decimal { units: 0 }
    }

    /// The decimal counting exactly `units` multiples of 10^-9.
    pub fn from_units(units: i64) -> (r: Decimal)
        ensures
            r.units == units,
    {
        Decimal { units }
    }

    /// The decimal with the whole value `n`.
    pub fn from_int(n: i32) -> (r: Decimal)
        ensures
            r.units == n * DEC_UNIT,
    {
        Decimal { units: (n as i64) * DEC_UNIT }
    }

    /// The decimal `mantissa * 10^-dec_places`, e.g. `new(25, 2)` is 0.25.
    /// Returns `None` when `dec_places` exceeds the nine carried digits
    /// or the value does not fit.
    pub fn new(mantissa: i64, dec_places: u32) -> (r: Option<Decimal>)
        ensures
            match r {
                Some(c) => dec_places <= 9 && c.units == mantissa * spec_pow10(
                    (9 - dec_places) as nat,
                ),
                None => dec_places > 9 || !dec_fits(
                    mantissa * spec_pow10((9 - dec_places) as nat),
                ),
            },
    {
        if dec_places > 9 {
            return None;
        }
        let mut f: i64 = 1;
        let mut i: u32 = 0;
        let e: u32 = 9 - dec_places;
        while i < e
            invariant
                i <= e <= 9,
                f == spec_pow10(i as nat),
            decreases e - i,
        {
            proof {
                reveal_with_fuel(spec_pow10, 11);
                assert(spec_pow10(9) == 1_000_000_000);
                lemma_pow10_mono(i as nat + 1, 9);
            }
            f = f * 10;
            i = i + 1;
        }
        match mantissa.checked_mul(f) {
            Some(u) => Some(Decimal { units: u }),
            None => None,
        }
    }

    /// Exact sum; `None` reports overflow.
    pub fn try_add(self, other: Decimal) -> (r: Option<Decimal>)
        ensures
            match r {
                Some(c) => c.units == self.units + other.units,
                None => !dec_fits(self.units + other.units),
            },
    {
        match self.units.checked_add(other.units) {
            Some(u) => Some(Decimal { units: u }),
            None => None,
        }
    }

    /// Exact difference; `None` reports overflow.
    pub fn try_sub(self, other: Decimal) -> (r: Option<Decimal>)
        ensures
            match r {
                Some(c) => c.units == self.units - other.units,
                None => !dec_fits(self.units - other.units),
            },
    {
        match self.units.checked_sub(other.units) {
            Some(u) => Some(Decimal { units: u }),
            None => None,
        }
    }

    /// Product, keeping nine fractional digits (rounded toward negative
    /// infinity); `None` reports overflow.
    pub fn try_mul(self, other: Decimal) -> (r: Option<Decimal>)
        ensures
            match r {
                Some(c) => c.units == spec_mul_units(self.units as int, other.units as int),
                None => !dec_fits(spec_mul_units(self.units as int, other.units as int)),
            },
    {
        let a = self.units as i128;
        let b = other.units as i128;
        proof {
            assert(a as int * b as int <= 0x4000_0000_0000_0000_0000_0000_0000_0000int
                && a as int * b as int >= -0x4000_0000_0000_0000_0000_0000_0000_0000int)
                by (nonlinear_arith)
                requires
                    -0x8000_0000_0000_0000int <= a as int <= 0x7fff_ffff_ffff_ffffint,
                    -0x8000_0000_0000_0000int <= b as int <= 0x7fff_ffff_ffff_ffffint,
            ;
        }
        let p = a * b;
        let q = div_floor_i128(p, DEC_UNIT as i128);
        if q < i64::MIN as i128 || q > i64::MAX as i128 {
            None
        } else {
            Some(Decimal { units: q as i64 })
        }
    }

    /// Largest multiple of `tick` at most `self` (the rounding used for
    /// submitted prices and amounts); `None` reports overflow.
    pub fn round_down_to(self, tick: Decimal) -> (r: Option<Decimal>)
        requires
            tick.units > 0,
        ensures
            match r {
                Some(c) => c.units == spec_round_down(self.units as int, tick.units as int),
                None => !dec_fits(spec_round_down(self.units as int, tick.units as int)),
            },
    {
        let v = self.units as i128;
        let t = tick.units as i128;
        let q = div_floor_i128(v, t);
        proof {
            lemma_fundamental_div_mod(v as int, t as int);
        }
        let m = q * t;
        if m < i64::MIN as i128 || m > i64::MAX as i128 {
            None
        } else {
            Some(Decimal { units: m as i64 })
        }
    }

    /// Smallest multiple of `tick` at least `self` (the rounding used
    /// for fees); `None` reports overflow.
    pub fn round_up_to(self, tick: Decimal) -> (r: Option<Decimal>)
        requires
            tick.units > 0,
        ensures
            match r {
                Some(c) => c.units == spec_round_up(self.units as int, tick.units as int),
                None => !dec_fits(spec_round_up(self.units as int, tick.units as int)),
            },
    {
        let v = self.units as i128;
        let t = tick.units as i128;
        let q = div_floor_i128(v + t - 1, t);
        proof {
            lemma_fundamental_div_mod(v as int + t as int - 1, t as int);
        }
        let m = q * t;
        if m < i64::MIN as i128 || m > i64::MAX as i128 {
            None
        } else {
            Some(Decimal { units: m as i64 })
        }
    }
}

pub proof fn lemma_pow10_mono(a: nat, b: nat)
    requires
        a <= b,
    ensures
        spec_pow10(a) <= spec_pow10(b),
    decreases b,
{
    if a < b {
        lemma_pow10_mono(a, (b - 1) as nat);
        lemma_pow10_pos((b - 1) as nat);
    }
}

/// Rounding down never increases a value, yields a multiple of the
/// tick, and preserves non-negativity.
pub proof fn lemma_round_down_props(v: int, t: int)
    requires
        t > 0,
    ensures
        spec_round_down(v, t) <= v,
        v >= 0 ==> spec_round_down(v, t) >= 0,
        v - t < spec_round_down(v, t),
{
    lemma_fundamental_div_mod(v, t);
    assert(t * (v / t) == (v / t) * t) by (nonlinear_arith);
    if v >= 0 {
        lemma_div_pos_is_pos(v, t);
        assert((v / t) * t >= 0) by (nonlinear_arith)
            requires
                v / t >= 0,
                t > 0,
        ;
    }
}

/// Rounding down is idempotent.
pub proof fn lemma_round_down_idempotent(v: int, t: int)
    requires
        t > 0,
    ensures
        spec_round_down(spec_round_down(v, t), t) == spec_round_down(v, t),
{
    lemma_div_multiples_vanish(v / t, t);
    assert((v / t) * t == t * (v / t)) by (nonlinear_arith);
}

/// The product of non-negative decimals is non-negative.
pub proof fn lemma_mul_units_nonneg(a: int, b: int)
    requires
        a >= 0,
        b >= 0,
    ensures
        spec_mul_units(a, b) >= 0,
{
    assert(a * b >= 0) by (nonlinear_arith)
        requires
            a >= 0,
            b >= 0,
    ;
    lemma_div_pos_is_pos(a * b, DEC_UNIT as int);
}

/// Multiplication of decimals does not depend on the operand order.
pub proof fn lemma_mul_units_comm(a: int, b: int)
    ensures
        spec_mul_units(a, b) == spec_mul_units(b, a),
{
    assert(a * b == b * a);
}

} // verus!
