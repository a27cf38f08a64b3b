//! Decimal fixed-point coordinates.
//!
//! Every coordinate of a path is a [`Num`]: an integer count of billionths
//! (nine decimal places). All arithmetic the library performs on coordinates
//! is exact integer arithmetic on that count, so contracts can state results
//! exactly instead of up to a floating-point tolerance.

use vstd::prelude::*;
use vstd::arithmetic::div_mod::lemma_div_is_ordered;
use vstd::arithmetic::div_mod::lemma_round_down;
use vstd::arithmetic::mul::lemma_mul_inequality;

verus! {

/// Number of fixed-point units per one: coordinates are stored in billionths.
pub const SCALE: i64 = 1_000_000_000;

/// Largest stored magnitude, in billionths. It is a multiple of every power
/// of ten up to `SCALE`, so decimal rounding never leaves the range.
pub const RAW_BOUND: i64 = 9_000_000_000_000_000_000;

/// The values a `Num` can hold, as integers in billionths.
pub open spec fn num_in_range(v: int) -> bool {
    -(RAW_BOUND as int) <= v <= RAW_BOUND as int
}

/// Ten to the `k`.
pub open spec fn pow10(k: nat) -> int
    decreases k,
{
    if k == 0 {
        1
    } else {
        10 * pow10((k - 1) as nat)
    }
}

/// The absolute value of an integer.
pub open spec fn abs_int(v: int) -> int {
    if v >= 0 {
        v
    } else {
        -v
    }
}

/// Quotient of `n` by `d`, rounded half away from zero (`d` positive).
pub open spec fn div_half_away(n: int, d: int) -> int {
    if n >= 0 {
        (n + d / 2) / d
    } else {
        -((-n + d / 2) / d)
    }
}

/// `v` rounded to the nearest multiple of `u`, halves away from zero.
pub open spec fn round_to_multiple(v: int, u: int) -> int {
    u * div_half_away(v, u)
}

/// The exact product of two fixed-point values, rescaled back to billionths
/// and rounded half away from zero.
pub open spec fn mul_value(a: int, b: int) -> int {
    div_half_away(a * b, SCALE as int)
}

/// `v` rounded to `places` decimal places, halves away from zero. Beyond
/// nine places the representation is already exact.
pub open spec fn round_value(v: int, places: nat) -> int {
    if places >= 9 {
        v
    } else {
        round_to_multiple(v, pow10((9 - places) as nat))
    }
}

/// Ten to the `k`, executable for the rounding units.
pub fn pow10_u64(k: u64) -> (u: u64)
    requires
        k <= 18,
    ensures
        u as int == pow10(k as nat),
        u >= 1,
{
    proof {
        lemma_pow10_values();
    }
    match k {
        0 => 1,
        1 => 10,
        2 => 100,
        3 => 1_000,
        4 => 10_000,
        5 => 100_000,
        6 => 1_000_000,
        7 => 10_000_000,
        8 => 100_000_000,
        9 => 1_000_000_000,
        10 => 10_000_000_000,
        11 => 100_000_000_000,
        12 => 1_000_000_000_000,
        13 => 10_000_000_000_000,
        14 => 100_000_000_000_000,
        15 => 1_000_000_000_000_000,
        16 => 10_000_000_000_000_000,
        17 => 100_000_000_000_000_000,
        _ => 1_000_000_000_000_000_000,
    }
}

/// Ten to the `k` is positive.
pub proof fn lemma_pow10_pos(k: nat)
    ensures
        pow10(k) >= 1,
    decreases k,
{
    if k > 0 {
        lemma_pow10_pos((k - 1) as nat);
    }
}

/// Ten to the `k` grows with `k`.
pub proof fn lemma_pow10_mono(a: nat, b: nat)
    requires
        a <= b,
    ensures
        pow10(a) <= pow10(b),
    decreases b,
{
    if a < b {
        lemma_pow10_mono(a, (b - 1) as nat);
        lemma_pow10_pos((b - 1) as nat);
    }
}

/// The small powers of ten, spelled out for reuse.
pub proof fn lemma_pow10_values()
    ensures
        pow10(0) == 1,
        pow10(1) == 10,
        pow10(2) == 100,
        pow10(3) == 1_000,
        pow10(4) == 10_000,
        pow10(5) == 100_000,
        pow10(6) == 1_000_000,
        pow10(7) == 10_000_000,
        pow10(8) == 100_000_000,
        pow10(9) == 1_000_000_000,
        pow10(10) == 10_000_000_000,
        pow10(11) == 100_000_000_000,
        pow10(12) == 1_000_000_000_000,
        pow10(13) == 10_000_000_000_000,
        pow10(14) == 100_000_000_000_000,
        pow10(15) == 1_000_000_000_000_000,
        pow10(16) == 10_000_000_000_000_000,
        pow10(17) == 100_000_000_000_000_000,
        pow10(18) == 1_000_000_000_000_000_000,
        pow10(19) == 10_000_000_000_000_000_000,
{
    assert(pow10(0) == 1);
    assert(pow10(1) == 10);
    assert(pow10(2) == 100);
    assert(pow10(3) == 1_000);
    assert(pow10(4) == 10_000);
    assert(pow10(5) == 100_000);
    assert(pow10(6) == 1_000_000);
    assert(pow10(7) == 10_000_000);
    assert(pow10(8) == 100_000_000);
    assert(pow10(9) == 1_000_000_000);
    assert(pow10(10) == 10_000_000_000);
    assert(pow10(11) == 100_000_000_000);
    assert(pow10(12) == 1_000_000_000_000);
    assert(pow10(13) == 10_000_000_000_000);
    assert(pow10(14) == 100_000_000_000_000);
    assert(pow10(15) == 1_000_000_000_000_000);
    assert(pow10(16) == 10_000_000_000_000_000);
    assert(pow10(17) == 100_000_000_000_000_000);
    assert(pow10(18) == 1_000_000_000_000_000_000);
    assert(pow10(19) == 10_000_000_000_000_000_000);
}

/// The range bound is a multiple of every rounding unit.
proof fn lemma_raw_bound_multiple(k: nat)
    requires
        k <= 9,
    ensures
        RAW_BOUND as int % pow10(k) == 0,
        pow10(k) >= 1,
{
    assert(pow10(0) == 1);
    assert(pow10(1) == 10);
    assert(pow10(2) == 100);
    assert(pow10(3) == 1_000);
    assert(pow10(4) == 10_000);
    assert(pow10(5) == 100_000);
    assert(pow10(6) == 1_000_000);
    assert(pow10(7) == 10_000_000);
    assert(pow10(8) == 100_000_000);
    assert(pow10(9) == 1_000_000_000);
}

/// A decimal fixed-point number: the value is `raw` billionths.
#[derive(Clone, Copy, Debug, PartialEq, Eq, Structural)]
pub struct Num {
    raw: i64,
}

impl View for Num {
    type V = int;

    closed spec fn view(&self) -> int {
        self.raw as int
    }
}

impl Num {
    #[verifier::type_invariant]
    pub(crate) open spec fn inv(self) -> bool {
        num_in_range(self@)
    }

    /// The number zero.
    pub fn zero() -> (r: Num)
        ensures
            r@ == 0,
    {
        Num { raw: 0 }
    }

    /// Builds a number from a count of billionths known to be in range.
    pub(crate) fn from_raw_in_range(raw: i64) -> (r: Num)
        requires
            num_in_range(raw as int),
        ensures
            r@ == raw as int,
    {
        Num { raw }
    }

    /// Builds a number from a count of billionths; `None` when out of range.
    pub fn from_billionths(raw: i64) -> (r: Option<Num>)
        ensures
            r is Some <==> num_in_range(raw as int),
            r is Some ==> r.unwrap()@ == raw as int,
    {
        if -RAW_BOUND <= raw && raw <= RAW_BOUND {
            Some(Num { raw })
        } else {
            None
        }
    }

    /// Builds a whole number; `None` when out of range.
    pub fn from_int(v: i64) -> (r: Option<Num>)
        ensures
            r is Some <==> num_in_range(v * SCALE),
            r is Some ==> r.unwrap()@ == v * SCALE,
    {
        proof {
            assert(-0x8000_0000_0000_0000 * (SCALE as int) <= v as int * (SCALE as int)
                <= 0x7fff_ffff_ffff_ffff * (SCALE as int)) by (nonlinear_arith)
                requires
                    -0x8000_0000_0000_0000 <= v as int <= 0x7fff_ffff_ffff_ffff,
                    SCALE as int == 1_000_000_000,
            ;
        }
        let p: i128 = v as i128 * SCALE as i128;
        if -(RAW_BOUND as i128) <= p && p <= RAW_BOUND as i128 {
            Some(Num { raw: p as i64 })
        } else {
            None
        }
    }

    /// The held value as a count of billionths.
    pub fn to_billionths(self) -> (r: i64)
        ensures
            r as int == self@,
    {
        self.raw
    }

    /// True when the value is negative.
    pub fn is_negative(self) -> (r: bool)
        ensures
            r == (self@ < 0),
    {
        self.raw < 0
    }

    /// Exact sum; `None` when it leaves the representable range.
    pub fn checked_add(self, other: Num) -> (r: Option<Num>)
        ensures
            r is Some <==> num_in_range(self@ + other@),
            r is Some ==> r.unwrap()@ == self@ + other@,
    {
        proof {
            use_type_invariant(self);
            use_type_invariant(other);
        }
        let s: i128 = self.raw as i128 + other.raw as i128;
        if -(RAW_BOUND as i128) <= s && s <= RAW_BOUND as i128 {
            Some(Num { raw: s as i64 })
        } else {
            None
        }
    }

    /// Exact difference; `None` when it leaves the representable range.
    pub fn checked_sub(self, other: Num) -> (r: Option<Num>)
        ensures
            r is Some <==> num_in_range(self@ - other@),
            r is Some ==> r.unwrap()@ == self@ - other@,
    {
        proof {
            use_type_invariant(self);
            use_type_invariant(other);
        }
        let s: i128 = self.raw as i128 - other.raw as i128;
        if -(RAW_BOUND as i128) <= s && s <= RAW_BOUND as i128 {
            Some(Num { raw: s as i64 })
        } else {
            None
        }
    }

    /// Exact negation; the range is symmetric, so this never fails.
    pub fn neg(self) -> (r: Num)
        ensures
            r@ == -self@,
    {
        proof {
            use_type_invariant(self);
        }
        Num { raw: -self.raw }
    }

    /// Exact fixed-point product rounded half away from zero; `None` when it
    /// leaves the representable range.
    pub fn checked_mul(self, other: Num) -> (r: Option<Num>)
        ensures
            r is Some <==> num_in_range(mul_value(self@, other@)),
            r is Some ==> r.unwrap()@ == mul_value(self@, other@),
    {
        proof {
            use_type_invariant(self);
            use_type_invariant(other);
            assert(-(RAW_BOUND as int) * (RAW_BOUND as int) <= self.raw as int * other.raw as int
                <= (RAW_BOUND as int) * (RAW_BOUND as int)) by (nonlinear_arith)
                requires
                    -(RAW_BOUND as int) <= self.raw as int <= RAW_BOUND as int,
                    -(RAW_BOUND as int) <= other.raw as int <= RAW_BOUND as int,
            ;
        }
        let p: i128 = self.raw as i128 * other.raw as i128;
        let neg: bool = p < 0;
        let m: u128 = if neg {
            (-p) as u128
        } else {
            p as u128
        };
        let q: u128 = (m + (SCALE / 2) as u128) / (SCALE as u128);
        if q <= RAW_BOUND as u128 {
            let raw: i64 = if neg {
                -(q as i64)
            } else {
                q as i64
            };
            Some(Num { raw })
        } else {
            None
        }
    }

    /// Rounds to `places` decimal places, halves away from zero. The range
    /// bound is a multiple of every rounding unit, so this never fails.
    pub fn round_places(self, places: u64) -> (r: Num)
        ensures
            r@ == round_value(self@, places as nat),
    {
        proof {
            use_type_invariant(self);
        }
        if places >= 9 {
            return self;
        }
        let u: u64 = pow10_u64(9 - places);
        let neg: bool = self.raw < 0;
        let m: u64 = if neg {
            (-self.raw) as u64
        } else {
            self.raw as u64
        };
        let qd: u64 = (m + u / 2) / u;
        proof {
            lemma_raw_bound_multiple((9 - places) as nat);
            lemma_div_is_ordered(
                m as int + u as int / 2,
                RAW_BOUND as int + u as int / 2,
                u as int,
            );
            lemma_round_down(RAW_BOUND as int, u as int / 2, u as int);
            lemma_mul_inequality(
                qd as int,
                (RAW_BOUND as int + u as int / 2) / (u as int),
                u as int,
            );
        }
        let q: u64 = qd * u;
        proof {
            assert(q <= RAW_BOUND as u64);
        }
        let raw: i64 = if neg {
            -(q as i64)
        } else {
            q as i64
        };
        proof {
            assert((u as int) * (qd as int) == (qd as int) * (u as int)) by (nonlinear_arith);
            assert((u as int) * (-(qd as int)) == -((qd as int) * (u as int)))
                by (nonlinear_arith);
            assert(raw as int == round_value(self@, places as nat));
        }
        Num { raw }
    }

    /// Absolute value; the range is symmetric, so this never fails.
    pub fn abs(self) -> (r: Num)
        ensures
            r@ == if self@ >= 0 {
                self@
            } else {
                -self@
            },
    {
        proof {
            use_type_invariant(self);
        }
        if self.raw < 0 {
            Num { raw: -self.raw }
        } else {
            self
        }
    }
}

} // verus!
