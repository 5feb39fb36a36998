//! Fixed-point numbers: an `i64` raw value interpreted as `raw / SCALE`.
//!
//! Every arithmetic operation states its exact result at the raw level, so
//! all rounding behaviour (truncation toward zero) is part of the contract.
use vstd::prelude::*;

verus! {

/// Number of raw units per 1.0.
pub const SCALE: i64 = 65536;

/// Magnitude of an integer.
pub open spec fn mag(n: int) -> int {
    if n >= 0 {
        n
    } else {
        -n
    }
}

/// Truncating division (round toward zero), the rounding used by all
/// fixed-point operations here. Unspecified for d == 0.
pub open spec fn tdiv(n: int, d: int) -> int {
    if (n >= 0) == (d >= 0) {
        mag(n) / mag(d)
    } else {
        -(mag(n) / mag(d))
    }
}

/// Raw result of a fixed-point multiplication.
pub open spec fn smul(a: int, b: int) -> int {
    tdiv(a * b, SCALE as int)
}

/// Raw result of a fixed-point division.
pub open spec fn sdiv(a: int, b: int) -> int {
    tdiv(a * (SCALE as int), b)
}

/// Raw values must stay within the symmetric i64 range; `i64::MIN` itself is
/// excluded so that every representable value has a representable negation.
pub open spec fn fits(x: int) -> bool {
    -0x7fff_ffff_ffff_ffff <= x <= 0x7fff_ffff_ffff_ffff
}

/// A fixed-point number; the represented value is `raw / SCALE`.
#[derive(Clone, Copy, Debug, PartialEq, Eq, Structural)]
pub struct Fx {
    pub raw: i64,
}

impl View for Fx {
    type V = int;

    open spec fn view(&self) -> int {
        self.raw as int
    }
}

impl Fx {
    pub fn from_raw(raw: i64) -> (r: Fx)
        ensures
            r@ == raw as int,
    {
        Fx { raw }
    }

    pub fn raw(self) -> (r: i64)
        ensures
            r as int == self@,
    {
        self.raw
    }

    pub fn zero() -> (r: Fx)
        ensures
            r@ == 0,
    {
        Fx { raw: 0 }
    }

    pub fn one() -> (r: Fx)
        ensures
            r@ == SCALE as int,
    {
        Fx { raw: SCALE }
    }

    pub fn lt(self, o: Fx) -> (r: bool)
        ensures
            r == (self@ < o@),
    {
        self.raw < o.raw
    }

    pub fn le(self, o: Fx) -> (r: bool)
        ensures
            r == (self@ <= o@),
    {
        self.raw <= o.raw
    }

    pub fn plus(self, o: Fx) -> (r: Fx)
        requires
            fits(self@ + o@),
        ensures
            r@ == self@ + o@,
    {
        Fx { raw: self.raw + o.raw }
    }

    pub fn minus(self, o: Fx) -> (r: Fx)
        requires
            fits(self@ - o@),
        ensures
            r@ == self@ - o@,
    {
        Fx { raw: self.raw - o.raw }
    }

    pub fn neg(self) -> (r: Fx)
        requires
            fits(self@),
        ensures
            r@ == -self@,
    {
        Fx { raw: -self.raw }
    }

    /// Checked negation: `None` exactly when the value itself is out of the
    /// symmetric range.
    pub fn try_neg(self) -> (r: Option<Fx>)
        ensures
            match r {
                Some(v) => fits(self@) && v@ == -self@,
                None => !fits(self@),
            },
    {
        if self.raw == i64::MIN {
            None
        } else {
            Some(Fx { raw: -self.raw })
        }
    }

    /// Checked addition: `None` exactly when the result would leave the range.
    pub fn try_plus(self, o: Fx) -> (r: Option<Fx>)
        ensures
            match r {
                Some(v) => fits(self@ + o@) && v@ == self@ + o@,
                None => !fits(self@ + o@),
            },
    {
        let s: i128 = self.raw as i128 + o.raw as i128;
        if -0x7fff_ffff_ffff_ffff <= s && s <= 0x7fff_ffff_ffff_ffff {
            Some(Fx { raw: s as i64 })
        } else {
            None
        }
    }

    /// Checked subtraction: `None` exactly when the result would leave the range.
    pub fn try_minus(self, o: Fx) -> (r: Option<Fx>)
        ensures
            match r {
                Some(v) => fits(self@ - o@) && v@ == self@ - o@,
                None => !fits(self@ - o@),
            },
    {
        let s: i128 = self.raw as i128 - o.raw as i128;
        if -0x7fff_ffff_ffff_ffff <= s && s <= 0x7fff_ffff_ffff_ffff {
            Some(Fx { raw: s as i64 })
        } else {
            None
        }
    }
    pub fn times(self, o: Fx) -> (r: Fx)
        requires
            fits(smul(self@, o@)),
        ensures
            r@ == smul(self@, o@),
    {
        let neg: bool = (self.raw < 0) != (o.raw < 0);
        let ma: u128 = mag64(self.raw) as u128;
        let mb: u128 = mag64(o.raw) as u128;
        proof {
            lemma_u128_mul_bound(ma, mb, 0x8000_0000_0000_0000u128, 0x8000_0000_0000_0000u128);
        }
        let q: u128 = (ma * mb) / (SCALE as u128);
        proof {
            lemma_prod_sign_mag(self@, o@);
            lemma_tdiv_from_mag(self@ * o@, SCALE as int);
        }
        if neg {
            Fx { raw: -(q as i64) }
        } else {
            Fx { raw: q as i64 }
        }
    }

    pub fn divide(self, o: Fx) -> (r: Fx)
        requires
            o@ != 0,
            fits(sdiv(self@, o@)),
        ensures
            r@ == sdiv(self@, o@),
    {
        let neg: bool = (self.raw < 0) != (o.raw < 0);
        let ma: u128 = mag64(self.raw) as u128;
        let mb: u128 = mag64(o.raw) as u128;
        proof {
            lemma_u128_mul_bound(ma, SCALE as u128, 0x8000_0000_0000_0000u128, 0x10000u128);
        }
        let q: u128 = (ma * (SCALE as u128)) / mb;
        proof {
            lemma_prod_sign_mag(self@, SCALE as int);
            lemma_tdiv_from_mag(self@ * (SCALE as int), o@);
        }
        if neg {
            Fx { raw: -(q as i64) }
        } else {
            Fx { raw: q as i64 }
        }
    }

    /// Checked multiplication: `None` exactly when the result would leave the range.
    pub fn try_times(self, o: Fx) -> (r: Option<Fx>)
        ensures
            match r {
                Some(v) => fits(smul(self@, o@)) && v@ == smul(self@, o@),
                None => !fits(smul(self@, o@)),
            },
    {
        let neg: bool = (self.raw < 0) != (o.raw < 0);
        let ma: u128 = mag64(self.raw) as u128;
        let mb: u128 = mag64(o.raw) as u128;
        proof {
            lemma_u128_mul_bound(ma, mb, 0x8000_0000_0000_0000u128, 0x8000_0000_0000_0000u128);
        }
        let q: u128 = (ma * mb) / (SCALE as u128);
        proof {
            lemma_prod_sign_mag(self@, o@);
            lemma_tdiv_from_mag(self@ * o@, SCALE as int);
        }
        if q > 0x7fff_ffff_ffff_ffff {
            None
        } else if neg {
            Some(Fx { raw: -(q as i64) })
        } else {
            Some(Fx { raw: q as i64 })
        }
    }

    /// Checked division: `None` on a zero divisor or when the result would
    /// leave the range.
    pub fn try_divide(self, o: Fx) -> (r: Option<Fx>)
        ensures
            match r {
                Some(v) => o@ != 0 && fits(sdiv(self@, o@)) && v@ == sdiv(self@, o@),
                None => o@ == 0 || !fits(sdiv(self@, o@)),
            },
    {
        if o.raw == 0 {
            return None;
        }
        let neg: bool = (self.raw < 0) != (o.raw < 0);
        let ma: u128 = mag64(self.raw) as u128;
        let mb: u128 = mag64(o.raw) as u128;
        proof {
            lemma_u128_mul_bound(ma, SCALE as u128, 0x8000_0000_0000_0000u128, 0x10000u128);
        }
        let q: u128 = (ma * (SCALE as u128)) / mb;
        proof {
            lemma_prod_sign_mag(self@, SCALE as int);
            lemma_tdiv_from_mag(self@ * (SCALE as int), o@);
        }
        if q > 0x7fff_ffff_ffff_ffff {
            None
        } else if neg {
            Some(Fx { raw: -(q as i64) })
        } else {
            Some(Fx { raw: q as i64 })
        }
    }

    /// Fixed-point square root, rounded down.
    pub fn sqrt(self) -> (r: Fx)
        requires
            self@ >= 0,
        ensures
            r@ == ssqrt(self@),
            r@ >= 0,
    {
        let x: u128 = (self.raw as u128) * (SCALE as u128);
        let mut lo: u128 = 0;
        let mut hi: u128 = 0x100_0000_0000;
        proof {
            assert(x < (0x100_0000_0000u128 + 1) * (0x100_0000_0000u128 + 1)) by (nonlinear_arith)
                requires
                    x <= 0x7fff_ffff_ffff_ffffu128 * 0x10000u128,
            ;
        }
        while lo < hi
            invariant
                lo <= hi <= 0x100_0000_0000u128,
                lo * lo <= x,
                x < (hi + 1) * (hi + 1),
                x == self@ * (SCALE as int),
            decreases hi - lo,
        {
            let mid: u128 = lo + (hi - lo + 1) / 2;
            proof {
                assert(mid * mid <= 0x100_0000_0000u128 * 0x100_0000_0000u128) by (nonlinear_arith)
                    requires
                        mid <= 0x100_0000_0000u128,
                ;
            }
            if mid * mid <= x {
                lo = mid;
            } else {
                proof {
                    assert((mid - 1 + 1) * (mid - 1 + 1) == mid * mid);
                }
                hi = mid - 1;
            }
        }
        proof {
            lemma_isqrt_unique(x as int, lo as int);
        }
        Fx { raw: lo as i64 }
    }

    pub fn clamp(self, lo: Fx, hi: Fx) -> (r: Fx)
        ensures
            r@ == sclamp(self@, lo@, hi@),
    {
        if self.raw < lo.raw {
            lo
        } else if self.raw > hi.raw {
            hi
        } else {
            self
        }
    }
}

/// Raw result of a fixed-point square root.
pub open spec fn ssqrt(a: int) -> int {
    sqrt_floor(a * (SCALE as int))
}

pub open spec fn sclamp(x: int, lo: int, hi: int) -> int {
    if x < lo {
        lo
    } else if x > hi {
        hi
    } else {
        x
    }
}

/// Integer square root, rounded down: the unique `r >= 0` with
/// `r * r <= x < (r + 1) * (r + 1)` (0 for negative input).
pub open spec fn sqrt_floor(x: int) -> int
    decreases x,
{
    if x <= 0 {
        0
    } else {
        let p = sqrt_floor(x - 1);
        if (p + 1) * (p + 1) <= x {
            p + 1
        } else {
            p
        }
    }
}

pub proof fn lemma_sqrt_floor_nonneg(x: int)
    ensures
        sqrt_floor(x) >= 0,
    decreases x,
{
    if x > 0 {
        lemma_sqrt_floor_nonneg(x - 1);
    }
}

/// Truncating division is monotone in the numerator, for a positive divisor.
pub proof fn lemma_tdiv_mono(n1: int, n2: int, d: int)
    requires
        n1 <= n2,
        d > 0,
    ensures
        tdiv(n1, d) <= tdiv(n2, d),
{
    if n1 >= 0 {
        vstd::arithmetic::div_mod::lemma_div_is_ordered(n1, n2, d);
    } else if n2 < 0 {
        vstd::arithmetic::div_mod::lemma_div_is_ordered(-n2, -n1, d);
    } else {
        vstd::arithmetic::div_mod::lemma_div_pos_is_pos(-n1, d);
        vstd::arithmetic::div_mod::lemma_div_pos_is_pos(n2, d);
    }
}

/// Fixed-point division is monotone in the numerator, for a positive divisor.
pub proof fn lemma_sdiv_mono(n1: int, n2: int, d: int)
    requires
        n1 <= n2,
        d > 0,
    ensures
        sdiv(n1, d) <= sdiv(n2, d),
{
    lemma_tdiv_mono(n1 * (SCALE as int), n2 * (SCALE as int), d);
}

pub proof fn lemma_sqrt_floor_bounds(x: int)
    requires
        x >= 0,
    ensures
        0 <= sqrt_floor(x),
        sqrt_floor(x) * sqrt_floor(x) <= x,
        x < (sqrt_floor(x) + 1) * (sqrt_floor(x) + 1),
    decreases x,
{
    if x > 0 {
        lemma_sqrt_floor_bounds(x - 1);
        let p = sqrt_floor(x - 1);
        if (p + 1) * (p + 1) <= x {
            assert(x < ((p + 1) + 1) * ((p + 1) + 1)) by (nonlinear_arith)
                requires
                    0 <= p,
                    x - 1 < (p + 1) * (p + 1),
                    (p + 1) * (p + 1) <= x,
            ;
        }
    }
}

pub proof fn lemma_isqrt_unique(x: int, r: int)
    requires
        0 <= r,
        r * r <= x,
        x < (r + 1) * (r + 1),
    ensures
        r == sqrt_floor(x),
{
    assert(x >= 0) by (nonlinear_arith)
        requires
            0 <= r,
            r * r <= x,
    ;
    lemma_sqrt_floor_bounds(x);
    let s = sqrt_floor(x);
    if r < s {
        assert((r + 1) * (r + 1) <= s * s) by (nonlinear_arith)
            requires
                0 <= r + 1 <= s,
        ;
    }
    if s < r {
        assert((s + 1) * (s + 1) <= r * r) by (nonlinear_arith)
            requires
                0 <= s + 1 <= r,
        ;
    }
}

/// Bound on the magnitude of a fixed-point product from bounds on the factors.
pub proof fn lemma_smul_le(a: int, b: int, ab: int, bb: int)
    requires
        mag(a) <= ab,
        mag(b) <= bb,
    ensures
        mag(smul(a, b)) <= (ab * bb) / (SCALE as int),
{
    lemma_prod_sign_mag(a, b);
    lemma_tdiv_from_mag(a * b, SCALE as int);
    vstd::arithmetic::mul::lemma_mul_upper_bound(mag(a), ab, mag(b), bb);
    vstd::arithmetic::div_mod::lemma_div_is_ordered(mag(a) * mag(b), ab * bb, SCALE as int);
}

/// A fixed-point quotient of a numerator no larger than the denominator is at
/// most one.
pub proof fn lemma_sdiv_le_one(a: int, b: int)
    requires
        mag(a) <= mag(b),
        b != 0,
    ensures
        mag(sdiv(a, b)) <= SCALE as int,
{
    lemma_prod_sign_mag(a, SCALE as int);
    lemma_tdiv_from_mag(a * (SCALE as int), b);
    vstd::arithmetic::div_mod::lemma_div_is_ordered(
        mag(a) * (SCALE as int),
        mag(b) * (SCALE as int),
        mag(b),
    );
    vstd::arithmetic::div_mod::lemma_div_multiples_vanish(SCALE as int, mag(b));
}

/// Multiplying by one (`SCALE` raw) is exact.
pub proof fn lemma_smul_one(x: int)
    ensures
        smul(x, SCALE as int) == x,
{
    lemma_prod_sign_mag(x, SCALE as int);
    lemma_tdiv_from_mag(x * (SCALE as int), SCALE as int);
    vstd::arithmetic::div_mod::lemma_div_multiples_vanish(mag(x), SCALE as int);
}

/// Multiplying by zero gives zero.
pub proof fn lemma_smul_zero(x: int)
    ensures
        smul(x, 0) == 0,
        smul(0, x) == 0,
{
    lemma_prod_sign_mag(x, 0);
    lemma_prod_sign_mag(0, x);
    lemma_tdiv_from_mag(x * 0, SCALE as int);
    lemma_tdiv_from_mag(0 * x, SCALE as int);
}

/// The integer square root is monotone.
pub proof fn lemma_sqrt_floor_mono(x1: int, x2: int)
    requires
        x1 <= x2,
    ensures
        sqrt_floor(x1) <= sqrt_floor(x2),
    decreases x2 - x1,
{
    if x1 < x2 {
        lemma_sqrt_floor_mono(x1, x2 - 1);
        if x2 > 0 {
            lemma_sqrt_floor_nonneg(x2 - 1);
        }
    }
}

proof fn lemma_u128_mul_bound(a: u128, b: u128, ab: u128, bb: u128)
    by (nonlinear_arith)
    requires
        a <= ab,
        b <= bb,
    ensures
        a * b <= ab * bb,
{
}

/// The magnitude of a product is the product of magnitudes, and the product is
/// nonnegative exactly when the signs agree (or it is zero).
proof fn lemma_prod_sign_mag(a: int, b: int)
    by (nonlinear_arith)
    ensures
        mag(a * b) == mag(a) * mag(b),
        a * b == 0 ==> a == 0 || b == 0,
        ((a >= 0) == (b >= 0)) ==> a * b >= 0,
        ((a >= 0) != (b >= 0)) && a != 0 && b != 0 ==> a * b < 0,
{
}

/// Truncating division through magnitudes, for a nonzero divisor.
proof fn lemma_tdiv_from_mag(n: int, d: int)
    requires
        d != 0,
    ensures
        mag(tdiv(n, d)) == mag(n) / mag(d),
        n >= 0 == d >= 0 ==> tdiv(n, d) == mag(n) / mag(d),
        (n >= 0) != (d >= 0) ==> tdiv(n, d) == -(mag(n) / mag(d)),
        mag(n) / mag(d) >= 0,
{
    vstd::arithmetic::div_mod::lemma_div_pos_is_pos(mag(n), mag(d));
    if mag(n) == 0 {
        vstd::arithmetic::div_mod::lemma_div_of0(mag(d));
    }
}

fn mag64(x: i64) -> (m: u64)
    ensures
        m as int == mag(x as int),
{
    if x < 0 {
        (-(x as i128)) as u64
    } else {
        x as u64
    }
}

} // verus!
