//! Fixed-point real numbers.
//!
//! A [`Scalar`] holds a real number as a whole count of millionths. Every
//! operation is total: a result too large for the representation sticks at
//! the nearest end of the range, and a quotient is cut toward zero.

use vstd::prelude::*;

verus! {

/// How many raw steps make one unit.
pub const SCALE: i64 = 1_000_000;

/// A real number, held as `raw` millionths.
#[derive(Clone, Copy, PartialEq, Eq, Structural, Debug)]
pub struct Scalar {
    pub raw: i64,
}

/// The value of the range `i64` that lies nearest to `v`.
pub open spec fn saturate(v: int) -> i64 {
    if v > i64::MAX {
        i64::MAX
    } else if v < i64::MIN {
        i64::MIN
    } else {
        v as i64
    }
}

/// `n` divided by `d`, cut toward zero; 0 where `d` is 0.
pub open spec fn quotient(n: int, d: int) -> int {
    if d == 0 {
        0
    } else if n >= 0 && d > 0 {
        n / d
    } else if n < 0 && d > 0 {
        -((-n) / d)
    } else if n >= 0 {
        -(n / (-d))
    } else {
        (-n) / (-d)
    }
}

/// The distance of `v` from 0.
pub open spec fn magnitude(v: int) -> int {
    if v < 0 {
        -v
    } else {
        v
    }
}

/// Whether `r` is the largest natural number whose square is at most `n`.
pub open spec fn is_floor_sqrt(n: int, r: int) -> bool {
    0 <= r && r * r <= n && n < (r + 1) * (r + 1)
}

/// The largest natural number whose square is at most `n`.
pub open spec fn floor_sqrt(n: int) -> int {
    choose|r: int| is_floor_sqrt(n, r)
}

/// The product of two `i64` values lies within `i128`.
proof fn lemma_product_fits(a: int, b: int)
    requires
        i64::MIN <= a <= i64::MAX,
        i64::MIN <= b <= i64::MAX,
    ensures
        -0x4000_0000_0000_0000_0000_0000_0000_0000 <= a * b
            <= 0x4000_0000_0000_0000_0000_0000_0000_0000,
{
    assert(-0x4000_0000_0000_0000_0000_0000_0000_0000 <= a * b
        <= 0x4000_0000_0000_0000_0000_0000_0000_0000) by (nonlinear_arith)
        requires
            -0x8000_0000_0000_0000 <= a <= 0x8000_0000_0000_0000,
            -0x8000_0000_0000_0000 <= b <= 0x8000_0000_0000_0000,
    ;
}

/// Brings a wide value into the range of `i64`.
fn narrow(v: i128) -> (r: i64)
    ensures
        r == saturate(v as int),
{
    if v > i64::MAX as i128 {
        i64::MAX
    } else if v < i64::MIN as i128 {
        i64::MIN
    } else {
        v as i64
    }
}

/// Divides and cuts toward zero.
fn divide(n: i128, d: i128) -> (q: i128)
    requires
        d != 0,
        n > i128::MIN,
        d > i128::MIN,
    ensures
        q == quotient(n as int, d as int),
{
    let un: u128 = if n < 0 { (-n) as u128 } else { n as u128 };
    let ud: u128 = if d < 0 { (-d) as u128 } else { d as u128 };
    let uq: u128 = if un <= u64::MAX as u128 && ud <= u64::MAX as u128 {
        ((un as u64) / (ud as u64)) as u128
    } else {
        un / ud
    };
    assert(uq <= un) by (nonlinear_arith)
        requires
            uq == un / ud,
            ud > 0,
    ;
    if (n < 0) == (d < 0) {
        uq as i128
    } else {
        -(uq as i128)
    }
}

/// The floor of the square root of a number below `limit * limit`, found
/// by bisection between 0 and `limit`.
fn bisect_sqrt(n: u128, limit: u128) -> (r: u64)
    requires
        0 < limit <= 0x1_0000_0000_0000_0000,
        n < limit * limit,
    ensures
        is_floor_sqrt(n as int, r as int),
        r < limit,
{
    let mut lo: u128 = 0;
    let mut hi: u128 = limit;
    while hi - lo > 1
        invariant
            lo < hi <= limit <= 0x1_0000_0000_0000_0000,
            lo * lo <= n,
            n < hi * hi,
        decreases hi - lo,
    {
        let mid: u128 = lo + (hi - lo) / 2;
        assert(mid * mid < 0x1_0000_0000_0000_0000_0000_0000_0000_0000) by (nonlinear_arith)
            requires
                mid < 0x1_0000_0000_0000_0000,
        ;
        if mid * mid <= n {
            lo = mid;
        } else {
            hi = mid;
        }
    }
    lo as u64
}

/// The floor of the square root of a number below 2 to the 64th, found
/// by bisection between 0 and 2 to the 32nd.
fn bisect_sqrt_small(n: u64) -> (r: u64)
    ensures
        is_floor_sqrt(n as int, r as int),
        r < 0x1_0000_0000,
{
    let mut lo: u64 = 0;
    let mut hi: u64 = 0x1_0000_0000;
    assert(0x1_0000_0000 * 0x1_0000_0000 == 0x1_0000_0000_0000_0000) by (nonlinear_arith);
    while hi - lo > 1
        invariant
            lo < hi <= 0x1_0000_0000,
            lo * lo <= n,
            n < hi * hi,
        decreases hi - lo,
    {
        let mid: u64 = lo + (hi - lo) / 2;
        assert(mid * mid < 0x1_0000_0000_0000_0000) by (nonlinear_arith)
            requires
                mid < 0x1_0000_0000,
        ;
        if mid * mid <= n {
            lo = mid;
        } else {
            hi = mid;
        }
    }
    lo
}

/// The floor of the square root of `n`.
pub fn floor_sqrt_of(n: u128) -> (r: u64)
    ensures
        is_floor_sqrt(n as int, r as int),
        r == floor_sqrt(n as int),
        n < 0x10_0000_0000_0000_0000_0000 ==> r < 0x400_0000_0000,
{
    let r = if n <= u64::MAX as u128 {
        bisect_sqrt_small(n as u64)
    } else if n < 0x10_0000_0000_0000_0000_0000 {
        assert(0x400_0000_0000 * 0x400_0000_0000 == 0x10_0000_0000_0000_0000_0000)
            by (nonlinear_arith);
        bisect_sqrt(n, 0x400_0000_0000)
    } else {
        assert(0x1_0000_0000_0000_0000 * 0x1_0000_0000_0000_0000
            == 0x1_0000_0000_0000_0000_0000_0000_0000_0000) by (nonlinear_arith);
        bisect_sqrt(n, 0x1_0000_0000_0000_0000)
    };
    proof {
        lemma_floor_sqrt_unique(n as int, r as int);
    }
    r
}

impl Scalar {
    /// The number 0.
    pub open spec fn spec_zero() -> Scalar {
        Scalar { raw: 0 }
    }

    /// The number 0.
    #[verifier::when_used_as_spec(spec_zero)]
    pub fn zero() -> (r: Scalar)
        ensures
            r == Scalar::spec_zero(),
    {
        Scalar { raw: 0 }
    }

    /// The number 1.
    pub open spec fn spec_one() -> Scalar {
        Scalar { raw: SCALE }
    }

    /// The number 1.
    #[verifier::when_used_as_spec(spec_one)]
    pub fn one() -> (r: Scalar)
        ensures
            r == Scalar::spec_one(),
    {
        Scalar { raw: SCALE }
    }

    /// The whole number `n`, held within the range.
    pub open spec fn spec_from_int(n: i64) -> Scalar {
        Scalar { raw: saturate(n * SCALE) }
    }

    /// The whole number `n`, held within the range.
    #[verifier::when_used_as_spec(spec_from_int)]
    pub fn from_int(n: i64) -> (r: Scalar)
        ensures
            r == Scalar::spec_from_int(n),
    {
        proof {
            lemma_product_fits(n as int, SCALE as int);
        }
        Scalar { raw: narrow((n as i128) * (SCALE as i128)) }
    }

    /// The sum, held within the range.
    pub open spec fn spec_add(self, rhs: Scalar) -> Scalar {
        Scalar { raw: saturate(self.raw + rhs.raw) }
    }

    /// The sum, held within the range.
    #[verifier::when_used_as_spec(spec_add)]
    pub fn add(self, rhs: Scalar) -> (r: Scalar)
        ensures
            r == self.spec_add(rhs),
    {
        Scalar { raw: narrow(self.raw as i128 + rhs.raw as i128) }
    }

    /// The difference, held within the range.
    pub open spec fn spec_sub(self, rhs: Scalar) -> Scalar {
        Scalar { raw: saturate(self.raw - rhs.raw) }
    }

    /// The difference, held within the range.
    #[verifier::when_used_as_spec(spec_sub)]
    pub fn sub(self, rhs: Scalar) -> (r: Scalar)
        ensures
            r == self.spec_sub(rhs),
    {
        Scalar { raw: narrow(self.raw as i128 - rhs.raw as i128) }
    }

    /// The negation, held within the range.
    pub open spec fn spec_neg(self) -> Scalar {
        Scalar { raw: saturate(-self.raw) }
    }

    /// The negation, held within the range.
    #[verifier::when_used_as_spec(spec_neg)]
    pub fn neg(self) -> (r: Scalar)
        ensures
            r == self.spec_neg(),
    {
        Scalar { raw: narrow(-(self.raw as i128)) }
    }

    /// The product, cut toward zero to a whole count of millionths and held
    /// within the range.
    pub open spec fn spec_mul(self, rhs: Scalar) -> Scalar {
        Scalar { raw: saturate(quotient(self.raw * rhs.raw, SCALE as int)) }
    }

    /// The product, cut toward zero to a whole count of millionths and held
    /// within the range.
    #[verifier::when_used_as_spec(spec_mul)]
    pub fn mul(self, rhs: Scalar) -> (r: Scalar)
        ensures
            r == self.spec_mul(rhs),
    {
        proof {
            lemma_product_fits(self.raw as int, rhs.raw as int);
        }
        let p: i128 = (self.raw as i128) * (rhs.raw as i128);
        Scalar { raw: narrow(divide(p, SCALE as i128)) }
    }

    /// The quotient, cut toward zero to a whole count of millionths and held
    /// within the range. Division by 0 gives the end of the range on the
    /// side of the dividend's sign, and 0 for 0 divided by 0.
    pub open spec fn spec_div(self, rhs: Scalar) -> Scalar {
        if rhs.raw == 0 {
            if self.raw > 0 {
                Scalar { raw: i64::MAX }
            } else if self.raw < 0 {
                Scalar { raw: i64::MIN }
            } else {
                Scalar { raw: 0 }
            }
        } else {
            Scalar { raw: saturate(quotient(self.raw * SCALE, rhs.raw as int)) }
        }
    }

    /// The quotient, cut toward zero to a whole count of millionths and held
    /// within the range. Division by 0 gives the end of the range on the
    /// side of the dividend's sign, and 0 for 0 divided by 0.
    #[verifier::when_used_as_spec(spec_div)]
    pub fn div(self, rhs: Scalar) -> (r: Scalar)
        ensures
            r == self.spec_div(rhs),
    {
        if rhs.raw == 0 {
            if self.raw > 0 {
                Scalar { raw: i64::MAX }
            } else if self.raw < 0 {
                Scalar { raw: i64::MIN }
            } else {
                Scalar { raw: 0 }
            }
        } else {
            proof {
                lemma_product_fits(self.raw as int, SCALE as int);
            }
            let p: i128 = (self.raw as i128) * (SCALE as i128);
            Scalar { raw: narrow(divide(p, rhs.raw as i128)) }
        }
    }

    /// The square root, rounded down to a whole count of millionths; 0 for
    /// a negative number.
    pub open spec fn spec_sqrt(self) -> Scalar {
        if self.raw <= 0 {
            Scalar { raw: 0 }
        } else {
            Scalar { raw: floor_sqrt(self.raw * SCALE) as i64 }
        }
    }

    /// The square root, rounded down to a whole count of millionths; 0 for
    /// a negative number.
    #[verifier::when_used_as_spec(spec_sqrt)]
    pub fn sqrt(self) -> (r: Scalar)
        ensures
            r == self.spec_sqrt(),
            self.raw > 0 ==> is_floor_sqrt(self.raw * SCALE, r.raw as int),
    {
        if self.raw <= 0 {
            Scalar { raw: 0 }
        } else {
            let n: u128 = (self.raw as u128) * (SCALE as u128);
            let root: u64 = floor_sqrt_of(n);
            Scalar { raw: root as i64 }
        }
    }

    /// Whether the number lies between minus a million and a million,
    /// far from the ends of the range.
    pub open spec fn is_moderate(self) -> bool {
        -1_000_000_000_000 <= self.raw <= 1_000_000_000_000
    }

    /// Whether the product of `self` and `s` lies within the range.
    pub open spec fn product_fits(self, s: Scalar) -> bool {
        i64::MIN <= quotient(self.raw * s.raw, SCALE as int) <= i64::MAX
    }

    /// Whether `self` and `other` differ by little for a round trip
    /// through `s`: by less than `1 / |s|`, and one millionth.
    pub open spec fn is_near(self, other: Scalar, s: Scalar) -> bool {
        (magnitude(self.raw - other.raw) - 1) * magnitude(s.raw as int) < SCALE
    }
}

/// At most one number is the floor of the square root of `n`.
pub proof fn lemma_floor_sqrt_unique(n: int, r: int)
    requires
        is_floor_sqrt(n, r),
    ensures
        floor_sqrt(n) == r,
{
    let c = floor_sqrt(n);
    assert(is_floor_sqrt(n, c));
    assert(c == r) by (nonlinear_arith)
        requires
            0 <= r,
            r * r <= n,
            n < (r + 1) * (r + 1),
            0 <= c,
            c * c <= n,
            n < (c + 1) * (c + 1),
    ;
}

/// Every natural number has a floor of its square root.
pub proof fn lemma_floor_sqrt_exists(n: nat)
    ensures
        is_floor_sqrt(n as int, floor_sqrt(n as int)),
    decreases n,
{
    if n == 0 {
        assert(is_floor_sqrt(0, 0));
    } else {
        lemma_floor_sqrt_exists((n - 1) as nat);
        let r = floor_sqrt(n - 1);
        if n < (r + 1) * (r + 1) {
            assert(is_floor_sqrt(n as int, r));
        } else {
            assert(is_floor_sqrt(n as int, r + 1)) by (nonlinear_arith)
                requires
                    0 <= r,
                    n - 1 < (r + 1) * (r + 1),
                    n >= (r + 1) * (r + 1),
            ;
        }
    }
}

/// Cutting toward zero keeps the order of the dividends.
pub proof fn lemma_quotient_monotone(n1: int, n2: int, d: int)
    requires
        n1 <= n2,
        d > 0,
    ensures
        quotient(n1, d) <= quotient(n2, d),
{
    if n1 >= 0 {
        vstd::arithmetic::div_mod::lemma_div_is_ordered(n1, n2, d);
    } else if n2 >= 0 {
        vstd::arithmetic::div_mod::lemma_div_pos_is_pos(-n1, d);
        vstd::arithmetic::div_mod::lemma_div_pos_is_pos(n2, d);
    } else {
        vstd::arithmetic::div_mod::lemma_div_is_ordered(-n2, -n1, d);
    }
}

/// What cutting toward zero leaves over is smaller than the divisor.
pub proof fn lemma_quotient_remainder(n: int, d: int)
    requires
        d != 0,
    ensures
        -magnitude(d) < n - quotient(n, d) * d < magnitude(d),
{
    let an = magnitude(n);
    let ad = magnitude(d);
    let k = an / ad;
    vstd::arithmetic::div_mod::lemma_fundamental_div_mod(an, ad);
    vstd::arithmetic::div_mod::lemma_mod_bound(an, ad);
    assert(an == ad * k + an % ad);
    if (n >= 0) == (d > 0) {
        assert(quotient(n, d) == k);
        assert(k * d == if d > 0 {
            ad * k
        } else {
            -(ad * k)
        }) by (nonlinear_arith)
            requires
                ad == magnitude(d),
        ;
    } else {
        assert(quotient(n, d) == -k);
        assert((-k) * d == if d > 0 {
            -(ad * k)
        } else {
            ad * k
        }) by (nonlinear_arith)
            requires
                ad == magnitude(d),
        ;
    }
}

/// Cutting toward zero divides the magnitudes: the magnitude of the
/// quotient is the largest number of times that the magnitude of the
/// divisor goes into that of the dividend.
pub proof fn lemma_quotient_magnitude(n: int, d: int)
    requires
        d != 0,
    ensures
        magnitude(quotient(n, d)) * magnitude(d) <= magnitude(n),
        magnitude(n) < (magnitude(quotient(n, d)) + 1) * magnitude(d),
        n >= 0 && d > 0 ==> quotient(n, d) >= 0,
{
    let an = magnitude(n);
    let ad = magnitude(d);
    let k = an / ad;
    vstd::arithmetic::div_mod::lemma_fundamental_div_mod(an, ad);
    vstd::arithmetic::div_mod::lemma_mod_bound(an, ad);
    vstd::arithmetic::div_mod::lemma_div_pos_is_pos(an, ad);
    assert(magnitude(quotient(n, d)) == k);
    assert(k * ad == ad * k && (k + 1) * ad == ad * k + ad) by (nonlinear_arith);
}

/// What holds of the arithmetic.
impl Scalar {
    /// A product with 0 is 0.
    pub proof fn lemma_mul_zero(x: Scalar)
        ensures
            x.mul(Scalar::zero()) == Scalar::zero(),
            Scalar::zero().mul(x) == Scalar::zero(),
    {
        assert(x.raw * 0 == 0 && 0 * x.raw == 0) by (nonlinear_arith);
        assert(quotient(0, SCALE as int) == 0);
    }

    /// A square is not negative.
    pub proof fn lemma_square_nonnegative(x: Scalar)
        ensures
            x.mul(x).raw >= 0,
    {
        assert(x.raw * x.raw >= 0) by (nonlinear_arith);
        vstd::arithmetic::div_mod::lemma_div_pos_is_pos(x.raw * x.raw, SCALE as int);
    }

    /// Dividing by a number that is not negative keeps the order.
    pub proof fn lemma_div_monotone(a: Scalar, b: Scalar, d: Scalar)
        requires
            a.raw <= b.raw,
            d.raw >= 0,
        ensures
            a.div(d).raw <= b.div(d).raw,
    {
        if d.raw > 0 {
            lemma_quotient_monotone(a.raw * SCALE, b.raw * SCALE, d.raw as int);
        }
    }

    /// The square root of a positive number is the floor of the square
    /// root of its millionths times a million; no square root is
    /// negative.
    pub proof fn lemma_sqrt_is_floor(x: Scalar)
        ensures
            x.sqrt().raw >= 0,
            x.raw > 0 ==> is_floor_sqrt(x.raw * SCALE, x.sqrt().raw as int),
    {
        if x.raw > 0 {
            let n = x.raw * SCALE;
            lemma_floor_sqrt_exists(n as nat);
            let r = floor_sqrt(n);
            assert(r < 0x400_0000_0000) by (nonlinear_arith)
                requires
                    0 <= r,
                    r * r <= n,
                    n < 0x10_0000_0000_0000_0000_0000,
            ;
        }
    }

    /// Multiplying by a number other than 0 and dividing by it again
    /// brings back nearly the same, where the product lies within the
    /// range.
    pub proof fn lemma_mul_div_round_trip(x: Scalar, s: Scalar)
        requires
            s.raw != 0,
            x.product_fits(s),
        ensures
            x.mul(s).div(s).is_near(x, s),
    {
        let m = quotient(x.raw * s.raw, SCALE as int);
        let q = quotient(m * SCALE, s.raw as int);
        let r = x.mul(s).div(s).raw as int;
        let xr = x.raw as int;
        let sr = s.raw as int;
        let a = magnitude(sr);
        lemma_quotient_remainder(xr * sr, SCALE as int);
        lemma_quotient_remainder(m * SCALE, sr);
        let e1 = xr * sr - m * SCALE;
        let e2 = m * SCALE - q * sr;
        assert((xr - q) * sr == e1 + e2) by (nonlinear_arith)
            requires
                e1 == xr * sr - m * SCALE,
                e2 == m * SCALE - q * sr,
        ;
        assert((magnitude(q - xr) - 1) * a < SCALE) by (nonlinear_arith)
            requires
                (xr - q) * sr == e1 + e2,
                -SCALE < e1 < SCALE,
                -a < e2 < a,
                a == magnitude(sr),
                sr != 0,
        ;
        assert(r == saturate(q));
        assert(magnitude(r - xr) <= magnitude(q - xr));
        assert((magnitude(r - xr) - 1) * a <= (magnitude(q - xr) - 1) * a)
            by (nonlinear_arith)
            requires
                magnitude(r - xr) <= magnitude(q - xr),
                a >= 0,
        ;
    }

    /// The square of a moderate number is its millionths squared and
    /// divided by a million, rounded down.
    pub proof fn lemma_square_of_moderate(x: Scalar)
        requires
            x.is_moderate(),
        ensures
            0 <= x.mul(x).raw <= 1_000_000_000_000_000_000,
            x.mul(x).raw * SCALE <= x.raw * x.raw < (x.mul(x).raw + 1) * SCALE,
    {
        let n = x.raw * x.raw;
        assert(0 <= n <= 1_000_000_000_000_000_000_000_000) by (nonlinear_arith)
            requires
                n == x.raw * x.raw,
                -1_000_000_000_000 <= x.raw <= 1_000_000_000_000,
        ;
        lemma_quotient_magnitude(n, SCALE as int);
    }

    /// A moderate number divided by a number that is at least 1 stays
    /// moderate, and its magnitude is that of the dividend times a
    /// million, divided by the divisor and rounded down.
    pub proof fn lemma_div_of_moderate(x: Scalar, l: Scalar)
        requires
            x.is_moderate(),
            l.raw >= SCALE,
        ensures
            x.div(l).is_moderate(),
            magnitude(x.div(l).raw as int) * l.raw <= magnitude(x.raw as int) * SCALE,
            magnitude(x.raw as int) * SCALE < (magnitude(x.div(l).raw as int) + 1) * l.raw,
    {
        let n = x.raw * SCALE;
        let q = quotient(n, l.raw as int);
        lemma_quotient_magnitude(n, l.raw as int);
        let a = magnitude(q);
        let ax = magnitude(x.raw as int);
        assert(magnitude(n) == ax * SCALE);
        assert(a <= ax) by (nonlinear_arith)
            requires
                a * l.raw <= ax * SCALE,
                l.raw >= SCALE,
                a >= 0,
                ax >= 0,
        ;
    }
}

} // verus!
