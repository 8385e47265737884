//! Three-component vectors, used alike for points, directions and colours.

use vstd::prelude::*;
use crate::scalar::{is_floor_sqrt, magnitude, Scalar, SCALE};

verus! {

/// A vector of three scalars. Every operation gives a new vector.
#[derive(Clone, Copy, PartialEq, Eq, Structural, Debug)]
pub struct Vec3 {
    pub x: Scalar,
    pub y: Scalar,
    pub z: Scalar,
}

impl Vec3 {
    /// The vector with the given components.
    pub open spec fn spec_new(x: Scalar, y: Scalar, z: Scalar) -> Vec3 {
        Vec3 { x, y, z }
    }

    /// The vector with the given components.
    #[verifier::when_used_as_spec(spec_new)]
    pub fn new(x: Scalar, y: Scalar, z: Scalar) -> (r: Vec3)
        ensures
            r == Vec3::spec_new(x, y, z),
    {
        Vec3 { x, y, z }
    }

    /// The vector of three whole numbers.
    pub open spec fn spec_from_ints(x: i64, y: i64, z: i64) -> Vec3 {
        Vec3 { x: Scalar::from_int(x), y: Scalar::from_int(y), z: Scalar::from_int(z) }
    }

    /// The vector of three whole numbers.
    #[verifier::when_used_as_spec(spec_from_ints)]
    pub fn from_ints(x: i64, y: i64, z: i64) -> (r: Vec3)
        ensures
            r == Vec3::spec_from_ints(x, y, z),
    {
        Vec3 { x: Scalar::from_int(x), y: Scalar::from_int(y), z: Scalar::from_int(z) }
    }

    /// The first component.
    pub fn x(self) -> (r: Scalar)
        ensures
            r == self.x,
    {
        self.x
    }

    /// The second component.
    pub fn y(self) -> (r: Scalar)
        ensures
            r == self.y,
    {
        self.y
    }

    /// The third component.
    pub fn z(self) -> (r: Scalar)
        ensures
            r == self.z,
    {
        self.z
    }

    /// The dot product: the sum of the products of the components.
    pub open spec fn spec_dot(self, v: Vec3) -> Scalar {
        self.x.mul(v.x).add(self.y.mul(v.y)).add(self.z.mul(v.z))
    }

    /// The dot product: the sum of the products of the components.
    #[verifier::when_used_as_spec(spec_dot)]
    pub fn dot(self, v: Vec3) -> (r: Scalar)
        ensures
            r == self.spec_dot(v),
    {
        self.x.mul(v.x).add(self.y.mul(v.y)).add(self.z.mul(v.z))
    }

    /// The sum of the squares of the components.
    pub open spec fn spec_squared_length(self) -> Scalar {
        self.dot(self)
    }

    /// The sum of the squares of the components.
    #[verifier::when_used_as_spec(spec_squared_length)]
    pub fn squared_length(self) -> (r: Scalar)
        ensures
            r == self.spec_squared_length(),
    {
        self.dot(self)
    }

    /// The square root of the squared length.
    pub open spec fn spec_length(self) -> Scalar {
        self.squared_length().sqrt()
    }

    /// The square root of the squared length.
    #[verifier::when_used_as_spec(spec_length)]
    pub fn length(self) -> (r: Scalar)
        ensures
            r == self.spec_length(),
    {
        self.squared_length().sqrt()
    }

    /// The vector divided by its own length. A vector whose length is 0
    /// is divided by 0 component by component.
    pub open spec fn spec_unit(self) -> Vec3 {
        self.div_scalar(self.length())
    }

    /// The vector divided by its own length. A vector whose length is 0
    /// is divided by 0 component by component.
    #[verifier::when_used_as_spec(spec_unit)]
    pub fn unit(self) -> (r: Vec3)
        ensures
            r == self.spec_unit(),
    {
        self.div_scalar(self.length())
    }

    /// The cross product.
    pub open spec fn spec_cross(self, v: Vec3) -> Vec3 {
        Vec3 {
            x: self.y.mul(v.z).sub(self.z.mul(v.y)),
            y: self.z.mul(v.x).sub(self.x.mul(v.z)),
            z: self.x.mul(v.y).sub(self.y.mul(v.x)),
        }
    }

    /// The cross product.
    #[verifier::when_used_as_spec(spec_cross)]
    pub fn cross(self, v: Vec3) -> (r: Vec3)
        ensures
            r == self.spec_cross(v),
    {
        Vec3 {
            x: self.y.mul(v.z).sub(self.z.mul(v.y)),
            y: self.z.mul(v.x).sub(self.x.mul(v.z)),
            z: self.x.mul(v.y).sub(self.y.mul(v.x)),
        }
    }

    /// The sum, component by component.
    pub open spec fn spec_add(self, v: Vec3) -> Vec3 {
        Vec3 { x: self.x.add(v.x), y: self.y.add(v.y), z: self.z.add(v.z) }
    }

    /// The sum, component by component.
    #[verifier::when_used_as_spec(spec_add)]
    pub fn add(self, v: Vec3) -> (r: Vec3)
        ensures
            r == self.spec_add(v),
    {
        Vec3 { x: self.x.add(v.x), y: self.y.add(v.y), z: self.z.add(v.z) }
    }

    /// The difference, component by component.
    pub open spec fn spec_sub(self, v: Vec3) -> Vec3 {
        Vec3 { x: self.x.sub(v.x), y: self.y.sub(v.y), z: self.z.sub(v.z) }
    }

    /// The difference, component by component.
    #[verifier::when_used_as_spec(spec_sub)]
    pub fn sub(self, v: Vec3) -> (r: Vec3)
        ensures
            r == self.spec_sub(v),
    {
        Vec3 { x: self.x.sub(v.x), y: self.y.sub(v.y), z: self.z.sub(v.z) }
    }

    /// The product, component by component.
    pub open spec fn spec_mul(self, v: Vec3) -> Vec3 {
        Vec3 { x: self.x.mul(v.x), y: self.y.mul(v.y), z: self.z.mul(v.z) }
    }

    /// The product, component by component.
    #[verifier::when_used_as_spec(spec_mul)]
    pub fn mul(self, v: Vec3) -> (r: Vec3)
        ensures
            r == self.spec_mul(v),
    {
        Vec3 { x: self.x.mul(v.x), y: self.y.mul(v.y), z: self.z.mul(v.z) }
    }

    /// The quotient, component by component.
    pub open spec fn spec_div(self, v: Vec3) -> Vec3 {
        Vec3 { x: self.x.div(v.x), y: self.y.div(v.y), z: self.z.div(v.z) }
    }

    /// The quotient, component by component.
    #[verifier::when_used_as_spec(spec_div)]
    pub fn div(self, v: Vec3) -> (r: Vec3)
        ensures
            r == self.spec_div(v),
    {
        Vec3 { x: self.x.div(v.x), y: self.y.div(v.y), z: self.z.div(v.z) }
    }

    /// Every component multiplied by `f`.
    pub open spec fn spec_mul_scalar(self, f: Scalar) -> Vec3 {
        Vec3 { x: self.x.mul(f), y: self.y.mul(f), z: self.z.mul(f) }
    }

    /// Every component multiplied by `f`.
    #[verifier::when_used_as_spec(spec_mul_scalar)]
    pub fn mul_scalar(self, f: Scalar) -> (r: Vec3)
        ensures
            r == self.spec_mul_scalar(f),
    {
        Vec3 { x: self.x.mul(f), y: self.y.mul(f), z: self.z.mul(f) }
    }

    /// Every component divided by `f`.
    pub open spec fn spec_div_scalar(self, f: Scalar) -> Vec3 {
        Vec3 { x: self.x.div(f), y: self.y.div(f), z: self.z.div(f) }
    }

    /// Every component divided by `f`.
    #[verifier::when_used_as_spec(spec_div_scalar)]
    pub fn div_scalar(self, f: Scalar) -> (r: Vec3)
        ensures
            r == self.spec_div_scalar(f),
    {
        Vec3 { x: self.x.div(f), y: self.y.div(f), z: self.z.div(f) }
    }

    /// Every component negated.
    pub open spec fn spec_neg(self) -> Vec3 {
        Vec3 { x: self.x.neg(), y: self.y.neg(), z: self.z.neg() }
    }

    /// Every component negated.
    #[verifier::when_used_as_spec(spec_neg)]
    pub fn neg(self) -> (r: Vec3)
        ensures
            r == self.spec_neg(),
    {
        Vec3 { x: self.x.neg(), y: self.y.neg(), z: self.z.neg() }
    }

    /// Whether each component lies between minus a million and a
    /// million, so that no step on the way to the length reaches the end
    /// of the range.
    pub open spec fn is_moderate(self) -> bool {
        self.x.is_moderate() && self.y.is_moderate() && self.z.is_moderate()
    }

    /// The sum of the squares of the millionths of the components.
    pub open spec fn raw_square_sum(self) -> int {
        self.x.raw * self.x.raw + self.y.raw * self.y.raw + self.z.raw * self.z.raw
    }
}

impl core::ops::Add<Vec3> for Vec3 {
    type Output = Vec3;

    /// `+` is the sum, component by component.
    fn add(self, rhs: Vec3) -> (r: Vec3) {
        self.add(rhs)
    }
}

impl vstd::std_specs::ops::AddSpecImpl<Vec3> for Vec3 {
    open spec fn obeys_add_spec() -> bool {
        true
    }

    open spec fn add_req(self, rhs: Vec3) -> bool {
        true
    }

    open spec fn add_spec(self, rhs: Vec3) -> Vec3 {
        self.spec_add(rhs)
    }
}

impl core::ops::Sub<Vec3> for Vec3 {
    type Output = Vec3;

    /// `-` is the difference, component by component.
    fn sub(self, rhs: Vec3) -> (r: Vec3) {
        self.sub(rhs)
    }
}

impl vstd::std_specs::ops::SubSpecImpl<Vec3> for Vec3 {
    open spec fn obeys_sub_spec() -> bool {
        true
    }

    open spec fn sub_req(self, rhs: Vec3) -> bool {
        true
    }

    open spec fn sub_spec(self, rhs: Vec3) -> Vec3 {
        self.spec_sub(rhs)
    }
}

impl core::ops::Mul<Vec3> for Vec3 {
    type Output = Vec3;

    /// `*` between vectors is the product, component by component.
    fn mul(self, rhs: Vec3) -> (r: Vec3) {
        self.mul(rhs)
    }
}

impl vstd::std_specs::ops::MulSpecImpl<Vec3> for Vec3 {
    open spec fn obeys_mul_spec() -> bool {
        true
    }

    open spec fn mul_req(self, rhs: Vec3) -> bool {
        true
    }

    open spec fn mul_spec(self, rhs: Vec3) -> Vec3 {
        self.spec_mul(rhs)
    }
}

impl core::ops::Div<Vec3> for Vec3 {
    type Output = Vec3;

    /// `/` between vectors is the quotient, component by component.
    fn div(self, rhs: Vec3) -> (r: Vec3) {
        self.div(rhs)
    }
}

impl vstd::std_specs::ops::DivSpecImpl<Vec3> for Vec3 {
    open spec fn obeys_div_spec() -> bool {
        true
    }

    open spec fn div_req(self, rhs: Vec3) -> bool {
        true
    }

    open spec fn div_spec(self, rhs: Vec3) -> Vec3 {
        self.spec_div(rhs)
    }
}

impl core::ops::Mul<Scalar> for Vec3 {
    type Output = Vec3;

    /// `*` with a number multiplies every component by it.
    fn mul(self, rhs: Scalar) -> (r: Vec3) {
        self.mul_scalar(rhs)
    }
}

impl vstd::std_specs::ops::MulSpecImpl<Scalar> for Vec3 {
    open spec fn obeys_mul_spec() -> bool {
        true
    }

    open spec fn mul_req(self, rhs: Scalar) -> bool {
        true
    }

    open spec fn mul_spec(self, rhs: Scalar) -> Vec3 {
        self.spec_mul_scalar(rhs)
    }
}

impl core::ops::Div<Scalar> for Vec3 {
    type Output = Vec3;

    /// `/` with a number divides every component by it.
    fn div(self, rhs: Scalar) -> (r: Vec3) {
        self.div_scalar(rhs)
    }
}

impl vstd::std_specs::ops::DivSpecImpl<Scalar> for Vec3 {
    open spec fn obeys_div_spec() -> bool {
        true
    }

    open spec fn div_req(self, rhs: Scalar) -> bool {
        true
    }

    open spec fn div_spec(self, rhs: Scalar) -> Vec3 {
        self.spec_div_scalar(rhs)
    }
}

impl core::ops::Neg for Vec3 {
    type Output = Vec3;

    /// `-` before a vector negates every component.
    fn neg(self) -> (r: Vec3) {
        self.neg()
    }
}

impl vstd::std_specs::ops::NegSpecImpl for Vec3 {
    open spec fn obeys_neg_spec() -> bool {
        true
    }

    open spec fn neg_req(self) -> bool {
        true
    }

    open spec fn neg_spec(self) -> Vec3 {
        self.spec_neg()
    }
}

/// What holds of lengths and of scaling.
impl Vec3 {
    /// The dot product of a vector with itself is not negative.
    pub proof fn lemma_dot_self_nonnegative(v: Vec3)
        ensures
            v.dot(v).raw >= 0,
    {
        Scalar::lemma_square_nonnegative(v.x);
        Scalar::lemma_square_nonnegative(v.y);
        Scalar::lemma_square_nonnegative(v.z);
    }

    /// The dot product of a vector with itself is its squared length, and
    /// the square of its length falls short of that by less than `(2 l +
    /// 1)` millionths of a millionth, and one millionth, where `l` is the
    /// length in millionths.
    pub proof fn lemma_length_squared(v: Vec3)
        ensures
            v.dot(v) == v.squared_length(),
            v.length().mul(v.length()).raw <= v.dot(v).raw,
            (v.dot(v).raw - v.length().mul(v.length()).raw - 1) * SCALE < 2 * v.length().raw + 1,
    {
        let d = v.dot(v).raw as int;
        Vec3::lemma_dot_self_nonnegative(v);
        Scalar::lemma_sqrt_is_floor(v.dot(v));
        let l = v.length().raw as int;
        if d == 0 {
            Scalar::lemma_mul_zero(Scalar::zero());
        } else {
            vstd::arithmetic::div_mod::lemma_fundamental_div_mod(l * l, SCALE as int);
            vstd::arithmetic::div_mod::lemma_mod_bound(l * l, SCALE as int);
            let q = (l * l) / (SCALE as int);
            assert(l * l >= 0) by (nonlinear_arith);
            assert(q <= d) by (nonlinear_arith)
                requires
                    l * l == SCALE * q + (l * l) % (SCALE as int),
                    0 <= (l * l) % (SCALE as int),
                    l * l <= d * SCALE,
            ;
            assert(0 <= q) by (nonlinear_arith)
                requires
                    l * l == SCALE * q + (l * l) % (SCALE as int),
                    (l * l) % (SCALE as int) < SCALE,
                    l * l >= 0,
            ;
            assert(v.length().mul(v.length()).raw == q);
            assert((d - q - 1) * SCALE < 2 * l + 1) by (nonlinear_arith)
                requires
                    l * l == SCALE * q + (l * l) % (SCALE as int),
                    (l * l) % (SCALE as int) < SCALE,
                    d * SCALE < (l + 1) * (l + 1),
            ;
        }
    }

    /// Scaling a vector by a number other than 0 and dividing by it
    /// again brings back nearly the same vector, where the products lie
    /// within the range: each component differs by less than `1 / |s|`,
    /// and one millionth.
    pub proof fn lemma_scale_round_trip(v: Vec3, s: Scalar)
        requires
            s.raw != 0,
            v.x.product_fits(s),
            v.y.product_fits(s),
            v.z.product_fits(s),
        ensures
            v.mul_scalar(s).div_scalar(s).x.is_near(v.x, s),
            v.mul_scalar(s).div_scalar(s).y.is_near(v.y, s),
            v.mul_scalar(s).div_scalar(s).z.is_near(v.z, s),
    {
        Scalar::lemma_mul_div_round_trip(v.x, s);
        Scalar::lemma_mul_div_round_trip(v.y, s);
        Scalar::lemma_mul_div_round_trip(v.z, s);
    }

    /// The squared length of a moderate vector, in millionths of a
    /// millionth, falls short of the sum of the squares of the components
    /// by less than three millionths.
    pub proof fn lemma_squared_length_of_moderate(v: Vec3)
        requires
            v.is_moderate(),
        ensures
            0 <= v.dot(v).raw,
            v.dot(v).raw * SCALE <= v.raw_square_sum() <= v.dot(v).raw * SCALE + 3 * SCALE - 3,
    {
        Scalar::lemma_square_of_moderate(v.x);
        Scalar::lemma_square_of_moderate(v.y);
        Scalar::lemma_square_of_moderate(v.z);
    }

    /// The unit vector of a moderate vector whose length is at least 1
    /// has nearly the length 1: at least 0.999996 and at most 1.000002.
    pub proof fn lemma_unit_length(v: Vec3)
        requires
            v.is_moderate(),
            v.length().raw >= SCALE,
        ensures
            SCALE - 4 <= v.unit().length().raw <= SCALE + 2,
    {
        let l = v.length().raw as int;
        let d = v.dot(v).raw as int;
        let u = v.unit();
        Vec3::lemma_squared_length_of_moderate(v);
        Scalar::lemma_sqrt_is_floor(v.dot(v));
        assert(d > 0);
        Scalar::lemma_div_of_moderate(v.x, v.length());
        Scalar::lemma_div_of_moderate(v.y, v.length());
        Scalar::lemma_div_of_moderate(v.z, v.length());
        Vec3::lemma_squared_length_of_moderate(u);
        Scalar::lemma_sqrt_is_floor(u.dot(u));
        let e = u.dot(u).raw as int;
        let m = u.length().raw as int;
        let qa = magnitude(v.x.raw as int) * SCALE;
        let qb = magnitude(v.y.raw as int) * SCALE;
        let qc = magnitude(v.z.raw as int) * SCALE;
        let pa = magnitude(u.x.raw as int) * l;
        let pb = magnitude(u.y.raw as int) * l;
        let pc = magnitude(u.z.raw as int) * l;
        let big = v.raw_square_sum();
        let small = u.raw_square_sum();
        let kk = SCALE * SCALE;
        let ll = l * l;
        lemma_scaled_square(v.x.raw as int, SCALE as int);
        lemma_scaled_square(v.y.raw as int, SCALE as int);
        lemma_scaled_square(v.z.raw as int, SCALE as int);
        lemma_scaled_square(u.x.raw as int, l);
        lemma_scaled_square(u.y.raw as int, l);
        lemma_scaled_square(u.z.raw as int, l);
        assert(qa * qa + qb * qb + qc * qc == big * kk) by (nonlinear_arith)
            requires
                qa * qa == (v.x.raw * v.x.raw) * kk,
                qb * qb == (v.y.raw * v.y.raw) * kk,
                qc * qc == (v.z.raw * v.z.raw) * kk,
                big == v.x.raw * v.x.raw + v.y.raw * v.y.raw + v.z.raw * v.z.raw,
        ;
        assert(pa * pa + pb * pb + pc * pc == small * ll) by (nonlinear_arith)
            requires
                pa * pa == (u.x.raw * u.x.raw) * ll,
                pb * pb == (u.y.raw * u.y.raw) * ll,
                pc * pc == (u.z.raw * u.z.raw) * ll,
                small == u.x.raw * u.x.raw + u.y.raw * u.y.raw + u.z.raw * u.z.raw,
        ;
        assert((l + 1) * (l + 1) == l * l + 2 * l + 1) by (nonlinear_arith);
        lemma_step(magnitude(u.x.raw as int), l);
        lemma_step(magnitude(u.y.raw as int), l);
        lemma_step(magnitude(u.z.raw as int), l);
        lemma_unit_length_bounds(l, big, small, (qa, qb, qc), (pa, pb, pc));
        lemma_root_near_one(small, e, m);
    }
}

/// The square of the magnitude of `a` times `k` is the square of `a`
/// times the square of `k`.
proof fn lemma_scaled_square(a: int, k: int)
    ensures
        (magnitude(a) * k) * (magnitude(a) * k) == (a * a) * (k * k),
{
    let m = magnitude(a);
    assert(m * m == a * a) by (nonlinear_arith)
        requires
            m == a || m == -a,
    ;
    assert((m * k) * (m * k) == (m * m) * (k * k)) by (nonlinear_arith);
}

/// One more time `l` is `l` more, and no product of two numbers that
/// are not negative is negative.
proof fn lemma_step(a: int, l: int)
    requires
        0 <= a,
        0 <= l,
    ensures
        (a + 1) * l == a * l + l,
        0 <= a * l,
{
    assert((a + 1) * l == a * l + l && 0 <= a * l) by (nonlinear_arith)
        requires
            0 <= a,
            0 <= l,
    ;
}

/// Squares of a number and of one that is less by under `l`.
proof fn lemma_component_squares(p: int, q: int, l: int)
    requires
        0 <= p <= q < p + l,
    ensures
        p * p <= q * q,
        q * q - 2 * q * l <= p * p,
{
    assert(p * p <= q * q) by (nonlinear_arith)
        requires
            0 <= p <= q,
    ;
    let t = q - p;
    assert(p * p == q * q - 2 * q * t + t * t) by (nonlinear_arith)
        requires
            t == q - p,
    ;
    assert(q * t <= q * l) by (nonlinear_arith)
        requires
            0 <= q,
            t < l,
    ;
    assert(t * t >= 0) by (nonlinear_arith);
    assert(2 * q * t == 2 * (q * t) && 2 * q * l == 2 * (q * l)) by (nonlinear_arith);
}

/// The square of a sum of three numbers is at most three times the sum
/// of their squares.
proof fn lemma_sum_squared(a: int, b: int, c: int)
    ensures
        (a + b + c) * (a + b + c) <= 3 * (a * a + b * b + c * c),
{
    assert((a - b) * (a - b) >= 0) by (nonlinear_arith);
    assert((a - c) * (a - c) >= 0) by (nonlinear_arith);
    assert((b - c) * (b - c) >= 0) by (nonlinear_arith);
    assert((a + b + c) * (a + b + c) <= 3 * (a * a + b * b + c * c)) by (nonlinear_arith)
        requires
            (a - b) * (a - b) >= 0,
            (a - c) * (a - c) >= 0,
            (b - c) * (b - c) >= 0,
    ;
}

/// The sum `small` of the squares of the components of a unit vector, in
/// millionths, lies near a million squared: `big` is the sum of the
/// squares for the vector itself and `l` its length; the `q` are the
/// magnitudes of its components times a million, the `p` those of the
/// unit vector's components times `l`.
proof fn lemma_unit_length_bounds(l: int, big: int, small: int, q: (int, int, int), p: (int, int, int))
    requires
        l >= SCALE,
        l * l <= big <= l * l + 2 * l + 3 * SCALE - 3,
        0 <= p.0 <= q.0 < p.0 + l,
        0 <= p.1 <= q.1 < p.1 + l,
        0 <= p.2 <= q.2 < p.2 + l,
        q.0 * q.0 + q.1 * q.1 + q.2 * q.2 == big * (SCALE * SCALE),
        p.0 * p.0 + p.1 * p.1 + p.2 * p.2 == small * (l * l),
    ensures
        SCALE * SCALE - 4 * SCALE - 12 <= small <= SCALE * SCALE + 5 * SCALE,
{
    let s = SCALE as int;
    let ss = s * s;
    let ll = l * l;
    let xs = big * ss;
    let ul = small * ll;
    let t = q.0 + q.1 + q.2;
    lemma_component_squares(p.0, q.0, l);
    lemma_component_squares(p.1, q.1, l);
    lemma_component_squares(p.2, q.2, l);
    lemma_sum_squared(q.0, q.1, q.2);
    assert(ul <= xs);
    assert(2 * q.0 * l + 2 * q.1 * l + 2 * q.2 * l == 2 * (t * l)) by (nonlinear_arith)
        requires
            t == q.0 + q.1 + q.2,
    ;
    assert(ul >= xs - 2 * (t * l));
    assert(t * t <= 3 * xs);
    assert(ll >= s * l && s * l >= ss) by (nonlinear_arith)
        requires
            ll == l * l,
            ss == s * s,
            l >= s,
            s >= 0,
    ;
    // The sum of the magnitudes is at most 2 s (l + 3).
    let bound = 2 * s * (l + 3);
    assert((l + 3) * (l + 3) == l * l + 6 * l + 9) by (nonlinear_arith);
    assert(big <= (l + 3) * (l + 3));
    assert(xs <= ss * ((l + 3) * (l + 3))) by (nonlinear_arith)
        requires
            xs == big * ss,
            big <= (l + 3) * (l + 3),
            ss >= 0,
    ;
    assert(bound * bound == 4 * (ss * ((l + 3) * (l + 3)))) by (nonlinear_arith)
        requires
            bound == 2 * s * (l + 3),
            ss == s * s,
    ;
    assert(t <= bound) by (nonlinear_arith)
        requires
            t * t <= 3 * xs,
            xs <= ss * ((l + 3) * (l + 3)),
            bound * bound == 4 * (ss * ((l + 3) * (l + 3))),
            bound >= 0,
            t >= 0,
    ;
    assert(t * l <= bound * l) by (nonlinear_arith)
        requires
            t <= bound,
            l >= 0,
    ;
    assert(bound * l == 2 * (s * ll) + 6 * (s * l)) by (nonlinear_arith)
        requires
            bound == 2 * s * (l + 3),
            ll == l * l,
    ;
    assert(xs >= ss * ll) by (nonlinear_arith)
        requires
            xs == big * ss,
            big >= ll,
            ss >= 0,
    ;
    // From below.
    let tl = t * l;
    let sll = s * ll;
    let sl = s * l;
    assert(bound * l == 2 * sll + 6 * sl);
    assert(ul >= ss * ll - 4 * sll - 12 * sl);
    assert((ss - 4 * s - 12) * ll == ss * ll - 4 * sll - 12 * ll) by (nonlinear_arith)
        requires
            sll == s * ll,
    ;
    assert(sl <= ll);
    assert(small * ll >= (ss - 4 * s - 12) * ll);
    assert(small >= ss - 4 * s - 12) by (nonlinear_arith)
        requires
            small * ll >= (ss - 4 * s - 12) * ll,
            ll > 0,
    ;
    // From above.
    assert(xs <= ss * ll + 2 * (ss * l) + 3 * (ss * s)) by (nonlinear_arith)
        requires
            xs == big * ss,
            big <= ll + 2 * l + 3 * s,
            ss >= 0,
    ;
    assert(ss * l <= sll && ss * s <= sll) by (nonlinear_arith)
        requires
            ss == s * s,
            ll == l * l,
            sll == s * ll,
            l >= s,
            s >= 0,
    ;
    assert((ss + 5 * s) * ll == ss * ll + 5 * sll) by (nonlinear_arith)
        requires
            sll == s * ll,
    ;
    assert(small * ll <= (ss + 5 * s) * ll);
    assert(small <= ss + 5 * s) by (nonlinear_arith)
        requires
            small * ll <= (ss + 5 * s) * ll,
            ll > 0,
    ;
}

/// The root of a number near a million squared is near a million:
/// `small` is the sum of the squares of the millionths of a vector's
/// components, `e` its squared length and `m` its length.
proof fn lemma_root_near_one(small: int, e: int, m: int)
    requires
        SCALE * SCALE - 4 * SCALE - 12 <= small <= SCALE * SCALE + 5 * SCALE,
        0 <= e,
        e * SCALE <= small <= e * SCALE + 3 * SCALE - 3,
        0 <= m,
        e > 0 ==> is_floor_sqrt(e * SCALE, m),
    ensures
        SCALE - 4 <= m <= SCALE + 2,
{
    assert(e > 0);
    assert(m <= SCALE + 2) by (nonlinear_arith)
        requires
            0 <= m,
            m * m <= e * SCALE,
            e * SCALE <= 1_000_000 * 1_000_000 + 5 * 1_000_000,
            SCALE == 1_000_000,
    ;
    assert(m >= SCALE - 4) by (nonlinear_arith)
        requires
            0 <= m,
            e * SCALE < (m + 1) * (m + 1),
            e * SCALE >= 1_000_000 * 1_000_000 - 7 * 1_000_000 - 9,
            SCALE == 1_000_000,
    ;
}

} // verus!
