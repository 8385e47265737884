//! What a ray can meet: a sphere, and a list of spheres searched for the
//! nearest meeting point.

use vstd::prelude::*;
use crate::material::Material;
use crate::ray::Ray;
use crate::scalar::Scalar;
use crate::vec3::Vec3;

verus! {

/// Where a ray meets a surface: the parameter `t` on the ray, the point
/// `p` and the normal of the surface there.
#[derive(Clone, Copy, PartialEq, Eq, Structural, Debug)]
pub struct HitRecord {
    pub t: Scalar,
    pub p: Vec3,
    pub normal: Vec3,
}

impl HitRecord {
    /// The record of the three given parts.
    pub open spec fn spec_new(t: Scalar, p: Vec3, normal: Vec3) -> HitRecord {
        HitRecord { t, p, normal }
    }

    /// The record of the three given parts.
    #[verifier::when_used_as_spec(spec_new)]
    pub fn new(t: Scalar, p: Vec3, normal: Vec3) -> (r: HitRecord)
        ensures
            r == HitRecord::spec_new(t, p, normal),
    {
        HitRecord { t, p, normal }
    }

    /// The parameter on the ray.
    pub fn t(&self) -> (r: Scalar)
        ensures
            r == self.t,
    {
        self.t
    }

    /// The meeting point.
    pub fn p(&self) -> (r: Vec3)
        ensures
            r == self.p,
    {
        self.p
    }

    /// The normal of the surface at the meeting point.
    pub fn normal(&self) -> (r: Vec3)
        ensures
            r == self.normal,
    {
        self.normal
    }
}

/// Whether `t` lies strictly between `t_min` and `t_max`.
pub open spec fn within(t: Scalar, t_min: Scalar, t_max: Scalar) -> bool {
    t_min.raw < t.raw && t.raw < t_max.raw
}

/// A meeting point as contracts speak of it: the record and the material
/// of the surface.
pub type Hit = Option<(HitRecord, Material)>;

/// The meeting point that a call of `hit` returned, with the material
/// itself in place of the reference to it.
pub open spec fn hit_of(res: Option<(HitRecord, &Material)>) -> Hit {
    match res {
        Some((rec, m)) => Some((rec, *m)),
        None => None,
    }
}

/// Something that a ray can meet.
pub trait Hitable {
    /// The nearest point at which the ray `r` meets this surface with a
    /// parameter strictly between `t_min` and `t_max`, if there is one.
    spec fn hit_spec(&self, r: Ray, t_min: Scalar, t_max: Scalar) -> Hit;

    /// The nearest point at which the ray `r` meets this surface with a
    /// parameter strictly between `t_min` and `t_max`, if there is one.
    fn hit(&self, r: &Ray, t_min: Scalar, t_max: Scalar) -> (res: Option<(HitRecord, &Material)>)
        ensures
            hit_of(res) == self.hit_spec(*r, t_min, t_max),
    ;
}

/// A sphere. A negative radius turns the normals inward and leaves the
/// surface where it is.
#[derive(Clone, Copy, PartialEq, Eq, Structural, Debug)]
pub struct Sphere {
    pub center: Vec3,
    pub radius: Scalar,
    pub material: Material,
}

impl Sphere {
    /// The sphere of the three given parts.
    pub open spec fn spec_new(center: Vec3, radius: Scalar, material: Material) -> Sphere {
        Sphere { center, radius, material }
    }

    /// The sphere of the three given parts.
    #[verifier::when_used_as_spec(spec_new)]
    pub fn new(center: Vec3, radius: Scalar, material: Material) -> (r: Sphere)
        ensures
            r == Sphere::spec_new(center, radius, material),
    {
        Sphere { center, radius, material }
    }

    /// The centre.
    pub fn center(&self) -> (r: Vec3)
        ensures
            r == self.center,
    {
        self.center
    }

    /// The radius.
    pub fn radius(&self) -> (r: Scalar)
        ensures
            r == self.radius,
    {
        self.radius
    }

    /// The material.
    pub fn material(&self) -> (r: &Material)
        ensures
            *r == self.material,
    {
        &self.material
    }

    /// The coefficient `a` of the equation `a t^2 + 2 b t + c = 0` for
    /// the parameters at which the ray `r` meets the sphere.
    pub open spec fn quadratic_a(&self, r: Ray) -> Scalar {
        r.direction.dot(r.direction)
    }

    /// The coefficient `b` of that equation.
    pub open spec fn quadratic_b(&self, r: Ray) -> Scalar {
        r.origin.sub(self.center).dot(r.direction)
    }

    /// The coefficient `c` of that equation.
    pub open spec fn quadratic_c(&self, r: Ray) -> Scalar {
        let oc = r.origin.sub(self.center);
        oc.dot(oc).sub(self.radius.mul(self.radius))
    }

    /// The discriminant `b^2 - a c` of that equation.
    pub open spec fn discriminant(&self, r: Ray) -> Scalar {
        self.quadratic_b(r).mul(self.quadratic_b(r)).sub(
            self.quadratic_a(r).mul(self.quadratic_c(r)),
        )
    }

    /// The smaller root, `(-b - sqrt(b^2 - a c)) / a`.
    pub open spec fn near_root(&self, r: Ray) -> Scalar {
        self.quadratic_b(r).neg().sub(self.discriminant(r).sqrt()).div(self.quadratic_a(r))
    }

    /// The larger root, `(-b + sqrt(b^2 - a c)) / a`.
    pub open spec fn far_root(&self, r: Ray) -> Scalar {
        self.quadratic_b(r).neg().add(self.discriminant(r).sqrt()).div(self.quadratic_a(r))
    }

    /// The record for the parameter `t`: the point of the ray there, and
    /// the normal `(p - center) / radius`.
    pub open spec fn spec_record_at(&self, r: Ray, t: Scalar) -> HitRecord {
        let p = r.point_at_parameter(t);
        HitRecord { t, p, normal: p.sub(self.center).div_scalar(self.radius) }
    }

    /// The record for the parameter `t`: the point of the ray there, and
    /// the normal `(p - center) / radius`.
    pub fn record_at(&self, r: &Ray, t: Scalar) -> (rec: HitRecord)
        ensures
            rec == self.spec_record_at(*r, t),
    {
        let p = r.point_at_parameter(t);
        let n = p.sub(self.center()).div_scalar(self.radius());
        HitRecord::new(t, p, n)
    }
}

impl Sphere {
    /// No meeting point where the discriminant is not positive. Else the
    /// near root where it lies within the bounds, else the far root where
    /// that one does, else none.
    #[verifier::opaque]
    pub open spec fn meeting(&self, r: Ray, t_min: Scalar, t_max: Scalar) -> Hit {
        if self.discriminant(r).raw > 0 {
            if within(self.near_root(r), t_min, t_max) {
                Some((self.spec_record_at(r, self.near_root(r)), self.material))
            } else if within(self.far_root(r), t_min, t_max) {
                Some((self.spec_record_at(r, self.far_root(r)), self.material))
            } else {
                None
            }
        } else {
            None
        }
    }
}

impl Hitable for Sphere {
    /// The meeting point of the ray with the sphere.
    open spec fn hit_spec(&self, r: Ray, t_min: Scalar, t_max: Scalar) -> Hit {
        self.meeting(r, t_min, t_max)
    }

    fn hit(&self, r: &Ray, t_min: Scalar, t_max: Scalar) -> (res: Option<(HitRecord, &Material)>) {
        reveal(Sphere::meeting);
        let oc = r.origin().sub(self.center());
        let a = r.direction().dot(r.direction());
        let b = oc.dot(r.direction());
        let c = oc.dot(oc).sub(self.radius().mul(self.radius()));
        let discriminant = b.mul(b).sub(a.mul(c));
        if discriminant.raw > 0 {
            let t1 = b.neg().sub(discriminant.sqrt()).div(a);
            let t2 = b.neg().add(discriminant.sqrt()).div(a);
            if t1.raw < t_max.raw && t1.raw > t_min.raw {
                Some((self.record_at(r, t1), self.material()))
            } else if t2.raw < t_max.raw && t2.raw > t_min.raw {
                Some((self.record_at(r, t2), self.material()))
            } else {
                None
            }
        } else {
            None
        }
    }
}

/// The upper bound that is left for the spheres that follow, once the
/// spheres before them have given `found`.
pub open spec fn bound_after(found: Hit, t_max: Scalar) -> Scalar {
    match found {
        Some((rec, _)) => rec.t,
        None => t_max,
    }
}

/// What a scan over `spheres` finds, in their order: each sphere is
/// asked for a meeting point below the nearest one found so far.
pub open spec fn scan(spheres: Seq<Sphere>, r: Ray, t_min: Scalar, t_max: Scalar) -> Hit
    decreases spheres.len(),
{
    if spheres.len() == 0 {
        None
    } else {
        let before = scan(spheres.drop_last(), r, t_min, t_max);
        match spheres.last().hit_spec(r, t_min, bound_after(before, t_max)) {
            Some(h) => Some(h),
            None => before,
        }
    }
}

/// A scene: spheres, in an order.
pub struct HitableList {
    pub list: Vec<Sphere>,
}

impl HitableList {
    /// The scene of the given spheres.
    pub fn new(list: Vec<Sphere>) -> (r: HitableList)
        ensures
            r.list == list,
    {
        HitableList { list }
    }
}

impl Hitable for HitableList {
    /// What a scan over the spheres finds.
    open spec fn hit_spec(&self, r: Ray, t_min: Scalar, t_max: Scalar) -> Hit {
        scan(self.list@, r, t_min, t_max)
    }

    fn hit(&self, r: &Ray, t_min: Scalar, t_max: Scalar) -> (res: Option<(HitRecord, &Material)>)
        ensures
            is_nearest(self.list@, *r, t_min, t_max, hit_of(res)),
    {
        proof {
            lemma_nearest_hit(self.list@, *r, t_min, t_max);
        }
        let mut closest_so_far = t_max;
        let mut res: Option<(HitRecord, &Material)> = None;
        let mut i: usize = 0;
        while i < self.list.len()
            invariant
                i <= self.list.len(),
                hit_of(res) == scan(self.list@.take(i as int), *r, t_min, t_max),
                closest_so_far == bound_after(hit_of(res), t_max),
            decreases self.list.len() - i,
        {
            assert(self.list@.take(i + 1).drop_last() == self.list@.take(i as int));
            match self.list[i].hit(r, t_min, closest_so_far) {
                Some((hit_record, material)) => {
                    closest_so_far = hit_record.t();
                    res = Some(
                        (
                            HitRecord::new(hit_record.t(), hit_record.p(), hit_record.normal()),
                            material,
                        ),
                    );
                },
                None => (),
            };
            i = i + 1;
        }
        assert(self.list@.take(i as int) == self.list@);
        res
    }
}

/// Whether `found` is the nearest of the meeting points that the spheres
/// have, each asked alone with the full bounds: it belongs to one of
/// them, none has a smaller parameter, and none before that one has the
/// same; or none has a meeting point, and neither has `found`.
pub open spec fn is_nearest(spheres: Seq<Sphere>, r: Ray, t_min: Scalar, t_max: Scalar, found: Hit) -> bool {
    match found {
        Some((rec, m)) => exists|i: int|
            0 <= i < spheres.len() && (#[trigger] spheres[i]).hit_spec(r, t_min, t_max) == Some(
                (rec, m),
            ) && forall|j: int|
                0 <= j < spheres.len() ==> match (#[trigger] spheres[j]).hit_spec(r, t_min, t_max) {
                    Some((other, _)) => rec.t.raw <= other.t.raw && (j < i ==> rec.t.raw
                        < other.t.raw),
                    None => true,
                },
        None => forall|j: int|
            0 <= j < spheres.len() ==> (#[trigger] spheres[j]).hit_spec(r, t_min, t_max) is None,
    }
}

/// What holds of the meeting points of a sphere.
impl Sphere {
    /// The near root is not larger than the far root.
    pub proof fn lemma_roots_ordered(&self, r: Ray)
        ensures
            self.near_root(r).raw <= self.far_root(r).raw,
    {
        let nb = self.quadratic_b(r).neg();
        let root = self.discriminant(r).sqrt();
        Scalar::lemma_sqrt_is_floor(self.discriminant(r));
        Vec3::lemma_dot_self_nonnegative(r.direction);
        Scalar::lemma_div_monotone(nb.sub(root), nb.add(root), self.quadratic_a(r));
    }

    /// A meeting point lies within the bounds that were asked for.
    pub proof fn lemma_hit_within(&self, r: Ray, t_min: Scalar, t_max: Scalar)
        ensures
            match self.hit_spec(r, t_min, t_max) {
                Some((rec, m)) => within(rec.t, t_min, t_max) && m == self.material,
                None => true,
            },
    {
        reveal(Sphere::meeting);
    }

    /// The meeting point is the one with the smallest root that lies
    /// within the bounds: its parameter is one of the two roots, and no
    /// root within the bounds is smaller. There is none only where the
    /// discriminant is not positive or both roots lie outside the bounds.
    pub proof fn lemma_smallest_root(&self, r: Ray, t_min: Scalar, t_max: Scalar)
        ensures
            match self.hit_spec(r, t_min, t_max) {
                Some((rec, m)) => {
                    &&& self.discriminant(r).raw > 0
                    &&& rec == self.spec_record_at(r, rec.t)
                    &&& m == self.material
                    &&& within(rec.t, t_min, t_max)
                    &&& rec.t == self.near_root(r) || rec.t == self.far_root(r)
                    &&& within(self.near_root(r), t_min, t_max) ==> rec.t.raw <= self.near_root(
                        r,
                    ).raw
                    &&& within(self.far_root(r), t_min, t_max) ==> rec.t.raw <= self.far_root(r).raw
                },
                None => self.discriminant(r).raw <= 0 || (!within(self.near_root(r), t_min, t_max)
                    && !within(self.far_root(r), t_min, t_max)),
            },
    {
        reveal(Sphere::meeting);
        self.lemma_roots_ordered(r);
    }

    /// With a lower upper bound a sphere gives the same meeting point
    /// where that one lies below the new bound, and none where it does
    /// not.
    pub proof fn lemma_narrowing(&self, r: Ray, t_min: Scalar, t_max: Scalar, bound: Scalar)
        requires
            bound.raw <= t_max.raw,
        ensures
            self.hit_spec(r, t_min, bound) == match self.hit_spec(r, t_min, t_max) {
                Some((rec, m)) => if rec.t.raw < bound.raw {
                    Some((rec, m))
                } else {
                    None
                },
                None => None,
            },
    {
        reveal(Sphere::meeting);
        self.lemma_roots_ordered(r);
    }
}

/// The scan finds the nearest meeting point: the one with the smallest
/// parameter among those that the spheres have, each asked alone, and
/// the first of them in the list where several have that parameter.
pub proof fn lemma_nearest_hit(spheres: Seq<Sphere>, r: Ray, t_min: Scalar, t_max: Scalar)
    ensures
        is_nearest(spheres, r, t_min, t_max, scan(spheres, r, t_min, t_max)),
    decreases spheres.len(),
{
    if spheres.len() > 0 {
        let front = spheres.drop_last();
        let last = spheres.last();
        let before = scan(front, r, t_min, t_max);
        let bound = bound_after(before, t_max);
        lemma_nearest_hit(front, r, t_min, t_max);
        assert(forall|j: int| 0 <= j < front.len() ==> front[j] == spheres[j]);
        assert(bound.raw <= t_max.raw) by {
            if let Some((rec, m)) = before {
                let i = choose|i: int|
                    0 <= i < front.len() && (#[trigger] front[i]).hit_spec(r, t_min, t_max) == Some(
                        (rec, m),
                    );
                front[i].lemma_hit_within(r, t_min, t_max);
            }
        }
        last.lemma_narrowing(r, t_min, t_max, bound);
        last.lemma_hit_within(r, t_min, t_max);
        let found = scan(spheres, r, t_min, t_max);
        let n = spheres.len() - 1;
        match last.hit_spec(r, t_min, bound) {
            Some((rec, m)) => {
                assert(spheres[n].hit_spec(r, t_min, t_max) == Some((rec, m)));
                assert forall|j: int| 0 <= j < spheres.len() implies match (#[trigger] spheres[j]).hit_spec(
                    r,
                    t_min,
                    t_max,
                ) {
                    Some((other, _)) => rec.t.raw <= other.t.raw && (j < n ==> rec.t.raw
                        < other.t.raw),
                    None => true,
                } by {
                    if j < n {
                        assert(front[j] == spheres[j]);
                    }
                }
                assert(is_nearest(spheres, r, t_min, t_max, found));
            },
            None => {
                match before {
                    Some((rec, m)) => {
                        let i = choose|i: int|
                            0 <= i < front.len() && (#[trigger] front[i]).hit_spec(r, t_min, t_max)
                                == Some((rec, m)) && forall|j: int|
                                0 <= j < front.len() ==> match (#[trigger] front[j]).hit_spec(
                                    r,
                                    t_min,
                                    t_max,
                                ) {
                                    Some((other, _)) => rec.t.raw <= other.t.raw && (j < i
                                        ==> rec.t.raw < other.t.raw),
                                    None => true,
                                };
                        assert(spheres[i].hit_spec(r, t_min, t_max) == Some((rec, m)));
                        assert forall|j: int| 0 <= j < spheres.len() implies match (
                        #[trigger] spheres[j]).hit_spec(r, t_min, t_max) {
                            Some((other, _)) => rec.t.raw <= other.t.raw && (j < i ==> rec.t.raw
                                < other.t.raw),
                            None => true,
                        } by {
                            if j < n {
                                assert(front[j] == spheres[j]);
                            }
                        }
                        assert(is_nearest(spheres, r, t_min, t_max, found));
                    },
                    None => {
                        assert forall|j: int| 0 <= j < spheres.len() implies (
                        #[trigger] spheres[j]).hit_spec(r, t_min, t_max) is None by {
                            if j < n {
                                assert(front[j] == spheres[j]);
                            }
                        }
                    },
                }
            },
        }
    }
}

} // verus!
