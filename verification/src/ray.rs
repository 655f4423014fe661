//! Rays and spheres: where a ray meets a sphere, which of its intersections
//! it sees, and what shading needs to know of one.
//!
//! The arithmetic is the caller's. Besides the functions that the matrices
//! take (see [`crate::algebra`]), `roots` gives the discriminant and the two
//! roots of the quadratic of a ray against the unit sphere about the origin,
//! `from_origin` the vector from the origin to a point, `normalize` the
//! vector of length one along a vector, `along` a coordinate of a ray's
//! origin plus a multiple of that of its direction, and `plus` a sum.

use vstd::prelude::*;
use crate::algebra::{is_inverse, is_square, takes_four, takes_lists, takes_two};
use crate::material::Material;
use crate::matrix::{identity_grid, transposed_grid, Matrix};
use crate::scalar::Scalar;
use crate::tuple::Tuple;

verus! {

/// A half-line: the points `origin + t * direction` for the parameters `t`.
#[derive(Clone, Copy, Debug, PartialEq, Eq, Structural)]
pub struct Ray {
    pub origin: Tuple,
    pub direction: Tuple,
}

impl Ray {
    /// The ray from `origin` along `direction`.
    pub fn new(origin: Tuple, direction: Tuple) -> (ray: Ray)
        ensures
            ray == (Ray { origin, direction }),
    {
        Ray { origin, direction }
    }

    /// The point of the ray at the parameter `time`. `along` gives a
    /// coordinate of the origin plus `time` times that of the direction, and
    /// `plus` a sum; the `w` of the point is the sum of those of the origin
    /// and of the direction.
    pub fn position<M: Fn(Scalar, Scalar, Scalar) -> Scalar, A: Fn(Scalar, Scalar) -> Scalar>(
        &self,
        time: Scalar,
        along: &M,
        plus: &A,
    ) -> (point: Tuple)
        requires
            forall|o: Scalar, d: Scalar, t: Scalar| call_requires(*along, (o, d, t)),
            forall|a: Scalar, b: Scalar| call_requires(*plus, (a, b)),
        ensures
            call_ensures(*along, (self.origin.x, self.direction.x, time), point.x),
            call_ensures(*along, (self.origin.y, self.direction.y, time), point.y),
            call_ensures(*along, (self.origin.z, self.direction.z, time), point.z),
            call_ensures(*plus, (self.origin.w, self.direction.w), point.w),
    {
        Tuple {
            x: along(self.origin.x, self.direction.x, time),
            y: along(self.origin.y, self.direction.y, time),
            z: along(self.origin.z, self.direction.z, time),
            w: plus(self.origin.w, self.direction.w),
        }
    }

    /// The entries of the ray with `sphere`, which stands at position
    /// `object` of a scene.
    pub fn intersect<
        D: Fn(Scalar, Scalar, Scalar, Scalar) -> Scalar,
        P: Fn(&Vec<Scalar>, &Vec<Scalar>) -> Scalar,
        Q: Fn(Scalar, Scalar) -> Scalar,
        R: Fn(&Ray) -> (Scalar, Scalar, Scalar),
    >(&self, sphere: &Sphere, object: usize, det2: &D, dot: &P, divide: &Q, roots: &R) -> (found: Vec<
        Intersection,
    >)
        requires
            sphere.wf(),
            takes_four(*det2),
            takes_lists(*dot),
            takes_two(*divide),
            forall|ray: Ray| call_requires(*roots, (&ray,)),
        ensures
            is_intersection_with(*det2, *dot, *divide, *roots, *self, sphere.transform@, object, found@),
    {
        let back = sphere.transform.inverse(det2, dot, divide);
        let local = self.transform(&back, dot);
        let answer = roots(&local);
        let found = intersections_from_roots(object, answer.0, answer.1, answer.2);
        assert(is_ray_image(*dot, back@, *self, local));
        assert(call_ensures(*roots, (&local,), answer));
        found
    }

    /// The ray transformed by the four by four matrix `transformation`: both
    /// its origin and its direction are.
    pub fn transform<P: Fn(&Vec<Scalar>, &Vec<Scalar>) -> Scalar>(&self, transformation: &Matrix, dot: &P) -> (ray: Ray)
        requires
            is_square(transformation@),
            transformation@.len() == 4,
            takes_lists(*dot),
        ensures
            is_ray_image(*dot, transformation@, *self, ray),
    {
        Ray {
            origin: self.origin.transform(transformation, dot),
            direction: self.direction.transform(transformation, dot),
        }
    }
}

/// The entries that a ray has with an object, given the discriminant of the
/// quadratic in `t` and its two roots: none where the discriminant is
/// negative, else both roots, also when they coincide.
pub open spec fn entries(object: usize, discriminant: Scalar, t1: Scalar, t2: Scalar) -> Seq<
    Intersection,
> {
    if discriminant.lt(Scalar::zero()) {
        Seq::empty()
    } else {
        seq![(Intersection { t: t1, object }), (Intersection { t: t2, object })]
    }
}

/// `local` is `ray` transformed by the grid `m`.
pub open spec fn is_ray_image<P: Fn(&Vec<Scalar>, &Vec<Scalar>) -> Scalar>(
    dot: P,
    m: Seq<Seq<Scalar>>,
    ray: Ray,
    local: Ray,
) -> bool {
    ray.origin.is_image(dot, m, local.origin) && ray.direction.is_image(dot, m, local.direction)
}

/// `found` holds the entries of `ray` with the object at position `object`,
/// a unit sphere about the origin transformed by `transform`: the ray is
/// brought into the space of the sphere by the inverse of `transform`, and
/// `roots` gives the discriminant and the two roots for the ray there.
pub open spec fn is_intersection_with<
    D: Fn(Scalar, Scalar, Scalar, Scalar) -> Scalar,
    P: Fn(&Vec<Scalar>, &Vec<Scalar>) -> Scalar,
    Q: Fn(Scalar, Scalar) -> Scalar,
    R: Fn(&Ray) -> (Scalar, Scalar, Scalar),
>(
    det2: D,
    dot: P,
    divide: Q,
    roots: R,
    ray: Ray,
    transform: Seq<Seq<Scalar>>,
    object: usize,
    found: Seq<Intersection>,
) -> bool {
    exists|back: Seq<Seq<Scalar>>, local: Ray, answer: (Scalar, Scalar, Scalar)|
        {
            &&& is_inverse(det2, dot, divide, transform, back)
            &&& #[trigger] is_ray_image(dot, back, ray, local)
            &&& #[trigger] call_ensures(roots, (&local,), answer)
            &&& found == entries(object, answer.0, answer.1, answer.2)
        }
}

/// `normal` is the unit normal at `world_point` of a unit sphere about the
/// origin transformed by `transform`. The point is brought into the space of
/// the sphere by the inverse of `transform`; `from_origin` gives the vector
/// from the origin to it, which is the normal there; the transpose of the
/// inverse carries that normal back; its `w` is set to zero, and `normalize`
/// gives it length one.
pub open spec fn is_normal_at<
    D: Fn(Scalar, Scalar, Scalar, Scalar) -> Scalar,
    P: Fn(&Vec<Scalar>, &Vec<Scalar>) -> Scalar,
    Q: Fn(Scalar, Scalar) -> Scalar,
    O: Fn(Tuple) -> Tuple,
    N: Fn(Tuple) -> Tuple,
>(
    det2: D,
    dot: P,
    divide: Q,
    from_origin: O,
    normalize: N,
    transform: Seq<Seq<Scalar>>,
    world_point: Tuple,
    normal: Tuple,
) -> bool {
    exists|back: Seq<Seq<Scalar>>, object_point: Tuple, object_normal: Tuple, world_normal: Tuple|
        {
            &&& is_inverse(det2, dot, divide, transform, back)
            &&& #[trigger] world_point.is_image(dot, back, object_point)
            &&& call_ensures(from_origin, (object_point,), object_normal)
            &&& #[trigger] object_normal.is_image(dot, transposed_grid(back), world_normal)
            &&& call_ensures(
                normalize,
                (Tuple { x: world_normal.x, y: world_normal.y, z: world_normal.z, w: Scalar::zero() },),
                normal,
            )
        }
}

/// A unit sphere about the origin of its own space. `transform` carries that
/// space into the world.
#[derive(Clone, Debug, PartialEq, Eq)]
pub struct Sphere {
    pub transform: Matrix,
    pub material: Material,
}

impl Sphere {
    /// The transform is a four by four matrix.
    pub open spec fn wf(&self) -> bool {
        is_square(self.transform@) && self.transform@.len() == 4
    }

    /// Whether the transform is a four by four matrix.
    pub fn is_well_formed(&self) -> (b: bool)
        ensures
            b == self.wf(),
    {
        self.transform.rows() == 4 && self.transform.is_square()
    }

    /// The unit sphere about the origin of the world, of the default material.
    pub fn init() -> (sphere: Sphere)
        ensures
            sphere.transform@ == identity_grid(4),
            sphere.material == Material::default(),
            sphere.wf(),
    {
        Sphere { transform: Matrix::identity(4), material: Material::default() }
    }

    /// The unit normal of the sphere at the point `world_point` of its
    /// surface.
    pub fn normal_at<
        D: Fn(Scalar, Scalar, Scalar, Scalar) -> Scalar,
        P: Fn(&Vec<Scalar>, &Vec<Scalar>) -> Scalar,
        Q: Fn(Scalar, Scalar) -> Scalar,
        O: Fn(Tuple) -> Tuple,
        N: Fn(Tuple) -> Tuple,
    >(
        &self,
        world_point: Tuple,
        det2: &D,
        dot: &P,
        divide: &Q,
        from_origin: &O,
        normalize: &N,
    ) -> (normal: Tuple)
        requires
            self.wf(),
            takes_four(*det2),
            takes_lists(*dot),
            takes_two(*divide),
            forall|t: Tuple| call_requires(*from_origin, (t,)),
            forall|t: Tuple| call_requires(*normalize, (t,)),
        ensures
            is_normal_at(
                *det2,
                *dot,
                *divide,
                *from_origin,
                *normalize,
                self.transform@,
                world_point,
                normal,
            ),
    {
        let back = self.transform.inverse(det2, dot, divide);
        let object_point = world_point.transform(&back, dot);
        let object_normal = from_origin(object_point);
        let carried = back.transpose();
        let world_normal = object_normal.transform(&carried, dot);
        let flat = Tuple { x: world_normal.x, y: world_normal.y, z: world_normal.z, w: Scalar::zero() };
        let normal = normalize(flat);
        assert(world_point.is_image(*dot, back@, object_point));
        assert(object_normal.is_image(*dot, transposed_grid(back@), world_normal));
        normal
    }
}

/// What shading needs to know of an intersection: where it is, the object,
/// the vector towards the eye, the surface normal on the side of the eye, and
/// whether the eye is inside the object.
#[derive(Clone, Copy, Debug, PartialEq, Eq, Structural)]
pub struct Computation {
    pub t: Scalar,
    pub object: usize,
    pub point: Tuple,
    pub eyev: Tuple,
    pub normalv: Tuple,
    pub inside: bool,
}

/// A point where a ray meets an object: the ray parameter `t` of the point,
/// and the position of the object in the scene's list of objects.
#[derive(Clone, Copy, Debug, PartialEq, Eq, Structural)]
pub struct Intersection {
    pub t: Scalar,
    pub object: usize,
}

impl Intersection {
    /// `t >= 0`: the point is not behind the origin of the ray.
    pub open spec fn spec_is_ahead(self) -> bool {
        Scalar::zero().le(self.t)
    }

    /// The computation for this intersection of `ray`. `point` is the point
    /// of the ray at `t`, `normal` the outward normal of the object there, and
    /// `normal_dot_eye` the cosine between that normal and the vector towards
    /// the eye, which is the opposite of the ray's direction. Where the cosine
    /// is negative the ray started inside the object, and the normal is
    /// turned round.
    pub fn prepare_computations(&self, ray: &Ray, point: Tuple, normal: Tuple, normal_dot_eye: Scalar) -> (comps: Computation)
        ensures
            comps == (Computation {
                t: self.t,
                object: self.object,
                point,
                eyev: ray.direction.negate(),
                normalv: if normal_dot_eye.lt(Scalar::zero()) {
                    normal.negate()
                } else {
                    normal
                },
                inside: normal_dot_eye.lt(Scalar::zero()),
            }),
    {
        let eyev = ray.direction.negate();
        let mut normalv = normal;
        let mut inside = false;
        if normal_dot_eye.lt(Scalar::zero()) {
            inside = true;
            normalv = normal.negate();
        }
        Computation { t: self.t, object: self.object, point, eyev, normalv, inside }
    }

    /// `t >= 0`: the point is not behind the origin of the ray.
    #[verifier::when_used_as_spec(spec_is_ahead)]
    pub fn is_ahead(self) -> (b: bool)
        ensures
            b == self.spec_is_ahead(),
    {
        Scalar::zero().le(self.t)
    }
}

/// Position `k` of `s` holds the hit: it is ahead, no entry that is ahead has
/// a smaller `t`, and every entry before it that is ahead has a larger `t`.
pub open spec fn is_hit(s: Seq<Intersection>, k: int) -> bool {
    &&& 0 <= k < s.len()
    &&& s[k].is_ahead()
    &&& forall|j: int| 0 <= j < s.len() && (#[trigger] s[j]).is_ahead() ==> s[k].t.ordinal() <= s[j].t.ordinal()
    &&& forall|j: int| 0 <= j < k && (#[trigger] s[j]).is_ahead() ==> s[k].t.ordinal() < s[j].t.ordinal()
}

/// No entry of `s` is ahead.
pub open spec fn none_ahead(s: Seq<Intersection>) -> bool {
    forall|j: int| 0 <= j < s.len() ==> !(#[trigger] s[j]).is_ahead()
}

/// A list of intersections has at most one hit position.
pub proof fn lemma_hit_is_unique(s: Seq<Intersection>, k1: int, k2: int)
    requires
        is_hit(s, k1),
        is_hit(s, k2),
    ensures
        k1 == k2,
{
}

/// The entries that a ray contributes for one object. `discriminant` is that
/// of the quadratic in `t`; `t1` and `t2` are its smaller and larger root. A
/// negative discriminant means that the ray misses the object. Otherwise both
/// roots are entered, also when they coincide.
pub fn intersections_from_roots(object: usize, discriminant: Scalar, t1: Scalar, t2: Scalar) -> (found: Vec<Intersection>)
    ensures
        found@ == entries(object, discriminant, t1, t2),
{
    let mut found: Vec<Intersection> = Vec::new();
    if !discriminant.lt(Scalar::zero()) {
        found.push(Intersection { t: t1, object });
        found.push(Intersection { t: t2, object });
        assert(found@ =~= seq![(Intersection { t: t1, object }), (Intersection { t: t2, object })]);
    }
    found
}

/// The intersection that the ray sees: among the entries with `t >= 0`, the
/// one with the least `t`, and the first of them where several share it.
pub fn hit(intersections: &Vec<Intersection>) -> (found: Option<&Intersection>)
    ensures
        match found {
            Some(i) => exists|k: int| is_hit(intersections@, k) && *i == intersections@[k],
            None => none_ahead(intersections@),
        },
{
    let mut best: Option<usize> = None;
    let mut j: usize = 0;
    while j < intersections.len()
        invariant
            j <= intersections@.len(),
            match best {
                Some(k) => k < j && is_hit(intersections@.take(j as int), k as int),
                None => none_ahead(intersections@.take(j as int)),
            },
        decreases intersections@.len() - j,
    {
        let candidate = intersections[j];
        let ghost before = intersections@.take(j as int);
        let ghost after = intersections@.take(j + 1);
        assert(forall|i: int| 0 <= i < j ==> before[i] == after[i]);
        if candidate.is_ahead() {
            match best {
                Some(k) => {
                    if candidate.t.rank() < intersections[k].t.rank() {
                        best = Some(j);
                    }
                },
                None => {
                    best = Some(j);
                },
            }
        }
        j += 1;
    }
    assert(intersections@.take(j as int) =~= intersections@);
    match best {
        Some(k) => Some(&intersections[k]),
        None => None,
    }
}

} // verus!
