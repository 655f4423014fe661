//! Points and vectors in homogeneous coordinates.
//!
//! The operations say which coordinates meet; the numbers are computed by
//! the functions that the caller hands in.

use vstd::prelude::*;
use crate::algebra::{is_dot, is_square, takes_four, takes_lists};
use crate::matrix::Matrix;
use crate::scalar::Scalar;

verus! {

/// Four coordinates. A `w` of one marks a point, a `w` of zero a vector.
#[derive(Clone, Copy, Debug, PartialEq, Eq, Structural)]
pub struct Tuple {
    pub x: Scalar,
    pub y: Scalar,
    pub z: Scalar,
    pub w: Scalar,
}

impl View for Tuple {
    type V = Seq<Scalar>;

    /// The four coordinates in the order x, y, z, w.
    open spec fn view(&self) -> Seq<Scalar> {
        seq![self.x, self.y, self.z, self.w]
    }
}

impl Tuple {
    /// The tuple with the opposite direction: x, y and z change sign.
    pub open spec fn spec_negate(&self) -> Tuple {
        Tuple { x: self.x.neg(), y: self.y.neg(), z: self.z.neg(), w: self.w }
    }

    /// `image` is the product of the four by four grid `m` and `self`, taken
    /// as a column: each coordinate is an answer of `dot` for a row of `m`
    /// and the coordinates of `self`.
    pub open spec fn is_image<P: Fn(&Vec<Scalar>, &Vec<Scalar>) -> Scalar>(
        &self,
        dot: P,
        m: Seq<Seq<Scalar>>,
        image: Tuple,
    ) -> bool {
        &&& is_dot(dot, m[0], self@, image.x)
        &&& is_dot(dot, m[1], self@, image.y)
        &&& is_dot(dot, m[2], self@, image.z)
        &&& is_dot(dot, m[3], self@, image.w)
    }

    /// The point where the axes meet.
    pub open spec fn spec_origin() -> Tuple {
        Tuple { x: Scalar::zero(), y: Scalar::zero(), z: Scalar::zero(), w: Scalar::one() }
    }

    /// The point where the axes meet.
    #[verifier::when_used_as_spec(spec_origin)]
    pub fn origin() -> (p: Tuple)
        ensures
            p == Tuple::spec_origin(),
    {
        Tuple { x: Scalar::zero(), y: Scalar::zero(), z: Scalar::zero(), w: Scalar::one() }
    }

    /// The point with the given coordinates.
    pub fn point(x: Scalar, y: Scalar, z: Scalar) -> (p: Tuple)
        ensures
            p == (Tuple { x, y, z, w: Scalar::one() }),
    {
        Tuple { x, y, z, w: Scalar::one() }
    }

    /// The vector with the given components.
    pub fn vector(x: Scalar, y: Scalar, z: Scalar) -> (v: Tuple)
        ensures
            v == (Tuple { x, y, z, w: Scalar::zero() }),
    {
        Tuple { x, y, z, w: Scalar::zero() }
    }

    /// The tuple with the opposite direction: x, y and z change sign, and w
    /// stays.
    #[verifier::when_used_as_spec(spec_negate)]
    pub fn negate(&self) -> (n: Tuple)
        ensures
            n == self.spec_negate(),
    {
        Tuple { x: self.x.neg(), y: self.y.neg(), z: self.z.neg(), w: self.w }
    }

    /// The sum of two tuples, coordinate by coordinate. `plus` gives the sum
    /// of two numbers.
    pub fn plus<A: Fn(Scalar, Scalar) -> Scalar>(self, other: Tuple, plus: &A) -> (sum: Tuple)
        requires
            forall|a: Scalar, b: Scalar| call_requires(*plus, (a, b)),
        ensures
            call_ensures(*plus, (self.x, other.x), sum.x),
            call_ensures(*plus, (self.y, other.y), sum.y),
            call_ensures(*plus, (self.z, other.z), sum.z),
            call_ensures(*plus, (self.w, other.w), sum.w),
    {
        Tuple {
            x: plus(self.x, other.x),
            y: plus(self.y, other.y),
            z: plus(self.z, other.z),
            w: plus(self.w, other.w),
        }
    }

    /// The difference of two tuples, coordinate by coordinate. `minus` gives
    /// the difference of two numbers.
    pub fn minus<A: Fn(Scalar, Scalar) -> Scalar>(self, other: Tuple, minus: &A) -> (difference: Tuple)
        requires
            forall|a: Scalar, b: Scalar| call_requires(*minus, (a, b)),
        ensures
            call_ensures(*minus, (self.x, other.x), difference.x),
            call_ensures(*minus, (self.y, other.y), difference.y),
            call_ensures(*minus, (self.z, other.z), difference.z),
            call_ensures(*minus, (self.w, other.w), difference.w),
    {
        Tuple {
            x: minus(self.x, other.x),
            y: minus(self.y, other.y),
            z: minus(self.z, other.z),
            w: minus(self.w, other.w),
        }
    }

    /// The tuple stretched by `factor`: x, y and z are multiplied, and w
    /// stays. `times` gives the product of two numbers.
    pub fn scaled<M: Fn(Scalar, Scalar) -> Scalar>(self, factor: Scalar, times: &M) -> (stretched: Tuple)
        requires
            forall|a: Scalar, b: Scalar| call_requires(*times, (a, b)),
        ensures
            call_ensures(*times, (self.x, factor), stretched.x),
            call_ensures(*times, (self.y, factor), stretched.y),
            call_ensures(*times, (self.z, factor), stretched.z),
            stretched.w == self.w,
    {
        Tuple { x: times(self.x, factor), y: times(self.y, factor), z: times(self.z, factor), w: self.w }
    }

    /// The product of two tuples, coordinate by coordinate. `times` gives
    /// the product of two numbers.
    pub fn hadamard<M: Fn(Scalar, Scalar) -> Scalar>(self, other: Tuple, times: &M) -> (product: Tuple)
        requires
            forall|a: Scalar, b: Scalar| call_requires(*times, (a, b)),
        ensures
            call_ensures(*times, (self.x, other.x), product.x),
            call_ensures(*times, (self.y, other.y), product.y),
            call_ensures(*times, (self.z, other.z), product.z),
            call_ensures(*times, (self.w, other.w), product.w),
    {
        Tuple {
            x: times(self.x, other.x),
            y: times(self.y, other.y),
            z: times(self.z, other.z),
            w: times(self.w, other.w),
        }
    }

    /// Whether `close` accepts the two tuples in each of the four
    /// coordinates. The coordinates are tested in turn until one is refused.
    pub fn eq_by<F: Fn(Scalar, Scalar) -> bool>(&self, other: &Tuple, close: &F) -> (equal: bool)
        requires
            forall|a: Scalar, b: Scalar| call_requires(*close, (a, b)),
        ensures
            equal ==> forall|i: int| 0 <= i < 4 ==> call_ensures(*close, (#[trigger] self@[i], other@[i]), true),
            !equal ==> exists|i: int| 0 <= i < 4 && call_ensures(*close, (#[trigger] self@[i], other@[i]), false),
    {
        if !close(self.x, other.x) {
            assert(call_ensures(*close, (self@[0], other@[0]), false));
            return false;
        }
        if !close(self.y, other.y) {
            assert(call_ensures(*close, (self@[1], other@[1]), false));
            return false;
        }
        if !close(self.z, other.z) {
            assert(call_ensures(*close, (self@[2], other@[2]), false));
            return false;
        }
        if !close(self.w, other.w) {
            assert(call_ensures(*close, (self@[3], other@[3]), false));
            return false;
        }
        assert forall|i: int| 0 <= i < 4 implies call_ensures(*close, (#[trigger] self@[i], other@[i]), true) by {
            if i == 0 {
            } else if i == 1 {
            } else if i == 2 {
            } else {
            }
        }
        true
    }

    /// The length of the tuple as a vector. `length` gives the length of a
    /// vector with three given components; `w` is left out.
    pub fn magnitude<L: Fn(Scalar, Scalar, Scalar) -> Scalar>(&self, length: &L) -> (m: Scalar)
        requires
            forall|x: Scalar, y: Scalar, z: Scalar| call_requires(*length, (x, y, z)),
        ensures
            call_ensures(*length, (self.x, self.y, self.z), m),
    {
        length(self.x, self.y, self.z)
    }

    /// The vector of length one along the tuple. `shrink` gives a component
    /// divided by the length of the tuple; `w` stays as it is.
    pub fn norm<L: Fn(Scalar, Scalar, Scalar) -> Scalar, S: Fn(Scalar, Scalar) -> Scalar>(
        &self,
        length: &L,
        shrink: &S,
    ) -> (n: Tuple)
        requires
            forall|x: Scalar, y: Scalar, z: Scalar| call_requires(*length, (x, y, z)),
            forall|c: Scalar, m: Scalar| call_requires(*shrink, (c, m)),
        ensures
            n.w == self.w,
            exists|m: Scalar|
                {
                    &&& #[trigger] call_ensures(*length, (self.x, self.y, self.z), m)
                    &&& call_ensures(*shrink, (self.x, m), n.x)
                    &&& call_ensures(*shrink, (self.y, m), n.y)
                    &&& call_ensures(*shrink, (self.z, m), n.z)
                },
    {
        let m = self.magnitude(length);
        Tuple { x: shrink(self.x, m), y: shrink(self.y, m), z: shrink(self.z, m), w: self.w }
    }

    /// The vector that stands upright on `self` and `other`. `det2` gives
    /// `a * d - b * c` for `a`, `b`, `c`, `d`.
    pub fn cross_product<D: Fn(Scalar, Scalar, Scalar, Scalar) -> Scalar>(
        &self,
        other: Tuple,
        det2: &D,
    ) -> (cross: Tuple)
        requires
            takes_four(*det2),
        ensures
            call_ensures(*det2, (self.y, self.z, other.y, other.z), cross.x),
            call_ensures(*det2, (self.z, self.x, other.z, other.x), cross.y),
            call_ensures(*det2, (self.x, self.y, other.x, other.y), cross.z),
            cross.w == Scalar::zero(),
    {
        Tuple {
            x: det2(self.y, self.z, other.y, other.z),
            y: det2(self.z, self.x, other.z, other.x),
            z: det2(self.x, self.y, other.x, other.y),
            w: Scalar::zero(),
        }
    }

    /// The coordinates as a list.
    fn column(&self) -> (c: Vec<Scalar>)
        ensures
            c@ == self@,
    {
        let mut c: Vec<Scalar> = Vec::new();
        c.push(self.x);
        c.push(self.y);
        c.push(self.z);
        c.push(self.w);
        assert(c@ =~= self@);
        c
    }

    /// The tuple transformed by the four by four matrix `m`: the product of
    /// `m` and the tuple as a column.
    pub fn transform<P: Fn(&Vec<Scalar>, &Vec<Scalar>) -> Scalar>(&self, m: &Matrix, dot: &P) -> (image: Tuple)
        requires
            is_square(m@),
            m@.len() == 4,
            takes_lists(*dot),
        ensures
            self.is_image(*dot, m@, image),
    {
        let column = self.column();
        assert(m@[0].len() == 4 && m@[1].len() == 4 && m@[2].len() == 4 && m@[3].len() == 4);
        let x = dot(&m.matrix[0], &column);
        let y = dot(&m.matrix[1], &column);
        let z = dot(&m.matrix[2], &column);
        let w = dot(&m.matrix[3], &column);
        Tuple { x, y, z, w }
    }
}

} // verus!
