//! The affine transformations: their matrices, and their composition with
//! matrices and tuples.
//!
//! The free functions place their arguments, zeros and ones in a four by four
//! matrix. The methods of [`Matrix`] and [`Tuple`] multiply such a matrix
//! from the left onto `self`, with the caller's `dot` for the sums of
//! products.

use vstd::prelude::*;
use crate::algebra::{is_product, takes_lists};
use crate::matrix::{column_count, has_columns, identity_grid, Matrix};
use crate::scalar::Scalar;
use crate::tuple::Tuple;

verus! {

/// The matrix with the four given rows of four entries.
fn grid(r0: [Scalar; 4], r1: [Scalar; 4], r2: [Scalar; 4], r3: [Scalar; 4]) -> (m: Matrix)
    ensures
        m@ == seq![r0@, r1@, r2@, r3@],
{
    let mut matrix: Vec<Vec<Scalar>> = Vec::new();
    matrix.push(row(r0));
    matrix.push(row(r1));
    matrix.push(row(r2));
    matrix.push(row(r3));
    let m = Matrix { matrix };
    assert(m@ =~= seq![r0@, r1@, r2@, r3@]);
    m
}

/// The entries of `r` as a vector.
fn row(r: [Scalar; 4]) -> (v: Vec<Scalar>)
    ensures
        v@ == r@,
{
    let mut v: Vec<Scalar> = Vec::new();
    v.push(r[0]);
    v.push(r[1]);
    v.push(r[2]);
    v.push(r[3]);
    assert(v@ =~= r@);
    v
}

/// The grid of a move by `x`, `y` and `z`.
pub open spec fn translation_grid(x: Scalar, y: Scalar, z: Scalar) -> Seq<Seq<Scalar>> {
    let o = Scalar::zero();
    let i = Scalar::one();
    seq![seq![i, o, o, x], seq![o, i, o, y], seq![o, o, i, z], seq![o, o, o, i]]
}

/// The grid of a scaling by `x`, `y` and `z` along the axes.
pub open spec fn scaling_grid(x: Scalar, y: Scalar, z: Scalar) -> Seq<Seq<Scalar>> {
    let o = Scalar::zero();
    let i = Scalar::one();
    seq![seq![x, o, o, o], seq![o, y, o, o], seq![o, o, z, o], seq![o, o, o, i]]
}

/// The grid of a rotation about the x axis by the angle with the given
/// cosine and sine.
pub open spec fn rotation_x_grid(cos: Scalar, sin: Scalar) -> Seq<Seq<Scalar>> {
    let o = Scalar::zero();
    let i = Scalar::one();
    seq![seq![i, o, o, o], seq![o, cos, sin.neg(), o], seq![o, sin, cos, o], seq![o, o, o, i]]
}

/// The grid of a rotation about the y axis by the angle with the given
/// cosine and sine.
pub open spec fn rotation_y_grid(cos: Scalar, sin: Scalar) -> Seq<Seq<Scalar>> {
    let o = Scalar::zero();
    let i = Scalar::one();
    seq![seq![cos, o, sin, o], seq![o, i, o, o], seq![sin.neg(), o, cos, o], seq![o, o, o, i]]
}

/// The grid of a rotation about the z axis by the angle with the given
/// cosine and sine.
pub open spec fn rotation_z_grid(cos: Scalar, sin: Scalar) -> Seq<Seq<Scalar>> {
    let o = Scalar::zero();
    let i = Scalar::one();
    seq![seq![cos, sin.neg(), o, o], seq![sin, cos, o, o], seq![o, o, i, o], seq![o, o, o, i]]
}

/// The grid of a shear that moves each coordinate in proportion to the two
/// others: `x_y` is the share of y in x, and so on.
pub open spec fn shear_grid(
    x_y: Scalar,
    x_z: Scalar,
    y_x: Scalar,
    y_z: Scalar,
    z_x: Scalar,
    z_y: Scalar,
) -> Seq<Seq<Scalar>> {
    let o = Scalar::zero();
    let i = Scalar::one();
    seq![seq![i, x_y, x_z, o], seq![y_x, i, y_z, o], seq![z_x, z_y, i, o], seq![o, o, o, i]]
}

/// The grid that turns the world so that the eye, which looks along
/// `forward` with `left` to its left and `up` above it, looks down the
/// negative z axis.
pub open spec fn orientation_grid(left: Tuple, up: Tuple, forward: Tuple) -> Seq<Seq<Scalar>> {
    let o = Scalar::zero();
    let i = Scalar::one();
    seq![
        seq![left.x, left.y, left.z, o],
        seq![up.x, up.y, up.z, o],
        seq![forward.x.neg(), forward.y.neg(), forward.z.neg(), o],
        seq![o, o, o, i],
    ]
}

/// `m` is the matrix that brings the world before an eye at `from` with the
/// given axes: the product of the orientation and the move of `from` to the
/// origin.
pub open spec fn is_view<P: Fn(&Vec<Scalar>, &Vec<Scalar>) -> Scalar>(
    dot: P,
    from: Tuple,
    left: Tuple,
    up: Tuple,
    forward: Tuple,
    m: Seq<Seq<Scalar>>,
) -> bool {
    exists|moved: Seq<Seq<Scalar>>|
        {
            &&& is_product(
                dot,
                translation_grid(from.x.neg(), from.y.neg(), from.z.neg()),
                identity_grid(4),
                moved,
            )
            &&& is_product(dot, orientation_grid(left, up, forward), moved, m)
        }
}

/// `m` can be multiplied by a transformation: it has four rows of one length.
pub open spec fn takes_transformation(m: Seq<Seq<Scalar>>) -> bool {
    m.len() == 4 && has_columns(m, column_count(m))
}

/// The matrix of a move by `x`, `y` and `z`.
pub fn translation(x: Scalar, y: Scalar, z: Scalar) -> (m: Matrix)
    ensures
        m@ == translation_grid(x, y, z),
{
    let o = Scalar::zero();
    let i = Scalar::one();
    let m = grid([i, o, o, x], [o, i, o, y], [o, o, i, z], [o, o, o, i]);
    assert(m@ =~~= translation_grid(x, y, z));
    m
}

/// The matrix of a scaling by `x`, `y` and `z` along the axes.
pub fn scaling(x: Scalar, y: Scalar, z: Scalar) -> (m: Matrix)
    ensures
        m@ == scaling_grid(x, y, z),
{
    let o = Scalar::zero();
    let i = Scalar::one();
    let m = grid([x, o, o, o], [o, y, o, o], [o, o, z, o], [o, o, o, i]);
    assert(m@ =~~= scaling_grid(x, y, z));
    m
}

/// The matrix of a rotation about the x axis, from the cosine and the sine
/// of the angle.
pub fn rotation_x(cos: Scalar, sin: Scalar) -> (m: Matrix)
    ensures
        m@ == rotation_x_grid(cos, sin),
{
    let o = Scalar::zero();
    let i = Scalar::one();
    let m = grid([i, o, o, o], [o, cos, sin.neg(), o], [o, sin, cos, o], [o, o, o, i]);
    assert(m@ =~~= rotation_x_grid(cos, sin));
    m
}

/// The matrix of a rotation about the y axis, from the cosine and the sine
/// of the angle.
pub fn rotation_y(cos: Scalar, sin: Scalar) -> (m: Matrix)
    ensures
        m@ == rotation_y_grid(cos, sin),
{
    let o = Scalar::zero();
    let i = Scalar::one();
    let m = grid([cos, o, sin, o], [o, i, o, o], [sin.neg(), o, cos, o], [o, o, o, i]);
    assert(m@ =~~= rotation_y_grid(cos, sin));
    m
}

/// The matrix of a rotation about the z axis, from the cosine and the sine
/// of the angle.
pub fn rotation_z(cos: Scalar, sin: Scalar) -> (m: Matrix)
    ensures
        m@ == rotation_z_grid(cos, sin),
{
    let o = Scalar::zero();
    let i = Scalar::one();
    let m = grid([cos, sin.neg(), o, o], [sin, cos, o, o], [o, o, i, o], [o, o, o, i]);
    assert(m@ =~~= rotation_z_grid(cos, sin));
    m
}

/// The matrix of a shear.
pub fn shear(x_y: Scalar, x_z: Scalar, y_x: Scalar, y_z: Scalar, z_x: Scalar, z_y: Scalar) -> (m: Matrix)
    ensures
        m@ == shear_grid(x_y, x_z, y_x, y_z, z_x, z_y),
{
    let o = Scalar::zero();
    let i = Scalar::one();
    let m = grid([i, x_y, x_z, o], [y_x, i, y_z, o], [z_x, z_y, i, o], [o, o, o, i]);
    assert(m@ =~~= shear_grid(x_y, x_z, y_x, y_z, z_x, z_y));
    m
}

/// The matrix that turns the world towards an eye that looks along
/// `forward`, with `left` to its left and `up` above it.
pub fn orientation(left: Tuple, up: Tuple, forward: Tuple) -> (m: Matrix)
    ensures
        m@ == orientation_grid(left, up, forward),
{
    let o = Scalar::zero();
    let i = Scalar::one();
    let m = grid(
        [left.x, left.y, left.z, o],
        [up.x, up.y, up.z, o],
        [forward.x.neg(), forward.y.neg(), forward.z.neg(), o],
        [o, o, o, i],
    );
    assert(m@ =~~= orientation_grid(left, up, forward));
    m
}

/// The matrix that brings the world before an eye at the point `from` that
/// looks along `forward`, with `left` to its left and `up` above it.
pub fn view_transform<P: Fn(&Vec<Scalar>, &Vec<Scalar>) -> Scalar>(
    from: Tuple,
    left: Tuple,
    up: Tuple,
    forward: Tuple,
    dot: &P,
) -> (m: Matrix)
    requires
        takes_lists(*dot),
    ensures
        is_view(*dot, from, left, up, forward, m@),
{
    let moved = Matrix::identity(4).translation(from.x.neg(), from.y.neg(), from.z.neg(), dot);
    orientation(left, up, forward).multiply(&moved, dot)
}

impl Matrix {
    /// Whether a transformation can be multiplied onto the matrix: it has
    /// four rows of one length.
    pub fn takes_transformation(&self) -> (b: bool)
        ensures
            b == takes_transformation(self@),
    {
        self.rows() == 4 && self.is_rectangular()
    }

    /// The matrix followed by a move: the product of the move's matrix and
    /// `self`.
    pub fn translation<P: Fn(&Vec<Scalar>, &Vec<Scalar>) -> Scalar>(&self, x: Scalar, y: Scalar, z: Scalar, dot: &P) -> (m: Matrix)
        requires
            takes_transformation(self@),
            takes_lists(*dot),
        ensures
            is_product(*dot, translation_grid(x, y, z), self@, m@),
    {
        translation(x, y, z).multiply(self, dot)
    }

    /// The matrix followed by a scaling: the product of the scaling's matrix
    /// and `self`.
    pub fn scaling<P: Fn(&Vec<Scalar>, &Vec<Scalar>) -> Scalar>(&self, x: Scalar, y: Scalar, z: Scalar, dot: &P) -> (m: Matrix)
        requires
            takes_transformation(self@),
            takes_lists(*dot),
        ensures
            is_product(*dot, scaling_grid(x, y, z), self@, m@),
    {
        scaling(x, y, z).multiply(self, dot)
    }

    /// The matrix followed by a rotation about the x axis, by the angle with
    /// the given cosine and sine.
    pub fn rotation_x<P: Fn(&Vec<Scalar>, &Vec<Scalar>) -> Scalar>(&self, cos: Scalar, sin: Scalar, dot: &P) -> (m: Matrix)
        requires
            takes_transformation(self@),
            takes_lists(*dot),
        ensures
            is_product(*dot, rotation_x_grid(cos, sin), self@, m@),
    {
        rotation_x(cos, sin).multiply(self, dot)
    }

    /// The matrix followed by a rotation about the y axis, by the angle with
    /// the given cosine and sine.
    pub fn rotation_y<P: Fn(&Vec<Scalar>, &Vec<Scalar>) -> Scalar>(&self, cos: Scalar, sin: Scalar, dot: &P) -> (m: Matrix)
        requires
            takes_transformation(self@),
            takes_lists(*dot),
        ensures
            is_product(*dot, rotation_y_grid(cos, sin), self@, m@),
    {
        rotation_y(cos, sin).multiply(self, dot)
    }

    /// The matrix followed by a rotation about the z axis, by the angle with
    /// the given cosine and sine.
    pub fn rotation_z<P: Fn(&Vec<Scalar>, &Vec<Scalar>) -> Scalar>(&self, cos: Scalar, sin: Scalar, dot: &P) -> (m: Matrix)
        requires
            takes_transformation(self@),
            takes_lists(*dot),
        ensures
            is_product(*dot, rotation_z_grid(cos, sin), self@, m@),
    {
        rotation_z(cos, sin).multiply(self, dot)
    }
}

impl Tuple {
    /// The tuple moved by `x`, `y` and `z`.
    pub fn translation<P: Fn(&Vec<Scalar>, &Vec<Scalar>) -> Scalar>(self, x: Scalar, y: Scalar, z: Scalar, dot: &P) -> (image: Tuple)
        requires
            takes_lists(*dot),
        ensures
            self.is_image(*dot, translation_grid(x, y, z), image),
    {
        self.transform(&translation(x, y, z), dot)
    }

    /// The tuple scaled by `x`, `y` and `z` along the axes.
    pub fn scaling<P: Fn(&Vec<Scalar>, &Vec<Scalar>) -> Scalar>(self, x: Scalar, y: Scalar, z: Scalar, dot: &P) -> (image: Tuple)
        requires
            takes_lists(*dot),
        ensures
            self.is_image(*dot, scaling_grid(x, y, z), image),
    {
        self.transform(&scaling(x, y, z), dot)
    }

    /// The tuple rotated about the x axis, by the angle with the given
    /// cosine and sine.
    pub fn rotation_x<P: Fn(&Vec<Scalar>, &Vec<Scalar>) -> Scalar>(self, cos: Scalar, sin: Scalar, dot: &P) -> (image: Tuple)
        requires
            takes_lists(*dot),
        ensures
            self.is_image(*dot, rotation_x_grid(cos, sin), image),
    {
        self.transform(&rotation_x(cos, sin), dot)
    }

    /// The tuple rotated about the y axis, by the angle with the given
    /// cosine and sine.
    pub fn rotation_y<P: Fn(&Vec<Scalar>, &Vec<Scalar>) -> Scalar>(self, cos: Scalar, sin: Scalar, dot: &P) -> (image: Tuple)
        requires
            takes_lists(*dot),
        ensures
            self.is_image(*dot, rotation_y_grid(cos, sin), image),
    {
        self.transform(&rotation_y(cos, sin), dot)
    }

    /// The tuple rotated about the z axis, by the angle with the given
    /// cosine and sine.
    pub fn rotation_z<P: Fn(&Vec<Scalar>, &Vec<Scalar>) -> Scalar>(self, cos: Scalar, sin: Scalar, dot: &P) -> (image: Tuple)
        requires
            takes_lists(*dot),
        ensures
            self.is_image(*dot, rotation_z_grid(cos, sin), image),
    {
        self.transform(&rotation_z(cos, sin), dot)
    }

    /// The tuple sheared: each coordinate moved in proportion to the two
    /// others.
    pub fn skew<P: Fn(&Vec<Scalar>, &Vec<Scalar>) -> Scalar>(
        self,
        x_y: Scalar,
        x_z: Scalar,
        y_x: Scalar,
        y_z: Scalar,
        z_x: Scalar,
        z_y: Scalar,
        dot: &P,
    ) -> (image: Tuple)
        requires
            takes_lists(*dot),
        ensures
            self.is_image(*dot, shear_grid(x_y, x_z, y_x, y_z, z_x, z_y), image),
    {
        self.transform(&shear(x_y, x_z, y_x, y_z, z_x, z_y), dot)
    }
}

} // verus!
