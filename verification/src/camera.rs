//! The camera: its view of the world, the rays through its pixels, and the
//! pixel loop of a render.
//!
//! The camera looks along the negative z axis of its own space at a canvas
//! one unit away. The trigonometry and the arithmetic of its measures are
//! the caller's: `half_view` gives half the extent of the view for a field
//! of view, `aspect` the ratio of width to height, `times` and `over` a
//! product and a quotient, `pixel` the size of a pixel for half the width of
//! the canvas and the number of pixels across it, `through` the point of the
//! canvas in the middle of a pixel, and `direction` the unit vector from one
//! point to another.

use vstd::prelude::*;
use crate::algebra::{is_inverse, is_square, takes_four, takes_lists, takes_two};
use crate::canvas::Canvas;
use crate::color::Color;
use crate::matrix::{identity_grid, Matrix};
use crate::ray::Ray;
use crate::scalar::Scalar;
use crate::tuple::Tuple;

verus! {

/// A camera: the size of its image in pixels, its field of view, the
/// transformation from the world into its own space, and the measures of its
/// canvas.
#[derive(Clone, Debug, PartialEq, Eq)]
pub struct Camera {
    pub hsize: usize,
    pub vsize: usize,
    pub field_of_view: Scalar,
    pub transform: Matrix,
    pub pixel_size: Scalar,
    pub half_width: Scalar,
    pub half_height: Scalar,
}

/// The measures of a canvas for a view of half the extent `half_view` and
/// the ratio `ratio` of width to height: where the ratio is at least one the
/// width has the full extent and the height is an answer of `over` for the
/// extent and the ratio; else the height has the full extent and the width
/// is an answer of `times`.
pub open spec fn are_measures<M: Fn(Scalar, Scalar) -> Scalar, Q: Fn(Scalar, Scalar) -> Scalar>(
    times: M,
    over: Q,
    half_view: Scalar,
    ratio: Scalar,
    half_width: Scalar,
    half_height: Scalar,
) -> bool {
    if Scalar::one().le(ratio) {
        half_width == half_view && call_ensures(over, (half_view, ratio), half_height)
    } else {
        call_ensures(times, (half_view, ratio), half_width) && half_height == half_view
    }
}

/// `ray` is the ray from the eye of a camera with the transformation
/// `transform` through the point `pixel` of its canvas: both the point and
/// the origin of the camera's space are brought into the world by the
/// inverse of `transform`, and `direction` gives the unit vector from the
/// one to the other.
pub open spec fn is_ray_through<
    D: Fn(Scalar, Scalar, Scalar, Scalar) -> Scalar,
    P: Fn(&Vec<Scalar>, &Vec<Scalar>) -> Scalar,
    Q: Fn(Scalar, Scalar) -> Scalar,
    V: Fn(Tuple, Tuple) -> Tuple,
>(
    det2: D,
    dot: P,
    divide: Q,
    direction: V,
    transform: Seq<Seq<Scalar>>,
    pixel: Tuple,
    ray: Ray,
) -> bool {
    exists|back: Seq<Seq<Scalar>>, target: Tuple|
        {
            &&& is_inverse(det2, dot, divide, transform, back)
            &&& #[trigger] pixel.is_image(dot, back, target)
            &&& Tuple::spec_origin().is_image(dot, back, ray.origin)
            &&& call_ensures(direction, (target, ray.origin), ray.direction)
        }
}

impl Camera {
    /// A camera for an image of `hsize` by `vsize` pixels with the given
    /// field of view, placed at the origin of the world.
    pub fn new<
        H: Fn(Scalar) -> Scalar,
        A: Fn(usize, usize) -> Scalar,
        M: Fn(Scalar, Scalar) -> Scalar,
        Q: Fn(Scalar, Scalar) -> Scalar,
        X: Fn(Scalar, usize) -> Scalar,
    >(
        hsize: usize,
        vsize: usize,
        field_of_view: Scalar,
        half_view: &H,
        aspect: &A,
        times: &M,
        over: &Q,
        pixel: &X,
    ) -> (camera: Camera)
        requires
            forall|a: Scalar| call_requires(*half_view, (a,)),
            forall|w: usize, h: usize| call_requires(*aspect, (w, h)),
            forall|a: Scalar, b: Scalar| call_requires(*times, (a, b)),
            forall|a: Scalar, b: Scalar| call_requires(*over, (a, b)),
            forall|a: Scalar, n: usize| call_requires(*pixel, (a, n)),
        ensures
            camera.hsize == hsize,
            camera.vsize == vsize,
            camera.field_of_view == field_of_view,
            camera.transform@ == identity_grid(4),
            exists|extent: Scalar, ratio: Scalar|
                {
                    &&& #[trigger] call_ensures(*half_view, (field_of_view,), extent)
                    &&& #[trigger] call_ensures(*aspect, (hsize, vsize), ratio)
                    &&& are_measures(
                        *times,
                        *over,
                        extent,
                        ratio,
                        camera.half_width,
                        camera.half_height,
                    )
                },
            call_ensures(*pixel, (camera.half_width, hsize), camera.pixel_size),
    {
        let extent = half_view(field_of_view);
        let ratio = aspect(hsize, vsize);
        let half_width: Scalar;
        let half_height: Scalar;

        if Scalar::one().le(ratio) {
            half_width = extent;
            half_height = over(extent, ratio);
        } else {
            half_width = times(extent, ratio);
            half_height = extent;
        }
        let pixel_size = pixel(half_width, hsize);
        let camera = Camera {
            hsize,
            vsize,
            field_of_view,
            transform: Matrix::identity(4),
            pixel_size,
            half_width,
            half_height,
        };
        assert(are_measures(*times, *over, extent, ratio, camera.half_width, camera.half_height));
        camera
    }

    /// The size of a pixel on the canvas.
    pub fn pixel_size(&self) -> (size: Scalar)
        ensures
            size == self.pixel_size,
    {
        self.pixel_size
    }

    /// The ray from the eye through the pixel in column `x` of row `y`.
    /// `through` gives the point of the canvas in the middle of the pixel, in
    /// the space of the camera.
    pub fn ray_for_pixel<
        T: Fn(&Camera, usize, usize) -> Tuple,
        D: Fn(Scalar, Scalar, Scalar, Scalar) -> Scalar,
        P: Fn(&Vec<Scalar>, &Vec<Scalar>) -> Scalar,
        Q: Fn(Scalar, Scalar) -> Scalar,
        V: Fn(Tuple, Tuple) -> Tuple,
    >(&self, x: usize, y: usize, through: &T, det2: &D, dot: &P, divide: &Q, direction: &V) -> (ray: Ray)
        requires
            is_square(self.transform@),
            self.transform@.len() == 4,
            call_requires(*through, (self, x, y)),
            takes_four(*det2),
            takes_lists(*dot),
            takes_two(*divide),
            forall|a: Tuple, b: Tuple| call_requires(*direction, (a, b)),
        ensures
            exists|pixel: Tuple| #[trigger]
                call_ensures(*through, (self, x, y), pixel) && is_ray_through(
                    *det2,
                    *dot,
                    *divide,
                    *direction,
                    self.transform@,
                    pixel,
                    ray,
                ),
    {
        let pixel = through(self, x, y);
        let back = self.transform.inverse(det2, dot, divide);
        let target = pixel.transform(&back, dot);
        let origin = Tuple::origin().transform(&back, dot);
        let ray = Ray::new(origin, direction(target, origin));
        assert(pixel.is_image(*dot, back@, target));
        assert(is_ray_through(*det2, *dot, *divide, *direction, self.transform@, pixel, ray));
        ray
    }
}

/// `color` is what the camera sees through the pixel in column `x` of row
/// `y`: an answer of `color_at` for a ray that `ray_for_pixel` gives for the
/// pixel.
pub open spec fn is_seen_through<R: Fn(usize, usize) -> Ray, C: Fn(&Ray) -> Color>(
    ray_for_pixel: R,
    color_at: C,
    x: usize,
    y: usize,
    color: Color,
) -> bool {
    exists|ray: Ray| #[trigger] call_ensures(ray_for_pixel, (x, y), ray) && call_ensures(color_at, (&ray,), color)
}

/// The image that the camera takes: a canvas of the camera's size in which
/// every pixel holds the colour that `color_at` gives for the ray that
/// `ray_for_pixel` gives for the pixel.
pub fn render<R: Fn(usize, usize) -> Ray, C: Fn(&Ray) -> Color>(
    camera: &Camera,
    ray_for_pixel: &R,
    color_at: &C,
) -> (canvas: Canvas)
    requires
        forall|x: usize, y: usize|
            x < camera.hsize && y < camera.vsize ==> call_requires(*ray_for_pixel, (x, y)),
        forall|ray: Ray| call_requires(*color_at, (&ray,)),
    ensures
        canvas.wf(),
        canvas.width == camera.hsize,
        canvas.height == camera.vsize,
        forall|x: usize, y: usize|
            x < camera.hsize && y < camera.vsize ==> is_seen_through(
                *ray_for_pixel,
                *color_at,
                x,
                y,
                #[trigger] canvas@[y as int][x as int],
            ),
{
    let hsize = camera.hsize;
    let vsize = camera.vsize;
    let mut canvas = Canvas::init(hsize, vsize);
    let mut y: usize = 0;
    while y < vsize
        invariant
            y <= vsize,
            canvas.wf(),
            canvas.width == hsize,
            canvas.height == vsize,
            forall|i: usize, j: usize| i < hsize && j < vsize ==> call_requires(*ray_for_pixel, (i, j)),
            forall|ray: Ray| call_requires(*color_at, (&ray,)),
            forall|i: usize, j: usize|
                i < hsize && j < y ==> is_seen_through(
                    *ray_for_pixel,
                    *color_at,
                    i,
                    j,
                    #[trigger] canvas@[j as int][i as int],
                ),
        decreases vsize - y,
    {
        let mut x: usize = 0;
        while x < hsize
            invariant
                x <= hsize,
                y < vsize,
                canvas.wf(),
                canvas.width == hsize,
                canvas.height == vsize,
                forall|i: usize, j: usize| i < hsize && j < vsize ==> call_requires(*ray_for_pixel, (i, j)),
                forall|ray: Ray| call_requires(*color_at, (&ray,)),
                forall|i: usize, j: usize|
                    i < hsize && (j < y || (j == y && i < x)) ==> is_seen_through(
                        *ray_for_pixel,
                        *color_at,
                        i,
                        j,
                        #[trigger] canvas@[j as int][i as int],
                    ),
            decreases hsize - x,
        {
            let ray = ray_for_pixel(x, y);
            let color = color_at(&ray);
            assert(is_seen_through(*ray_for_pixel, *color_at, x, y, color));
            canvas.write_pixel(x, y, color);
            x += 1;
        }
        y += 1;
    }
    canvas
}

} // verus!
