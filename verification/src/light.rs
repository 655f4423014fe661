//! The reflection model: which terms light a point, and their sum.
//!
//! A surface point always receives the ambient term. It receives the diffuse
//! term unless the light lies behind the surface, and the specular term only
//! if, besides, the reflected light points towards the eye. The colour of
//! the point is the sum of the three terms, black standing for a term that
//! the point does not receive.

use vstd::prelude::*;
use crate::color::Color;
use crate::scalar::Scalar;
use crate::tuple::Tuple;

verus! {

/// A light without extent: the point where it is, and its colour.
#[derive(Clone, Copy, Debug, PartialEq, Eq, Structural)]
pub struct Light {
    pub intensity: Color,
    pub position: Tuple,
}

/// The terms that make up the colour of a surface point under one light.
#[derive(Clone, Copy, Debug, PartialEq, Eq, Structural)]
pub enum Terms {
    /// The light is behind the surface.
    Ambient,
    /// The light reaches the surface, its reflection does not reach the eye.
    AmbientDiffuse,
    /// The light reaches the surface and its reflection reaches the eye.
    AmbientDiffuseSpecular,
}

impl Terms {
    /// Whether the diffuse term is among them.
    pub open spec fn spec_has_diffuse(self) -> bool {
        self != Terms::Ambient
    }

    /// Whether the specular term is among them.
    pub open spec fn spec_has_specular(self) -> bool {
        self == Terms::AmbientDiffuseSpecular
    }

    /// Whether the diffuse term is among them.
    #[verifier::when_used_as_spec(spec_has_diffuse)]
    pub fn has_diffuse(self) -> (b: bool)
        ensures
            b == self.spec_has_diffuse(),
    {
        match self {
            Terms::Ambient => false,
            _ => true,
        }
    }

    /// Whether the specular term is among them.
    #[verifier::when_used_as_spec(spec_has_specular)]
    pub fn has_specular(self) -> (b: bool)
        ensures
            b == self.spec_has_specular(),
    {
        match self {
            Terms::AmbientDiffuseSpecular => true,
            _ => false,
        }
    }
}

/// The terms for a point, from the cosine of the angle between the light
/// vector and the normal, and the cosine of the angle between the reflected
/// light and the eye vector. The second is not looked at when the first is
/// negative.
pub fn lighting_terms(light_dot_normal: Scalar, reflect_dot_eye: Scalar) -> (terms: Terms)
    ensures
        terms == if light_dot_normal.lt(Scalar::zero()) {
            Terms::Ambient
        } else if reflect_dot_eye.le(Scalar::zero()) {
            Terms::AmbientDiffuse
        } else {
            Terms::AmbientDiffuseSpecular
        },
{
    if light_dot_normal.lt(Scalar::zero()) {
        Terms::Ambient
    } else if reflect_dot_eye.le(Scalar::zero()) {
        Terms::AmbientDiffuse
    } else {
        Terms::AmbientDiffuseSpecular
    }
}

/// `total` is an answer of `plus` for the sum of `a` and `b`, and `c`.
pub open spec fn is_sum_of_three<A: Fn(Color, Color) -> Color>(
    plus: A,
    a: Color,
    b: Color,
    c: Color,
    total: Color,
) -> bool {
    exists|both: Color| #[trigger] call_ensures(plus, (a, b), both) && call_ensures(plus, (both, c), total)
}

/// `color` is the colour of a point with the ambient term `ambient` under a
/// light whose vector makes the cosine `light_dot_normal` with the normal.
/// `diffuse` gives the diffuse term, `reflect_dot_eye` the cosine between the
/// reflected light and the eye vector, and `specular` the specular term for
/// that cosine; none of them is asked where the light is behind the surface,
/// and `specular` is not asked where the cosine is not positive.
pub open spec fn is_lit<
    D: Fn() -> Color,
    R: Fn() -> Scalar,
    S: Fn(Scalar) -> Color,
    A: Fn(Color, Color) -> Color,
>(
    diffuse: D,
    reflect_dot_eye: R,
    specular: S,
    plus: A,
    ambient: Color,
    light_dot_normal: Scalar,
    color: Color,
) -> bool {
    if light_dot_normal.lt(Scalar::zero()) {
        is_sum_of_three(plus, ambient, Color::black(), Color::black(), color)
    } else {
        exists|d: Color, cosine: Scalar|
            {
                &&& #[trigger] call_ensures(diffuse, (), d)
                &&& #[trigger] call_ensures(reflect_dot_eye, (), cosine)
                &&& if cosine.le(Scalar::zero()) {
                    is_sum_of_three(plus, ambient, d, Color::black(), color)
                } else {
                    exists|s: Color| #[trigger]
                        call_ensures(specular, (cosine,), s) && is_sum_of_three(
                            plus,
                            ambient,
                            d,
                            s,
                            color,
                        )
                }
            }
    }
}

/// The colour of a surface point under one light: the sum of the ambient,
/// the diffuse and the specular term.
pub fn lightning<D: Fn() -> Color, R: Fn() -> Scalar, S: Fn(Scalar) -> Color, A: Fn(Color, Color) -> Color>(
    ambient: Color,
    light_dot_normal: Scalar,
    diffuse: &D,
    reflect_dot_eye: &R,
    specular: &S,
    plus: &A,
) -> (color: Color)
    requires
        call_requires(*diffuse, ()),
        call_requires(*reflect_dot_eye, ()),
        forall|cosine: Scalar| call_requires(*specular, (cosine,)),
        forall|a: Color, b: Color| call_requires(*plus, (a, b)),
    ensures
        is_lit(*diffuse, *reflect_dot_eye, *specular, *plus, ambient, light_dot_normal, color),
{
    let mut diffuse_term = Color::black();
    let mut specular_term = Color::black();
    if !light_dot_normal.lt(Scalar::zero()) {
        diffuse_term = diffuse();
        let cosine = reflect_dot_eye();
        if lighting_terms(light_dot_normal, cosine).has_specular() {
            specular_term = specular(cosine);
        }
    }
    let both = plus(ambient, diffuse_term);
    let color = plus(both, specular_term);
    assert(is_sum_of_three(*plus, ambient, diffuse_term, specular_term, color));
    color
}

} // verus!
