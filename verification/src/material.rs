//! Surface materials.

use vstd::prelude::*;
use crate::color::Color;
use crate::scalar::{Scalar, NINE_TENTHS_BITS, TENTH_BITS, TWO_HUNDRED_BITS};

verus! {

/// How a surface answers to light: its colour, the shares of the ambient,
/// the diffuse and the specular term, and the exponent of the highlight.
#[derive(Clone, Copy, Debug, PartialEq, Eq, Structural)]
pub struct Material {
    pub color: Color,
    pub ambient: Scalar,
    pub diffuse: Scalar,
    pub specular: Scalar,
    pub shininess: Scalar,
}

impl Material {
    /// White, with ambient 0.1, diffuse 0.9, specular 0.9 and shininess 200.
    pub open spec fn spec_default() -> Material {
        Material {
            color: Color::white(),
            ambient: Scalar { bits: TENTH_BITS },
            diffuse: Scalar { bits: NINE_TENTHS_BITS },
            specular: Scalar { bits: NINE_TENTHS_BITS },
            shininess: Scalar { bits: TWO_HUNDRED_BITS },
        }
    }

    /// White, with ambient 0.1, diffuse 0.9, specular 0.9 and shininess 200.
    #[verifier::when_used_as_spec(spec_default)]
    pub fn default() -> (material: Material)
        ensures
            material == Material::spec_default(),
    {
        Material {
            color: Color::white(),
            ambient: Scalar::from_bits(TENTH_BITS),
            diffuse: Scalar::from_bits(NINE_TENTHS_BITS),
            specular: Scalar::from_bits(NINE_TENTHS_BITS),
            shininess: Scalar::from_bits(TWO_HUNDRED_BITS),
        }
    }
}

} // verus!
