//! Colours as three unclamped channel intensities.
//!
//! The operations go channel by channel; the numbers are computed by the
//! functions that the caller hands in.

use vstd::prelude::*;
use crate::scalar::Scalar;

verus! {

/// A colour. The channels are not confined to any range. Two colours are
/// equal when their channels hold the same bit patterns.
#[derive(Clone, Copy, Debug, PartialEq, Eq, Structural)]
pub struct Color {
    pub red: Scalar,
    pub green: Scalar,
    pub blue: Scalar,
}

impl View for Color {
    type V = Seq<Scalar>;

    /// The three channels in the order red, green, blue.
    open spec fn view(&self) -> Seq<Scalar> {
        seq![self.red, self.green, self.blue]
    }
}

impl Color {
    /// Black: every channel is positive zero.
    pub open spec fn spec_black() -> Color {
        Color { red: Scalar::zero(), green: Scalar::zero(), blue: Scalar::zero() }
    }

    /// White: every channel is one.
    pub open spec fn spec_white() -> Color {
        Color { red: Scalar::one(), green: Scalar::one(), blue: Scalar::one() }
    }

    /// The colour with the given channels.
    pub fn new(red: Scalar, green: Scalar, blue: Scalar) -> (c: Color)
        ensures
            c == (Color { red, green, blue }),
    {
        Color { red, green, blue }
    }

    /// Black.
    #[verifier::when_used_as_spec(spec_black)]
    pub fn black() -> (c: Color)
        ensures
            c == Color::spec_black(),
    {
        Color { red: Scalar::zero(), green: Scalar::zero(), blue: Scalar::zero() }
    }

    /// White.
    #[verifier::when_used_as_spec(spec_white)]
    pub fn white() -> (c: Color)
        ensures
            c == Color::spec_white(),
    {
        Color { red: Scalar::one(), green: Scalar::one(), blue: Scalar::one() }
    }
}

impl Color {
    /// The sum of two colours, channel by channel. `plus` gives the sum of
    /// two numbers.
    pub fn plus<A: Fn(Scalar, Scalar) -> Scalar>(self, other: Color, plus: &A) -> (sum: Color)
        requires
            forall|a: Scalar, b: Scalar| call_requires(*plus, (a, b)),
        ensures
            call_ensures(*plus, (self.red, other.red), sum.red),
            call_ensures(*plus, (self.green, other.green), sum.green),
            call_ensures(*plus, (self.blue, other.blue), sum.blue),
    {
        Color {
            red: plus(self.red, other.red),
            green: plus(self.green, other.green),
            blue: plus(self.blue, other.blue),
        }
    }

    /// The difference of two colours, channel by channel. `minus` gives the
    /// difference of two numbers.
    pub fn minus<A: Fn(Scalar, Scalar) -> Scalar>(self, other: Color, minus: &A) -> (difference: Color)
        requires
            forall|a: Scalar, b: Scalar| call_requires(*minus, (a, b)),
        ensures
            call_ensures(*minus, (self.red, other.red), difference.red),
            call_ensures(*minus, (self.green, other.green), difference.green),
            call_ensures(*minus, (self.blue, other.blue), difference.blue),
    {
        Color {
            red: minus(self.red, other.red),
            green: minus(self.green, other.green),
            blue: minus(self.blue, other.blue),
        }
    }

    /// The colour with every channel multiplied by `factor`. `times` gives
    /// the product of two numbers.
    pub fn scaled<M: Fn(Scalar, Scalar) -> Scalar>(self, factor: Scalar, times: &M) -> (stretched: Color)
        requires
            forall|a: Scalar, b: Scalar| call_requires(*times, (a, b)),
        ensures
            call_ensures(*times, (self.red, factor), stretched.red),
            call_ensures(*times, (self.green, factor), stretched.green),
            call_ensures(*times, (self.blue, factor), stretched.blue),
    {
        Color {
            red: times(self.red, factor),
            green: times(self.green, factor),
            blue: times(self.blue, factor),
        }
    }

    /// The product of two colours, channel by channel. `times` gives the
    /// product of two numbers.
    pub fn hadamard<M: Fn(Scalar, Scalar) -> Scalar>(self, other: Color, times: &M) -> (product: Color)
        requires
            forall|a: Scalar, b: Scalar| call_requires(*times, (a, b)),
        ensures
            call_ensures(*times, (self.red, other.red), product.red),
            call_ensures(*times, (self.green, other.green), product.green),
            call_ensures(*times, (self.blue, other.blue), product.blue),
    {
        Color {
            red: times(self.red, other.red),
            green: times(self.green, other.green),
            blue: times(self.blue, other.blue),
        }
    }

    /// Whether `close` accepts the two colours in each of the three
    /// channels. The channels are tested in turn until one is refused.
    pub fn eq_by<F: Fn(Scalar, Scalar) -> bool>(&self, other: &Color, close: &F) -> (equal: bool)
        requires
            forall|a: Scalar, b: Scalar| call_requires(*close, (a, b)),
        ensures
            equal ==> forall|i: int| 0 <= i < 3 ==> call_ensures(*close, (#[trigger] self@[i], other@[i]), true),
            !equal ==> exists|i: int| 0 <= i < 3 && call_ensures(*close, (#[trigger] self@[i], other@[i]), false),
    {
        if !close(self.red, other.red) {
            assert(call_ensures(*close, (self@[0], other@[0]), false));
            return false;
        }
        if !close(self.green, other.green) {
            assert(call_ensures(*close, (self@[1], other@[1]), false));
            return false;
        }
        if !close(self.blue, other.blue) {
            assert(call_ensures(*close, (self@[2], other@[2]), false));
            return false;
        }
        assert forall|i: int| 0 <= i < 3 implies call_ensures(*close, (#[trigger] self@[i], other@[i]), true) by {
            if i == 0 {
            } else if i == 1 {
            } else {
            }
        }
        true
    }
}

} // verus!
