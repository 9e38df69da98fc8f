//! What the model asks of the number type of its coordinates.

use vstd::prelude::*;

verus! {

/// A number type that coordinates can be made of: arithmetic, the
/// trigonometry of the distance formula, and a decimal rendering.
///
/// An implementation makes every operation a function of its operands: the
/// same operands give the same result. The contracts name that result by the
/// `spec_` function beside the operation and say nothing of its value, so
/// what is proved of the model holds for any precision and any rounding. An
/// implementation that is compiled without being verified is taken at its
/// word.
pub trait Float: Copy {
    /// Whether the value is an ordinary number: neither infinite nor
    /// not-a-number.
    spec fn is_finite(self) -> bool;

    /// The number that stands for the whole number `value`.
    spec fn spec_from_u32(value: u32) -> Self;

    /// Converts a whole number. The model converts 0, 1, 2 and the Earth's
    /// radius in metres; a type that cannot represent one of them has to
    /// abort here rather than return.
    fn from_u32(value: u32) -> (number: Self)
        ensures
            number == Self::spec_from_u32(value),
    ;

    /// `self + rhs`
    spec fn spec_add(self, rhs: Self) -> Self;

    /// `self + rhs`
    fn add(self, rhs: Self) -> (sum: Self)
        ensures
            sum == self.spec_add(rhs),
    ;

    /// `self - rhs`
    spec fn spec_sub(self, rhs: Self) -> Self;

    /// `self - rhs`
    fn sub(self, rhs: Self) -> (difference: Self)
        ensures
            difference == self.spec_sub(rhs),
    ;

    /// `self * rhs`
    spec fn spec_mul(self, rhs: Self) -> Self;

    /// `self * rhs`
    fn mul(self, rhs: Self) -> (product: Self)
        ensures
            product == self.spec_mul(rhs),
    ;

    /// `self / rhs`
    spec fn spec_div(self, rhs: Self) -> Self;

    /// `self / rhs`. Division by zero is no error: it gives what the type
    /// gives for it.
    fn div(self, rhs: Self) -> (quotient: Self)
        ensures
            quotient == self.spec_div(rhs),
    ;

    /// An angle given in degrees, in radians.
    spec fn spec_to_radians(self) -> Self;

    /// Converts an angle from degrees to radians.
    fn to_radians(self) -> (radians: Self)
        ensures
            radians == self.spec_to_radians(),
    ;

    /// The sine of an angle in radians.
    spec fn spec_sin(self) -> Self;

    /// The sine of an angle in radians.
    fn sin(self) -> (sine: Self)
        ensures
            sine == self.spec_sin(),
    ;

    /// The cosine of an angle in radians.
    spec fn spec_cos(self) -> Self;

    /// The cosine of an angle in radians.
    fn cos(self) -> (cosine: Self)
        ensures
            cosine == self.spec_cos(),
    ;

    /// The square root.
    spec fn spec_sqrt(self) -> Self;

    /// The square root.
    fn sqrt(self) -> (root: Self)
        ensures
            root == self.spec_sqrt(),
    ;

    /// The angle in radians of the point with ordinate `self` and abscissa
    /// `other`.
    spec fn spec_atan2(self, other: Self) -> Self;

    /// The four-quadrant arctangent of `self / other`.
    fn atan2(self, other: Self) -> (angle: Self)
        ensures
            angle == self.spec_atan2(other),
    ;

    /// The value in decimal notation, rounded to seven digits after the point.
    spec fn spec_to_fixed7(self) -> String;

    /// Renders the value in decimal notation with exactly seven digits after
    /// the point. Of a value that is no ordinary number only the name of the
    /// text is promised, not its shape.
    fn to_fixed7(&self) -> (text: String)
        ensures
            text == self.spec_to_fixed7(),
            self.is_finite() ==> is_fixed7(text@),
    ;
}

/// One of the ten decimal digits.
pub open spec fn is_digit(c: char) -> bool {
    '0' <= c <= '9'
}

/// A decimal numeral without a sign and with exactly seven digits after the
/// point: at least one digit, a point, seven digits.
pub open spec fn is_unsigned_fixed7(text: Seq<char>) -> bool {
    &&& text.len() >= 9
    &&& text[text.len() - 8] == '.'
    &&& forall|i: int| 0 <= i < text.len() && i != text.len() - 8 ==> is_digit(#[trigger] text[i])
}

/// A decimal numeral with exactly seven digits after the point, with a minus
/// sign before it or none.
pub open spec fn is_fixed7(text: Seq<char>) -> bool {
    if text.len() > 0 && text[0] == '-' {
        is_unsigned_fixed7(text.skip(1))
    } else {
        is_unsigned_fixed7(text)
    }
}

} // verus!
