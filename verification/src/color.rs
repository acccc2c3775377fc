use vstd::prelude::*;

use crate::scalar::Scalar;

verus! {

/// An RGB color triple. Channel values are unconstrained: intensities
/// outside the displayable range are legal here and are only clamped when
/// a canvas serializes them.
#[derive(Debug, Clone, Copy, PartialEq)]
pub struct Color<T> {
    pub red: T,
    pub green: T,
    pub blue: T,
}

impl<T: Scalar> Color<T> {
    /// The componentwise sum.
    pub open spec fn add_s(self, o: Color<T>) -> Color<T> {
        Color {
            red: self.red.add_s(o.red),
            green: self.green.add_s(o.green),
            blue: self.blue.add_s(o.blue),
        }
    }

    /// The componentwise difference.
    pub open spec fn sub_s(self, o: Color<T>) -> Color<T> {
        Color {
            red: self.red.sub_s(o.red),
            green: self.green.sub_s(o.green),
            blue: self.blue.sub_s(o.blue),
        }
    }

    /// The Hadamard product: each channel is the product of the operands'
    /// matching channels.
    pub open spec fn mul_s(self, o: Color<T>) -> Color<T> {
        Color {
            red: self.red.mul_s(o.red),
            green: self.green.mul_s(o.green),
            blue: self.blue.mul_s(o.blue),
        }
    }

    /// Every channel scaled by `rhs`.
    pub open spec fn scale_s(self, rhs: T) -> Color<T> {
        Color {
            red: self.red.mul_s(rhs),
            green: self.green.mul_s(rhs),
            blue: self.blue.mul_s(rhs),
        }
    }

    pub fn new(red: T, green: T, blue: T) -> (r: Color<T>)
        ensures
            r == (Color { red, green, blue }),
    {
        Color { red, green, blue }
    }

    /// The componentwise sum.
    pub fn add(self, rhs: Color<T>) -> (r: Color<T>)
        ensures
            r == self.add_s(rhs),
    {
        Color {
            red: self.red.add(rhs.red),
            green: self.green.add(rhs.green),
            blue: self.blue.add(rhs.blue),
        }
    }

    /// The componentwise difference.
    pub fn sub(self, rhs: Color<T>) -> (r: Color<T>)
        ensures
            r == self.sub_s(rhs),
    {
        Color {
            red: self.red.sub(rhs.red),
            green: self.green.sub(rhs.green),
            blue: self.blue.sub(rhs.blue),
        }
    }

    /// The Hadamard product, used to tint one color by another.
    pub fn mul(self, rhs: Color<T>) -> (r: Color<T>)
        ensures
            r == self.mul_s(rhs),
    {
        Color {
            red: self.red.mul(rhs.red),
            green: self.green.mul(rhs.green),
            blue: self.blue.mul(rhs.blue),
        }
    }

    /// Every channel scaled by a small integer.
    pub fn mul_scalar(self, rhs: i32) -> (r: Color<T>)
        ensures
            r == self.scale_s(T::from_i32_s(rhs)),
    {
        let d = T::from_i32(rhs);
        Color { red: self.red.mul(d), green: self.green.mul(d), blue: self.blue.mul(d) }
    }
}

/// Adding a color and then subtracting it again is the identity, channel
/// by channel: subtraction undoes addition.
pub proof fn lemma_add_sub_cancels<T: Scalar>(c1: Color<T>, c2: Color<T>)
    ensures
        c1.add_s(c2).sub_s(c2) == c1,
{
    T::law_add_sub(c1.red, c2.red);
    T::law_add_sub(c1.green, c2.green);
    T::law_add_sub(c1.blue, c2.blue);
}

/// The Hadamard product is commutative.
pub proof fn lemma_hadamard_commutative<T: Scalar>(c1: Color<T>, c2: Color<T>)
    ensures
        c1.mul_s(c2) == c2.mul_s(c1),
{
    T::law_mul_comm(c1.red, c2.red);
    T::law_mul_comm(c1.green, c2.green);
    T::law_mul_comm(c1.blue, c2.blue);
}

} // verus!
