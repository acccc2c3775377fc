use vstd::prelude::*;

use crate::scalar::Scalar;

verus! {

/// A homogeneous four-component tuple. By convention `w` equal to the
/// multiplicative identity marks a point and `w` equal to the additive
/// identity marks a free vector; other values of `w` arise only as
/// transient arithmetic intermediates.
#[derive(Debug, Clone, Copy, PartialEq)]
pub struct Tuple<T> {
    pub x: T,
    pub y: T,
    pub z: T,
    pub w: T,
}

impl<T: Scalar> Tuple<T> {
    /// The componentwise sum; the result is a point exactly when either
    /// operand is a point, so point + vector stays a point and
    /// vector + vector stays a vector.
    pub open spec fn add_s(self, o: Tuple<T>) -> Tuple<T> {
        Tuple {
            x: self.x.add_s(o.x),
            y: self.y.add_s(o.y),
            z: self.z.add_s(o.z),
            w: if self.w == T::one_s() || o.w == T::one_s() {
                T::one_s()
            } else {
                T::zero_s()
            },
        }
    }

    /// The componentwise difference; the result is a vector when both
    /// operands are points or both are vectors, and a point otherwise.
    pub open spec fn sub_s(self, o: Tuple<T>) -> Tuple<T> {
        Tuple {
            x: self.x.sub_s(o.x),
            y: self.y.sub_s(o.y),
            z: self.z.sub_s(o.z),
            w: if (self.w == T::one_s() && o.w == T::one_s()) || (self.w == T::zero_s() && o.w
                == T::zero_s()) {
                T::zero_s()
            } else {
                T::one_s()
            },
        }
    }

    /// All four components negated.
    pub open spec fn neg_s(self) -> Tuple<T> {
        Tuple { x: self.x.neg_s(), y: self.y.neg_s(), z: self.z.neg_s(), w: self.w.neg_s() }
    }

    /// The sum of the componentwise products over all four components.
    pub open spec fn dot_s(self, o: Tuple<T>) -> T {
        self.x.mul_s(o.x).add_s(self.y.mul_s(o.y)).add_s(self.z.mul_s(o.z)).add_s(
            self.w.mul_s(o.w),
        )
    }

    /// The Euclidean norm over all four components: the square root of the
    /// dot product of the tuple with itself.
    pub open spec fn magnitude_s(self) -> T {
        self.dot_s(self).sqrt_s()
    }

    /// The three-dimensional cross product of the `x`, `y`, `z` components,
    /// as a vector; the operands' `w` components are ignored.
    pub open spec fn cross_s(self, o: Tuple<T>) -> Tuple<T> {
        Tuple {
            x: self.y.mul_s(o.z).sub_s(self.z.mul_s(o.y)),
            y: self.z.mul_s(o.x).sub_s(self.x.mul_s(o.z)),
            z: self.x.mul_s(o.y).sub_s(self.y.mul_s(o.x)),
            w: T::zero_s(),
        }
    }

    /// All four components scaled by `rhs`.
    pub open spec fn scale_s(self, rhs: T) -> Tuple<T> {
        Tuple {
            x: self.x.mul_s(rhs),
            y: self.y.mul_s(rhs),
            z: self.z.mul_s(rhs),
            w: self.w.mul_s(rhs),
        }
    }

    /// All four components divided by `d`.
    pub open spec fn div_by_s(self, d: T) -> Tuple<T> {
        Tuple {
            x: self.x.div_s(d),
            y: self.y.div_s(d),
            z: self.z.div_s(d),
            w: self.w.div_s(d),
        }
    }

    /// The raw four-argument constructor, for arithmetic intermediates.
    pub fn from(x: T, y: T, z: T, w: T) -> (r: Tuple<T>)
        ensures
            r == (Tuple { x, y, z, w }),
    {
        Tuple { x, y, z, w }
    }

    /// A point: `w` is the multiplicative identity.
    pub fn to_point(x: T, y: T, z: T) -> (r: Tuple<T>)
        ensures
            r == (Tuple { x, y, z, w: T::one_s() }),
    {
        Tuple { x, y, z, w: T::one() }
    }

    /// A vector: `w` is the additive identity.
    pub fn to_vector(x: T, y: T, z: T) -> (r: Tuple<T>)
        ensures
            r == (Tuple { x, y, z, w: T::zero_s() }),
    {
        Tuple { x, y, z, w: T::zero() }
    }

    /// Whether the tuple is a point.
    pub fn is_point(&self) -> (r: bool)
        ensures
            r == (self.w == T::one_s()),
    {
        self.w.eq_val(T::one())
    }

    /// Negates all four components in place, `w` included.
    pub fn negate(&mut self)
        ensures
            *final(self) == old(self).neg_s(),
    {
        self.x = self.x.neg();
        self.y = self.y.neg();
        self.z = self.z.neg();
        self.w = self.w.neg();
    }

    /// The Euclidean norm over all four components. For a vector this is
    /// the three-dimensional norm; for a point it also counts the
    /// homogeneous component, so it is meant to be taken of vectors.
    pub fn magnitude(&self) -> (r: T)
        ensures
            r == self.magnitude_s(),
    {
        self.dot(self).sqrt()
    }

    /// The tuple scaled to unit length: every component divided by the
    /// magnitude. A tuple whose magnitude is the additive identity has no
    /// direction and is rejected.
    pub fn normalize(&self) -> (r: Option<Tuple<T>>)
        ensures
            match r {
                Some(t) => self.magnitude_s() != T::zero_s() && t == self.div_by_s(
                    self.magnitude_s(),
                ),
                None => self.magnitude_s() == T::zero_s(),
            },
    {
        let m = self.magnitude();
        if m.eq_val(T::zero()) {
            None
        } else {
            Some(Tuple { x: self.x.div(m), y: self.y.div(m), z: self.z.div(m), w: self.w.div(m) })
        }
    }

    /// The dot product over all four components.
    pub fn dot(&self, other: &Tuple<T>) -> (r: T)
        ensures
            r == self.dot_s(*other),
    {
        self.x.mul(other.x).add(self.y.mul(other.y)).add(self.z.mul(other.z)).add(
            self.w.mul(other.w),
        )
    }

    /// The three-dimensional cross product, returned as a vector.
    pub fn cross(&self, other: &Tuple<T>) -> (r: Tuple<T>)
        ensures
            r == self.cross_s(*other),
    {
        Tuple {
            x: self.y.mul(other.z).sub(self.z.mul(other.y)),
            y: self.z.mul(other.x).sub(self.x.mul(other.z)),
            z: self.x.mul(other.y).sub(self.y.mul(other.x)),
            w: T::zero(),
        }
    }

    /// The componentwise sum; the result is a point exactly when either
    /// operand is a point.
    pub fn add(self, other: Tuple<T>) -> (r: Tuple<T>)
        ensures
            r == self.add_s(other),
    {
        let w = if self.w.eq_val(T::one()) || other.w.eq_val(T::one()) {
            T::one()
        } else {
            T::zero()
        };
        Tuple { x: self.x.add(other.x), y: self.y.add(other.y), z: self.z.add(other.z), w }
    }

    /// The componentwise difference; the result is a vector when the
    /// operands are two points or two vectors, and a point otherwise.
    pub fn sub(self, rhs: Tuple<T>) -> (r: Tuple<T>)
        ensures
            r == self.sub_s(rhs),
    {
        let w = if (self.w.eq_val(T::one()) && rhs.w.eq_val(T::one())) || (self.w.eq_val(
            T::zero(),
        ) && rhs.w.eq_val(T::zero())) {
            T::zero()
        } else {
            T::one()
        };
        Tuple { x: self.x.sub(rhs.x), y: self.y.sub(rhs.y), z: self.z.sub(rhs.z), w }
    }

    /// The tuple scaled by a scalar, `w` included.
    pub fn mul(self, rhs: T) -> (r: Tuple<T>)
        ensures
            r == self.scale_s(rhs),
    {
        Tuple { x: self.x.mul(rhs), y: self.y.mul(rhs), z: self.z.mul(rhs), w: self.w.mul(rhs) }
    }

    /// The tuple divided by a small integer scalar, `w` included. A zero
    /// divisor is rejected rather than producing an undefined quotient.
    pub fn div(self, rhs: i32) -> (r: Option<Tuple<T>>)
        ensures
            match r {
                Some(t) => rhs != 0 && t == self.div_by_s(T::from_i32_s(rhs)),
                None => rhs == 0,
            },
    {
        if rhs == 0 {
            None
        } else {
            let d = T::from_i32(rhs);
            proof {
                T::law_from_i32_zero(rhs);
            }
            Some(
                Tuple { x: self.x.div(d), y: self.y.div(d), z: self.z.div(d), w: self.w.div(d) },
            )
        }
    }
}

/// The cross product is anti-commutative: crossing in the other order
/// negates every component (the `w` components are both the additive
/// identity, which is its own negation).
pub proof fn lemma_cross_antisymmetric<T: Scalar>(a: Tuple<T>, b: Tuple<T>)
    ensures
        a.cross_s(b) == b.cross_s(a).neg_s(),
{
    T::law_mul_comm(b.y, a.z);
    T::law_mul_comm(b.z, a.y);
    T::law_mul_comm(b.z, a.x);
    T::law_mul_comm(b.x, a.z);
    T::law_mul_comm(b.x, a.y);
    T::law_mul_comm(b.y, a.x);
    T::law_neg_sub(b.y.mul_s(a.z), b.z.mul_s(a.y));
    T::law_neg_sub(b.z.mul_s(a.x), b.x.mul_s(a.z));
    T::law_neg_sub(b.x.mul_s(a.y), b.y.mul_s(a.x));
    T::law_neg_zero();
}

} // verus!
