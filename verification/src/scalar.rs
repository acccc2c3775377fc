use vstd::prelude::*;

verus! {

/// The numeric capability set that the geometric types are built over.
///
/// Every operation comes in two forms: a specification function (`add_s`,
/// `mul_s`, ...) that names the operation's value inside contracts, and an
/// executable method proved to return exactly that value. The proof
/// functions at the end are the algebraic laws the geometric code relies
/// on; every verified implementation must establish them, and an
/// unverified implementation promises them to its callers.
pub trait Scalar: Sized + Copy {
    /// The additive identity.
    spec fn zero_s() -> Self;

    /// The multiplicative identity.
    spec fn one_s() -> Self;

    /// The scalar denoted by a small integer.
    spec fn from_i32_s(v: i32) -> Self;

    spec fn add_s(self, o: Self) -> Self;

    spec fn sub_s(self, o: Self) -> Self;

    spec fn mul_s(self, o: Self) -> Self;

    spec fn neg_s(self) -> Self;

    /// The quotient of `self` by `o`; only consulted for `o` other than
    /// `zero_s`.
    spec fn div_s(self, o: Self) -> Self;

    /// The square root, as exactly as the carrier can express it.
    spec fn sqrt_s(self) -> Self;

    /// The color channel byte an intensity maps to: the intensity scaled by
    /// 255, rounded toward positive infinity, clamped to `0..=255`.
    spec fn channel_s(self) -> u8;

    fn zero() -> (r: Self)
        ensures
            r == Self::zero_s(),
    ;

    fn one() -> (r: Self)
        ensures
            r == Self::one_s(),
    ;

    fn from_i32(v: i32) -> (r: Self)
        ensures
            r == Self::from_i32_s(v),
    ;

    fn add(self, o: Self) -> (r: Self)
        ensures
            r == self.add_s(o),
    ;

    fn sub(self, o: Self) -> (r: Self)
        ensures
            r == self.sub_s(o),
    ;

    fn mul(self, o: Self) -> (r: Self)
        ensures
            r == self.mul_s(o),
    ;

    fn neg(self) -> (r: Self)
        ensures
            r == self.neg_s(),
    ;

    fn div(self, o: Self) -> (r: Self)
        requires
            o != Self::zero_s(),
        ensures
            r == self.div_s(o),
    ;

    fn sqrt(self) -> (r: Self)
        ensures
            r == self.sqrt_s(),
    ;

    fn channel(self) -> (r: u8)
        ensures
            r == self.channel_s(),
    ;

    fn eq_val(self, o: Self) -> (r: bool)
        ensures
            r == (self == o),
    ;

    /// Adding the additive identity on either side changes nothing.
    proof fn law_add_zero(a: Self)
        ensures
            a.add_s(Self::zero_s()) == a,
            Self::zero_s().add_s(a) == a,
    ;

    /// Multiplying by the multiplicative identity changes nothing.
    proof fn law_mul_one(a: Self)
        ensures
            a.mul_s(Self::one_s()) == a,
    ;

    /// Multiplying by the additive identity yields the additive identity.
    proof fn law_mul_zero(a: Self)
        ensures
            a.mul_s(Self::zero_s()) == Self::zero_s(),
    ;

    /// Multiplication is commutative.
    proof fn law_mul_comm(a: Self, b: Self)
        ensures
            a.mul_s(b) == b.mul_s(a),
    ;

    /// Subtraction undoes addition.
    proof fn law_add_sub(a: Self, b: Self)
        ensures
            a.add_s(b).sub_s(b) == a,
    ;

    /// Negating a difference swaps its operands.
    proof fn law_neg_sub(a: Self, b: Self)
        ensures
            a.sub_s(b).neg_s() == b.sub_s(a),
    ;

    /// The additive identity is its own negation.
    proof fn law_neg_zero()
        ensures
            Self::zero_s().neg_s() == Self::zero_s(),
    ;

    /// A small integer denotes the additive identity exactly when it is 0.
    proof fn law_from_i32_zero(v: i32)
        ensures
            (Self::from_i32_s(v) == Self::zero_s()) <==> v == 0,
    ;
}

/// The integer square root: the largest `r >= 0` with `r * r <= v`, and 0
/// for negative `v`.
pub open spec fn int_sqrt(v: int) -> int
    decreases v,
{
    if v < 1 {
        0
    } else {
        let p = int_sqrt(v - 1);
        if (p + 1) * (p + 1) <= v {
            p + 1
        } else {
            p
        }
    }
}

/// For a nonnegative argument, `int_sqrt` is the unique nonnegative root:
/// its square is at most the argument and the next square is beyond it.
pub proof fn lemma_int_sqrt(v: int)
    requires
        v >= 0,
    ensures
        0 <= int_sqrt(v),
        int_sqrt(v) * int_sqrt(v) <= v,
        v < (int_sqrt(v) + 1) * (int_sqrt(v) + 1),
    decreases v,
{
    if v >= 1 {
        lemma_int_sqrt(v - 1);
        let p = int_sqrt(v - 1);
        if (p + 1) * (p + 1) <= v {
            assert(v <= (p + 1) * (p + 1));
            assert((p + 2) * (p + 2) > (p + 1) * (p + 1)) by (nonlinear_arith)
                requires
                    p >= 0,
            ;
        }
    }
}

/// The verified integer instance: two's-complement `i64` with wrapping
/// addition, subtraction and multiplication, quotients truncated toward
/// zero, the integer square root, and channel conversion that collapses
/// to fully off for nonpositive intensities and fully on for positive
/// ones (a positive integer intensity scaled by 255 always clamps high).
impl Scalar for i64 {
    open spec fn zero_s() -> i64 {
        0
    }

    open spec fn one_s() -> i64 {
        1
    }

    open spec fn from_i32_s(v: i32) -> i64 {
        v as i64
    }

    open spec fn add_s(self, o: i64) -> i64 {
        vstd::wrapping::i64_specs::wrapping_add(self, o)
    }

    open spec fn sub_s(self, o: i64) -> i64 {
        vstd::wrapping::i64_specs::wrapping_sub(self, o)
    }

    open spec fn mul_s(self, o: i64) -> i64 {
        vstd::wrapping::i64_specs::wrapping_mul(self, o)
    }

    open spec fn neg_s(self) -> i64 {
        vstd::wrapping::i64_specs::wrapping_sub(0, self)
    }

    open spec fn div_s(self, o: i64) -> i64 {
        match self.checked_div(o) {
            Some(q) => q,
            None => i64::MIN,
        }
    }

    open spec fn sqrt_s(self) -> i64 {
        int_sqrt(self as int) as i64
    }

    open spec fn channel_s(self) -> u8 {
        if self <= 0 {
            0
        } else {
            255
        }
    }

    fn zero() -> (r: i64) {
        0
    }

    fn one() -> (r: i64) {
        1
    }

    fn from_i32(v: i32) -> (r: i64) {
        v as i64
    }

    fn add(self, o: i64) -> (r: i64) {
        self.wrapping_add(o)
    }

    fn sub(self, o: i64) -> (r: i64) {
        self.wrapping_sub(o)
    }

    fn mul(self, o: i64) -> (r: i64) {
        self.wrapping_mul(o)
    }

    fn neg(self) -> (r: i64) {
        0i64.wrapping_sub(self)
    }

    fn div(self, o: i64) -> (r: i64) {
        match self.checked_div(o) {
            Some(q) => q,
            None => i64::MIN,
        }
    }

    fn sqrt(self) -> (r: i64) {
        if self <= 0 {
            return 0;
        }
        let mut root: i64 = 0;
        while (root as i128 + 1) * (root as i128 + 1) <= self as i128
            invariant
                0 < self,
                0 <= root <= self,
                root * root <= self,
                root < 0x1_0000_0000,
                (root as i128 + 1) * (root as i128 + 1) <= 0x1_0000_0000_0000_0000,
            decreases self - root,
        {
            proof {
                assert(root + 1 <= (root + 1) * (root + 1)) by (nonlinear_arith)
                    requires
                        root >= 0,
                ;
                assert(root + 1 < 0x1_0000_0000) by (nonlinear_arith)
                    requires
                        root >= 0,
                        (root + 1) * (root + 1) <= i64::MAX,
                ;
            }
            root = root + 1;
            proof {
                assert((root as i128 + 1) * (root as i128 + 1) <= 0x1_0000_0000_0000_0000)
                    by (nonlinear_arith)
                    requires
                        0 <= root < 0x1_0000_0000,
                ;
            }
        }
        proof {
            lemma_int_sqrt(self as int);
            let s = int_sqrt(self as int);
            assert(root == s) by (nonlinear_arith)
                requires
                    root >= 0,
                    s >= 0,
                    root * root <= self,
                    self < (root + 1) * (root + 1),
                    s * s <= self,
                    self < (s + 1) * (s + 1),
            ;
        }
        root
    }

    fn channel(self) -> (r: u8) {
        if self <= 0 {
            0
        } else {
            255
        }
    }

    fn eq_val(self, o: i64) -> (r: bool) {
        self == o
    }

    proof fn law_add_zero(a: i64) {
    }

    proof fn law_mul_one(a: i64) {
        assert(a * 1 == a) by (nonlinear_arith);
        lemma_signed_crop_id(a as int);
    }

    proof fn law_mul_zero(a: i64) {
        assert(a * 0 == 0) by (nonlinear_arith);
        lemma_signed_crop_id(0);
    }

    proof fn law_mul_comm(a: i64, b: i64) {
        assert(a as int * b as int == b as int * a as int) by (nonlinear_arith);
    }

    proof fn law_add_sub(a: i64, b: i64) {
    }

    proof fn law_neg_sub(a: i64, b: i64) {
    }

    proof fn law_neg_zero() {
    }

    proof fn law_from_i32_zero(v: i32) {
    }
}

/// Cropping to the `i64` range is the identity on values already in it.
proof fn lemma_signed_crop_id(a: int)
    requires
        i64::MIN <= a <= i64::MAX,
    ensures
        vstd::wrapping::i64_specs::signed_crop(a) == a,
{
    let range = 0x1_0000_0000_0000_0000int;
    if a >= 0 {
        vstd::arithmetic::div_mod::lemma_small_mod(a as nat, range as nat);
    } else {
        vstd::arithmetic::div_mod::lemma_mod_add_multiples_vanish(a, range);
        vstd::arithmetic::div_mod::lemma_small_mod((a + range) as nat, range as nat);
    }
}

} // verus!
