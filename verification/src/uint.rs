//! 256-bit and 512-bit unsigned integers, modelled as natural numbers.

use vstd::arithmetic::div_mod::lemma_fundamental_div_mod_converse;
use vstd::prelude::*;

verus! {

/// Two to the power 256.
pub open spec fn pow256() -> nat {
    0x1_0000_0000_0000_0000_0000_0000_0000_0000_0000_0000_0000_0000_0000_0000_0000_0000nat
}

/// A 256-bit unsigned integer held as four 64-bit limbs, `l0` the least significant.
#[derive(Clone, Copy, Debug, PartialEq, Eq, Structural)]
pub struct U256 {
    pub l0: u64,
    pub l1: u64,
    pub l2: u64,
    pub l3: u64,
}

impl View for U256 {
    type V = nat;

    open spec fn view(&self) -> nat {
        (self.l0 as nat) + (self.l1 as nat) * 0x1_0000_0000_0000_0000 + (self.l2 as nat)
            * 0x1_0000_0000_0000_0000_0000_0000_0000_0000nat + (self.l3 as nat)
            * 0x1_0000_0000_0000_0000_0000_0000_0000_0000_0000_0000_0000_0000nat
    }
}

impl U256 {
    /// The number zero.
    pub fn zero() -> (r: U256)
        ensures
            r@ == 0,
    {
        U256 { l0: 0, l1: 0, l2: 0, l3: 0 }
    }

    /// Widens a 64-bit value.
    pub fn from_u64(value: u64) -> (r: U256)
        ensures
            r@ == value as nat,
    {
        U256 { l0: value, l1: 0, l2: 0, l3: 0 }
    }

    /// Whether the number is zero.
    pub fn is_zero(&self) -> (r: bool)
        ensures
            r == (self@ == 0),
    {
        self.l0 == 0 && self.l1 == 0 && self.l2 == 0 && self.l3 == 0
    }

    /// Strict order on the numbers held.
    #[verifier::rlimit(40)]
    pub fn lt(&self, other: &U256) -> (r: bool)
        ensures
            r == (self@ < other@),
    {
        if self.l3 != other.l3 {
            self.l3 < other.l3
        } else if self.l2 != other.l2 {
            self.l2 < other.l2
        } else if self.l1 != other.l1 {
            self.l1 < other.l1
        } else {
            self.l0 < other.l0
        }
    }
}

impl U256 {
    /// The value that holds a number below two to the power 256.
    pub closed spec fn from_nat(n: nat) -> U256 {
        U256 {
            l0: (n % 0x1_0000_0000_0000_0000) as u64,
            l1: ((n / 0x1_0000_0000_0000_0000) % 0x1_0000_0000_0000_0000) as u64,
            l2: ((n / 0x1_0000_0000_0000_0000 / 0x1_0000_0000_0000_0000) % 0x1_0000_0000_0000_0000) as u64,
            l3: ((n / 0x1_0000_0000_0000_0000 / 0x1_0000_0000_0000_0000 / 0x1_0000_0000_0000_0000)
                % 0x1_0000_0000_0000_0000) as u64,
        }
    }

    /// A value is the value that holds its number.
    pub proof fn lemma_from_nat(self)
        ensures
            U256::from_nat(self@) == self,
    {
        let b = self.l2 as int + self.l3 as int * 0x1_0000_0000_0000_0000;
        let a = self.l1 as int + b * 0x1_0000_0000_0000_0000;
        assert(self@ as int == a * 0x1_0000_0000_0000_0000 + self.l0 as int);
        lemma_fundamental_div_mod_converse(self@ as int, 0x1_0000_0000_0000_0000, a, self.l0 as int);
        lemma_fundamental_div_mod_converse(a, 0x1_0000_0000_0000_0000, b, self.l1 as int);
        lemma_fundamental_div_mod_converse(b, 0x1_0000_0000_0000_0000, self.l3 as int, self.l2 as int);
    }
}

/// Adds two limbs and an incoming carry; returns the low limb and the outgoing carry.
pub fn add_limb(a: u64, b: u64, carry: u64) -> (r: (u64, u64))
    requires
        carry <= 1,
    ensures
        r.1 <= 1,
        a as nat + b as nat + carry as nat == r.0 as nat + r.1 as nat * 0x1_0000_0000_0000_0000,
{
    let (s, c1): (u64, u64) = if a <= u64::MAX - b {
        (a + b, 0)
    } else {
        (a - (u64::MAX - b) - 1, 1)
    };
    if s <= u64::MAX - carry {
        (s + carry, c1)
    } else {
        (0, 1)
    }
}

/// Subtracts a limb and an incoming borrow from a limb; returns the low limb and the
/// outgoing borrow.
pub fn sub_limb(a: u64, b: u64, borrow: u64) -> (r: (u64, u64))
    requires
        borrow <= 1,
    ensures
        r.1 <= 1,
        a as int - b as int - borrow as int == r.0 as int - r.1 as int * 0x1_0000_0000_0000_0000,
{
    let (d, b1): (u64, u64) = if a >= b {
        (a - b, 0)
    } else {
        (u64::MAX - (b - a) + 1, 1)
    };
    if d >= borrow {
        (d - borrow, b1)
    } else {
        (u64::MAX, 1)
    }
}

impl U256 {
    /// The largest number, two to the power 256 less one.
    pub fn max_value() -> (r: U256)
        ensures
            r@ == pow256() - 1,
    {
        U256 {
            l0: 0xffff_ffff_ffff_ffff,
            l1: 0xffff_ffff_ffff_ffff,
            l2: 0xffff_ffff_ffff_ffff,
            l3: 0xffff_ffff_ffff_ffff,
        }
    }

    /// Every number held is below two to the power 256.
    #[verifier::rlimit(40)]
    pub proof fn lemma_bounded(self)
        ensures
            self@ < pow256(),
    {
    }

    /// Two values that hold the same number are the same value.
    pub proof fn lemma_view_injective(self, other: U256)
        requires
            self@ == other@,
        ensures
            self == other,
    {
        self.lemma_from_nat();
        other.lemma_from_nat();
    }

    /// Whether the number fits in 64 bits.
    pub fn fits_u64(&self) -> (r: bool)
        ensures
            r == (self@ <= u64::MAX as nat),
    {
        self.l1 == 0 && self.l2 == 0 && self.l3 == 0
    }

    /// The number as a 64-bit value.
    pub fn as_u64(&self) -> (r: u64)
        requires
            self@ <= u64::MAX as nat,
        ensures
            r as nat == self@,
    {
        self.l0
    }

    /// The sum, or `None` when it does not fit in 256 bits.
    #[verifier::rlimit(40)]
    pub fn checked_add(&self, other: &U256) -> (r: Option<U256>)
        ensures
            self@ + other@ < pow256() ==> r is Some && r->0@ == self@ + other@,
            self@ + other@ >= pow256() ==> r is None,
    {
        let (l0, c0) = add_limb(self.l0, other.l0, 0);
        let (l1, c1) = add_limb(self.l1, other.l1, c0);
        let (l2, c2) = add_limb(self.l2, other.l2, c1);
        let (l3, c3) = add_limb(self.l3, other.l3, c2);
        let sum = U256 { l0, l1, l2, l3 };
        assert(self@ + other@ == sum@ + c3 as nat
            * 0x1_0000_0000_0000_0000_0000_0000_0000_0000_0000_0000_0000_0000_0000_0000_0000_0000nat);
        if c3 == 0 {
            Some(sum)
        } else {
            None
        }
    }

    /// The difference, or `None` when `other` is the larger.
    #[verifier::rlimit(40)]
    pub fn checked_sub(&self, other: &U256) -> (r: Option<U256>)
        ensures
            self@ >= other@ ==> r is Some && r->0@ == self@ - other@,
            self@ < other@ ==> r is None,
    {
        let (l0, b0) = sub_limb(self.l0, other.l0, 0);
        let (l1, b1) = sub_limb(self.l1, other.l1, b0);
        let (l2, b2) = sub_limb(self.l2, other.l2, b1);
        let (l3, b3) = sub_limb(self.l3, other.l3, b2);
        let diff = U256 { l0, l1, l2, l3 };
        assert(self@ as int - other@ as int == diff@ as int - b3 as int
            * 0x1_0000_0000_0000_0000_0000_0000_0000_0000_0000_0000_0000_0000_0000_0000_0000_0000int);
        if b3 == 0 {
            Some(diff)
        } else {
            None
        }
    }

    /// The sum of two numbers whose sum fits in 256 bits.
    pub fn add(&self, other: &U256) -> (r: U256)
        requires
            self@ + other@ < pow256(),
        ensures
            r@ == self@ + other@,
    {
        self.checked_add(other).unwrap()
    }

    /// The difference of two numbers, the first at least the second.
    pub fn sub(&self, other: &U256) -> (r: U256)
        requires
            self@ >= other@,
        ensures
            r@ == self@ - other@,
    {
        self.checked_sub(other).unwrap()
    }

    /// The difference, or zero when `other` is the larger.
    pub fn saturating_sub(&self, other: &U256) -> (r: U256)
        ensures
            r@ == if self@ >= other@ { self@ - other@ } else { 0 },
    {
        match self.checked_sub(other) {
            Some(v) => v,
            None => U256::zero(),
        }
    }
}

impl U256 {
    /// Adds two numbers and an incoming carry; returns the low 256 bits and the outgoing carry.
    #[verifier::rlimit(40)]
    pub fn carrying_add(&self, other: &U256, carry: u64) -> (r: (U256, u64))
        requires
            carry <= 1,
        ensures
            r.1 <= 1,
            self@ + other@ + carry as nat == r.0@ + r.1 as nat
                * 0x1_0000_0000_0000_0000_0000_0000_0000_0000_0000_0000_0000_0000_0000_0000_0000_0000nat,
    {
        let (l0, c0) = add_limb(self.l0, other.l0, carry);
        let (l1, c1) = add_limb(self.l1, other.l1, c0);
        let (l2, c2) = add_limb(self.l2, other.l2, c1);
        let (l3, c3) = add_limb(self.l3, other.l3, c2);
        (U256 { l0, l1, l2, l3 }, c3)
    }

    /// The full product of two 256-bit numbers.
    ///
    /// Calls `U256::full_mul` of `cfx_types`, which multiplies two 256-bit integers into a
    /// 512-bit integer and cannot overflow. The contract claims that the limbs that come back
    /// hold the product.
    #[verifier::external_body]
    pub(crate) fn full_mul(&self, other: &U256) -> (r: U512)
        ensures
            r@ == self@ * other@,
    {
        let a = cfx_types::U256([self.l0, self.l1, self.l2, self.l3]);
        let p = a.full_mul(cfx_types::U256([other.l0, other.l1, other.l2, other.l3]));
        U512 {
            lo: U256 { l0: p.0[0], l1: p.0[1], l2: p.0[2], l3: p.0[3] },
            hi: U256 { l0: p.0[4], l1: p.0[5], l2: p.0[6], l3: p.0[7] },
        }
    }

    /// The product, held at the largest number when it does not fit in 256 bits.
    ///
    /// Calls `U256::saturating_mul` of `cfx_types`, which returns the product where it fits
    /// and the maximum value where the multiplication overflows.
    #[verifier::external_body]
    pub(crate) fn saturating_mul(&self, other: &U256) -> (r: U256)
        ensures
            r@ == if self@ * other@ < pow256() { self@ * other@ } else { (pow256() - 1) as nat },
    {
        let a = cfx_types::U256([self.l0, self.l1, self.l2, self.l3]);
        let p = a.saturating_mul(cfx_types::U256([other.l0, other.l1, other.l2, other.l3]));
        U256 { l0: p.0[0], l1: p.0[1], l2: p.0[2], l3: p.0[3] }
    }

    /// The product, or `None` when it does not fit in 256 bits.
    ///
    /// Calls `U256::checked_mul` of `cfx_types`, which returns `None` exactly when the
    /// multiplication overflows and the product otherwise.
    #[verifier::external_body]
    pub(crate) fn checked_mul(&self, other: &U256) -> (r: Option<U256>)
        ensures
            self@ * other@ < pow256() ==> r is Some && r->0@ == self@ * other@,
            self@ * other@ >= pow256() ==> r is None,
    {
        let a = cfx_types::U256([self.l0, self.l1, self.l2, self.l3]);
        match a.checked_mul(cfx_types::U256([other.l0, other.l1, other.l2, other.l3])) {
            Some(p) => Some(U256 { l0: p.0[0], l1: p.0[1], l2: p.0[2], l3: p.0[3] }),
            None => None,
        }
    }

    /// The quotient rounded down, or `None` when the divisor is zero.
    ///
    /// Calls `U256::checked_div` of `cfx_types`, which returns `None` exactly when the divisor
    /// is zero and the integer quotient otherwise.
    #[verifier::external_body]
    pub(crate) fn checked_div(&self, other: &U256) -> (r: Option<U256>)
        ensures
            other@ != 0 ==> r is Some && r->0@ == self@ / other@,
            other@ == 0 ==> r is None,
    {
        let a = cfx_types::U256([self.l0, self.l1, self.l2, self.l3]);
        match a.checked_div(cfx_types::U256([other.l0, other.l1, other.l2, other.l3])) {
            Some(p) => Some(U256 { l0: p.0[0], l1: p.0[1], l2: p.0[2], l3: p.0[3] }),
            None => None,
        }
    }
}

/// A 512-bit unsigned integer held as two 256-bit halves.
#[derive(Clone, Copy, Debug, PartialEq, Eq, Structural)]
pub struct U512 {
    pub lo: U256,
    pub hi: U256,
}

impl View for U512 {
    type V = nat;

    open spec fn view(&self) -> nat {
        self.lo@ + self.hi@
            * 0x1_0000_0000_0000_0000_0000_0000_0000_0000_0000_0000_0000_0000_0000_0000_0000_0000nat
    }
}

impl U512 {
    /// The value that holds a number below two to the power 512.
    pub closed spec fn from_nat(n: nat) -> U512 {
        U512 { lo: U256::from_nat(n % pow256()), hi: U256::from_nat(n / pow256()) }
    }

    /// A value is the value that holds its number.
    pub proof fn lemma_from_nat(self)
        ensures
            U512::from_nat(self@) == self,
    {
        self.lo.lemma_from_nat();
        self.hi.lemma_from_nat();
        self.lo.lemma_bounded();
        lemma_fundamental_div_mod_converse(
            self@ as int,
            0x1_0000_0000_0000_0000_0000_0000_0000_0000_0000_0000_0000_0000_0000_0000_0000_0000int,
            self.hi@ as int,
            self.lo@ as int,
        );
    }
}

impl U512 {
    /// Widens a 256-bit number.
    pub fn from_u256(value: &U256) -> (r: U512)
        ensures
            r@ == value@,
    {
        U512 { lo: *value, hi: U256::zero() }
    }

    /// Strict order on the numbers held.
    #[verifier::rlimit(40)]
    pub fn lt(&self, other: &U512) -> (r: bool)
        ensures
            r == (self@ < other@),
    {
        proof {
            self.lo.lemma_bounded();
            other.lo.lemma_bounded();
            if self.hi@ == other.hi@ {
                self.hi.lemma_view_injective(other.hi);
            }
            let p = 0x1_0000_0000_0000_0000_0000_0000_0000_0000_0000_0000_0000_0000_0000_0000_0000_0000nat;
            let (a, b) = (self.hi@, other.hi@);
            if a < b {
                assert(a * p + p <= b * p) by (nonlinear_arith)
                    requires
                        a + 1 <= b,
                ;
            }
            if b < a {
                assert(b * p + p <= a * p) by (nonlinear_arith)
                    requires
                        b + 1 <= a,
                ;
            }
        }
        if self.hi != other.hi {
            self.hi.lt(&other.hi)
        } else {
            self.lo.lt(&other.lo)
        }
    }

    /// The smaller of two numbers.
    pub fn min(&self, other: &U512) -> (r: U512)
        ensures
            r@ == if self@ <= other@ { self@ } else { other@ },
    {
        if other.lt(self) {
            *other
        } else {
            *self
        }
    }

    /// The sum, or `None` when it does not fit in 512 bits.
    #[verifier::rlimit(40)]
    pub fn checked_add(&self, other: &U512) -> (r: Option<U512>)
        ensures
            self@ + other@ < pow256() * pow256() ==> r is Some && r->0@ == self@ + other@,
            self@ + other@ >= pow256() * pow256() ==> r is None,
    {
        let (lo, c0) = self.lo.carrying_add(&other.lo, 0);
        let (hi, c1) = self.hi.carrying_add(&other.hi, c0);
        let sum = U512 { lo, hi };
        assert(self@ + other@ == sum@ + c1 as nat
            * 0x1_0000_0000_0000_0000_0000_0000_0000_0000_0000_0000_0000_0000_0000_0000_0000_0000nat
            * 0x1_0000_0000_0000_0000_0000_0000_0000_0000_0000_0000_0000_0000_0000_0000_0000_0000nat);
        if c1 == 0 {
            Some(sum)
        } else {
            None
        }
    }

    /// The number as a 256-bit value, or `None` when it does not fit.
    pub fn to_u256(&self) -> (r: Option<U256>)
        ensures
            self@ < pow256() ==> r is Some && r->0@ == self@,
            self@ >= pow256() ==> r is None,
    {
        if self.hi.is_zero() {
            Some(self.lo)
        } else {
            None
        }
    }
}

} // verus!
