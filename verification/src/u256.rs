//! 256-bit unsigned integers.
//!
//! A value is held as four 64-bit limbs and viewed as the natural number they
//! spell. Comparison is verified here; addition, subtraction, multiplication
//! and division are done by `ruint` (through `alloy_primitives::U256`) behind
//! contracts over that view.
//!
//! The contracts were read against `ruint` 1.12.3, and the crate holds
//! `ruint` to that release: it is also the one that `stylus_sdk` 0.8, which
//! the host adapter calls, compiles with.

use vstd::prelude::*;

verus! {

/// 2^64, the weight of the second limb.
pub open spec fn pow2_64() -> nat {
    0x1_0000_0000_0000_0000nat
}

/// 2^128, the weight of the third limb.
pub open spec fn pow2_128() -> nat {
    0x1_0000_0000_0000_0000_0000_0000_0000_0000nat
}

/// 2^192, the weight of the fourth limb.
pub open spec fn pow2_192() -> nat {
    0x1_0000_0000_0000_0000_0000_0000_0000_0000_0000_0000_0000_0000nat
}

/// 2^256: every `U256` is below it.
pub open spec fn pow2_256() -> nat {
    0x1_0000_0000_0000_0000_0000_0000_0000_0000_0000_0000_0000_0000_0000_0000_0000_0000nat
}

/// A 256-bit unsigned integer: four 64-bit limbs, least significant first.
#[derive(Clone, Copy, Debug, PartialEq, Eq, Structural)]
pub struct U256 {
    pub l0: u64,
    pub l1: u64,
    pub l2: u64,
    pub l3: u64,
}

impl View for U256 {
    type V = nat;

    /// The number that the limbs spell.
    open spec fn view(&self) -> nat {
        (self.l0 as nat) + (self.l1 as nat) * pow2_64() + (self.l2 as nat) * pow2_128() + (
        self.l3 as nat) * pow2_192()
    }
}

impl U256 {
    /// Zero.
    pub fn zero() -> (r: U256)
        ensures
            r@ == 0,
    {
        U256 { l0: 0, l1: 0, l2: 0, l3: 0 }
    }

    /// The 256-bit integer equal to `x`.
    pub fn from_u64(x: u64) -> (r: U256)
        ensures
            r@ == x,
    {
        U256 { l0: x, l1: 0, l2: 0, l3: 0 }
    }

    /// The integer with the given limbs, least significant first.
    pub fn from_limbs(limbs: [u64; 4]) -> (r: U256)
        ensures
            r == (U256 { l0: limbs[0], l1: limbs[1], l2: limbs[2], l3: limbs[3] }),
    {
        U256 { l0: limbs[0], l1: limbs[1], l2: limbs[2], l3: limbs[3] }
    }

    /// The limbs, least significant first.
    pub fn into_limbs(self) -> (r: [u64; 4])
        ensures
            r[0] == self.l0,
            r[1] == self.l1,
            r[2] == self.l2,
            r[3] == self.l3,
    {
        [self.l0, self.l1, self.l2, self.l3]
    }

    /// The value as a `u64`, when it fits.
    pub fn to_u64(&self) -> (r: Option<u64>)
        ensures
            r.is_some() <==> self@ <= u64::MAX,
            r matches Some(v) ==> v == self@,
    {
        if self.l1 == 0 && self.l2 == 0 && self.l3 == 0 {
            Some(self.l0)
        } else {
            None
        }
    }

    /// Whether the value is zero.
    pub fn is_zero(&self) -> (r: bool)
        ensures
            r == (self@ == 0),
    {
        self.l0 == 0 && self.l1 == 0 && self.l2 == 0 && self.l3 == 0
    }

    /// Whether `self` is strictly below `other`.
    pub fn lt(&self, other: &U256) -> (r: bool)
        ensures
            r == (self@ < other@),
    {
        if self.l3 != other.l3 {
            self.l3 < other.l3
        } else if self.l2 != other.l2 {
            self.l2 < other.l2
        } else if self.l1 != other.l1 {
            self.l1 < other.l1
        } else {
            self.l0 < other.l0
        }
    }

    /// Whether `self` is at most `other`.
    pub fn le(&self, other: &U256) -> (r: bool)
        ensures
            r == (self@ <= other@),
    {
        !other.lt(self)
    }

    /// The 256-bit integer that spells `n`, for `n` below 2^256.
    pub open spec fn spec_from_nat(n: nat) -> U256 {
        U256 {
            l0: (n % pow2_64()) as u64,
            l1: (n / pow2_64() % pow2_64()) as u64,
            l2: (n / pow2_128() % pow2_64()) as u64,
            l3: (n / pow2_192() % pow2_64()) as u64,
        }
    }

    /// `spec_from_nat` and the view undo each other.
    pub proof fn lemma_from_nat(n: nat)
        requires
            n < pow2_256(),
        ensures
            U256::spec_from_nat(n)@ == n,
    {
    }

    /// A value is the one that its own number spells.
    pub proof fn lemma_from_view(self)
        ensures
            U256::spec_from_nat(self@) == self,
    {
        self.lemma_bounded();
        U256::lemma_from_nat(self@);
        U256::spec_from_nat(self@).lemma_view_injective(self);
    }

    /// Every value is below 2^256.
    pub proof fn lemma_bounded(self)
        ensures
            self@ < pow2_256(),
    {
    }

    /// Two values are the same exactly when they spell the same number.
    pub proof fn lemma_view_injective(self, other: U256)
        ensures
            (self@ == other@) <==> (self == other),
    {
    }
}

/// `ruint::Uint::checked_add` on 256-bit operands: the exact sum when it is
/// below 2^256, nothing otherwise.
#[verifier::external_body]
pub(crate) fn checked_add(a: U256, b: U256) -> (r: Option<U256>)
    ensures
        r.is_some() <==> a@ + b@ < pow2_256(),
        r matches Some(s) ==> s@ == a@ + b@,
{
    let x = alloy_primitives::U256::from_limbs([a.l0, a.l1, a.l2, a.l3]);
    let y = alloy_primitives::U256::from_limbs([b.l0, b.l1, b.l2, b.l3]);
    match x.checked_add(y) {
        Some(s) => {
            let l = s.into_limbs();
            Some(U256 { l0: l[0], l1: l[1], l2: l[2], l3: l[3] })
        },
        None => None,
    }
}

/// `ruint::Uint::checked_sub` on 256-bit operands: the exact difference when
/// the second operand does not exceed the first, nothing otherwise.
#[verifier::external_body]
pub(crate) fn checked_sub(a: U256, b: U256) -> (r: Option<U256>)
    ensures
        r.is_some() <==> b@ <= a@,
        r matches Some(d) ==> d@ == a@ - b@,
{
    let x = alloy_primitives::U256::from_limbs([a.l0, a.l1, a.l2, a.l3]);
    let y = alloy_primitives::U256::from_limbs([b.l0, b.l1, b.l2, b.l3]);
    match x.checked_sub(y) {
        Some(d) => {
            let l = d.into_limbs();
            Some(U256 { l0: l[0], l1: l[1], l2: l[2], l3: l[3] })
        },
        None => None,
    }
}

/// `ruint::Uint::checked_mul` on 256-bit operands: the exact product when it
/// is below 2^256, nothing otherwise.
#[verifier::external_body]
pub(crate) fn checked_mul(a: U256, b: U256) -> (r: Option<U256>)
    ensures
        r.is_some() <==> a@ * b@ < pow2_256(),
        r matches Some(p) ==> p@ == a@ * b@,
{
    let x = alloy_primitives::U256::from_limbs([a.l0, a.l1, a.l2, a.l3]);
    let y = alloy_primitives::U256::from_limbs([b.l0, b.l1, b.l2, b.l3]);
    match x.checked_mul(y) {
        Some(p) => {
            let l = p.into_limbs();
            Some(U256 { l0: l[0], l1: l[1], l2: l[2], l3: l[3] })
        },
        None => None,
    }
}

/// `ruint::Uint::checked_div` on 256-bit operands: the quotient rounded down
/// when the divisor is not zero, nothing otherwise.
#[verifier::external_body]
pub(crate) fn checked_div(a: U256, b: U256) -> (r: Option<U256>)
    ensures
        r.is_some() <==> b@ != 0,
        r matches Some(q) ==> q@ == a@ / b@,
{
    let x = alloy_primitives::U256::from_limbs([a.l0, a.l1, a.l2, a.l3]);
    let y = alloy_primitives::U256::from_limbs([b.l0, b.l1, b.l2, b.l3]);
    match x.checked_div(y) {
        Some(q) => {
            let l = q.into_limbs();
            Some(U256 { l0: l[0], l1: l[1], l2: l[2], l3: l[3] })
        },
        None => None,
    }
}

} // verus!
