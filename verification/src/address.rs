//! Account identities.

use vstd::prelude::*;

verus! {

/// A 160-bit account identity, as the host environment hands it out: the top
/// 32 bits in `hi`, the low 128 bits in `lo`.
#[derive(Clone, Copy, Debug, PartialEq, Eq, Structural)]
pub struct Address {
    pub hi: u32,
    pub lo: u128,
}

impl Address {
    /// The null identity: all bits zero.
    pub open spec fn spec_zero() -> Address {
        Address { hi: 0, lo: 0 }
    }

    /// The null identity.
    #[verifier::when_used_as_spec(spec_zero)]
    pub fn zero() -> (r: Address)
        ensures
            r == Address::spec_zero(),
    {
        Address { hi: 0, lo: 0 }
    }

    /// Whether `self` is the null identity.
    pub fn is_zero(&self) -> (r: bool)
        ensures
            r == (*self == Address::spec_zero()),
    {
        self.hi == 0 && self.lo == 0
    }
}

} // verus!
