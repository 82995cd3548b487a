//! The ways an operation is refused.

use vstd::prelude::*;

verus! {

/// Why an operation was refused. A refused operation changes nothing.
#[derive(Clone, Copy, Debug, PartialEq, Eq, Structural)]
pub enum Error {
    /// The caller is not the owner.
    Unauthorized,
    /// A participant is the null identity.
    ZeroAddress,
    /// An amount or parameter is outside its allowed range.
    InvalidAmount,
    /// The source holds fewer receipt tokens than asked for.
    InsufficientBalance,
    /// The spender may move fewer receipt tokens than asked for.
    InsufficientAllowance,
    /// The pool holds less of the base asset than is to be paid.
    InsufficientContractBalance,
    /// The withdrawal request was claimed before.
    AlreadyClaimed,
    /// The withdrawal request belongs to someone else, or to nobody.
    NotYourRequest,
    /// The withdrawal request has not matured.
    WithdrawalDelayNotMet,
    /// The operation is closed while the pool is paused, or open only then.
    Paused,
    /// A result would leave the 256-bit range, above it or below zero.
    Overflow,
    /// Receipt tokens are outstanding against a pooled value of zero, so the
    /// rate has no inverse.
    DivisionByZero,
}

} // verus!
