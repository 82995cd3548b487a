//! The protocol's fixed parameters.

use vstd::prelude::*;

verus! {

/// One hundred percent, in basis points.
pub const BASIS_POINTS: u64 = 10000;

/// The length of the year that the annual rate refers to, in seconds.
pub const SECONDS_PER_YEAR: u64 = 31536000;

/// The withdrawal delay that a new pool starts with, in seconds.
pub const SEVEN_DAYS: u64 = 604800;

/// The longest withdrawal delay that can be set, in seconds.
pub const THIRTY_DAYS: u64 = 2592000;

/// The highest annual rate that can be set, in basis points.
pub const MAX_APY: u64 = 2000;

/// The annual rate that a new pool starts with, in basis points.
pub const INITIAL_APY: u64 = 500;

/// The scale of the exchange rate: the rate of one base unit per receipt
/// token.
pub const ONE_ETHER: u64 = 1000000000000000000;

/// The decimals of the receipt token.
pub const DECIMALS: u64 = 18;

} // verus!
