//! What an operation hands back for the host to carry out: notifications to
//! emit and payments to make.

use vstd::prelude::*;
use crate::address::Address;
use crate::u256::U256;

verus! {

/// A notification of a state change.
#[derive(Clone, Copy, Debug, PartialEq, Eq, Structural)]
pub enum Event {
    /// Receipt tokens moved; minted when `from` is null, burned when `to` is.
    Transfer { from: Address, to: Address, value: U256 },
    /// `spender` may now move `value` of `owner`'s receipt tokens.
    Approval { owner: Address, spender: Address, value: U256 },
    /// `user` deposited `eth_amount` and received `st_eth_minted`.
    Staked { user: Address, eth_amount: U256, st_eth_minted: U256 },
    /// The pooled value grew by `total_rewards`.
    RewardsDistributed { total_rewards: U256 },
    /// `user` locked `st_eth_amount` in the request `request_id`.
    WithdrawalRequested { user: Address, st_eth_amount: U256, request_id: U256 },
    /// The request `request_id` of `user` was paid out with `eth_amount`.
    WithdrawalClaimed { user: Address, request_id: U256, eth_amount: U256 },
    /// Ownership passed from `previous_owner` to `new_owner`.
    OwnershipTransferred { previous_owner: Address, new_owner: Address },
    /// User operations were closed.
    Pause,
    /// User operations were opened again.
    Unpaused,
}

/// An order to pay `amount` of the base asset to `to`. The state that goes
/// with it is committed before the order is handed out.
#[derive(Clone, Copy, Debug, PartialEq, Eq, Structural)]
pub struct Payout {
    pub to: Address,
    pub amount: U256,
}

} // verus!
