//! Accounting engine of a pooled staking protocol: a fungible receipt-token
//! ledger, time-weighted yield accrual, exchange-rate conversion and a delayed
//! withdrawal queue, on exact 256-bit unsigned arithmetic.

pub mod address;
pub mod error;
pub mod event;
pub mod ledger;
pub mod params;
pub mod pool;
pub mod staking;
pub mod table;
pub mod u256;
pub mod withdrawal;
