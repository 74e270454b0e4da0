//! Verified core logic of the marginfi lending protocol and its command-line client.
//!
//! - [`fixed_point`]: signed 80.48 fixed-point numbers.
//! - [`drift`], [`kamino`]: the integrated venues' balance arithmetic and interest-rate models.
//! - [`rebalance`]: same-mint auto-rebalance orders (move lists, rate gates, budget, keeper tip,
//!   settlement, fee pool).
//! - [`health`]: the health pulse and the liquidation record's tag and close rules.
//! - [`transfer`], [`borrow`], [`account_admin`]: position transfers, borrow fees, administrative
//!   closes and purges.
//! - [`integration`], [`venue`], [`flags`]: protocol account layout, the checks around venue
//!   calls, and the flags a bank caches from its venue.
//! - [`pubkey`], [`observation`], [`oracle_ages`]: addresses, the observation accounts the risk
//!   engine reads, and the client's oracle-age report.
//! - [`bankruptcy`]: grouping of bankruptcy instructions into transactions.
//! - [`profile`], [`cli`]: the client's profile store and command-line values.
use vstd::prelude::*;

pub mod fixed_point;
pub mod drift;
pub mod kamino;
pub mod pubkey;
pub mod observation;
pub mod oracle_ages;
pub mod rebalance;
pub mod health;
pub mod transfer;
pub mod borrow;
pub mod integration;
pub mod venue;
pub mod account_admin;
pub mod flags;
pub mod bankruptcy;
pub mod profile;
pub mod cli;

verus! {

} // verus!
