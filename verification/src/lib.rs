//! A constant-product automated-market-maker settlement engine.
//!
//! A [`pair::Pair`] holds the accounting record of one two-token liquidity
//! pool: its reserves, time-weighted price accumulators, invariant snapshot
//! and mirrored share supply.  Deposits ([`pair::Pair::mint`]), withdrawals
//! ([`pair::Pair::burn`]) and trades ([`pair::Pair::swap`]) settle against
//! token ledgers ([`ledger::TokenLedger`]) and a pair registry
//! ([`registry::UniswapCore`]), each operation either committing completely
//! or leaving every record unchanged.

pub mod ledger;
pub mod math;
pub mod pair;
pub mod registry;
pub mod laws;
