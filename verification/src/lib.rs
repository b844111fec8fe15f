//! Verified core of the CL8Y grid and fee contracts: fee-tier resolution,
//! fee-collector accounting, share and NAV arithmetic, the market-grid
//! rebalancer and the limit-grid vault bookkeeping. Storage, chain queries and
//! message dispatch live outside this crate; every decision they feed is a
//! function here with a contract.
use vstd::prelude::*;

pub mod book;
pub mod bot_liquidity;
pub mod errors;
pub mod fee_collector;
pub mod fee_registry;
pub mod grid_funds;
pub mod grid_manager;
pub mod grid_math;
pub mod grid_orders;
pub mod grid_pages;
pub mod grid_reconcile;
pub mod grid_replies;
pub mod grid_solvency;
pub mod grid_types;
pub mod grid_vault;
pub mod id_set;
pub mod id_table;
pub mod limits;
pub mod market;
pub mod market_setup;
pub mod market_vault;
pub mod math;
pub mod versioning;
