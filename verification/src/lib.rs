//! Routing-table manager for multi-hop token swaps on an automated
//! market maker network.
//!
//! The library keeps a table from (input asset, output asset) pairs to
//! multi-hop swap routes, checks a proposed route against a snapshot of
//! pool liquidity before accepting it, and builds the ledger-facing
//! swap request from a stored route and a trade intent.

pub mod decimal;
pub mod error;
pub mod helpers;
pub mod laws;
pub mod msg;
pub mod route;
pub mod state;
