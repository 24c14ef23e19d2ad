//! A ledger of client accounts driven by an ordered stream of transactions.
//!
//! Monetary values are fixed-point: one unit is a ten-thousandth.

pub mod ledger;
pub mod processing;
