//! Dispatch of batched value transfers against a ledger: plan expansion,
//! admission control, confirmation polling and outcome aggregation, with the
//! decisions of the balance checker and the block watcher beside them.

pub mod address;
pub mod amount;
pub mod balance;
pub mod cli;
pub mod dispatch;
pub mod plan;
pub mod poll;
pub mod report;
pub mod unit;
pub mod watcher;
