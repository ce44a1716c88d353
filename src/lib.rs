//! Finds machine setups that took longer than their machine's limit, and
//! decides when the daily report about them is sent and how its delivery is
//! retried.

pub mod breaks;
pub mod config;
pub mod models;
pub mod pipeline;
pub mod reports;
pub mod retry;
pub mod schedule;
pub mod timestamp;
