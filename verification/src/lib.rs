//! A verified accounting engine for a single account's metered data
//! consumption: prioritized quota buckets, a pure deduction algorithm,
//! a bounded write-behind persistence queue, and a live-update notifier.

pub mod model;
pub mod deduct;
pub mod ext;
pub mod persist;
pub mod command;
pub mod history;
pub mod engine;

pub use model::{QuotaType, QuotaBucket, UserAccount, UsageRecord, TelcoError};
pub use engine::{TelcoSimulator, TelcoLiveUpdateHandler, CommandReply};
