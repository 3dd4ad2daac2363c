//! Intent lifecycle engine: drafting, confirmation and at-most-once execution
//! of value transfers.

pub mod accounts;
pub mod agent;
pub mod amount;
pub mod engine;
pub mod chat;
pub mod errors;
pub mod hashing;
pub mod payload;
pub mod json;
pub mod ledger;
pub mod plan;
pub mod planner;
pub mod principal;
pub mod registry;
pub mod replies;
pub mod seqs;
pub mod session;
pub mod text;
pub mod tokens;
pub mod tools;
