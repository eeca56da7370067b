//! Live volleyball scoreboard core: the match scoring state machine and the
//! view-scoped broadcast registry that keeps connected observers in sync.
//!
//! The scoring engine is pure decision logic over a match value; the store
//! applies transitions as atomic conditional updates keyed by match id; the
//! registry fans a committed snapshot out to exactly the connections whose
//! subscription matches the affected view.

pub mod coordinator;
pub mod registry;
pub mod scoring;
pub mod store;
