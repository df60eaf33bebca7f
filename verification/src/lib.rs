//! Bulk management of workload services across clusters of a container
//! orchestration control plane: inventory listing, health audits, membership
//! diffs between a source and a destination cluster, and synthesis of the
//! creation and update requests that synchronize the destination.
//!
//! Every remote call is performed by the surrounding application; this crate
//! holds the verified decision logic: pagination bookkeeping, retry
//! classification, audit evaluation, membership diffs, and request planning.

pub mod audit;
pub mod inventory;
pub mod model;
pub mod retry;
pub mod seqs;
pub mod sync;
pub mod text;
pub mod update;
