//! A social graph engine for a population of autonomous agents.
//!
//! The library keeps a ledger of pairwise agent relationships, tracks
//! agent-to-agent learning, maintains per-agent network metrics, and
//! composes the three into an orchestrated interaction pipeline with
//! network-level analytics.
//!
//! All bounded scores (relationship strength, centrality, influence,
//! effectiveness) are carried as integers in thousandths: the value `1000`
//! stands for the maximum `1.0`, `100` for `0.1`, and so on. Timestamps
//! are milliseconds on a single monotonic-enough wall clock.

mod clock;
pub mod engine;
mod ids;
pub mod labels;
pub mod network_analyzer;
pub mod relationship_manager;
pub mod search;
pub mod social_learning;
pub mod types;
pub mod workflow;

pub use types::AgentId;
