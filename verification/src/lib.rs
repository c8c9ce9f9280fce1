//! Core logic for a sharded gateway fleet: cluster partitioning,
//! admission-controlled bring-up, a durable state-cache model with
//! per-category TTLs, the per-event fan-in pipeline, session-resume
//! capture, and the periodic job scheduler.
//!
//! All I/O (the durable store connection, the wire-level gateway client,
//! signals, timers) lives outside this crate; these modules hold the
//! decisions and data transformations, each with a verified contract.

pub mod admission;
pub mod cache;
pub mod config;
pub mod events;
pub mod jobs;
pub mod pipeline;
pub mod sessions;
pub mod shards;
