//! Job state tracking and status aggregation for object-evacuation jobs.
//!
//! Each evacuation job owns one isolated persistence unit holding one
//! record per tracked object. This crate provides the store lifecycle,
//! the per-object state machine, and the read-side aggregation, listing
//! and pagination built on top of it.

pub mod ids;
pub mod pagination;
pub mod records;
pub mod states;
pub mod status;
pub mod store;
