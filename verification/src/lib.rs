//! A subscription vault: prepaid subscriptions, merchant earnings buckets,
//! versioned configuration storage and replay protection, stated as
//! verified state transitions over plain values.

pub mod error;
pub mod safe_math;
pub mod events;
pub mod host;
pub mod idempotency;
pub mod types;
pub mod config;
pub mod admin;
pub mod merchant;
pub mod subscription;
pub mod normalize;
pub mod validation;
