//! Real-time update propagation core for a multi-tenant school backend.
//!
//! The crate verifies the hard parts of that backend: the per-tenant
//! connection registry with snapshot-then-send broadcasting, the change-feed
//! listener and its supervision policy, the wire codec for change events, and
//! the wildcard-based authorization checker with its TTL-bounded, per-user
//! permission cache. Routing, storage and transport stay outside; they talk
//! to this crate through plain values.

pub mod action;
pub mod cache;
pub mod checker;
pub mod config;
pub mod event;
pub mod glob;
pub mod listener;
pub mod paging;
pub mod permission;
pub mod redis_store;
pub mod registry;
pub mod response;
pub mod text;

pub use action::Action;
