//! Real-time collaborative editing engine.
//!
//! The heart of the crate is [`engine`], a verified model of the
//! collaboration server: connection registry, session membership,
//! ordered operation relay, chat relay and liveness monitoring.
//! The remaining modules hold the verified domain types and helpers
//! that the surrounding service shares with the engine.

pub mod auth;
pub mod collaboration;
pub mod compilation;
pub mod config;
pub mod crypto;
pub mod engine;
pub mod errors;
pub mod files;
pub mod models;
pub mod protocol;
pub mod ratelimit;
pub mod text;
pub mod users;
pub mod workspaces;

pub use models::PaginationParams;
