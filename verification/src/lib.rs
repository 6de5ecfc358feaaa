//! Core of a small release-tracking backend. The one piece with real
//! engineering content is the release aggregation cache: upstream responses
//! are classified into typed per-project outcomes, a fan-out's outcomes are
//! merged into one deterministic sequence of releases with failures dropped,
//! and a time-to-live cache serves the aggregate with single-flight refresh
//! semantics. Around it stand the error taxonomy, the token claims, and the
//! plain data types of the request layer.

pub mod config;
pub mod errors;
pub mod models;
pub mod setting;
