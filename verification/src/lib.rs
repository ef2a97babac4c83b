//! Core of a therapy-session tracking service: user registration, a two-phase
//! session lifecycle (start, end) guarded by ownership checks, a monotonic
//! session-id counter, a rule engine deriving voice-emotion labels and stress
//! indicators from two acoustic scalars, and on-demand progress reports
//! aggregated over a caller's session history.
//!
//! The transport layer supplies the authenticated caller identity and the
//! current logical time to every operation; the durable storage engine
//! underneath is treated as a reliable ordered map, modeled here by vectors
//! with explicit uniqueness and ordering invariants.

pub mod laws;
pub mod model;
pub mod report;
pub mod rules;
pub mod store;
pub mod text;
