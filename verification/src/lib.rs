//! Storage core for a live audience Q&A backend.
//!
//! Attendees submit questions to an event and vote them up; the event's
//! moderator, who holds a per-event secret, hides questions or marks them
//! answered. This crate holds the verified core: the entity model, the
//! in-process store used for development and tests, the pure decision
//! logic of the remote key-value adapter, and the authorization gate.
//! Transport, routing and the actual network calls live outside, hand the
//! core plain values, and take plain values back.

pub mod laws;
pub mod local;
pub mod model;
pub mod remote;
pub mod shim;
mod sources;
