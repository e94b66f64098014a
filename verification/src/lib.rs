//! An event-sourced session tracker for multiplayer games.
//!
//! State lives in an [`store::EntityStore`] and changes only by applying
//! events ([`event::Event`]) drained in FIFO order from an
//! [`queue::EventQueue`] by the applier in [`apply`]. The [`model`]
//! module holds the mathematical model every contract is stated over;
//! [`laws`] proves the ordering and consistency guarantees; [`ingest`]
//! is the validating boundary for events arriving as untyped JSON.

pub mod model;
pub mod event;
pub mod queue;
pub mod store;
pub mod apply;
pub mod laws;
pub mod ingest;
