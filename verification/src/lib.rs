//! Core of a control and monitoring hub for a simulated packet-switched
//! network of relay, originator and responder nodes.
//!
//! The crate models the events that the network engine reports, keeps
//! bounded per-node log histories and running statistics in a shared hub,
//! mirrors the engine's topology for the rendering layer, and builds the
//! fresh state that a hot reset installs.

pub mod commands;
pub mod events;
pub mod hub;
pub mod mirror;
pub mod reset;
pub mod text;
pub mod types;
