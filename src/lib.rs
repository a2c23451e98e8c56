//! Coordination of small multiplayer rooms: a registry of rooms with ordered
//! seats, fan-out of events to occupants, and the per-connection session
//! state machine that drives it.
pub mod guarantees;
pub mod ids;
pub mod protocol;
pub mod registry;
pub mod session;
