//! Agent-facing types that the map queries depend on.
pub mod components;
