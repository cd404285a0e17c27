//! The components that an entity can own.

pub mod entity_components;
pub mod entity_flags;
