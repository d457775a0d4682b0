//! The display objects: pipeline, modes, framebuffers, properties, sessions.
pub mod auth;
pub mod commit_laws;
pub mod device;
pub mod framebuffer;
pub mod mode_flags;
pub mod mode_types;
pub mod modes;
pub mod objects;
pub mod properties;
pub mod property_flags;
pub mod scaling;
