//! Verified core of the desktop application shell: typed identities, pure
//! declaration validation, setup planning, lifecycle queues and liveness.

pub mod text;
pub mod commands;
pub mod phases;
pub mod settings;
pub mod liveness;
pub mod lifecycle;
pub mod handles;
pub mod error;
pub mod declaration;
