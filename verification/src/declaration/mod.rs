//! The pure half of an application declaration: its fault vocabulary, setup
//! planning, surface identities, and the first-wins convention intents.

pub mod app;
pub mod errors;
pub mod policies;
pub mod run;
pub mod setup;
pub mod surface;

pub use errors::{DeclarationError, DeclarationErrors};
pub use setup::{DeclaredSetupModule, SetupKey, SetupModule};
pub use surface::{DeclaredSurface, SurfaceCardinality, SurfaceKey, SurfaceRole};
