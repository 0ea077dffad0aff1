//! A claim registry: actors register ownership of byte-identified content,
//! revoke their claims, or transfer them to another actor. The registry
//! keeps at most one live claim per key and reports every outcome through
//! a closed set of errors and an append-only event log.

pub mod laws;
pub mod model;
pub mod registry;

pub use model::{ActorId, Error, EventV, Height, StateV};
pub use registry::{Event, Registry};
