//! A minimal actor-style runtime: independent units of long-running logic
//! ("nodes") are registered with a coordinating system that drives them
//! through a shared lifecycle — starting, running, stopping — while any node
//! may request cooperative or emergency termination. Nodes communicate
//! through a shared, tag-checked message channel rather than direct
//! references.

pub mod context;
pub mod ecs;
pub mod mailbox;
pub mod message;
pub mod node;
pub mod system;
pub mod transport;
