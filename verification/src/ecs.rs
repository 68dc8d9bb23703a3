//! An experimental entity/component store. It is unrelated to the lifecycle
//! and messaging machinery and is not consumed by the orchestrator.

pub mod entity;
pub mod query;
pub mod world;
