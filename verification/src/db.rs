//! What the library knows of the stores: queue keys, collection names,
//! the index plan and the freshness figures.

pub mod mongo;
pub mod queue;
