//! Folder hashing toolkit core: a uniform variable-length digest layer over
//! several hash primitives, a memory planner, a budgeted buffer pool and the
//! decision logic of a concurrent hashing pipeline; around them, the logic of
//! map comparison, reports, configuration layering and file tidying.

pub mod algorithms;
pub mod bytes;
pub mod compare;
pub mod config;
pub mod diff;
pub mod expand;
pub mod memory;
pub mod pipeline;
pub mod primitives;
pub mod report;
pub mod rename;
pub mod text;
pub mod tidy;

pub use algorithms::{Algorithm, AlgorithmInfo, HasherImpl};
pub use config::RuntimeConfig;
pub use memory::{BufferPool, MemoryMode};
pub use pipeline::Pipeline;
