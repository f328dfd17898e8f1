//! A byte writer that gathers small writes in memory and hands them to a
//! wrapped sink in large pieces.
pub mod laws;
pub mod sink;
pub mod writer;

pub use sink::Sink;
pub use writer::{WriteBufVec, CAPACITY};
