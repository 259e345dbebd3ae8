//! Helpers of the runtime.

pub mod mmap;
pub mod pool;
