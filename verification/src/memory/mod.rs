//! Protected memory for secret material.

pub mod coffer;
pub mod hot_cache;
pub mod locked_buffer;
pub mod memcall;
pub mod memory_enclave;
pub mod pool;
pub mod secure_buffer;
pub mod slab;

pub use locked_buffer::{zeroize_all, LockedBuffer};
pub use memory_enclave::MemoryEnclave;
pub use secure_buffer::SecureBuffer;
