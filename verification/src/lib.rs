//! Execution kernel core for a deterministic, sandboxed actor virtual
//! machine: content-addressed block I/O, state-root transitions, caller
//! validation, gas accounting, and the marshalling bridge that carries
//! syscall arguments and results across the guest memory boundary.

pub mod blocks;
pub mod codec;
pub mod consensus;
pub mod hashing;
pub mod kernel;
pub mod memory;
pub mod syscalls;
pub mod types;
