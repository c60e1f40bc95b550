//! The syscall bridge: one thin translation function per host-exposed
//! operation. Each one validates and decodes guest-memory windows
//! through the memory bridge, invokes the matching kernel capability,
//! and writes results back — never touching guest memory outside a
//! checked window, and never swallowing a fatal fault.

pub mod event;
pub mod rand;
pub mod sself;
