//! Host-side core of a remote-invocation system for small peripheral
//! modules: the binary module descriptor and its parser, the argument
//! encoder, the wire envelope, a single-flight device session and the
//! binding generator.
//!
//! Names (of modules and of functions) are byte strings of at most 255
//! bytes. All multi-byte integers on the wire are little-endian.

pub mod model;
pub mod descriptor;
pub mod descriptor_laws;
pub mod args;
pub mod args_laws;
pub mod wire;
pub mod wire_laws;
pub mod session;
pub mod generator;
pub mod uart0;
pub mod led;
