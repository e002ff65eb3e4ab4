//! Execution-coverage tracing for x86 ELF binaries.
//!
//! The crate discovers basic-block boundaries in an ELF executable by a
//! linear disassembly sweep, and models the process-control session that
//! installs trap-byte breakpoints at those boundaries, drives the traced
//! child to completion, and records every block that is actually reached.
//! All byte-level and table-level decisions (word patching, breakpoint
//! bookkeeping, boundary classification, load-base parsing) are verified;
//! the OS calls that carry them out live outside the library.

pub mod boundaries;
pub mod coverage;
pub mod debugger;
pub mod disasm;
pub mod errors;
pub mod image;
pub mod maps;
