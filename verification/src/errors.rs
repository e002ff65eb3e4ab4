//! Error taxonomy of the static-analysis pass and of the breakpoint table.

use vstd::prelude::*;

verus! {

/// Failure of the static analysis that runs before any process is launched.
#[derive(Debug, Clone, Copy, PartialEq, Eq, Structural)]
pub enum CovError {
    /// The ELF container could not be parsed.
    MalformedImage,
    /// The ELF machine type is neither 32-bit nor 64-bit x86.
    UnsupportedArchitecture,
    /// The executable section is absent from the image.
    MissingSection,
    /// The disassembly engine could not be set up or rejected the byte stream.
    DisassemblyFailed,
}

/// Misuse of the breakpoint table.
#[derive(Debug, Clone, Copy, PartialEq, Eq, Structural)]
pub enum DbgError {
    /// A breakpoint is already installed at the address; installing again is
    /// an error, never an overwrite.
    BreakpointExists,
    /// No breakpoint is installed at the address.
    BreakpointNotSet,
}

impl CovError {
    /// A short description, for callers that report the failure.
    pub fn message(&self) -> &'static str {
        match self {
            CovError::MalformedImage => "failed to parse ELF image",
            CovError::UnsupportedArchitecture => "unsupported architecture",
            CovError::MissingSection => "no .text section found",
            CovError::DisassemblyFailed => "failed to disassemble",
        }
    }
}

impl DbgError {
    /// A short description, for callers that report the failure.
    pub fn message(&self) -> &'static str {
        match self {
            DbgError::BreakpointExists => "breakpoint already exists",
            DbgError::BreakpointNotSet => "breakpoint not set",
        }
    }
}

} // verus!
