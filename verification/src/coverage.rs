//! Decisions of the run-to-completion loop.
//!
//! The collector resumes the child over and over; after each stop the
//! driver reports what the kernel said as a [`ProcessStatus`], and the
//! verified step decision says whether to record the trap address and go
//! on, to finish, or to abort. The policy is deliberately conservative:
//! anything but a plain stop or an exit aborts the run.

use vstd::prelude::*;

use crate::boundaries::DecodedInsn;
use crate::boundaries::block_starts;
use crate::boundaries::find_block_boundaries;
use crate::disasm::decode_instructions;
use crate::disasm::decoded_of;
use crate::disasm::init_capstone;
use crate::disasm::matches_decoded;
use crate::errors::CovError;
use crate::image::EM_X86_64;
use crate::image::ET_DYN;
use crate::image::elf_header_of;
use crate::image::elf_machine_and_type;
use crate::image::elf_section_of;
use crate::image::get_text_section;
use crate::image::is_supported_machine;

verus! {

/// The outcome of the static pass over one image: whether the binary is
/// position-independent, the executable section's address, the decoded
/// instruction stream, and the block-start addresses the walk found in it
/// (file-relative; the caller rebases them before installing marks).
pub struct Discovery {
    pub pie: bool,
    pub text_addr: u64,
    pub insns: Vec<DecodedInsn>,
    pub boundaries: Vec<u64>,
}

/// The static half of mark placement: parses the image, locates the
/// executable section, decodes it, and collects the block-start
/// addresses. No process is involved. Success is owed whenever the
/// header parses to a supported machine and the executable section is
/// present; the decoded stream is then pinned to the image's section
/// bytes, and the boundaries are exactly the block starts of that
/// stream, each once.
pub fn discover_marks(data: &Vec<u8>) -> (r: Result<Discovery, CovError>)
    ensures
        (r matches Ok(d) ==> {
            &&& elf_header_of(data@) matches Some(p) && elf_section_of(data@, ".text"@)
                matches Some(s) && is_supported_machine(p.0) && d.pie == (p.1 == ET_DYN)
                && d.text_addr == s.0 && matches_decoded(
                d.insns@,
                decoded_of(p.0 == EM_X86_64, s.1, s.0),
            )
            &&& d.boundaries@.to_set() == block_starts(d.insns@)
            &&& d.boundaries@.no_duplicates()
        }),
        (elf_header_of(data@) matches Some(p) && is_supported_machine(p.0) && elf_section_of(
            data@,
            ".text"@,
        ) is Some) ==> r is Ok,
        elf_header_of(data@) is None ==> r == Err::<Discovery, CovError>(CovError::MalformedImage),
        (elf_header_of(data@) is Some && elf_section_of(data@, ".text"@) is None) ==> (r
            == Err::<Discovery, CovError>(CovError::MissingSection) || r == Err::<
            Discovery,
            CovError,
        >(CovError::MalformedImage)),
        r == Err::<Discovery, CovError>(CovError::MissingSection) ==> elf_section_of(
            data@,
            ".text"@,
        ) is None,
        r == Err::<Discovery, CovError>(CovError::UnsupportedArchitecture) <==> (elf_header_of(
            data@,
        ) matches Some(p) && !is_supported_machine(p.0) && elf_section_of(data@, ".text"@)
            is Some),
{
    let (machine, etype) = match elf_machine_and_type(data) {
        Ok(p) => p,
        Err(e) => {
            return Err(e);
        },
    };
    let pie = etype == ET_DYN;
    let text = match get_text_section(data) {
        Ok(t) => t,
        Err(e) => {
            return Err(e);
        },
    };
    let mode64 = match init_capstone(machine) {
        Ok(mode64) => mode64,
        Err(e) => {
            return Err(e);
        },
    };
    let insns = match decode_instructions(mode64, &text.data, text.addr) {
        Ok(insns) => insns,
        Err(e) => {
            return Err(e);
        },
    };
    let boundaries = find_block_boundaries(&insns);
    Ok(Discovery { pie, text_addr: text.addr, insns, boundaries })
}

/// What the kernel reported about the traced child after a blocking wait:
/// stopped by a signal, exited with a code, or anything else.
#[derive(Debug, Clone, Copy, PartialEq, Eq, Structural)]
pub enum ProcessStatus {
    /// The child stopped; on the breakpoint path this is the trap firing.
    Stopped { pid: i32, signal: i32 },
    /// The child exited; the collection is complete.
    Exited { pid: i32, code: i32 },
    /// Any other status (killed, continued, ...).
    Other,
}

/// What the collector does with one status.
#[derive(Debug, Clone, Copy, PartialEq, Eq, Structural)]
pub enum StepAction {
    /// Record the trap address in the trace and resume again.
    Record,
    /// Stop looping: the run is complete.
    Finish,
    /// Abort the collection: the status was not stopped-by-trap or exited.
    Abort,
}

/// One iteration of the collection loop: a stop appends the address that
/// trapped to the trace — in hit order, duplicates and all — and resumes;
/// an exit finishes the run; every other status aborts it, and nothing is
/// recorded.
pub fn coverage_step(cov: &mut Vec<u64>, status: &ProcessStatus, trap_addr: u64) -> (r: StepAction)
    ensures
        (status matches ProcessStatus::Stopped { .. }) ==> (r == StepAction::Record && final(cov)@
            == old(cov)@.push(trap_addr)),
        (status matches ProcessStatus::Exited { .. }) ==> (r == StepAction::Finish && final(cov)@
            == old(cov)@),
        status is Other ==> (r == StepAction::Abort && final(cov)@ == old(cov)@),
{
    match status {
        ProcessStatus::Stopped { .. } => {
            cov.push(trap_addr);
            StepAction::Record
        },
        ProcessStatus::Exited { .. } => StepAction::Finish,
        ProcessStatus::Other => StepAction::Abort,
    }
}

} // verus!
