//! The disassembly-engine adapter.
//!
//! Decoding machine code is delegated to capstone; what the boundary walk
//! needs from each decoded instruction — its address, its semantic groups
//! and its immediate operands — is pulled out here through trusted
//! wrappers and turned into the library's own [`DecodedInsn`] stream. The
//! decode is a function of the mode, the bytes and the base address
//! alone, named [`decoded_of`], and the stream handed out is pinned to
//! it; the control-flow classification itself is verified.

use vstd::prelude::*;

use crate::boundaries::DecodedInsn;
use crate::errors::CovError;
use crate::image::EM_X86_64;
use crate::image::is_supported_machine;
use capstone::arch::BuildsCapstone;

verus! {

/// The id of the jump semantic group, as capstone's `InsnGroupType`
/// numbers it.
pub const GRP_JUMP: u32 = 1;

/// The id of the call semantic group, as capstone's `InsnGroupType`
/// numbers it.
pub const GRP_CALL: u32 = 2;

/// The id of the return semantic group, as capstone's `InsnGroupType`
/// numbers it.
pub const GRP_RET: u32 = 3;

/// The id of the interrupt-return semantic group, as capstone's
/// `InsnGroupType` numbers it.
pub const GRP_IRET: u32 = 5;

/// Whether the group id names one of the control-flow semantic groups:
/// jump, call, return or interrupt-return.
pub open spec fn spec_is_cflow_group(g: u32) -> bool {
    g == GRP_JUMP || g == GRP_CALL || g == GRP_RET || g == GRP_IRET
}

/// Whether any of an instruction's group ids is a control-flow group.
pub open spec fn spec_is_cflow_ins(groups: Seq<u32>) -> bool {
    exists|k: int| 0 <= k < groups.len() && spec_is_cflow_group(groups[k])
}

/// Whether the group id names a control-flow semantic group.
pub fn is_cflow_group(g: u32) -> (r: bool)
    ensures
        r == spec_is_cflow_group(g),
{
    g == GRP_JUMP || g == GRP_CALL || g == GRP_RET || g == GRP_IRET
}

/// Whether an instruction with these group ids is a control-flow
/// instruction.
pub fn is_cflow_ins(groups: &Vec<u32>) -> (r: bool)
    ensures
        r == spec_is_cflow_ins(groups@),
{
    let mut i: usize = 0;
    while i < groups.len()
        invariant
            0 <= i <= groups@.len(),
            forall|k: int| 0 <= k < i ==> !spec_is_cflow_group(#[trigger] groups@[k]),
        decreases groups@.len() - i,
    {
        if is_cflow_group(groups[i]) {
            return true;
        }
        i = i + 1;
    }
    false
}

#[verifier::external_type_specification]
#[verifier::external_body]
pub struct ExCapstone(capstone::Capstone);

#[verifier::external_type_specification]
#[verifier::external_body]
pub struct ExInstructions<'a>(capstone::Instructions<'a>);

#[verifier::external_type_specification]
#[verifier::external_body]
pub struct ExInsn<'a>(capstone::Insn<'a>);

/// What an x86 engine in the given mode, with detail decoding on, makes
/// of the byte buffer whose first byte sits at `addr`: one entry per
/// decoded instruction, in file order — its address, the ids of its
/// semantic groups, and its operands, each an immediate value or `None`.
/// A function of the mode, the bytes and the address alone.
pub uninterp spec fn decoded_of(mode64: bool, code: Seq<u8>, addr: u64) -> Seq<
    (u64, Seq<u32>, Seq<Option<i64>>),
>;

/// The per-instruction facts a decoded stream holds: what a stream's
/// accessors hand out, entry by entry.
pub uninterp spec fn stream_view(ins: &capstone::Instructions) -> Seq<
    (u64, Seq<u32>, Seq<Option<i64>>),
>;

/// Relies on capstone's `Capstone::new`, the x86 `BuildsCapstone`
/// builder, `Capstone::set_detail` and `Capstone::disasm_all`: builds an
/// x86 engine in 64- or 32-bit mode with detail decoding on and decodes
/// the whole buffer, taking `addr` as the address of its first byte. The
/// engine is leaked so the stream, which borrows it, can be handed out
/// beside it. In the engine's source, construction with either x86 mode,
/// the detail option and the decode itself fail only when allocation
/// does, which is relied on not to happen; what is decoded depends on the
/// mode, the bytes and the address alone.
#[verifier::external_body]
fn build_and_disasm(mode64: bool, code: &Vec<u8>, addr: u64) -> (r: Option<
    (&'static capstone::Capstone, capstone::Instructions<'static>),
>)
    ensures
        r is Some,
        (r matches Some(p) ==> stream_view(&p.1) == decoded_of(mode64, code@, addr)),
{
    let builder = capstone::Capstone::new().x86();
    let mut cs = if mode64 {
        builder.mode(capstone::arch::x86::ArchMode::Mode64).build().ok()?
    } else {
        builder.mode(capstone::arch::x86::ArchMode::Mode32).build().ok()?
    };
    cs.set_detail(true).ok()?;
    let cs: &'static capstone::Capstone = Box::leak(Box::new(cs));
    let ins = cs.disasm_all(code.as_slice(), addr).ok()?;
    Some((cs, ins))
}

/// Relies on the slice view of capstone's `Instructions`: how many
/// instructions the stream holds.
#[verifier::external_body]
fn insn_count(ins: &capstone::Instructions) -> (r: usize)
    ensures
        r as nat == stream_view(ins).len(),
{
    ins.len()
}

/// Relies on capstone's `Insn::address`: the address of the instruction
/// at position `i`; `None` past the end.
#[verifier::external_body]
fn insn_addr_at(ins: &capstone::Instructions, i: usize) -> (r: Option<u64>)
    ensures
        (i as int) < stream_view(ins).len() ==> r == Some(stream_view(ins)[i as int].0),
        (i as int) >= stream_view(ins).len() ==> r is None,
{
    match ins.as_ref().get(i) {
        Some(insn) => Some(insn.address()),
        None => None,
    }
}

/// Relies on capstone's `Capstone::insn_detail` and `InsnDetail::groups`:
/// the ids of the semantic groups of the instruction at position `i`;
/// `None` past the end. The ids are stored in the stream at decode time
/// (our engines always decode with detail on); the engine argument only
/// unlocks reading them, and the closure only moves the id field.
#[verifier::external_body]
fn insn_groups_at(cs: &capstone::Capstone, ins: &capstone::Instructions, i: usize) -> (r: Option<
    Vec<u32>,
>)
    ensures
        (i as int) < stream_view(ins).len() ==> (r is Some && r->Some_0@ == stream_view(
            ins,
        )[i as int].1),
        (i as int) >= stream_view(ins).len() ==> r is None,
{
    let insn = ins.as_ref().get(i)?;
    let detail = cs.insn_detail(insn).ok()?;
    Some(detail.groups().iter().map(|g| g.0 as u32).collect())
}

/// Relies on capstone's `Capstone::insn_detail`, `ArchDetail::operands`
/// and the x86 operand types: the operands of the instruction at
/// position `i`, each mapped to its immediate value or to `None` where
/// it is no immediate; `None` past the end. Stored in the stream at
/// decode time like the groups; the match tells the operand enum's
/// variants apart, moving fields only.
#[verifier::external_body]
fn insn_imms_at(cs: &capstone::Capstone, ins: &capstone::Instructions, i: usize) -> (r: Option<
    Vec<Option<i64>>,
>)
    ensures
        (i as int) < stream_view(ins).len() ==> (r is Some && r->Some_0@ == stream_view(
            ins,
        )[i as int].2),
        (i as int) >= stream_view(ins).len() ==> r is None,
{
    let insn = ins.as_ref().get(i)?;
    let detail = cs.insn_detail(insn).ok()?;
    let imms = detail
        .arch_detail()
        .operands()
        .into_iter()
        .map(|op| match op {
            capstone::arch::ArchOperand::X86Operand(x) => match x.op_type {
                capstone::arch::x86::X86OperandType::Imm(v) => Some(v),
                _ => None,
            },
            _ => None,
        })
        .collect();
    Some(imms)
}

/// Whether the machine type is one the tool handles: 32- or 64-bit x86.
pub fn is_supported_machine_exec(e_machine: u16) -> (r: bool)
    ensures
        r == is_supported_machine(e_machine),
{
    e_machine == crate::image::EM_386 || e_machine == EM_X86_64
}

/// The decoder mode for a recognized ELF machine type: 64-bit mode for
/// x86-64, 32-bit mode for x86; any other machine type is
/// `UnsupportedArchitecture`. The engine itself is built when the bytes
/// are decoded.
pub fn init_capstone(e_machine: u16) -> (r: Result<bool, CovError>)
    ensures
        is_supported_machine(e_machine) ==> r == Ok::<bool, CovError>(e_machine == EM_X86_64),
        !is_supported_machine(e_machine) ==> r == Err::<bool, CovError>(
            CovError::UnsupportedArchitecture,
        ),
{
    if is_supported_machine_exec(e_machine) {
        Ok(e_machine == EM_X86_64)
    } else {
        Err(CovError::UnsupportedArchitecture)
    }
}

/// The immediate targets among one instruction's operands: every
/// immediate value, in operand order, reinterpreted as an address word.
pub open spec fn imm_targets_of(ops: Seq<Option<i64>>) -> Seq<u64>
    decreases ops.len(),
{
    if ops.len() == 0 {
        Seq::<u64>::empty()
    } else {
        let rest = imm_targets_of(ops.drop_last());
        match ops.last() {
            Some(v) => rest.push(v as u64),
            None => rest,
        }
    }
}

/// How a [`DecodedInsn`] stream relates to the engine's raw
/// per-instruction facts: same length, and each entry carries the
/// instruction's address, the control-flow classification of its groups,
/// and — for control-flow instructions — its immediate operands as
/// target addresses.
pub open spec fn matches_decoded(
    v: Seq<DecodedInsn>,
    s: Seq<(u64, Seq<u32>, Seq<Option<i64>>)>,
) -> bool {
    &&& v.len() == s.len()
    &&& forall|k: int|
        0 <= k < v.len() ==> {
            &&& (#[trigger] v[k]).addr == s[k].0
            &&& v[k].cflow == spec_is_cflow_ins(s[k].1)
            &&& v[k].imm_targets@ == (if spec_is_cflow_ins(s[k].1) {
                imm_targets_of(s[k].2)
            } else {
                Seq::<u64>::empty()
            })
        }
}

/// Decodes the byte buffer whose first byte sits at virtual address
/// `addr`, in 64- or 32-bit x86 mode, into the stream the boundary walk
/// reads: exactly what the engine decodes, classified and with the
/// immediate targets of each control-flow instruction.
#[verifier::loop_isolation(false)]
pub fn decode_instructions(mode64: bool, code: &Vec<u8>, addr: u64) -> (r: Result<
    Vec<DecodedInsn>,
    CovError,
>)
    ensures
        r matches Ok(v) && matches_decoded(v@, decoded_of(mode64, code@, addr)),
{
    let ghost stream = decoded_of(mode64, code@, addr);
    let (cs, ins) = match build_and_disasm(mode64, code, addr) {
        Some(p) => p,
        None => {
            return Err(CovError::DisassemblyFailed);
        },
    };
    let n = insn_count(&ins);
    let mut out: Vec<DecodedInsn> = Vec::new();
    let mut i: usize = 0;
    while i < n
        invariant
            0 <= i <= n,
            out@.len() == i,
            forall|k: int|
                0 <= k < i ==> {
                    &&& (#[trigger] out@[k]).addr == stream[k].0
                    &&& out@[k].cflow == spec_is_cflow_ins(stream[k].1)
                    &&& out@[k].imm_targets@ == (if spec_is_cflow_ins(stream[k].1) {
                        imm_targets_of(stream[k].2)
                    } else {
                        Seq::<u64>::empty()
                    })
                },
        decreases n - i,
    {
        let a = match insn_addr_at(&ins, i) {
            Some(a) => a,
            None => {
                return Err(CovError::DisassemblyFailed);
            },
        };
        let groups = match insn_groups_at(cs, &ins, i) {
            Some(g) => g,
            None => {
                return Err(CovError::DisassemblyFailed);
            },
        };
        let cflow = is_cflow_ins(&groups);
        let mut imm_targets: Vec<u64> = Vec::new();
        if cflow {
            let imms = match insn_imms_at(cs, &ins, i) {
                Some(v) => v,
                None => {
                    return Err(CovError::DisassemblyFailed);
                },
            };
            proof {
                assert(imms@.take(0) =~= Seq::<Option<i64>>::empty());
            }
            let mut j: usize = 0;
            while j < imms.len()
                invariant
                    0 <= j <= imms@.len(),
                    imm_targets@ == imm_targets_of(imms@.take(j as int)),
                decreases imms@.len() - j,
            {
                proof {
                    let t = imms@.take(j + 1);
                    assert(t.drop_last() =~= imms@.take(j as int));
                    assert(t.last() == imms@[j as int]);
                }
                match imms[j] {
                    Some(v) => {
                        imm_targets.push(#[verifier::truncate] (v as u64));
                    },
                    None => {},
                }
                j = j + 1;
            }
            proof {
                assert(imms@.take(imms@.len() as int) =~= imms@);
            }
        }
        out.push(DecodedInsn { addr: a, cflow, imm_targets });
        i = i + 1;
    }
    Ok(out)
}

} // verus!
