use bbcov::coverage::discover_marks;
use bbcov::disasm::decode_instructions;
use bbcov::disasm::init_capstone;
use bbcov::errors::CovError;
use bbcov::image::get_text_section;

fn push_u16(v: &mut Vec<u8>, x: u16) {
    v.extend_from_slice(&x.to_le_bytes());
}

fn push_u32(v: &mut Vec<u8>, x: u32) {
    v.extend_from_slice(&x.to_le_bytes());
}

fn push_u64(v: &mut Vec<u8>, x: u64) {
    v.extend_from_slice(&x.to_le_bytes());
}

fn push_shdr(
    v: &mut Vec<u8>,
    name: u32,
    shtype: u32,
    flags: u64,
    addr: u64,
    offset: u64,
    size: u64,
) {
    push_u32(v, name);
    push_u32(v, shtype);
    push_u64(v, flags);
    push_u64(v, addr);
    push_u64(v, offset);
    push_u64(v, size);
    push_u32(v, 0); // link
    push_u32(v, 0); // info
    push_u64(v, 1); // addralign
    push_u64(v, 0); // entsize
}

/// A minimal little-endian 64-bit ELF image: a `.text` section holding
/// `text` at virtual address `text_addr` (omitted when `with_text` is
/// false), and the section-name string table.
fn build_elf(machine: u16, etype: u16, text: &[u8], text_addr: u64, with_text: bool) -> Vec<u8> {
    let strtab: &[u8] = b"\0.text\0.shstrtab\0";
    let text_len = if with_text { text.len() } else { 0 };
    let strtab_off = 64 + text_len;
    let shoff = strtab_off + strtab.len();
    let shnum: u16 = if with_text { 3 } else { 2 };
    let shstrndx: u16 = if with_text { 2 } else { 1 };

    let mut v: Vec<u8> = Vec::new();
    v.extend_from_slice(&[0x7f, b'E', b'L', b'F', 2, 1, 1, 0]);
    v.extend_from_slice(&[0; 8]);
    push_u16(&mut v, etype);
    push_u16(&mut v, machine);
    push_u32(&mut v, 1); // version
    push_u64(&mut v, text_addr); // entry
    push_u64(&mut v, 0); // phoff
    push_u64(&mut v, shoff as u64);
    push_u32(&mut v, 0); // flags
    push_u16(&mut v, 64); // ehsize
    push_u16(&mut v, 0); // phentsize
    push_u16(&mut v, 0); // phnum
    push_u16(&mut v, 64); // shentsize
    push_u16(&mut v, shnum);
    push_u16(&mut v, shstrndx);
    assert_eq!(v.len(), 64);

    if with_text {
        v.extend_from_slice(text);
    }
    v.extend_from_slice(strtab);

    push_shdr(&mut v, 0, 0, 0, 0, 0, 0); // null section
    if with_text {
        push_shdr(&mut v, 1, 1, 6, text_addr, 64, text_len as u64);
    }
    push_shdr(&mut v, 7, 3, 0, 0, strtab_off as u64, strtab.len() as u64);
    v
}

const EM_X86_64: u16 = 62;
const EM_386: u16 = 3;
const ET_EXEC: u16 = 2;
const ET_DYN: u16 = 3;

#[test]
fn garbage_is_a_malformed_image() {
    let r = discover_marks(&b"not an elf image at all".to_vec());
    assert_eq!(r.err(), Some(CovError::MalformedImage));
}

#[test]
fn image_without_text_section_is_missing_section() {
    let elf = build_elf(EM_X86_64, ET_EXEC, &[], 0, false);
    let r = discover_marks(&elf);
    assert_eq!(r.err(), Some(CovError::MissingSection));
}

#[test]
fn unrecognized_machine_is_unsupported() {
    // 40 is ARM, which the tool does not handle
    let elf = build_elf(40, ET_EXEC, &[0x90], 0x40_1000, true);
    let r = discover_marks(&elf);
    assert_eq!(r.err(), Some(CovError::UnsupportedArchitecture));
}

#[test]
fn init_capstone_picks_the_mode_and_refuses_unknown_machines() {
    assert!(matches!(init_capstone(0), Err(CovError::UnsupportedArchitecture)));
    assert!(matches!(init_capstone(40), Err(CovError::UnsupportedArchitecture)));
    assert_eq!(init_capstone(EM_X86_64), Ok(true));
    assert_eq!(init_capstone(EM_386), Ok(false));
}

#[test]
fn decoding_reports_addresses_classification_and_targets() {
    // je +2; nop — the branch is control-flow with immediate target
    // 0x1004, the nop is not
    let code: Vec<u8> = vec![0x74, 0x02, 0x90];
    let insns = decode_instructions(true, &code, 0x1000).unwrap();
    assert_eq!(insns.len(), 2);
    assert_eq!(insns[0].addr, 0x1000);
    assert!(insns[0].cflow);
    assert_eq!(insns[0].imm_targets, vec![0x1004]);
    assert_eq!(insns[1].addr, 0x1002);
    assert!(!insns[1].cflow);
    assert_eq!(insns[1].imm_targets, Vec::<u64>::new());
}

#[test]
fn text_section_snapshot_matches_the_image() {
    let code: &[u8] = &[0x90, 0x90, 0xc3];
    let elf = build_elf(EM_X86_64, ET_EXEC, code, 0x40_1000, true);
    let text = get_text_section(&elf).unwrap();
    assert_eq!(text.addr, 0x40_1000);
    assert_eq!(text.data, code.to_vec());
}

#[test]
fn single_block_program_has_one_mark_at_its_entry() {
    // nop; nop; ret — one basic block starting at the section address
    let code: &[u8] = &[0x90, 0x90, 0xc3];
    let elf = build_elf(EM_X86_64, ET_EXEC, code, 0x40_1000, true);
    let d = discover_marks(&elf).unwrap();
    assert!(!d.pie);
    assert_eq!(d.text_addr, 0x40_1000);
    assert_eq!(d.insns.len(), 3);
    assert_eq!(d.boundaries, vec![0x40_1000]);
}

#[test]
fn forward_conditional_branch_marks_target_and_fallthrough() {
    // je +2 (over two nops); then two nops: boundaries are the entry, the
    // branch target, and the fall-through instruction after the branch
    let code: &[u8] = &[0x74, 0x02, 0x90, 0x90, 0x90];
    let elf = build_elf(EM_X86_64, ET_EXEC, code, 0x40_1000, true);
    let d = discover_marks(&elf).unwrap();
    assert_eq!(d.insns.len(), 4);
    assert!(d.insns[0].cflow);
    assert_eq!(d.insns[0].imm_targets, vec![0x40_1004]);
    let mut marks = d.boundaries.clone();
    marks.sort();
    assert_eq!(marks, vec![0x40_1000, 0x40_1002, 0x40_1004]);
}

#[test]
fn shared_object_type_marks_the_image_position_independent() {
    let code: &[u8] = &[0xc3];
    let elf = build_elf(EM_X86_64, ET_DYN, code, 0x1000, true);
    let d = discover_marks(&elf).unwrap();
    assert!(d.pie);
}

#[test]
fn thirty_two_bit_images_decode_too() {
    let code: &[u8] = &[0x90, 0xc3];
    let elf = build_elf(EM_386, ET_EXEC, code, 0x8048000, true);
    let d = discover_marks(&elf).unwrap();
    assert_eq!(d.insns.len(), 2);
    assert_eq!(d.boundaries, vec![0x8048000]);
}

#[test]
fn direct_call_target_is_a_mark() {
    // call rel32 to 0x40_1010, then ret at the call's successor; nop padding
    // up to the call target
    let mut code: Vec<u8> = vec![0xe8, 0x0b, 0x00, 0x00, 0x00, 0xc3];
    while code.len() < 0x10 {
        code.push(0x90);
    }
    code.push(0xc3);
    let elf = build_elf(EM_X86_64, ET_EXEC, &code, 0x40_1000, true);
    let d = discover_marks(&elf).unwrap();
    assert!(d.insns[0].cflow);
    assert_eq!(d.insns[0].imm_targets, vec![0x40_1010]);
    assert!(d.boundaries.contains(&0x40_1000));
    assert!(d.boundaries.contains(&0x40_1005));
    assert!(d.boundaries.contains(&0x40_1010));
}
