use bbcov::boundaries::find_block_boundaries;
use bbcov::boundaries::DecodedInsn;
use bbcov::disasm::is_cflow_group;
use bbcov::disasm::is_cflow_ins;

fn insn(addr: u64, cflow: bool, imm_targets: Vec<u64>) -> DecodedInsn {
    DecodedInsn { addr, cflow, imm_targets }
}

#[test]
fn straightline_stream_has_one_boundary() {
    let insns = vec![
        insn(0x1000, false, vec![]),
        insn(0x1001, false, vec![]),
        insn(0x1003, false, vec![]),
    ];
    assert_eq!(find_block_boundaries(&insns), vec![0x1000]);
}

#[test]
fn single_branch_yields_entry_target_and_successor() {
    // a conditional branch at 0x1001 of encoded length 2 with immediate
    // target 0x2000: boundaries are the entry, the target, and 0x1003
    let insns = vec![
        insn(0x1000, false, vec![]),
        insn(0x1001, true, vec![0x2000]),
        insn(0x1003, false, vec![]),
        insn(0x1004, false, vec![]),
    ];
    let mut r = find_block_boundaries(&insns);
    r.sort();
    assert_eq!(r, vec![0x1000, 0x1003, 0x2000]);
}

#[test]
fn zero_immediate_target_is_not_a_boundary() {
    let insns = vec![insn(0x1000, true, vec![0]), insn(0x1002, false, vec![])];
    let mut r = find_block_boundaries(&insns);
    r.sort();
    assert_eq!(r, vec![0x1000, 0x1002]);
}

#[test]
fn coinciding_target_and_successor_collapse() {
    let insns = vec![insn(0x1000, true, vec![0x1002]), insn(0x1002, false, vec![])];
    let mut r = find_block_boundaries(&insns);
    r.sort();
    assert_eq!(r, vec![0x1000, 0x1002]);
}

#[test]
fn trailing_branch_has_no_successor_boundary() {
    let insns = vec![insn(0x1000, false, vec![]), insn(0x1001, true, vec![])];
    assert_eq!(find_block_boundaries(&insns), vec![0x1000]);
}

#[test]
fn empty_stream_has_no_boundaries() {
    let insns: Vec<DecodedInsn> = vec![];
    assert_eq!(find_block_boundaries(&insns), Vec::<u64>::new());
}

#[test]
fn control_flow_groups_are_jump_call_ret_iret() {
    assert!(is_cflow_group(1));
    assert!(is_cflow_group(2));
    assert!(is_cflow_group(3));
    assert!(is_cflow_group(5));
    assert!(!is_cflow_group(0));
    assert!(!is_cflow_group(4));
    assert!(!is_cflow_group(6));
}

#[test]
fn instruction_is_control_flow_when_any_group_is() {
    assert!(is_cflow_ins(&vec![8, 2]));
    assert!(!is_cflow_ins(&vec![4, 6, 8]));
    assert!(!is_cflow_ins(&vec![]));
}
