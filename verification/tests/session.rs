use bbcov::coverage::coverage_step;
use bbcov::coverage::ProcessStatus;
use bbcov::coverage::StepAction;
use bbcov::debugger::trap_site;
use bbcov::debugger::Debugger;
use bbcov::debugger::TRAP_OPCODE;
use bbcov::errors::DbgError;

#[test]
fn install_patches_low_byte_and_remove_restores() {
    let mut d = Debugger::new();
    let addr: u64 = 0x40_1000;
    let original: u64 = 0x1122_3344_5566_7788;
    let patched = d.set_breakpoint(addr, original).unwrap();
    assert_eq!(patched & 0xFF, TRAP_OPCODE as u64);
    assert_eq!(patched, 0x1122_3344_5566_77CC);
    // no intervening write: the word now at the address is the patched one
    let restored = d.disable_breakpoint(addr, patched).unwrap();
    assert_eq!(restored, original);
    assert!(!d.is_set(addr));
}

#[test]
fn remove_merges_into_current_word() {
    // a neighbouring breakpoint patched another byte of the same aligned
    // word after ours was installed; the restore must keep that byte
    let mut d = Debugger::new();
    let addr: u64 = 0x40_2000;
    let original: u64 = 0x1122_3344_5566_7788;
    d.set_breakpoint(addr, original).unwrap();
    let current: u64 = 0xCC22_3344_5566_77CC;
    let restored = d.disable_breakpoint(addr, current).unwrap();
    assert_eq!(restored, 0xCC22_3344_5566_7788);
}

#[test]
fn install_twice_fails_with_breakpoint_exists() {
    let mut d = Debugger::new();
    let addr: u64 = 0x40_1000;
    let original: u64 = 0xAAAA_BBBB_CCCC_DDDD;
    assert!(d.set_breakpoint(addr, original).is_ok());
    let second = d.set_breakpoint(addr, 0x5555_5555_5555_5555);
    assert_eq!(second, Err(DbgError::BreakpointExists));
    // the failed call left the table unchanged: the stored original is
    // still the first word
    let restored = d.disable_breakpoint(addr, 0xAAAA_BBBB_CCCC_DDCC).unwrap();
    assert_eq!(restored, 0xAAAA_BBBB_CCCC_DDDD);
}

#[test]
fn remove_without_install_fails_with_breakpoint_not_set() {
    let mut d = Debugger::new();
    let r = d.disable_breakpoint(0x40_1000, 0x1234_5678_9ABC_DEF0);
    assert_eq!(r, Err(DbgError::BreakpointNotSet));
}

#[test]
fn distinct_addresses_are_tracked_separately() {
    let mut d = Debugger::new();
    assert!(d.set_breakpoint(0x1000, 0x01).is_ok());
    assert!(d.set_breakpoint(0x1008, 0x02).is_ok());
    assert!(d.is_set(0x1000));
    assert!(d.is_set(0x1008));
    assert!(!d.is_set(0x1004));
    assert_eq!(d.disable_breakpoint(0x1000, 0xCC).unwrap(), 0x01);
    assert!(!d.is_set(0x1000));
    assert!(d.is_set(0x1008));
}

#[test]
fn rebase_adds_the_load_base() {
    let mut d = Debugger::new();
    assert_eq!(d.base_addr(), 0);
    assert_eq!(d.rebase(0x1000), Some(0x1000));
    d.set_base_addr(0x7f00_0000_0000);
    assert_eq!(d.base_addr(), 0x7f00_0000_0000);
    assert_eq!(d.rebase(0x1000), Some(0x7f00_0000_1000));
    assert_eq!(d.rebase(u64::MAX), None);
}

#[test]
fn trap_site_is_one_before_the_instruction_pointer() {
    assert_eq!(trap_site(0x40_1001), 0x40_1000);
    assert_eq!(trap_site(1), 0);
}

#[test]
fn coverage_step_records_stops_finishes_exits_aborts_the_rest() {
    let stopped = ProcessStatus::Stopped { pid: 42, signal: 5 };
    let exited = ProcessStatus::Exited { pid: 42, code: 0 };
    let mut cov: Vec<u64> = Vec::new();
    assert_eq!(coverage_step(&mut cov, &stopped, 0x40_1000), StepAction::Record);
    assert_eq!(coverage_step(&mut cov, &stopped, 0x40_2000), StepAction::Record);
    // the same block firing again is appended again, never deduplicated
    assert_eq!(coverage_step(&mut cov, &stopped, 0x40_1000), StepAction::Record);
    assert_eq!(coverage_step(&mut cov, &exited, 0), StepAction::Finish);
    assert_eq!(coverage_step(&mut cov, &ProcessStatus::Other, 7), StepAction::Abort);
    // the trace holds the stops in hit order; exits and aborts add nothing
    assert_eq!(cov, vec![0x40_1000, 0x40_2000, 0x40_1000]);
}

#[test]
fn error_messages_name_the_failure() {
    assert_eq!(DbgError::BreakpointExists.message(), "breakpoint already exists");
    assert_eq!(DbgError::BreakpointNotSet.message(), "breakpoint not set");
}
