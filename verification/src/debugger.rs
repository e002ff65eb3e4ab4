//! The process-control session's decision logic.
//!
//! A session owns one traced child. The table of installed breakpoints, the
//! resolved load base, and the byte-exact patch/restore arithmetic on code
//! words all live here and are verified. The raw memory accesses that carry
//! a patch into the child are performed by the session's unverified driver,
//! which hands each current machine word in and writes the returned word
//! back out.

use vstd::prelude::*;

use crate::errors::DbgError;
use std::collections::HashMap;

verus! {

broadcast use vstd::std_specs::hash::group_hash_axioms;

/// The one-byte trap opcode on x86 and x86-64.
pub const TRAP_OPCODE: u8 = 0xCC;

/// The word with its low byte replaced by the trap opcode; what an install
/// writes over the aligned word read at the breakpoint address.
pub open spec fn patched_word(w: u64) -> u64 {
    (w & 0xFFFF_FFFF_FFFF_FF00) | (TRAP_OPCODE as u64)
}

/// The current word with only its low byte replaced by the original low
/// byte; what a remove writes back. Merging into the *current* word keeps a
/// neighbouring still-active breakpoint's trap byte intact.
pub open spec fn restored_word(current: u64, original: u64) -> u64 {
    (current & 0xFFFF_FFFF_FFFF_FF00) | (original & 0xFF)
}

/// What installing at `addr` does to a breakpoint table, given the current
/// aligned word at `addr`: the new table, and either the word to write or
/// the error. A tracked address is refused, never overwritten.
pub open spec fn install_outcome(bps: Map<u64, u64>, addr: u64, current: u64) -> (Map<
    u64,
    u64,
>, Result<u64, DbgError>) {
    if bps.contains_key(addr) {
        (bps, Err(DbgError::BreakpointExists))
    } else {
        (bps.insert(addr, current), Ok(patched_word(current)))
    }
}

/// What removing at `addr` does to a breakpoint table, given the word *now*
/// at `addr` (re-read, not the cached one): the new table, and either the
/// word to write back or the error.
pub open spec fn remove_outcome(bps: Map<u64, u64>, addr: u64, current: u64) -> (Map<
    u64,
    u64,
>, Result<u64, DbgError>) {
    if bps.contains_key(addr) {
        (bps.remove(addr), Ok(restored_word(current, bps[addr])))
    } else {
        (bps, Err(DbgError::BreakpointNotSet))
    }
}

/// One process-control session: the breakpoint table (absolute address to
/// original word) and the load base of a position-independent target. Each
/// traced process gets a session of its own; nothing here is shared.
pub struct Debugger {
    breakpoints: HashMap<u64, u64>,
    base_addr: u64,
}

impl Debugger {
    /// The table of installed breakpoints: absolute address to the original
    /// word that install read there.
    pub closed spec fn bps(&self) -> Map<u64, u64> {
        self.breakpoints@
    }

    /// The stored load base.
    pub closed spec fn base(&self) -> u64 {
        self.base_addr
    }

    /// A fresh session: empty breakpoint table, zero load base.
    pub fn new() -> (d: Debugger)
        ensures
            d.bps() == Map::<u64, u64>::empty(),
            d.base() == 0,
    {
        Debugger { breakpoints: HashMap::new(), base_addr: 0 }
    }

    /// Stores the resolved load base of a position-independent target.
    pub fn set_base_addr(&mut self, addr: u64)
        ensures
            final(self).base() == addr,
            final(self).bps() == old(self).bps(),
    {
        self.base_addr = addr;
    }

    /// The stored load base.
    pub fn base_addr(&self) -> (r: u64)
        ensures
            r == self.base(),
    {
        self.base_addr
    }

    /// Whether a breakpoint is installed at the absolute address.
    pub fn is_set(&self, addr: u64) -> (r: bool)
        ensures
            r == self.bps().contains_key(addr),
    {
        self.breakpoints.contains_key(&addr)
    }

    /// The static address translated by the load base, or `None` if the sum
    /// does not fit in an address word.
    pub fn rebase(&self, addr: u64) -> (r: Option<u64>)
        ensures
            addr + self.base() <= u64::MAX ==> r == Some((addr + self.base()) as u64),
            addr + self.base() > u64::MAX ==> r is None,
    {
        addr.checked_add(self.base_addr)
    }

    /// Installs a breakpoint at the absolute address `addr`, already
    /// translated by the caller. `current` is the aligned word read at
    /// `addr`; on success it is stored as the original and the returned
    /// word, its low byte overwritten with the trap opcode, is what the
    /// driver writes at `addr`. A duplicate address is an error and leaves
    /// the table unchanged.
    pub fn set_breakpoint(&mut self, addr: u64, current: u64) -> (r: Result<u64, DbgError>)
        ensures
            (final(self).bps(), r) == install_outcome(old(self).bps(), addr, current),
            final(self).base() == old(self).base(),
    {
        if self.breakpoints.contains_key(&addr) {
            Err(DbgError::BreakpointExists)
        } else {
            self.breakpoints.insert(addr, current);
            Ok((current & 0xFFFF_FFFF_FFFF_FF00) | (TRAP_OPCODE as u64))
        }
    }

    /// Removes the breakpoint at the absolute address `addr`. `current` is
    /// the aligned word re-read at `addr` now; on success the stored entry
    /// is dropped and the returned word, `current` with only its low byte
    /// replaced by the stored original low byte, is what the driver writes
    /// back. An address with no entry is an error and leaves the table
    /// unchanged.
    pub fn disable_breakpoint(&mut self, addr: u64, current: u64) -> (r: Result<u64, DbgError>)
        ensures
            (final(self).bps(), r) == remove_outcome(old(self).bps(), addr, current),
            final(self).base() == old(self).base(),
    {
        match self.breakpoints.get(&addr) {
            Some(original) => {
                let restored = (current & 0xFFFF_FFFF_FFFF_FF00) | (*original & 0xFF);
                self.breakpoints.remove(&addr);
                Ok(restored)
            },
            None => Err(DbgError::BreakpointNotSet),
        }
    }
}

/// The address that raised a trap: the saved instruction pointer minus the
/// one-byte length of the trap opcode.
pub fn trap_site(rip: u64) -> (r: u64)
    requires
        rip >= 1,
    ensures
        r == rip - 1,
{
    rip - 1
}

/// Installing at a free address writes a word whose low byte is the trap
/// opcode, and removing it right afterwards (no intervening write, so the
/// current word is the patched one) writes back the original word exactly
/// and leaves the table as it was.
pub proof fn lemma_install_then_remove_restores(bps: Map<u64, u64>, addr: u64, w: u64)
    requires
        !bps.contains_key(addr),
    ensures
        ({
            let (bps1, r1) = install_outcome(bps, addr, w);
            &&& r1 == Ok::<u64, DbgError>(patched_word(w))
            &&& patched_word(w) & 0xFF == TRAP_OPCODE as u64
            &&& remove_outcome(bps1, addr, patched_word(w)) == (bps, Ok::<u64, DbgError>(w))
        }),
{
    assert(((w & 0xFFFF_FFFF_FFFF_FF00) | 0xCC) & 0xFF == 0xCC) by (bit_vector);
    assert((((w & 0xFFFF_FFFF_FFFF_FF00) | 0xCC) & 0xFFFF_FFFF_FFFF_FF00) | (w & 0xFF) == w)
        by (bit_vector);
    let (bps1, r1) = install_outcome(bps, addr, w);
    assert(bps1 == bps.insert(addr, w));
    assert(bps1.contains_key(addr));
    assert(bps1[addr] == w);
    assert(bps1.remove(addr) =~= bps);
}

/// Installing twice in a row at the same address fails on the second call
/// with `BreakpointExists`, and the failed call leaves the table unchanged.
pub proof fn lemma_install_twice_fails(bps: Map<u64, u64>, addr: u64, w1: u64, w2: u64)
    requires
        !bps.contains_key(addr),
    ensures
        ({
            let (bps1, r1) = install_outcome(bps, addr, w1);
            &&& r1 == Ok::<u64, DbgError>(patched_word(w1))
            &&& install_outcome(bps1, addr, w2) == (bps1, Err::<u64, DbgError>(
                DbgError::BreakpointExists,
            ))
        }),
{
}

/// Removing at an address with no prior install fails with
/// `BreakpointNotSet` and leaves the table unchanged.
pub proof fn lemma_remove_without_install_fails(bps: Map<u64, u64>, addr: u64, w: u64)
    requires
        !bps.contains_key(addr),
    ensures
        remove_outcome(bps, addr, w) == (bps, Err::<u64, DbgError>(DbgError::BreakpointNotSet)),
{
}

} // verus!
