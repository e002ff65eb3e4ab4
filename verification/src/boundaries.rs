//! Block-boundary discovery over a decoded instruction stream.
//!
//! The stream is walked once, in file order. A "block starts here" flag is
//! seeded true for the first instruction; a control-flow instruction sets
//! it for its successor and contributes every non-zero immediate branch
//! target, any other instruction clears it. The result is the set of
//! presumed block-start addresses; indirect targets are not resolved.

use vstd::prelude::*;

verus! {

/// One decoded instruction, as the boundary walk reads it: its virtual
/// address, whether it is a control-flow instruction (jump, call, return or
/// interrupt-return), and the immediate operands it carries, each taken as
/// a branch-target address.
pub struct DecodedInsn {
    pub addr: u64,
    pub cflow: bool,
    pub imm_targets: Vec<u64>,
}

/// The non-zero immediate targets among `ts`.
pub open spec fn nonzero_targets(ts: Seq<u64>) -> Set<u64> {
    Set::new(|t: u64| ts.contains(t) && t != 0)
}

/// The addresses one instruction contributes: its own address when a block
/// starts at it, and, if it is control-flow, its non-zero immediate
/// targets.
pub open spec fn insn_marks(i: DecodedInsn, push: bool) -> Set<u64> {
    let here = if push {
        set![i.addr]
    } else {
        Set::<u64>::empty()
    };
    if i.cflow {
        here.union(nonzero_targets(i.imm_targets@))
    } else {
        here
    }
}

/// The boundaries contributed by a stream suffix, given whether a block
/// starts at its first instruction.
pub open spec fn block_starts_rec(insns: Seq<DecodedInsn>, push: bool) -> Set<u64>
    decreases insns.len(),
{
    if insns.len() == 0 {
        Set::<u64>::empty()
    } else {
        insn_marks(insns[0], push).union(block_starts_rec(insns.drop_first(), insns[0].cflow))
    }
}

/// The complete set of block-start addresses of a decoded stream. The
/// stream entry is always a block start.
pub open spec fn block_starts(insns: Seq<DecodedInsn>) -> Set<u64> {
    block_starts_rec(insns, true)
}

/// Membership in `v@`, decided by a scan.
fn vec_contains(v: &Vec<u64>, x: u64) -> (r: bool)
    ensures
        r == v@.contains(x),
{
    let mut i: usize = 0;
    while i < v.len()
        invariant
            0 <= i <= v@.len(),
            forall|k: int| 0 <= k < i ==> v@[k] != x,
        decreases v@.len() - i,
    {
        if v[i] == x {
            return true;
        }
        i = i + 1;
    }
    false
}

/// Appends `x` unless it is already present, so that `v` stays free of
/// duplicates and its contents grow by exactly `x`.
fn push_unique(v: &mut Vec<u64>, x: u64)
    requires
        old(v)@.no_duplicates(),
    ensures
        final(v)@.to_set() == old(v)@.to_set().insert(x),
        final(v)@.no_duplicates(),
{
    if !vec_contains(v, x) {
        let ghost pre = v@;
        v.push(x);
        proof {
            assert forall|i: int, j: int|
                0 <= i < v@.len() && 0 <= j < v@.len() && i != j implies v@[i] != v@[j] by {
                if i < pre.len() && j < pre.len() {
                    assert(pre[i] == v@[i] && pre[j] == v@[j]);
                } else if i == pre.len() {
                    assert(v@[i] == x && v@[j] == pre[j]);
                    assert(!pre.contains(x));
                } else if j == pre.len() {
                    assert(v@[j] == x && v@[i] == pre[i]);
                    assert(!pre.contains(x));
                }
            }
            assert forall|y: u64| #[trigger] v@.contains(y) <==> (pre.contains(y) || y == x) by {
                if v@.contains(y) {
                    let i = choose|i: int| 0 <= i < v@.len() && v@[i] == y;
                    if i < pre.len() {
                        assert(pre[i] == y);
                    }
                }
                if pre.contains(y) {
                    let i = choose|i: int| 0 <= i < pre.len() && pre[i] == y;
                    assert(v@[i] == y);
                }
                if y == x {
                    assert(v@[pre.len() as int] == x);
                }
            }
            assert(v@.to_set() =~= pre.to_set().insert(x));
        }
    } else {
        proof {
            assert(v@.to_set() =~= v@.to_set().insert(x));
        }
    }
}

/// Unfolds one step of the suffix recursion at position `idx`.
proof fn lemma_block_starts_rec_step(insns: Seq<DecodedInsn>, idx: int, push: bool)
    requires
        0 <= idx < insns.len(),
    ensures
        block_starts_rec(insns.skip(idx), push) == insn_marks(insns[idx], push).union(
            block_starts_rec(insns.skip(idx + 1), insns[idx].cflow),
        ),
{
    let s = insns.skip(idx);
    assert(s[0] == insns[idx]);
    assert(s.drop_first() =~= insns.skip(idx + 1));
}

/// Extending the processed target prefix by one either adds that target or
/// changes nothing, according to whether it is zero.
proof fn lemma_nonzero_targets_step(ts: Seq<u64>, j: int)
    requires
        0 <= j < ts.len(),
    ensures
        ts[j] != 0 ==> nonzero_targets(ts.take(j + 1)) == nonzero_targets(ts.take(j)).insert(
            ts[j],
        ),
        ts[j] == 0 ==> nonzero_targets(ts.take(j + 1)) == nonzero_targets(ts.take(j)),
{
    let a = ts.take(j + 1);
    let b = ts.take(j);
    assert forall|x: u64| #[trigger] a.contains(x) implies (b.contains(x) || x == ts[j]) by {
        let i = choose|i: int| 0 <= i < a.len() && a[i] == x;
        if i < j {
            assert(b[i] == x);
        }
    }
    assert forall|x: u64| #[trigger] b.contains(x) implies a.contains(x) by {
        let i = choose|i: int| 0 <= i < b.len() && b[i] == x;
        assert(a[i] == x);
    }
    assert(a[j] == ts[j]);
    assert(a.contains(ts[j]));
    if ts[j] != 0 {
        assert(nonzero_targets(a) =~= nonzero_targets(b).insert(ts[j]));
    } else {
        assert(nonzero_targets(a) =~= nonzero_targets(b));
    }
}

/// Walks the decoded stream and returns its block-start addresses, each
/// exactly once, in first-seen order.
#[verifier::loop_isolation(false)]
pub fn find_block_boundaries(insns: &Vec<DecodedInsn>) -> (r: Vec<u64>)
    ensures
        r@.to_set() == block_starts(insns@),
        r@.no_duplicates(),
{
    let mut r: Vec<u64> = Vec::new();
    let mut push = true;
    let mut idx: usize = 0;
    proof {
        assert(insns@.skip(0) =~= insns@);
        assert(r@.to_set() =~= Set::<u64>::empty());
        assert(Set::<u64>::empty().union(block_starts(insns@)) =~= block_starts(insns@));
    }
    while idx < insns.len()
        invariant
            0 <= idx <= insns@.len(),
            r@.no_duplicates(),
            block_starts(insns@) == r@.to_set().union(
                block_starts_rec(insns@.skip(idx as int), push),
            ),
        decreases insns@.len() - idx,
    {
        let ghost push0 = push;
        let ghost cur = insns@[idx as int];
        proof {
            lemma_block_starts_rec_step(insns@, idx as int, push);
        }
        let insn = &insns[idx];
        let ghost pre_set = r@.to_set();
        if push {
            push_unique(&mut r, insn.addr);
        }
        let ghost with_here = r@.to_set();
        proof {
            if push0 {
                assert(with_here =~= pre_set.union(set![cur.addr]));
            } else {
                assert(with_here =~= pre_set);
            }
        }
        if insn.cflow {
            let m = insn.imm_targets.len();
            proof {
                assert(cur.imm_targets@.take(0) =~= Seq::<u64>::empty());
                assert(nonzero_targets(Seq::<u64>::empty()) =~= Set::<u64>::empty());
                assert(with_here.union(Set::<u64>::empty()) =~= with_here);
            }
            let mut j: usize = 0;
            while j < m
                invariant
                    0 <= j <= m,
                    m == cur.imm_targets@.len(),
                    r@.no_duplicates(),
                    r@.to_set() == with_here.union(nonzero_targets(cur.imm_targets@.take(j as int))),
                decreases m - j,
            {
                let t = insn.imm_targets[j];
                proof {
                    lemma_nonzero_targets_step(cur.imm_targets@, j as int);
                }
                if t != 0 {
                    push_unique(&mut r, t);
                    proof {
                        assert(r@.to_set() =~= with_here.union(
                            nonzero_targets(cur.imm_targets@.take(j + 1)),
                        ));
                    }
                }
                j = j + 1;
            }
            proof {
                assert(cur.imm_targets@.take(m as int) =~= cur.imm_targets@);
                assert(r@.to_set() =~= pre_set.union(insn_marks(cur, push0)));
            }
            push = true;
        } else {
            push = false;
            proof {
                assert(r@.to_set() =~= pre_set.union(insn_marks(cur, push0)));
            }
        }
        proof {
            assert(block_starts(insns@) =~= r@.to_set().union(
                block_starts_rec(insns@.skip(idx + 1), cur.cflow),
            ));
        }
        idx = idx + 1;
    }
    proof {
        assert(insns@.skip(insns@.len() as int) =~= Seq::<DecodedInsn>::empty());
        assert(block_starts(insns@) =~= r@.to_set());
    }
    r
}

/// An empty suffix contributes nothing, whatever the flag.
proof fn lemma_rec_empty(s: Seq<DecodedInsn>, push: bool)
    requires
        s.len() == 0,
    ensures
        block_starts_rec(s, push) == Set::<u64>::empty(),
{
}

/// A stream without a single control-flow instruction has exactly one
/// boundary: nothing ever re-arms the "block starts here" flag.
proof fn lemma_rec_no_cflow_unarmed(s: Seq<DecodedInsn>)
    requires
        forall|k: int| 0 <= k < s.len() ==> !(#[trigger] s[k]).cflow,
    ensures
        block_starts_rec(s, false) == Set::<u64>::empty(),
    decreases s.len(),
{
    if s.len() > 0 {
        assert forall|k: int| 0 <= k < s.drop_first().len() implies !(#[trigger] s.drop_first()[k]).cflow by {
            assert(s.drop_first()[k] == s[k + 1]);
        }
        lemma_rec_no_cflow_unarmed(s.drop_first());
        assert(insn_marks(s[0], false) =~= Set::<u64>::empty());
        assert(block_starts_rec(s, false) =~= Set::<u64>::empty());
    }
}

/// With the flag armed, a straight-line stream contributes exactly its
/// first address.
proof fn lemma_rec_no_cflow_armed(s: Seq<DecodedInsn>)
    requires
        s.len() > 0,
        forall|k: int| 0 <= k < s.len() ==> !(#[trigger] s[k]).cflow,
    ensures
        block_starts_rec(s, true) == set![s[0].addr],
{
    assert forall|k: int| 0 <= k < s.drop_first().len() implies !(#[trigger] s.drop_first()[k]).cflow by {
        assert(s.drop_first()[k] == s[k + 1]);
    }
    lemma_rec_no_cflow_unarmed(s.drop_first());
    assert(insn_marks(s[0], true) =~= set![s[0].addr]);
    assert(block_starts_rec(s, true) =~= set![s[0].addr]);
}

/// Discovery on a stream of only non-control-flow instructions yields
/// exactly one boundary: the address of the stream's first instruction.
pub proof fn lemma_straightline_one_boundary(insns: Seq<DecodedInsn>)
    requires
        insns.len() > 0,
        forall|k: int| 0 <= k < insns.len() ==> !(#[trigger] insns[k]).cflow,
    ensures
        block_starts(insns) == set![insns[0].addr],
{
    lemma_rec_no_cflow_armed(insns);
}

/// With the flag cleared, a stream whose one control-flow instruction
/// stands at position `k` and carries the single non-zero target `t`
/// contributes `t` and, if the branch has a successor, that successor's
/// address.
proof fn lemma_rec_single_branch(s: Seq<DecodedInsn>, k: int, t: u64)
    requires
        0 <= k < s.len(),
        s[k].cflow,
        s[k].imm_targets@ == seq![t],
        t != 0,
        forall|j: int| 0 <= j < s.len() && j != k ==> !(#[trigger] s[j]).cflow,
    ensures
        k + 1 < s.len() ==> block_starts_rec(s, false) == set![t, s[k + 1].addr],
        k + 1 == s.len() ==> block_starts_rec(s, false) == set![t],
    decreases k,
{
    let rest = s.drop_first();
    if k == 0 {
        assert(seq![t][0] == t);
        assert(seq![t].contains(t));
        assert forall|x: u64| #[trigger] seq![t].contains(x) implies x == t by {
            let i = choose|i: int| 0 <= i < seq![t].len() && seq![t][i] == x;
        }
        assert(nonzero_targets(seq![t]) =~= set![t]);
        assert(insn_marks(s[0], false) =~= set![t]);
        if s.len() > 1 {
            assert forall|j: int| 0 <= j < rest.len() implies !(#[trigger] rest[j]).cflow by {
                assert(rest[j] == s[j + 1]);
            }
            lemma_rec_no_cflow_armed(rest);
            assert(rest[0] == s[1]);
            assert(block_starts_rec(s, false) =~= set![t, s[1].addr]);
        } else {
            lemma_rec_empty(rest, s[0].cflow);
            assert(block_starts_rec(s, false) =~= set![t]);
        }
    } else {
        assert(!s[0].cflow);
        assert(rest[k - 1] == s[k]);
        assert forall|j: int| 0 <= j < rest.len() && j != k - 1 implies !(#[trigger] rest[j]).cflow by {
            assert(rest[j] == s[j + 1]);
        }
        lemma_rec_single_branch(rest, k - 1, t);
        assert(insn_marks(s[0], false) =~= Set::<u64>::empty());
        if k + 1 < s.len() {
            assert(rest[k] == s[k + 1]);
            assert(block_starts_rec(s, false) =~= set![t, s[k + 1].addr]);
        } else {
            assert(block_starts_rec(s, false) =~= set![t]);
        }
    }
}

/// Discovery on a stream whose one control-flow instruction stands at
/// position `k` with the single non-zero immediate target `t` yields the
/// entry address, `t`, and the address of the instruction after the
/// branch, when there is one; set semantics collapse any of these that
/// coincide.
pub proof fn lemma_single_branch_boundaries(insns: Seq<DecodedInsn>, k: int, t: u64)
    requires
        0 <= k < insns.len(),
        insns[k].cflow,
        insns[k].imm_targets@ == seq![t],
        t != 0,
        forall|j: int| 0 <= j < insns.len() && j != k ==> !(#[trigger] insns[j]).cflow,
    ensures
        k + 1 < insns.len() ==> block_starts(insns) == set![insns[0].addr, t, insns[k + 1].addr],
        k + 1 == insns.len() ==> block_starts(insns) == set![insns[0].addr, t],
{
    let rest = insns.drop_first();
    if k == 0 {
        assert(seq![t][0] == t);
        assert forall|x: u64| #[trigger] seq![t].contains(x) implies x == t by {
            let i = choose|i: int| 0 <= i < seq![t].len() && seq![t][i] == x;
        }
        assert(nonzero_targets(seq![t]) =~= set![t]);
        assert(insn_marks(insns[0], true) =~= set![insns[0].addr, t]);
        if insns.len() > 1 {
            assert forall|j: int| 0 <= j < rest.len() implies !(#[trigger] rest[j]).cflow by {
                assert(rest[j] == insns[j + 1]);
            }
            lemma_rec_no_cflow_armed(rest);
            assert(rest[0] == insns[1]);
            assert(block_starts(insns) =~= set![insns[0].addr, t, insns[1].addr]);
        } else {
            lemma_rec_empty(rest, insns[0].cflow);
            assert(block_starts(insns) =~= set![insns[0].addr, t]);
        }
    } else {
        assert(!insns[0].cflow);
        assert(rest[k - 1] == insns[k]);
        assert forall|j: int| 0 <= j < rest.len() && j != k - 1 implies !(#[trigger] rest[j]).cflow by {
            assert(rest[j] == insns[j + 1]);
        }
        lemma_rec_single_branch(rest, k - 1, t);
        assert(insn_marks(insns[0], true) =~= set![insns[0].addr]);
        if k + 1 < insns.len() {
            assert(rest[k] == insns[k + 1]);
            assert(block_starts(insns) =~= set![insns[0].addr, t, insns[k + 1].addr]);
        } else {
            assert(block_starts(insns) =~= set![insns[0].addr, t]);
        }
    }
}

} // verus!
