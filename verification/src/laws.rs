//! The context's global laws, stated over the view-level protocol
//! descriptions that the executable operations are proved to implement.
use vstd::prelude::*;
use crate::account::{MAX_PERMITTED_DATA_LENGTH,
    MAX_PERMITTED_ACCOUNTS_DATA_ALLOCATIONS_PER_TRANSACTION};
use crate::context::{CtxView, lamport_sum_from, spec_lamport_sum, spec_pop_detect,
    spec_pop_result, spec_pop_state, spec_prog_check, spec_push_result, spec_push_state};
use crate::instruction::{FrameView, InstructionAccount, duplicates_well_formed};
use crate::pool::{PoolView, delta_sum, spec_can_borrow_exclusive};

verus! {

/// The frame a pop inspects: the one whose trace index is on top of the
/// stack.
pub open spec fn current_frame(v: CtxView) -> FrameView {
    v.trace[v.stack.last() as int]
}

/// Pool borrow exclusivity: once an exclusive borrow of a slot has been
/// granted — which marks the slot — a second exclusive borrow of the same
/// slot cannot succeed until the first is released.
pub proof fn lemma_pool_borrow_exclusivity(p: PoolView, index: u16)
    requires
        p.borrowed.len() == p.accounts.len(),
        spec_can_borrow_exclusive(p, index),
    ensures
        !spec_can_borrow_exclusive(
            PoolView { borrowed: p.borrowed.update(index as int, true), ..p },
            index,
        ),
{
}

/// Trace monotonicity: neither a push nor a pop ever shortens the
/// instruction trace, so its length is non-decreasing over any sequence of
/// them.
pub proof fn lemma_trace_monotonic(v: CtxView)
    requires
        v.wf(),
    ensures
        spec_push_state(v).trace.len() >= v.trace.len(),
        spec_pop_state(v).trace.len() == v.trace.len(),
{
}

/// Stack discipline: a successful push raises the stack height by exactly
/// one, and the matching pop — the next pop made at that height — lowers it
/// by exactly one, back to the height before the push.
pub proof fn lemma_stack_discipline(v: CtxView, w: CtxView)
    requires
        v.wf(),
        spec_push_result(v) is Ok,
        w.stack.len() == v.stack.len() + 1,
    ensures
        spec_push_state(v).stack.len() == v.stack.len() + 1,
        spec_pop_state(w).stack.len() == v.stack.len(),
{
}

/// Lamport sums depend only on the accounts' lamports and the borrow flags,
/// not on any other account state.
proof fn lemma_sum_same_lamports(
    p1: PoolView,
    p2: PoolView,
    iaccs: Seq<InstructionAccount>,
    i: int,
    acc: u128,
)
    requires
        p1.accounts.len() == p2.accounts.len(),
        p1.borrowed == p2.borrowed,
        forall|j: int| 0 <= j < p1.accounts.len()
            ==> #[trigger] p1.accounts[j].lamports == p2.accounts[j].lamports,
    ensures
        lamport_sum_from(p1, iaccs, i, acc) == lamport_sum_from(p2, iaccs, i, acc),
    decreases iaccs.len() - i,
{
    if 0 <= i < iaccs.len() {
        let ia = iaccs[i];
        if ia.index_in_callee as int != i {
            lemma_sum_same_lamports(p1, p2, iaccs, i + 1, acc);
        } else if (ia.index_in_transaction as int) < p1.accounts.len()
            && !p1.borrowed[ia.index_in_transaction as int]
            && acc + p1.accounts[ia.index_in_transaction as int].lamports <= u128::MAX {
            lemma_sum_same_lamports(
                p1,
                p2,
                iaccs,
                i + 1,
                (acc + p1.accounts[ia.index_in_transaction as int].lamports) as u128,
            );
        }
    }
}

/// Lamport conservation, forward direction: if between a frame's push and
/// its pop no instruction account's lamports changed and the borrow flags
/// are as they were, the recomputed sum equals the recorded snapshot and the
/// pop succeeds.
pub proof fn lemma_lamport_conservation(v: CtxView, w: CtxView)
    requires
        w.stack.len() > 0,
        v.pool.accounts.len() == w.pool.accounts.len(),
        v.pool.borrowed == w.pool.borrowed,
        forall|j: int| 0 <= j < v.pool.accounts.len()
            ==> #[trigger] v.pool.accounts[j].lamports == w.pool.accounts[j].lamports,
        spec_lamport_sum(v.pool, current_frame(w).instruction_accounts)
            == Ok::<u128, crate::errors::InstructionError>(current_frame(w).lamport_sum),
        spec_prog_check(w.pool, current_frame(w).program_accounts, 0) is None,
    ensures
        spec_pop_result(w) == Ok::<(), crate::errors::InstructionError>(()),
{
    lemma_sum_same_lamports(v.pool, w.pool, current_frame(w).instruction_accounts, 0, 0);
}

/// A successful push records, in the frame it freezes — which the matching
/// pop will find on top of the stack — exactly the lamport sum computed
/// over the pool at push time. Together with the conservation lemmas this
/// ties a frame's pop verdict to what happened to the lamports in between.
pub proof fn lemma_push_records_current_sum(v: CtxView)
    requires
        v.wf(),
        spec_push_result(v) is Ok,
    ensures
        spec_push_state(v).stack.len() > 0,
        spec_lamport_sum(v.pool, current_frame(spec_push_state(v)).instruction_accounts)
            == Ok::<u128, crate::errors::InstructionError>(
            current_frame(spec_push_state(v)).lamport_sum,
        ),
        current_frame(spec_push_state(v)).instruction_accounts
            == v.trace.last().instruction_accounts,
{
}

/// Number of first-occurrence instruction accounts, from position `i` on,
/// that point at the given transaction index.
pub open spec fn count_first_occurrences_of(
    iaccs: Seq<InstructionAccount>,
    i: int,
    t: u16,
) -> int
    decreases iaccs.len() - i,
{
    if i < 0 || i >= iaccs.len() {
        0
    } else {
        (if iaccs[i].index_in_callee as int == i && iaccs[i].index_in_transaction == t {
            1int
        } else {
            0int
        }) + count_first_occurrences_of(iaccs, i + 1, t)
    }
}

/// The count is at least one past any qualifying position.
proof fn lemma_count_at_least_one(iaccs: Seq<InstructionAccount>, i: int, k: int, t: u16)
    requires
        0 <= i <= k < iaccs.len(),
        iaccs[k].index_in_callee as int == k,
        iaccs[k].index_in_transaction == t,
    ensures
        count_first_occurrences_of(iaccs, i, t) >= 1,
    decreases k - i,
{
    let c = count_first_occurrences_of(iaccs, i + 1, t);
    if i < k {
        lemma_count_at_least_one(iaccs, i + 1, k, t);
    } else {
        lemma_count_nonnegative(iaccs, i + 1, t);
    }
}

/// The count is never negative.
proof fn lemma_count_nonnegative(iaccs: Seq<InstructionAccount>, i: int, t: u16)
    ensures
        count_first_occurrences_of(iaccs, i, t) >= 0,
    decreases iaccs.len() - i,
{
    if 0 <= i < iaccs.len() {
        lemma_count_nonnegative(iaccs, i + 1, t);
    }
}

/// When only the lamports of slot `t` differ between two pools, two
/// completed sums differ by the accumulated difference plus one lamport
/// difference per first occurrence of `t`.
proof fn lemma_sum_shift(
    p1: PoolView,
    p2: PoolView,
    iaccs: Seq<InstructionAccount>,
    i: int,
    acc1: u128,
    acc2: u128,
    s1: u128,
    s2: u128,
    t: u16,
)
    requires
        p1.accounts.len() == p2.accounts.len(),
        p1.borrowed == p2.borrowed,
        (t as int) < p1.accounts.len(),
        forall|j: int| 0 <= j < p1.accounts.len() && j != t as int
            ==> #[trigger] p1.accounts[j].lamports == p2.accounts[j].lamports,
        lamport_sum_from(p1, iaccs, i, acc1) == Ok::<u128, crate::errors::InstructionError>(s1),
        lamport_sum_from(p2, iaccs, i, acc2) == Ok::<u128, crate::errors::InstructionError>(s2),
    ensures
        s2 - s1 == (acc2 - acc1) + count_first_occurrences_of(iaccs, i, t) * (
        p2.accounts[t as int].lamports - p1.accounts[t as int].lamports),
    decreases iaccs.len() - i,
{
    let d = p2.accounts[t as int].lamports - p1.accounts[t as int].lamports;
    if i < 0 || i >= iaccs.len() {
    } else {
        let ia = iaccs[i];
        let c = count_first_occurrences_of(iaccs, i + 1, t);
        if ia.index_in_callee as int != i {
            lemma_sum_shift(p1, p2, iaccs, i + 1, acc1, acc2, s1, s2, t);
        } else {
            let lam1 = p1.accounts[ia.index_in_transaction as int].lamports;
            let lam2 = p2.accounts[ia.index_in_transaction as int].lamports;
            lemma_sum_shift(
                p1,
                p2,
                iaccs,
                i + 1,
                (acc1 + lam1) as u128,
                (acc2 + lam2) as u128,
                s1,
                s2,
                t,
            );
            if ia.index_in_transaction == t {
                assert((c + 1) * d == c * d + d) by (nonlinear_arith);
            }
        }
    }
}

/// Lamport conservation, converse direction: changing the lamports of the
/// account behind one first-occurrence instruction account of the frame,
/// with every other account's balance unchanged and no compensation, makes
/// the pop report an unbalanced instruction — while still unwinding.
pub proof fn lemma_lamport_imbalance(v: CtxView, w: CtxView, k: int)
    requires
        w.stack.len() > 0,
        v.pool.accounts.len() == w.pool.accounts.len(),
        v.pool.borrowed == w.pool.borrowed,
        0 <= k < current_frame(w).instruction_accounts.len(),
        current_frame(w).instruction_accounts[k].index_in_callee as int == k,
        (current_frame(w).instruction_accounts[k].index_in_transaction as int)
            < v.pool.accounts.len(),
        forall|j: int| 0 <= j < v.pool.accounts.len()
            && j != current_frame(w).instruction_accounts[k].index_in_transaction as int
            ==> #[trigger] v.pool.accounts[j].lamports == w.pool.accounts[j].lamports,
        v.pool.accounts[
            current_frame(w).instruction_accounts[k].index_in_transaction as int].lamports
            != w.pool.accounts[
            current_frame(w).instruction_accounts[k].index_in_transaction as int].lamports,
        spec_lamport_sum(v.pool, current_frame(w).instruction_accounts)
            == Ok::<u128, crate::errors::InstructionError>(current_frame(w).lamport_sum),
        spec_prog_check(w.pool, current_frame(w).program_accounts, 0) is None,
        spec_lamport_sum(w.pool, current_frame(w).instruction_accounts) is Ok,
    ensures
        spec_pop_result(w) == Err::<(), crate::errors::InstructionError>(
            crate::errors::InstructionError::UnbalancedInstruction,
        ),
        spec_pop_state(w).stack.len() == w.stack.len() - 1,
{
    let iaccs = current_frame(w).instruction_accounts;
    let t = iaccs[k].index_in_transaction;
    let s1 = current_frame(w).lamport_sum;
    let s2 = spec_lamport_sum(w.pool, iaccs).unwrap();
    lemma_sum_shift(v.pool, w.pool, iaccs, 0, 0, 0, s1, s2, t);
    lemma_count_at_least_one(iaccs, 0, k, t);
    let c = count_first_occurrences_of(iaccs, 0, t);
    let d = w.pool.accounts[t as int].lamports - v.pool.accounts[t as int].lamports;
    assert(c >= 1 && d != 0 ==> c * d != 0) by (nonlinear_arith);
    assert(s2 != s1);
    assert(spec_pop_detect(w) == Ok::<bool, crate::errors::InstructionError>(true));
}

/// Resize-delta identity: in every well-formed context the recorded resize
/// delta equals the signed sum, over all slots, of current minus initial
/// data length. Every operation's contract preserves well-formedness, so
/// this holds after any sequence of operations.
pub proof fn lemma_resize_delta_identity(v: CtxView)
    requires
        v.wf(),
    ensures
        v.pool.resize_delta == delta_sum(v.pool.accounts, v.pool.initial_lens),
{
}

/// Growth ceiling: no well-formed context exceeds the per-transaction
/// allocation budget, and none of its accounts exceeds the per-account data
/// maximum.
pub proof fn lemma_growth_ceiling(v: CtxView)
    requires
        v.wf(),
    ensures
        v.pool.resize_delta <= MAX_PERMITTED_ACCOUNTS_DATA_ALLOCATIONS_PER_TRANSACTION,
        forall|i: int| 0 <= i < v.pool.accounts.len()
            ==> #[trigger] v.pool.accounts[i].data.len() <= MAX_PERMITTED_DATA_LENGTH,
{
}

/// Duplicate correctness: under the duplicate-marker discipline, an
/// instruction account whose marker points before itself refers to the same
/// transaction account as the first occurrence it points at.
pub proof fn lemma_duplicate_correctness(accounts: Seq<InstructionAccount>, i: int)
    requires
        duplicates_well_formed(accounts),
        0 <= i < accounts.len(),
        (accounts[i].index_in_callee as int) < i,
    ensures
        accounts[accounts[i].index_in_callee as int].index_in_transaction
            == accounts[i].index_in_transaction,
{
    assert(!(forall|j: int| 0 <= j < i
        ==> (#[trigger] accounts[j]).index_in_transaction != accounts[i].index_in_transaction))
        by {
        if forall|j: int| 0 <= j < i
            ==> (#[trigger] accounts[j]).index_in_transaction != accounts[i].index_in_transaction {
            assert(accounts[i].index_in_callee as int == i);
        }
    }
}

/// Resizing one account moves the recorded delta by exactly the length
/// change, and the signed-sum identity holds again in the new state: after
/// any sequence of data-length changes the delta equals the sum, over all
/// slots, of current minus initial data length.
pub proof fn lemma_set_data_length_delta(
    h: crate::borrowed::BorrowedAccount,
    v: CtxView,
    new_length: int,
)
    requires
        v.wf(),
        h.valid(v),
        h.spec_can_data_be_resized(v, new_length) is Ok,
        0 <= new_length,
    ensures
        ({
            let v1 = h.spec_set_data_length_state(v, new_length);
            &&& v1.wf()
            &&& v1.pool.resize_delta == v.pool.resize_delta + new_length - h.acct(
                v,
            ).data.len()
            &&& v1.pool.resize_delta == delta_sum(v1.pool.accounts, v1.pool.initial_lens)
        }),
{
    let v1 = h.spec_set_data_length_state(v, new_length);
    let i = h.index_in_transaction as int;
    crate::pool::lemma_delta_sum_bounds(v.pool.accounts, v.pool.initial_lens);
    assert(v.pool.accounts.len() * MAX_PERMITTED_DATA_LENGTH
        <= 0xFFFF * MAX_PERMITTED_DATA_LENGTH) by (nonlinear_arith)
        requires v.pool.accounts.len() <= 0xFFFF;
    if h.acct(v).data.len() != new_length {
        crate::pool::lemma_delta_sum_update(
            v.pool.accounts,
            v.pool.initial_lens,
            i,
            v1.pool.accounts[i],
        );
        assert(v1.pool.accounts =~= v.pool.accounts.update(i, v1.pool.accounts[i]));
    }
}

/// Repeating a data-length change is a no-op: once `set_data_length(n)` has
/// succeeded, a second `set_data_length(n)` also succeeds and leaves the
/// data, the delta, and the touched flag exactly as they are.
pub proof fn lemma_set_data_length_idempotent(
    h: crate::borrowed::BorrowedAccount,
    v: CtxView,
    new_length: int,
)
    requires
        v.wf(),
        h.valid(v),
        h.spec_can_data_be_resized(v, new_length) is Ok,
        0 <= new_length,
    ensures
        ({
            let v1 = h.spec_set_data_length_state(v, new_length);
            &&& h.spec_can_data_be_resized(v1, new_length) is Ok
            &&& h.spec_set_data_length_state(v1, new_length) == v1
        }),
{
    lemma_set_data_length_delta(h, v, new_length);
    let v1 = h.spec_set_data_length_state(v, new_length);
    assert(h.acct(v1).data.len() == new_length);
}

/// Top-level index monotonicity: a pop raises the top-level instruction
/// counter by exactly one when it empties the stack and leaves it unchanged
/// otherwise; a push never changes it. It therefore never decreases.
pub proof fn lemma_top_level_monotonic(v: CtxView)
    requires
        v.wf(),
    ensures
        spec_push_state(v).top_level_instruction_index == v.top_level_instruction_index,
        spec_pop_state(v).top_level_instruction_index >= v.top_level_instruction_index,
        v.stack.len() == 1 ==> spec_pop_state(v).top_level_instruction_index
            == v.top_level_instruction_index + 1,
        v.stack.len() != 1 ==> spec_pop_state(v).top_level_instruction_index
            == v.top_level_instruction_index,
{
    if v.stack.len() == 1 {
        assert(v.top_level_instruction_index + v.stack.len() <= v.trace.len() - 1);
    }
}

} // verus!
