//! Properties of the ledger that hold of every input.
use vstd::prelude::*;
use crate::model::{
    LedgerState, empty_ledger, run, run_within_limits, step, takes_effect, totals_consistent,
};
use crate::transaction::{RecordState, TransactionType};

verus! {

/// One record keeps every account's total equal to its available plus held
/// funds.
pub proof fn lemma_step_keeps_totals(s: LedgerState, r: RecordState)
    requires
        totals_consistent(s),
    ensures
        totals_consistent(step(s, r)),
{
    let t = step(s, r);
    assert forall|c: u16| #[trigger] t.accounts.contains_key(c) implies t.accounts[c].total
        == t.accounts[c].available + t.accounts[c].held by {
        if s.accounts.contains_key(c) {
            assert(s.accounts[c].total == s.accounts[c].available + s.accounts[c].held);
        }
    }
}

/// Any sequence of records keeps every account's total equal to its
/// available plus held funds.
pub proof fn lemma_run_keeps_totals(s: LedgerState, rs: Seq<RecordState>)
    requires
        totals_consistent(s),
    ensures
        totals_consistent(run(s, rs)),
    decreases rs.len(),
{
    if rs.len() > 0 {
        lemma_run_keeps_totals(s, rs.drop_last());
        lemma_step_keeps_totals(run(s, rs.drop_last()), rs.last());
    }
}

/// After any prefix of the input, applied to an empty ledger, every account's
/// total is its available plus held funds.
pub proof fn lemma_totals_consistent_after_every_prefix(rs: Seq<RecordState>, k: int)
    requires
        0 <= k <= rs.len(),
    ensures
        totals_consistent(run(empty_ledger(), rs.take(k))),
{
    lemma_run_keeps_totals(empty_ledger(), rs.take(k));
}

/// A record whose checks fail leaves the whole ledger as it was.
pub proof fn lemma_failed_record_changes_nothing(s: LedgerState, r: RecordState)
    requires
        !takes_effect(s, r),
    ensures
        step(s, r) == s,
{
}

/// A deposit or withdrawal for a locked account leaves the whole ledger, and
/// so that account's balances, as they were.
pub proof fn lemma_locked_account_refuses_funds(s: LedgerState, r: RecordState)
    requires
        s.accounts.contains_key(r.client_id),
        s.accounts[r.client_id].locked,
        r.kind == TransactionType::Deposit || r.kind == TransactionType::Withdrawal,
    ensures
        step(s, r) == s,
        step(s, r).accounts[r.client_id] == s.accounts[r.client_id],
{
}

/// A record never changes a locked account.
pub proof fn lemma_step_keeps_locked_account(s: LedgerState, r: RecordState, c: u16)
    requires
        s.accounts.contains_key(c),
        s.accounts[c].locked,
    ensures
        step(s, r).accounts.contains_key(c),
        step(s, r).accounts[c] == s.accounts[c],
{
}

/// Once an account is locked, no later sequence of records changes it: it
/// stays locked and its available, held and total funds stay as they are.
pub proof fn lemma_locked_account_is_frozen(s: LedgerState, rs: Seq<RecordState>, c: u16)
    requires
        s.accounts.contains_key(c),
        s.accounts[c].locked,
    ensures
        run(s, rs).accounts.contains_key(c),
        run(s, rs).accounts[c] == s.accounts[c],
    decreases rs.len(),
{
    if rs.len() > 0 {
        lemma_locked_account_is_frozen(s, rs.drop_last(), c);
        lemma_step_keeps_locked_account(run(s, rs.drop_last()), rs.last(), c);
    }
}

/// Where every step stays within limits, the checked run is the plain run.
pub proof fn lemma_run_within_limits_agrees(s: LedgerState, rs: Seq<RecordState>)
    requires
        run_within_limits(s, rs) is Some,
    ensures
        run_within_limits(s, rs) == Some(run(s, rs)),
    decreases rs.len(),
{
    if rs.len() > 0 {
        lemma_run_within_limits_agrees(s, rs.drop_last());
    }
}

/// Once a prefix leaves the limits, every longer prefix does too.
pub proof fn lemma_out_of_limits_persists(s: LedgerState, rs: Seq<RecordState>, i: int, k: int)
    requires
        0 <= i <= k <= rs.len(),
        run_within_limits(s, rs.take(i)) is None,
    ensures
        run_within_limits(s, rs.take(k)) is None,
    decreases k - i,
{
    if k > i {
        lemma_out_of_limits_persists(s, rs, i, k - 1);
        assert(rs.take(k).drop_last() =~= rs.take(k - 1));
    }
}

} // verus!
