//! The mathematical model of the ledger and of one step of it.
use vstd::prelude::*;
use crate::transaction::{RecordState, TransactionType};

verus! {

/// An account's balances as integers.
pub struct AccountState {
    pub available: int,
    pub held: int,
    pub total: int,
    pub locked: bool,
}

/// A history entry: the originating client, the amount of a deposit or
/// withdrawal, and whether it is under dispute.
pub struct TxState {
    pub client_id: u16,
    pub amount: Option<int>,
    pub in_dispute: bool,
}

/// The whole ledger: accounts by client, history entries by transaction.
pub struct LedgerState {
    pub accounts: Map<u16, AccountState>,
    pub history: Map<u32, TxState>,
}

pub open spec fn empty_ledger() -> LedgerState {
    LedgerState { accounts: Map::empty(), history: Map::empty() }
}

/// What a deposit or withdrawal moves; a missing amount counts as zero.
pub open spec fn amount_or_zero(a: Option<int>) -> int {
    match a {
        Some(x) => x,
        None => 0,
    }
}

/// The history entry that a successful deposit or withdrawal writes.
pub open spec fn entry_of(r: RecordState) -> TxState {
    TxState { client_id: r.client_id, amount: r.amount, in_dispute: false }
}

pub open spec fn deposit_step(s: LedgerState, r: RecordState) -> LedgerState {
    let c = r.client_id;
    let amt = amount_or_zero(r.amount);
    if !s.accounts.contains_key(c) {
        LedgerState {
            accounts: s.accounts.insert(
                c,
                AccountState { available: amt, held: 0, total: amt, locked: false },
            ),
            history: s.history.insert(r.transaction_id, entry_of(r)),
        }
    } else if !s.accounts[c].locked {
        let a = s.accounts[c];
        let available = a.available + amt;
        LedgerState {
            accounts: s.accounts.insert(
                c,
                AccountState { available, held: a.held, total: available + a.held, locked: false },
            ),
            history: s.history.insert(r.transaction_id, entry_of(r)),
        }
    } else {
        s
    }
}

pub open spec fn withdrawal_step(s: LedgerState, r: RecordState) -> LedgerState {
    let c = r.client_id;
    let amt = amount_or_zero(r.amount);
    if s.accounts.contains_key(c) && !s.accounts[c].locked && s.accounts[c].available >= amt {
        let a = s.accounts[c];
        let available = a.available - amt;
        LedgerState {
            accounts: s.accounts.insert(
                c,
                AccountState { available, held: a.held, total: available + a.held, locked: false },
            ),
            history: s.history.insert(r.transaction_id, entry_of(r)),
        }
    } else {
        s
    }
}

/// The transaction that a dispute, resolve or chargeback refers to has an
/// amount and an unlocked account.
pub open spec fn refers_to_open_funds(s: LedgerState, tx: u32) -> bool {
    &&& s.history.contains_key(tx)
    &&& s.history[tx].amount is Some
    &&& s.accounts.contains_key(s.history[tx].client_id)
    &&& !s.accounts[s.history[tx].client_id].locked
}

/// The referenced transaction is, in addition, under dispute.
pub open spec fn refers_to_disputed_funds(s: LedgerState, tx: u32) -> bool {
    refers_to_open_funds(s, tx) && s.history[tx].in_dispute
}

pub open spec fn dispute_step(s: LedgerState, r: RecordState) -> LedgerState {
    let tx = r.transaction_id;
    if refers_to_open_funds(s, tx) {
        let e = s.history[tx];
        let x = e.amount->Some_0;
        let a = s.accounts[e.client_id];
        let available = a.available - x;
        let held = a.held + x;
        LedgerState {
            accounts: s.accounts.insert(
                e.client_id,
                AccountState { available, held, total: available + held, locked: a.locked },
            ),
            history: s.history.insert(tx, TxState { in_dispute: true, ..e }),
        }
    } else {
        s
    }
}

pub open spec fn resolve_step(s: LedgerState, r: RecordState) -> LedgerState {
    let tx = r.transaction_id;
    if refers_to_disputed_funds(s, tx) {
        let e = s.history[tx];
        let x = e.amount->Some_0;
        let a = s.accounts[e.client_id];
        LedgerState {
            accounts: s.accounts.insert(
                e.client_id,
                AccountState { available: a.available + x, held: a.held - x, ..a },
            ),
            history: s.history.insert(tx, TxState { in_dispute: false, ..e }),
        }
    } else {
        s
    }
}

pub open spec fn chargeback_step(s: LedgerState, r: RecordState) -> LedgerState {
    let tx = r.transaction_id;
    if refers_to_disputed_funds(s, tx) {
        let e = s.history[tx];
        let x = e.amount->Some_0;
        let a = s.accounts[e.client_id];
        LedgerState {
            accounts: s.accounts.insert(
                e.client_id,
                AccountState {
                    available: a.available,
                    held: a.held - x,
                    total: a.total - x,
                    locked: true,
                },
            ),
            history: s.history.insert(tx, TxState { in_dispute: false, ..e }),
        }
    } else {
        s
    }
}

/// The effect of one record on the ledger.
pub open spec fn step(s: LedgerState, r: RecordState) -> LedgerState {
    match r.kind {
        TransactionType::Deposit => deposit_step(s, r),
        TransactionType::Withdrawal => withdrawal_step(s, r),
        TransactionType::Dispute => dispute_step(s, r),
        TransactionType::Resolve => resolve_step(s, r),
        TransactionType::Chargeback => chargeback_step(s, r),
    }
}

/// Whether a record passes the checks of its kind and so changes the ledger.
pub open spec fn takes_effect(s: LedgerState, r: RecordState) -> bool {
    match r.kind {
        TransactionType::Deposit => !s.accounts.contains_key(r.client_id)
            || !s.accounts[r.client_id].locked,
        TransactionType::Withdrawal => s.accounts.contains_key(r.client_id)
            && !s.accounts[r.client_id].locked
            && s.accounts[r.client_id].available >= amount_or_zero(r.amount),
        TransactionType::Dispute => refers_to_open_funds(s, r.transaction_id),
        TransactionType::Resolve => refers_to_disputed_funds(s, r.transaction_id),
        TransactionType::Chargeback => refers_to_disputed_funds(s, r.transaction_id),
    }
}

/// The records applied in order, from the first.
pub open spec fn run(s: LedgerState, rs: Seq<RecordState>) -> LedgerState
    decreases rs.len(),
{
    if rs.len() == 0 {
        s
    } else {
        step(run(s, rs.drop_last()), rs.last())
    }
}

pub open spec fn fits_i64(x: int) -> bool {
    i64::MIN <= x <= i64::MAX
}

/// Every balance of every account fits in an `i64`.
pub open spec fn within_limits(s: LedgerState) -> bool {
    forall|c: u16|
        #![trigger s.accounts[c]]
        s.accounts.contains_key(c) ==> {
            &&& fits_i64(s.accounts[c].available)
            &&& fits_i64(s.accounts[c].held)
            &&& fits_i64(s.accounts[c].total)
        }
}

/// Every account's total is the sum of its available and held funds.
pub open spec fn totals_consistent(s: LedgerState) -> bool {
    forall|c: u16|
        #![trigger s.accounts[c]]
        s.accounts.contains_key(c) ==> s.accounts[c].total == s.accounts[c].available
            + s.accounts[c].held
}

/// The records applied in order while every step stays within limits;
/// `None` where some step would leave them.
pub open spec fn run_within_limits(s: LedgerState, rs: Seq<RecordState>) -> Option<LedgerState>
    decreases rs.len(),
{
    if rs.len() == 0 {
        Some(s)
    } else {
        match run_within_limits(s, rs.drop_last()) {
            Some(t) => if within_limits(step(t, rs.last())) {
                Some(step(t, rs.last()))
            } else {
                None
            },
            None => None,
        }
    }
}

} // verus!
