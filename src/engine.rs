//! The ledger engine: applies records to the store one at a time and hands
//! out snapshots of the accounts.
use vstd::prelude::*;
use crate::laws::{
    lemma_out_of_limits_persists, lemma_run_within_limits_agrees, lemma_step_keeps_totals,
};
use crate::model::{
    AccountState, LedgerState, amount_or_zero, chargeback_step, deposit_step, dispute_step,
    empty_ledger, resolve_step, run, run_within_limits, step, takes_effect, totals_consistent,
    withdrawal_step, within_limits,
};
use crate::store::{Account, LedgerStore, TxEntry};
use crate::transaction::{RecordState, TransactionRecord, TransactionType};

verus! {

/// One row of a snapshot: a client and its account.
#[derive(Clone, Copy, Debug, PartialEq, Eq, Structural)]
pub struct AccountRecord {
    pub client: u16,
    pub available: i64,
    pub held: i64,
    pub total: i64,
    pub locked: bool,
}

impl AccountRecord {
    pub open spec fn state(self) -> AccountState {
        AccountState {
            available: self.available as int,
            held: self.held as int,
            total: self.total as int,
            locked: self.locked,
        }
    }
}

/// `v` lists each account of `accounts` once, by ascending client.
pub open spec fn is_snapshot_of(accounts: Map<u16, AccountState>, v: Seq<AccountRecord>) -> bool {
    &&& forall|i: int, j: int| 0 <= i < j < v.len() ==> v[i].client < v[j].client
    &&& forall|i: int|
        #![trigger v[i]]
        0 <= i < v.len() ==> accounts.contains_key(v[i].client) && accounts[v[i].client]
            == v[i].state()
    &&& forall|c: u16|
        #![trigger accounts.contains_key(c)]
        accounts.contains_key(c) ==> exists|i: int| 0 <= i < v.len() && v[i].client == c
}

/// Why a run stopped.
#[derive(Clone, Copy, Debug, PartialEq, Eq, Structural)]
pub enum EngineError {
    /// The record at `index` would take a balance beyond the range of `i64`.
    Overflow { index: usize },
}

/// The records' views, in order.
pub open spec fn records_view(rs: Seq<TransactionRecord>) -> Seq<RecordState> {
    rs.map_values(|r: TransactionRecord| r@)
}

/// Owns the store for its whole life and is the only way to change it.
pub struct LedgerEngine {
    store: LedgerStore,
}

impl View for LedgerEngine {
    type V = LedgerState;

    closed spec fn view(&self) -> LedgerState {
        self.store@
    }
}

fn amount_of(a: Option<i64>) -> (r: i64)
    ensures
        r as int == amount_or_zero(crate::transaction::amount_view(a)),
{
    match a {
        Some(x) => x,
        None => 0,
    }
}

impl LedgerEngine {
    /// The engine's state is well formed: every total is available plus held.
    pub open spec fn wf(&self) -> bool {
        totals_consistent(self@)
    }

    /// An engine over an empty ledger.
    pub fn new() -> (r: LedgerEngine)
        ensures
            r@ == empty_ledger(),
            r.wf(),
    {
        LedgerEngine { store: LedgerStore::new() }
    }

    /// The account of `client_id`, if it has one.
    pub fn account(&self, client_id: u16) -> (r: Option<Account>)
        ensures
            match r {
                Some(a) => self@.accounts.contains_key(client_id) && self@.accounts[client_id]
                    == a@,
                None => !self@.accounts.contains_key(client_id),
            },
    {
        self.store.account(client_id)
    }

    /// The history entry of `transaction_id`, if one was recorded.
    pub fn transaction(&self, transaction_id: u32) -> (r: Option<TxEntry>)
        ensures
            match r {
                Some(t) => self@.history.contains_key(transaction_id)
                    && self@.history[transaction_id] == t@,
                None => !self@.history.contains_key(transaction_id),
            },
    {
        self.store.transaction(transaction_id)
    }

    fn deposit(&mut self, record: &TransactionRecord) -> (ok: bool)
        ensures
            ok == within_limits(deposit_step(old(self)@, record@)),
            final(self)@ == if ok {
                deposit_step(old(self)@, record@)
            } else {
                old(self)@
            },
    {
        proof {
            self.store.lemma_within_limits();
        }
        let c = record.client_id;
        let amt = amount_of(record.amount);
        let entry = TxEntry { client_id: c, amount: record.amount, in_dispute: false };
        match self.store.account(c) {
            None => {
                let a = Account { available: amt, held: 0, total: amt, locked: false };
                self.store.put_account(c, a);
                self.store.put_transaction(record.transaction_id, entry);
                proof {
                    self.store.lemma_within_limits();
                }
                true
            },
            Some(a) => {
                if a.locked {
                    return true;
                }
                match a.available.checked_add(amt) {
                    None => {
                        assert(!within_limits(deposit_step(old(self)@, record@))) by {
                            let t = deposit_step(old(self)@, record@);
                            assert(!crate::model::fits_i64(t.accounts[c].available));
                        }
                        false
                    },
                    Some(available) => match available.checked_add(a.held) {
                        None => {
                            assert(!within_limits(deposit_step(old(self)@, record@))) by {
                                let t = deposit_step(old(self)@, record@);
                                assert(!crate::model::fits_i64(t.accounts[c].total));
                            }
                            false
                        },
                        Some(total) => {
                            let n = Account { available, held: a.held, total, locked: false };
                            self.store.put_account(c, n);
                            self.store.put_transaction(record.transaction_id, entry);
                            proof {
                                self.store.lemma_within_limits();
                            }
                            true
                        },
                    },
                }
            },
        }
    }

    fn withdraw(&mut self, record: &TransactionRecord) -> (ok: bool)
        ensures
            ok == within_limits(withdrawal_step(old(self)@, record@)),
            final(self)@ == if ok {
                withdrawal_step(old(self)@, record@)
            } else {
                old(self)@
            },
    {
        proof {
            self.store.lemma_within_limits();
        }
        let c = record.client_id;
        let amt = amount_of(record.amount);
        let entry = TxEntry { client_id: c, amount: record.amount, in_dispute: false };
        match self.store.account(c) {
            None => true,
            Some(a) => {
                if a.locked || a.available < amt {
                    return true;
                }
                match a.available.checked_sub(amt) {
                    None => {
                        assert(!within_limits(withdrawal_step(old(self)@, record@))) by {
                            let t = withdrawal_step(old(self)@, record@);
                            assert(!crate::model::fits_i64(t.accounts[c].available));
                        }
                        false
                    },
                    Some(available) => match available.checked_add(a.held) {
                        None => {
                            assert(!within_limits(withdrawal_step(old(self)@, record@))) by {
                                let t = withdrawal_step(old(self)@, record@);
                                assert(!crate::model::fits_i64(t.accounts[c].total));
                            }
                            false
                        },
                        Some(total) => {
                            let n = Account { available, held: a.held, total, locked: false };
                            self.store.put_account(c, n);
                            self.store.put_transaction(record.transaction_id, entry);
                            proof {
                                self.store.lemma_within_limits();
                            }
                            true
                        },
                    },
                }
            },
        }
    }

    fn dispute(&mut self, record: &TransactionRecord) -> (ok: bool)
        ensures
            ok == within_limits(dispute_step(old(self)@, record@)),
            final(self)@ == if ok {
                dispute_step(old(self)@, record@)
            } else {
                old(self)@
            },
    {
        proof {
            self.store.lemma_within_limits();
        }
        let tx = record.transaction_id;
        let e = match self.store.transaction(tx) {
            Some(e) => e,
            None => return true,
        };
        let x = match e.amount {
            Some(x) => x,
            None => return true,
        };
        let c = e.client_id;
        let a = match self.store.account(c) {
            Some(a) => a,
            None => return true,
        };
        if a.locked {
            return true;
        }
        let ghost t = dispute_step(old(self)@, record@);
        let available = match a.available.checked_sub(x) {
            Some(v) => v,
            None => {
                assert(!crate::model::fits_i64(t.accounts[c].available));
                return false;
            },
        };
        let held = match a.held.checked_add(x) {
            Some(v) => v,
            None => {
                assert(!crate::model::fits_i64(t.accounts[c].held));
                return false;
            },
        };
        let total = match available.checked_add(held) {
            Some(v) => v,
            None => {
                assert(!crate::model::fits_i64(t.accounts[c].total));
                return false;
            },
        };
        self.store.put_account(c, Account { available, held, total, locked: a.locked });
        self.store.put_transaction(
            tx,
            TxEntry { client_id: e.client_id, amount: e.amount, in_dispute: true },
        );
        proof {
            self.store.lemma_within_limits();
        }
        true
    }

    fn resolve(&mut self, record: &TransactionRecord) -> (ok: bool)
        ensures
            ok == within_limits(resolve_step(old(self)@, record@)),
            final(self)@ == if ok {
                resolve_step(old(self)@, record@)
            } else {
                old(self)@
            },
    {
        proof {
            self.store.lemma_within_limits();
        }
        let tx = record.transaction_id;
        let e = match self.store.transaction(tx) {
            Some(e) => e,
            None => return true,
        };
        let x = match e.amount {
            Some(x) => x,
            None => return true,
        };
        if !e.in_dispute {
            return true;
        }
        let c = e.client_id;
        let a = match self.store.account(c) {
            Some(a) => a,
            None => return true,
        };
        if a.locked {
            return true;
        }
        let ghost t = resolve_step(old(self)@, record@);
        let available = match a.available.checked_add(x) {
            Some(v) => v,
            None => {
                assert(!crate::model::fits_i64(t.accounts[c].available));
                return false;
            },
        };
        let held = match a.held.checked_sub(x) {
            Some(v) => v,
            None => {
                assert(!crate::model::fits_i64(t.accounts[c].held));
                return false;
            },
        };
        self.store.put_account(c, Account { available, held, total: a.total, locked: a.locked });
        self.store.put_transaction(
            tx,
            TxEntry { client_id: e.client_id, amount: e.amount, in_dispute: false },
        );
        proof {
            self.store.lemma_within_limits();
        }
        true
    }

    fn chargeback(&mut self, record: &TransactionRecord) -> (ok: bool)
        ensures
            ok == within_limits(chargeback_step(old(self)@, record@)),
            final(self)@ == if ok {
                chargeback_step(old(self)@, record@)
            } else {
                old(self)@
            },
    {
        proof {
            self.store.lemma_within_limits();
        }
        let tx = record.transaction_id;
        let e = match self.store.transaction(tx) {
            Some(e) => e,
            None => return true,
        };
        let x = match e.amount {
            Some(x) => x,
            None => return true,
        };
        if !e.in_dispute {
            return true;
        }
        let c = e.client_id;
        let a = match self.store.account(c) {
            Some(a) => a,
            None => return true,
        };
        if a.locked {
            return true;
        }
        let ghost t = chargeback_step(old(self)@, record@);
        let held = match a.held.checked_sub(x) {
            Some(v) => v,
            None => {
                assert(!crate::model::fits_i64(t.accounts[c].held));
                return false;
            },
        };
        let total = match a.total.checked_sub(x) {
            Some(v) => v,
            None => {
                assert(!crate::model::fits_i64(t.accounts[c].total));
                return false;
            },
        };
        self.store.put_account(c, Account { available: a.available, held, total, locked: true });
        self.store.put_transaction(
            tx,
            TxEntry { client_id: e.client_id, amount: e.amount, in_dispute: false },
        );
        proof {
            self.store.lemma_within_limits();
        }
        true
    }

    /// Applies `record` where every balance it produces fits in an `i64`,
    /// and reports whether it did; otherwise leaves the ledger as it was.
    pub fn try_apply(&mut self, record: &TransactionRecord) -> (ok: bool)
        requires
            old(self).wf(),
        ensures
            final(self).wf(),
            ok == within_limits(step(old(self)@, record@)),
            ok ==> final(self)@ == step(old(self)@, record@),
            !ok ==> final(self)@ == old(self)@,
    {
        proof {
            lemma_step_keeps_totals(self@, record@);
        }
        match record.transaction_type {
            TransactionType::Deposit => self.deposit(record),
            TransactionType::Withdrawal => self.withdraw(record),
            TransactionType::Dispute => self.dispute(record),
            TransactionType::Resolve => self.resolve(record),
            TransactionType::Chargeback => self.chargeback(record),
        }
    }

    /// Applies one record. A record that fails the checks of its kind
    /// changes nothing and raises no error.
    pub fn apply(&mut self, record: &TransactionRecord)
        requires
            old(self).wf(),
            within_limits(step(old(self)@, record@)),
        ensures
            final(self).wf(),
            final(self)@ == step(old(self)@, record@),
            !takes_effect(old(self)@, record@) ==> final(self)@ == old(self)@,
    {
        self.try_apply(record);
    }

    /// All accounts, by ascending client.
    pub fn snapshot(&self) -> (r: Vec<AccountRecord>)
        ensures
            is_snapshot_of(self@.accounts, r@),
    {
        let ghost accounts = self@.accounts;
        let mut v: Vec<AccountRecord> = Vec::new();
        let mut c: u32 = 0;
        while c < 0x10000
            invariant
                c <= 0x10000,
                accounts == self@.accounts,
                forall|i: int, j: int| 0 <= i < j < v@.len() ==> v@[i].client < v@[j].client,
                forall|i: int|
                    #![trigger v@[i]]
                    0 <= i < v@.len() ==> v@[i].client < c && accounts.contains_key(v@[i].client)
                        && accounts[v@[i].client] == v@[i].state(),
                forall|k: u16|
                    #![trigger accounts.contains_key(k)]
                    k < c && accounts.contains_key(k) ==> exists|i: int|
                        0 <= i < v@.len() && v@[i].client == k,
            decreases 0x10000 - c,
        {
            let k = c as u16;
            let ghost old_v = v@;
            match self.store.account(k) {
                Some(a) => {
                    v.push(
                        AccountRecord {
                            client: k,
                            available: a.available,
                            held: a.held,
                            total: a.total,
                            locked: a.locked,
                        },
                    );
                },
                None => {},
            }
            assert forall|m: u16|
                #![trigger accounts.contains_key(m)]
                m < c + 1 && accounts.contains_key(m) implies exists|i: int|
                    0 <= i < v@.len() && v@[i].client == m by {
                if m == k {
                    assert(v@[v@.len() - 1].client == m);
                } else {
                    let i = choose|i: int| 0 <= i < old_v.len() && old_v[i].client == m;
                    assert(v@[i] == old_v[i]);
                }
            }
            c = c + 1;
        }
        v
    }
}

/// Applies `records` in order to an empty ledger and returns the snapshot of
/// its accounts; stops at the first record that would take a balance beyond
/// the range of `i64`.
pub fn run_payment_engine(records: &Vec<TransactionRecord>) -> (r: Result<
    Vec<AccountRecord>,
    EngineError,
>)
    ensures
        r is Ok <==> run_within_limits(empty_ledger(), records_view(records@)) is Some,
        match r {
            Ok(v) => is_snapshot_of(run(empty_ledger(), records_view(records@)).accounts, v@),
            Err(EngineError::Overflow { index }) => {
                let before = records_view(records@).take(index as int);
                &&& index < records.len()
                &&& run_within_limits(empty_ledger(), before) is Some
                &&& !within_limits(step(run(empty_ledger(), before), records@[index as int]@))
            },
        },
{
    let ghost rv = records_view(records@);
    let mut engine = LedgerEngine::new();
    let mut i: usize = 0;
    assert(rv.take(0) =~= Seq::<RecordState>::empty());
    while i < records.len()
        invariant
            engine.wf(),
            i <= records.len(),
            rv == records_view(records@),
            run_within_limits(empty_ledger(), rv.take(i as int)) == Some(engine@),
        decreases records.len() - i,
    {
        assert(rv.take(i + 1).drop_last() =~= rv.take(i as int));
        assert(rv.take(i + 1).last() == records@[i as int]@);
        if !engine.try_apply(&records[i]) {
            proof {
                lemma_run_within_limits_agrees(empty_ledger(), rv.take(i as int));
                lemma_out_of_limits_persists(empty_ledger(), rv, i + 1, rv.len() as int);
                assert(rv.take(rv.len() as int) =~= rv);
            }
            return Err(EngineError::Overflow { index: i });
        }
        i = i + 1;
    }
    proof {
        assert(rv.take(rv.len() as int) =~= rv);
        lemma_run_within_limits_agrees(empty_ledger(), rv);
    }
    Ok(engine.snapshot())
}

} // verus!
