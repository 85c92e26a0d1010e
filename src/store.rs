//! The ledger store: accounts by client and history entries by transaction.
//! It holds no rules of its own; the engine decides every change.
use std::collections::HashMap;
use vstd::prelude::*;
use crate::model::{AccountState, LedgerState, TxState, empty_ledger, fits_i64, within_limits};

verus! {

broadcast use vstd::std_specs::hash::group_hash_axioms;

/// A client's balances.
#[derive(Clone, Copy, Debug, PartialEq, Eq, Structural)]
pub struct Account {
    pub available: i64,
    pub held: i64,
    pub total: i64,
    pub locked: bool,
}

impl View for Account {
    type V = AccountState;

    open spec fn view(&self) -> AccountState {
        AccountState {
            available: self.available as int,
            held: self.held as int,
            total: self.total as int,
            locked: self.locked,
        }
    }
}

/// A deposit or withdrawal that was applied.
#[derive(Clone, Copy, Debug, PartialEq, Eq, Structural)]
pub struct TxEntry {
    pub client_id: u16,
    pub amount: Option<i64>,
    pub in_dispute: bool,
}

impl View for TxEntry {
    type V = TxState;

    open spec fn view(&self) -> TxState {
        TxState {
            client_id: self.client_id,
            amount: crate::transaction::amount_view(self.amount),
            in_dispute: self.in_dispute,
        }
    }
}

/// The two mappings of the ledger. Only the engine changes them.
pub struct LedgerStore {
    accounts: HashMap<u16, Account>,
    history: HashMap<u32, TxEntry>,
}

impl View for LedgerStore {
    type V = LedgerState;

    closed spec fn view(&self) -> LedgerState {
        LedgerState {
            accounts: self.accounts@.map_values(|a: Account| a@),
            history: self.history@.map_values(|t: TxEntry| t@),
        }
    }
}

impl LedgerStore {
    /// A store with no accounts and no history.
    pub fn new() -> (r: LedgerStore)
        ensures
            r@ == empty_ledger(),
    {
        let r = LedgerStore { accounts: HashMap::new(), history: HashMap::new() };
        assert(r@.accounts =~= Map::empty());
        assert(r@.history =~= Map::empty());
        r
    }

    /// Every stored balance is an `i64`.
    pub proof fn lemma_within_limits(&self)
        ensures
            within_limits(self@),
    {
        assert forall|c: u16| #[trigger] self@.accounts.contains_key(c) implies {
            &&& fits_i64(self@.accounts[c].available)
            &&& fits_i64(self@.accounts[c].held)
            &&& fits_i64(self@.accounts[c].total)
        } by {
            let a = self.accounts@[c];
            assert(self@.accounts[c] == a@);
        }
    }

    pub fn account(&self, client_id: u16) -> (r: Option<Account>)
        ensures
            match r {
                Some(a) => self@.accounts.contains_key(client_id) && self@.accounts[client_id]
                    == a@,
                None => !self@.accounts.contains_key(client_id),
            },
    {
        match self.accounts.get(&client_id) {
            Some(a) => Some(*a),
            None => None,
        }
    }

    pub fn transaction(&self, transaction_id: u32) -> (r: Option<TxEntry>)
        ensures
            match r {
                Some(t) => self@.history.contains_key(transaction_id)
                    && self@.history[transaction_id] == t@,
                None => !self@.history.contains_key(transaction_id),
            },
    {
        match self.history.get(&transaction_id) {
            Some(t) => Some(*t),
            None => None,
        }
    }

    pub(crate) fn put_account(&mut self, client_id: u16, a: Account)
        ensures
            final(self)@ == (LedgerState {
                accounts: old(self)@.accounts.insert(client_id, a@),
                history: old(self)@.history,
            }),
    {
        self.accounts.insert(client_id, a);
        assert(self@.accounts =~= old(self)@.accounts.insert(client_id, a@));
        assert(self@.history =~= old(self)@.history);
    }

    pub(crate) fn put_transaction(&mut self, transaction_id: u32, t: TxEntry)
        ensures
            final(self)@ == (LedgerState {
                accounts: old(self)@.accounts,
                history: old(self)@.history.insert(transaction_id, t@),
            }),
    {
        self.history.insert(transaction_id, t);
        assert(self@.accounts =~= old(self)@.accounts);
        assert(self@.history =~= old(self)@.history.insert(transaction_id, t@));
    }
}

} // verus!
