//! The input unit of the ledger: one transaction record.
use vstd::prelude::*;

verus! {

broadcast use vstd::string::group_string_axioms;

/// The five kinds of transaction record.
#[derive(Clone, Copy, Debug, PartialEq, Eq, Structural)]
pub enum TransactionType {
    Deposit,
    Withdrawal,
    Dispute,
    Resolve,
    Chargeback,
}

impl TransactionType {
    /// The lowercase name under which the kind appears in the input.
    pub open spec fn name(self) -> Seq<char> {
        match self {
            TransactionType::Deposit => "deposit"@,
            TransactionType::Withdrawal => "withdrawal"@,
            TransactionType::Dispute => "dispute"@,
            TransactionType::Resolve => "resolve"@,
            TransactionType::Chargeback => "chargeback"@,
        }
    }

    pub fn as_string(&self) -> (r: String)
        ensures
            r@ == self.name(),
    {
        match self {
            TransactionType::Deposit => "deposit".to_string(),
            TransactionType::Withdrawal => "withdrawal".to_string(),
            TransactionType::Dispute => "dispute".to_string(),
            TransactionType::Resolve => "resolve".to_string(),
            TransactionType::Chargeback => "chargeback".to_string(),
        }
    }
}

/// One input record. `amount` is present for deposits and withdrawals and
/// ignored for the other kinds.
#[derive(Clone, Copy, Debug)]
pub struct TransactionRecord {
    pub transaction_type: TransactionType,
    pub client_id: u16,
    pub transaction_id: u32,
    pub amount: Option<i64>,
}

/// A record with its amount as a mathematical integer.
pub struct RecordState {
    pub kind: TransactionType,
    pub client_id: u16,
    pub transaction_id: u32,
    pub amount: Option<int>,
}

/// An optional amount as an optional integer.
pub open spec fn amount_view(a: Option<i64>) -> Option<int> {
    match a {
        Some(x) => Some(x as int),
        None => None,
    }
}

impl View for TransactionRecord {
    type V = RecordState;

    open spec fn view(&self) -> RecordState {
        RecordState {
            kind: self.transaction_type,
            client_id: self.client_id,
            transaction_id: self.transaction_id,
            amount: amount_view(self.amount),
        }
    }
}

impl TransactionRecord {
    /// A record with the given fields.
    pub fn new(
        transaction_type: TransactionType,
        client_id: u16,
        transaction_id: u32,
        amount: Option<i64>,
    ) -> (r: TransactionRecord)
        ensures
            r.transaction_type == transaction_type,
            r.client_id == client_id,
            r.transaction_id == transaction_id,
            r.amount == amount,
    {
        TransactionRecord { transaction_type, client_id, transaction_id, amount }
    }
}

} // verus!
