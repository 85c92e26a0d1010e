use payment_engine::{
    Account, AccountRecord, EngineError, LedgerEngine, TransactionRecord, TransactionType,
    run_payment_engine,
};

fn rec(kind: TransactionType, client: u16, tx: u32, amount: Option<i64>) -> TransactionRecord {
    TransactionRecord::new(kind, client, tx, amount)
}

fn deposit(client: u16, tx: u32, amount: i64) -> TransactionRecord {
    rec(TransactionType::Deposit, client, tx, Some(amount))
}

fn withdrawal(client: u16, tx: u32, amount: i64) -> TransactionRecord {
    rec(TransactionType::Withdrawal, client, tx, Some(amount))
}

fn dispute(client: u16, tx: u32) -> TransactionRecord {
    rec(TransactionType::Dispute, client, tx, None)
}

fn resolve(client: u16, tx: u32) -> TransactionRecord {
    rec(TransactionType::Resolve, client, tx, None)
}

fn chargeback(client: u16, tx: u32) -> TransactionRecord {
    rec(TransactionType::Chargeback, client, tx, None)
}

fn acct(available: i64, held: i64, total: i64, locked: bool) -> Account {
    Account { available, held, total, locked }
}

fn snapshot_rows(engine: &LedgerEngine) -> Vec<(u16, i64, i64, i64, bool)> {
    engine
        .snapshot()
        .iter()
        .map(|r| (r.client, r.available, r.held, r.total, r.locked))
        .collect()
}

#[test]
fn deposit_on_empty_store_creates_account() {
    let mut e = LedgerEngine::new();
    e.apply(&deposit(1, 1, 10));
    assert_eq!(e.account(1), Some(acct(10, 0, 10, false)));
    let t = e.transaction(1).unwrap();
    assert_eq!(t.client_id, 1);
    assert_eq!(t.amount, Some(10));
    assert!(!t.in_dispute);
}

#[test]
fn withdrawal_then_insufficient_withdrawal() {
    let mut e = LedgerEngine::new();
    e.apply(&deposit(1, 1, 10));
    e.apply(&withdrawal(1, 2, 5));
    assert_eq!(e.account(1), Some(acct(5, 0, 5, false)));
    e.apply(&withdrawal(1, 3, 100));
    assert_eq!(e.account(1), Some(acct(5, 0, 5, false)));
    assert!(e.transaction(3).is_none());
}

#[test]
fn dispute_then_resolve() {
    let mut e = LedgerEngine::new();
    e.apply(&deposit(2, 10, 20));
    e.apply(&dispute(2, 10));
    assert_eq!(e.account(2), Some(acct(0, 20, 20, false)));
    assert!(e.transaction(10).unwrap().in_dispute);
    e.apply(&resolve(2, 10));
    assert_eq!(e.account(2), Some(acct(20, 0, 20, false)));
    assert!(!e.transaction(10).unwrap().in_dispute);
}

#[test]
fn dispute_then_chargeback_locks_account() {
    let mut e = LedgerEngine::new();
    e.apply(&deposit(3, 20, 30));
    e.apply(&dispute(3, 20));
    e.apply(&chargeback(3, 20));
    assert_eq!(e.account(3), Some(acct(0, 0, 0, true)));
    assert!(!e.transaction(20).unwrap().in_dispute);
    e.apply(&deposit(3, 21, 5));
    assert_eq!(e.account(3), Some(acct(0, 0, 0, true)));
    assert!(e.transaction(21).is_none());
}

#[test]
fn dispute_of_unknown_transaction_is_noop() {
    let mut e = LedgerEngine::new();
    e.apply(&dispute(9, 999));
    assert!(e.account(9).is_none());
    assert!(e.transaction(999).is_none());
    assert!(e.snapshot().is_empty());
}

#[test]
fn resolve_or_chargeback_without_dispute_is_noop() {
    let mut e = LedgerEngine::new();
    e.apply(&deposit(4, 30, 40));
    let before = snapshot_rows(&e);
    e.apply(&resolve(4, 30));
    assert_eq!(snapshot_rows(&e), before);
    e.apply(&chargeback(4, 30));
    assert_eq!(snapshot_rows(&e), before);
    assert_eq!(e.account(4), Some(acct(40, 0, 40, false)));
    assert!(!e.transaction(30).unwrap().in_dispute);
}

#[test]
fn totals_stay_consistent_over_a_mixed_stream() {
    let mut e = LedgerEngine::new();
    let stream = vec![
        deposit(1, 1, 100),
        deposit(2, 2, 50),
        withdrawal(1, 3, 30),
        dispute(1, 1),
        deposit(1, 4, 7),
        resolve(1, 1),
        dispute(2, 2),
        chargeback(2, 2),
        withdrawal(2, 5, 1),
        dispute(1, 3),
    ];
    for r in &stream {
        e.apply(r);
        for row in e.snapshot() {
            assert_eq!(row.total, row.available + row.held);
        }
    }
    assert_eq!(e.account(1), Some(acct(47, 30, 77, false)));
    assert_eq!(e.account(2), Some(acct(0, 0, 0, true)));
}

#[test]
fn locked_account_ignores_deposits_and_withdrawals() {
    let mut e = LedgerEngine::new();
    e.apply(&deposit(5, 1, 10));
    e.apply(&deposit(5, 2, 25));
    e.apply(&dispute(5, 1));
    e.apply(&chargeback(5, 1));
    assert_eq!(e.account(5), Some(acct(25, 0, 25, true)));
    e.apply(&deposit(5, 3, 4));
    e.apply(&withdrawal(5, 4, 5));
    e.apply(&dispute(5, 2));
    assert_eq!(e.account(5), Some(acct(25, 0, 25, true)));
}

#[test]
fn failed_records_leave_store_unchanged() {
    let mut e = LedgerEngine::new();
    e.apply(&deposit(1, 1, 10));
    e.apply(&dispute(1, 1));
    let before = snapshot_rows(&e);
    let before_tx = e.transaction(1);
    e.apply(&withdrawal(1, 2, 1));
    e.apply(&withdrawal(8, 3, 1));
    e.apply(&dispute(1, 77));
    e.apply(&resolve(1, 78));
    e.apply(&chargeback(1, 79));
    assert_eq!(snapshot_rows(&e), before);
    assert_eq!(e.transaction(1), before_tx);
    assert!(e.transaction(2).is_none());
    assert!(e.transaction(3).is_none());
    assert!(e.account(8).is_none());
}

#[test]
fn withdrawal_on_unknown_client_creates_nothing() {
    let mut e = LedgerEngine::new();
    e.apply(&withdrawal(6, 1, 0));
    assert!(e.account(6).is_none());
    assert!(e.transaction(1).is_none());
}

#[test]
fn dispute_after_withdrawal_can_go_negative() {
    let mut e = LedgerEngine::new();
    e.apply(&deposit(1, 1, 10));
    e.apply(&withdrawal(1, 2, 8));
    e.apply(&dispute(1, 1));
    assert_eq!(e.account(1), Some(acct(-8, 10, 2, false)));
}

#[test]
fn disputing_a_withdrawal_holds_its_amount() {
    let mut e = LedgerEngine::new();
    e.apply(&deposit(1, 1, 10));
    e.apply(&withdrawal(1, 2, 4));
    e.apply(&dispute(1, 2));
    assert_eq!(e.account(1), Some(acct(2, 4, 6, false)));
}

#[test]
fn resolved_transaction_can_be_disputed_again() {
    let mut e = LedgerEngine::new();
    e.apply(&deposit(1, 1, 10));
    e.apply(&dispute(1, 1));
    e.apply(&resolve(1, 1));
    e.apply(&dispute(1, 1));
    assert_eq!(e.account(1), Some(acct(0, 10, 10, false)));
    assert!(e.transaction(1).unwrap().in_dispute);
}

#[test]
fn deposit_without_amount_adds_nothing() {
    let mut e = LedgerEngine::new();
    e.apply(&rec(TransactionType::Deposit, 1, 1, None));
    assert_eq!(e.account(1), Some(acct(0, 0, 0, false)));
    assert_eq!(e.transaction(1).unwrap().amount, None);
    e.apply(&dispute(1, 1));
    assert!(!e.transaction(1).unwrap().in_dispute);
}

#[test]
fn deposit_adds_to_existing_account() {
    let mut e = LedgerEngine::new();
    e.apply(&deposit(1, 1, 10));
    e.apply(&deposit(1, 2, 15));
    assert_eq!(e.account(1), Some(acct(25, 0, 25, false)));
}

#[test]
fn try_apply_refuses_overflow_and_changes_nothing() {
    let mut e = LedgerEngine::new();
    assert!(e.try_apply(&deposit(1, 1, i64::MAX)));
    assert!(!e.try_apply(&deposit(1, 2, 1)));
    assert_eq!(e.account(1), Some(acct(i64::MAX, 0, i64::MAX, false)));
    assert!(e.transaction(2).is_none());
    assert!(e.try_apply(&deposit(1, 3, -1)));
    assert_eq!(e.account(1), Some(acct(i64::MAX - 1, 0, i64::MAX - 1, false)));
}

#[test]
fn run_reports_overflowing_record() {
    let records = vec![deposit(1, 1, i64::MAX), deposit(2, 2, 3), deposit(1, 3, 1)];
    assert_eq!(run_payment_engine(&records), Err(EngineError::Overflow { index: 2 }));
}

#[test]
fn run_returns_accounts_by_ascending_client() {
    let records = vec![
        deposit(7, 1, 5),
        deposit(65535, 2, 9),
        deposit(0, 3, 1),
        deposit(3, 4, 2),
        dispute(3, 4),
    ];
    let rows = run_payment_engine(&records).unwrap();
    let expected = vec![
        AccountRecord { client: 0, available: 1, held: 0, total: 1, locked: false },
        AccountRecord { client: 3, available: 0, held: 2, total: 2, locked: false },
        AccountRecord { client: 7, available: 5, held: 0, total: 5, locked: false },
        AccountRecord { client: 65535, available: 9, held: 0, total: 9, locked: false },
    ];
    assert_eq!(rows, expected);
}

#[test]
fn run_on_no_records_is_empty() {
    assert_eq!(run_payment_engine(&vec![]), Ok(vec![]));
}

#[test]
fn transaction_type_names() {
    assert_eq!(TransactionType::Deposit.as_string(), "deposit");
    assert_eq!(TransactionType::Withdrawal.as_string(), "withdrawal");
    assert_eq!(TransactionType::Dispute.as_string(), "dispute");
    assert_eq!(TransactionType::Resolve.as_string(), "resolve");
    assert_eq!(TransactionType::Chargeback.as_string(), "chargeback");
}
