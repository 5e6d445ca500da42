//! End-to-end replays: scenarios over whole transaction streams.

use firefly_reconciliator::config::BankData;
use firefly_reconciliator::replay::{history_replay, Mutation, ReplayError};
use firefly_reconciliator::schema::{Transaction, TransactionType};

fn plain(id: usize, kind: TransactionType, year: i32, month: u32, amount: i64) -> Transaction {
    Transaction {
        id,
        transaction_journal_id: id,
        transaction_type: kind,
        description: String::from("ordinary entry"),
        year,
        month,
        amount,
        source_id: None,
        destination_id: None,
    }
}

fn tagged(id: usize, kind: TransactionType, year: i32, month: u32, amount: i64) -> Transaction {
    Transaction {
        description: format!("Reconciliation {year} - {month}"),
        ..plain(id, kind, year, month, amount)
    }
}

#[test]
fn empty_stream_is_rejected() {
    let table = BankData::new();
    let result = history_replay(7, &Vec::new(), &table);
    assert!(matches!(result, Err(ReplayError::EmptyInput)));
}

#[test]
fn end_to_end_scenario() {
    // Jan 5 Deposit 1000.00, Jan 20 Withdrawal 200.00, Feb 3 Deposit 50.00;
    // January is expected to close at 750.00, February is not in the table.
    let transactions = vec![
        plain(1, TransactionType::Deposit, 2023, 1, 100_000),
        plain(2, TransactionType::Withdrawal, 2023, 1, 20_000),
        plain(3, TransactionType::Deposit, 2023, 2, 5_000),
    ];
    let mut table = BankData::new();
    table.set(2023, 1, 75_000);

    let outcome = history_replay(7, &transactions, &table).unwrap();

    // January accumulated 80000, so a withdrawal of 50.00 corrects it.
    assert_eq!(outcome.mutations.len(), 1);
    match &outcome.mutations[0] {
        Mutation::Create { payload } => {
            assert_eq!(payload.transaction_type, TransactionType::Withdrawal);
            assert_eq!(payload.amount, 5_000);
            assert_eq!(payload.source_id, Some(7));
            assert_eq!(payload.destination_id, Some(1));
            assert!(payload.description.starts_with("Reconciliation"));
            assert_eq!(payload.date.year, 2023);
            assert_eq!(payload.date.month, 1);
            assert_eq!(payload.date.day, 31);
        }
        other => panic!("expected a creation, got {other:?}"),
    }

    // January reports the corrected balance; the trailing February report
    // accumulates on top of it.
    assert_eq!(outcome.reports.len(), 2);
    assert_eq!(
        (outcome.reports[0].year, outcome.reports[0].month, outcome.reports[0].balance),
        (2023, 1, 75_000)
    );
    assert_eq!(
        (outcome.reports[1].year, outcome.reports[1].month, outcome.reports[1].balance),
        (2023, 2, 80_000)
    );
    assert_eq!(outcome.final_balance, 80_000);
}

#[test]
fn replay_is_idempotent_once_corrections_persist() {
    // The same stream as the end-to-end scenario, with the first run's
    // correction persisted into January: the second replay touches nothing.
    let transactions = vec![
        plain(1, TransactionType::Deposit, 2023, 1, 100_000),
        plain(2, TransactionType::Withdrawal, 2023, 1, 20_000),
        tagged(9, TransactionType::Withdrawal, 2023, 1, 5_000),
        plain(3, TransactionType::Deposit, 2023, 2, 5_000),
    ];
    let mut table = BankData::new();
    table.set(2023, 1, 75_000);

    let outcome = history_replay(7, &transactions, &table).unwrap();

    assert!(outcome.mutations.is_empty());
    assert_eq!(outcome.reports.len(), 2);
    assert_eq!(
        (outcome.reports[0].year, outcome.reports[0].month, outcome.reports[0].balance),
        (2023, 1, 75_000)
    );
    assert_eq!(outcome.final_balance, 80_000);
}

#[test]
fn skipped_month_gets_no_report_and_no_correction() {
    // Activity in January and March only; the table names January,
    // February and March. February must appear nowhere in the output.
    let transactions = vec![
        plain(1, TransactionType::Deposit, 2023, 1, 10_000),
        plain(2, TransactionType::Deposit, 2023, 3, 2_000),
    ];
    let mut table = BankData::new();
    table.set(2023, 1, 10_000);
    table.set(2023, 2, 99_999);
    table.set(2023, 3, 12_000);

    let outcome = history_replay(7, &transactions, &table).unwrap();

    assert!(outcome.mutations.is_empty());
    assert_eq!(outcome.reports.len(), 2);
    assert_eq!((outcome.reports[0].year, outcome.reports[0].month), (2023, 1));
    assert_eq!((outcome.reports[1].year, outcome.reports[1].month), (2023, 3));
    assert!(outcome.reports.iter().all(|r| r.month != 2));
}

#[test]
fn later_tag_wins_within_a_month() {
    // Two tagged corrections in January: the resolver must re-target the
    // later one (id 9, a withdrawal of 10.00), updating it in place.
    let transactions = vec![
        plain(1, TransactionType::Deposit, 2023, 1, 50_000),
        tagged(8, TransactionType::Withdrawal, 2023, 1, 30_000),
        tagged(9, TransactionType::Withdrawal, 2023, 1, 1_000),
        plain(3, TransactionType::Deposit, 2023, 2, 1_000),
    ];
    // January closes at 50000 - 30000 - 1000 = 19000; expected 15000 means
    // the later correction must deepen from -1000 to -5000.
    let mut table = BankData::new();
    table.set(2023, 1, 15_000);

    let outcome = history_replay(7, &transactions, &table).unwrap();

    assert_eq!(outcome.mutations.len(), 1);
    match &outcome.mutations[0] {
        Mutation::Update { transaction_id, payload } => {
            assert_eq!(*transaction_id, 9);
            assert_eq!(payload.transaction_journal_id, 9);
            assert_eq!(payload.transaction_type, TransactionType::Withdrawal);
            assert_eq!(payload.amount, 5_000);
        }
        other => panic!("expected an in-place update, got {other:?}"),
    }
    assert_eq!(outcome.reports[0].balance, 15_000);
}

#[test]
fn reconciliation_kind_subtracts_its_magnitude() {
    let transactions = vec![
        plain(1, TransactionType::OpeningBalance, 2023, 1, 40_000),
        plain(2, TransactionType::Reconciliation, 2023, 1, 15_000),
    ];
    let table = BankData::new();
    let outcome = history_replay(7, &transactions, &table).unwrap();
    assert_eq!(outcome.final_balance, 25_000);
}
