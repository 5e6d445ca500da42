//! The reconciliation resolver and the small units around it.

use firefly_reconciliator::dates::month_end_stamp;
use firefly_reconciliator::description::is_reconciliation_description;
use firefly_reconciliator::replay::{
    check_response, create_or_update_reconciliation, determine_transaction_props,
    transaction_effect, Mutation, ReplayError, CLEARING_ACCOUNT_ID,
};
use firefly_reconciliator::schema::{Transaction, TransactionType};

fn prior_correction(kind: TransactionType, amount: i64) -> Transaction {
    Transaction {
        id: 42,
        transaction_journal_id: 77,
        transaction_type: kind,
        description: String::from("Reconciliation 2023 - 1"),
        year: 2023,
        month: 1,
        amount,
        source_id: None,
        destination_id: None,
    }
}

#[test]
fn kind_flip_deletes_then_creates() {
    // Prior correction: a Withdrawal of 50.00. The month now needs a net
    // +30.00, so the correction must become a Deposit of 30.00 — and the
    // remote schema forbids flipping the kind in place.
    let prior = prior_correction(TransactionType::Withdrawal, 5_000);
    let mut money: i64 = 0;
    let mutations = create_or_update_reconciliation(7, Some(&prior), 8_000, &mut money, 2023, 1);

    assert_eq!(mutations.len(), 2);
    assert!(matches!(&mutations[0], Mutation::Delete { transaction_id: 42 }));
    match &mutations[1] {
        Mutation::Create { payload } => {
            assert_eq!(payload.transaction_type, TransactionType::Deposit);
            assert_eq!(payload.amount, 3_000);
            assert_eq!(payload.source_id, Some(CLEARING_ACCOUNT_ID));
            assert_eq!(payload.destination_id, Some(7));
        }
        other => panic!("expected a creation, got {other:?}"),
    }
    assert!(!mutations.iter().any(|m| matches!(m, Mutation::Update { .. })));
    // The adjusted balance carries the whole target value.
    assert_eq!(money, 3_000);
}

#[test]
fn matching_kind_updates_in_place() {
    // Prior correction: a Withdrawal of 50.00; the month needs 20.00 less,
    // so the same withdrawal deepens to 70.00 in place.
    let prior = prior_correction(TransactionType::Withdrawal, 5_000);
    let mut money: i64 = 0;
    let mutations = create_or_update_reconciliation(7, Some(&prior), -2_000, &mut money, 2023, 1);

    assert_eq!(mutations.len(), 1);
    match &mutations[0] {
        Mutation::Update { transaction_id, payload } => {
            assert_eq!(*transaction_id, 42);
            assert_eq!(payload.transaction_journal_id, 77);
            assert_eq!(payload.transaction_type, TransactionType::Withdrawal);
            assert_eq!(payload.amount, 7_000);
        }
        other => panic!("expected an update, got {other:?}"),
    }
    assert_eq!(money, -2_000);
}

#[test]
fn creation_from_nothing_follows_the_sign() {
    let mut money: i64 = 10_000;
    let mutations = create_or_update_reconciliation(7, None, 25_000, &mut money, 2024, 2);

    assert_eq!(mutations.len(), 1);
    match &mutations[0] {
        Mutation::Create { payload } => {
            assert_eq!(payload.transaction_type, TransactionType::Deposit);
            assert_eq!(payload.amount, 15_000);
            assert_eq!(payload.source_id, Some(CLEARING_ACCOUNT_ID));
            assert_eq!(payload.destination_id, Some(7));
            // 2024 is a leap year: February closes on the 29th.
            assert_eq!(payload.date.day, 29);
            assert_eq!(payload.description, "Reconciliation 2024 - 2");
        }
        other => panic!("expected a creation, got {other:?}"),
    }
    assert_eq!(money, 25_000);
}

#[test]
fn transaction_props_follow_the_sign() {
    assert_eq!(
        determine_transaction_props(9, -1),
        (TransactionType::Withdrawal, Some(9), Some(CLEARING_ACCOUNT_ID))
    );
    assert_eq!(
        determine_transaction_props(9, 0),
        (TransactionType::Deposit, Some(CLEARING_ACCOUNT_ID), Some(9))
    );
    assert_eq!(
        determine_transaction_props(9, 250),
        (TransactionType::Deposit, Some(CLEARING_ACCOUNT_ID), Some(9))
    );
}

#[test]
fn transfer_signs_are_correct() {
    let base = prior_correction(TransactionType::Transfer, 1_234);
    let incoming = Transaction { destination_id: Some(7), ..base };
    assert_eq!(transaction_effect(7, &incoming), 1_234);

    let outgoing = Transaction {
        source_id: Some(7),
        destination_id: Some(3),
        ..prior_correction(TransactionType::Transfer, 1_234)
    };
    assert_eq!(transaction_effect(7, &outgoing), -1_234);

    let unrelated = Transaction {
        source_id: Some(4),
        destination_id: Some(3),
        ..prior_correction(TransactionType::Transfer, 1_234)
    };
    assert_eq!(transaction_effect(7, &unrelated), 0);
}

#[test]
fn month_end_stamps_close_the_month() {
    let leap = month_end_stamp(2024, 2);
    assert_eq!((leap.year, leap.month, leap.day), (2024, 2, 29));
    let plain_february = month_end_stamp(2023, 2);
    assert_eq!(plain_february.day, 28);
    let january = month_end_stamp(2023, 1);
    assert_eq!(january.day, 31);
    let december = month_end_stamp(2023, 12);
    assert_eq!(december.day, 31);
    let april = month_end_stamp(2023, 4);
    assert_eq!(april.day, 30);
    assert_eq!(
        (january.hour, january.minute, january.second, january.millisecond),
        (23, 59, 59, 999)
    );
    assert_eq!(january.offset_seconds, 7200);
}

#[test]
fn descriptions_carry_the_prefix() {
    // The exact text a created correction carries, observed through the
    // resolver's creation path.
    let mut money: i64 = 0;
    let mutations = create_or_update_reconciliation(7, None, -100, &mut money, 2023, 11);
    let text = match &mutations[0] {
        Mutation::Create { payload } => payload.description.clone(),
        other => panic!("expected a creation, got {other:?}"),
    };
    assert_eq!(text, "Reconciliation 2023 - 11");
    assert!(is_reconciliation_description(&text));
    assert!(is_reconciliation_description("Reconciliation"));
    assert!(is_reconciliation_description("Reconciliation of October"));
    assert!(!is_reconciliation_description("Rent"));
    assert!(!is_reconciliation_description(""));
    assert!(!is_reconciliation_description("reconciliation 2023 - 1"));
}

#[test]
fn response_statuses_split_at_the_2xx_range() {
    assert!(check_response(200, String::new()).is_ok());
    assert!(check_response(299, String::new()).is_ok());
    for status in [199u16, 300, 404, 500] {
        match check_response(status, String::from("denied")) {
            Err(ReplayError::RemoteMutation { status: s, body }) => {
                assert_eq!(s, status);
                assert_eq!(body, "denied");
            }
            other => panic!("expected a mutation error, got {other:?}"),
        }
    }
}
