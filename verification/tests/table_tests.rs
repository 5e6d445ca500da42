//! The expected-balance table.

use firefly_reconciliator::config::{Account, BankData, Configuration};

#[test]
fn lookup_finds_what_set_stored() {
    let mut table = BankData::new();
    table.set(2023, 1, 512_315);
    table.set(2023, 2, 123_410);
    table.set(2023, 12, 190_512);

    assert_eq!(table.lookup(2023, 1), Some(512_315));
    assert_eq!(table.lookup(2023, 2), Some(123_410));
    assert_eq!(table.lookup(2023, 12), Some(190_512));
}

#[test]
fn absent_months_are_not_checked() {
    let mut table = BankData::new();
    table.set(2023, 1, 100);

    assert_eq!(table.lookup(2023, 2), None);
    assert_eq!(table.lookup(2024, 1), None);
    assert_eq!(BankData::new().lookup(2023, 1), None);
}

#[test]
fn setting_a_month_twice_keeps_the_later_value() {
    let mut table = BankData::new();
    table.set(2023, 3, 1_000);
    table.set(2023, 3, -2_500);

    assert_eq!(table.lookup(2023, 3), Some(-2_500));
}

#[test]
fn configuration_carries_accounts_and_their_tables() {
    let mut data = BankData::new();
    data.set(2023, 5, 40_000);
    let configuration = Configuration {
        token: String::from("bearer-token-for-tests"),
        base_url: String::from("http://localhost:8081"),
        accounts: vec![Account { name: String::from("checking"), firefly_id: 3, data }],
    };

    assert_eq!(configuration.accounts.len(), 1);
    assert_eq!(configuration.accounts[0].firefly_id, 3);
    assert_eq!(configuration.accounts[0].data.lookup(2023, 5), Some(40_000));
}
