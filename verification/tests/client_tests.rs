use ledger::client::Client;
use ledger::money::Money;
use ledger::Error;

fn dec(units: i64) -> Money {
    Money::from_units(units)
}

#[test]
fn test_deposit_ok_case() {
    let mut client = Client::new(1);
    assert_eq!(client.client_id(), 1);
    assert_eq!(client.total(), dec(0));
    assert_eq!(client.held(), dec(0));
    assert_eq!(client.available(), dec(0));
    client.deposit(1, dec(20000)).unwrap();
    assert_eq!(client.total(), dec(20000));
    assert_eq!(client.held(), dec(0));
    assert_eq!(client.available(), dec(20000));
}

#[test]
fn test_deposit_account_locked() {
    let mut client = Client::new(1);
    client.lock();
    assert_eq!(client.deposit(1, dec(20000)).unwrap_err(), Error::LockedAccount(1));
}

#[test]
fn test_withdrawal_ok_case() {
    let mut client = Client::new(1);
    client.deposit(1, dec(30000)).unwrap();
    client.withdrawal(2, dec(10000)).unwrap();
    assert_eq!(client.total(), dec(20000));
    assert_eq!(client.held(), dec(0));
    assert_eq!(client.available(), dec(20000));
}

#[test]
fn test_withdrawal_account_locked() {
    let mut client = Client::new(1);
    client.deposit(1, dec(30000)).unwrap();
    client.lock();
    assert_eq!(client.withdrawal(2, dec(10000)).unwrap_err(), Error::LockedAccount(1));
    assert_eq!(client.total(), dec(30000));
    assert_eq!(client.held(), dec(0));
    assert_eq!(client.available(), dec(30000));
}

#[test]
fn test_withdrawal_not_enough_credit() {
    let mut client = Client::new(1);
    client.deposit(1, dec(30000)).unwrap();
    assert_eq!(client.withdrawal(2, dec(40000)).unwrap_err(), Error::NotEnoughCredit(1));
    assert_eq!(client.total(), dec(30000));
    assert_eq!(client.held(), dec(0));
    assert_eq!(client.available(), dec(30000));
}

#[test]
fn test_dispute_ok_case() {
    let mut client = Client::new(1);
    client.deposit(1, dec(30000)).unwrap();
    client.dispute(1).unwrap();
    assert!(client.get_transaction(1).unwrap().get_dispute_status());
    client.deposit(2, dec(30000)).unwrap();
    assert!(!client.get_transaction(2).unwrap().get_dispute_status());
    assert_eq!(client.total(), dec(60000));
    assert_eq!(client.held(), dec(30000));
    assert_eq!(client.available(), dec(30000))
}

#[test]
fn test_dispute_account_locked() {
    let mut client = Client::new(1);
    client.deposit(1, dec(30000)).unwrap();
    client.dispute(1).unwrap();
    client.lock();
    assert_eq!(client.deposit(2, dec(30000)).unwrap_err(), Error::LockedAccount(1));
    assert_eq!(client.total(), dec(30000));
    assert_eq!(client.held(), dec(30000));
    assert_eq!(client.available(), dec(0))
}

#[test]
fn test_dispute_not_enough_for_withdraw() {
    let mut client = Client::new(1);
    client.deposit(1, dec(30000)).unwrap();
    client.dispute(1).unwrap();
    client.deposit(2, dec(30000)).unwrap();
    assert_eq!(client.withdrawal(3, dec(40000)).unwrap_err(), Error::NotEnoughCredit(1));
    assert_eq!(client.total(), dec(60000));
    assert_eq!(client.held(), dec(30000));
    assert_eq!(client.available(), dec(30000))
}

#[test]
fn test_dispute_transaction_does_not_exist() {
    let mut client = Client::new(1);
    client.deposit(1, dec(30000)).unwrap();
    assert_eq!(client.dispute(2).unwrap_err(), Error::TransactionDoesNotExist(1, 2));
    assert_eq!(client.total(), dec(30000));
    assert_eq!(client.held(), dec(0));
    assert_eq!(client.available(), dec(30000))
}

#[test]
fn test_resolve_ok_case() {
    let mut client = Client::new(1);
    client.deposit(1, dec(30000)).unwrap();
    client.dispute(1).unwrap();
    assert!(client.get_transaction(1).unwrap().get_dispute_status());
    client.deposit(2, dec(30000)).unwrap();
    client.resolve(1).unwrap();
    assert_eq!(client.total(), dec(60000));
    assert_eq!(client.held(), dec(0));
    assert_eq!(client.available(), dec(60000))
}

#[test]
fn test_resolve_account_locked() {
    let mut client = Client::new(1);
    client.deposit(1, dec(30000)).unwrap();
    client.dispute(1).unwrap();
    assert!(client.get_transaction(1).unwrap().get_dispute_status());
    client.deposit(2, dec(30000)).unwrap();
    client.lock();
    assert_eq!(client.resolve(1).unwrap_err(), Error::LockedAccount(1));
    assert_eq!(client.total(), dec(60000));
    assert_eq!(client.held(), dec(30000));
    assert_eq!(client.available(), dec(30000))
}

#[test]
fn test_resolve_transaction_does_not_exist() {
    let mut client = Client::new(1);
    client.deposit(1, dec(30000)).unwrap();
    client.dispute(1).unwrap();
    assert!(client.get_transaction(1).unwrap().get_dispute_status());
    client.deposit(2, dec(30000)).unwrap();
    assert_eq!(client.resolve(3).unwrap_err(), Error::TransactionDoesNotExist(1, 3));
    assert_eq!(client.total(), dec(60000));
    assert_eq!(client.held(), dec(30000));
    assert_eq!(client.available(), dec(30000))
}

#[test]
fn test_resolve_transaction_not_disputed() {
    let mut client = Client::new(1);
    client.deposit(1, dec(30000)).unwrap();
    client.dispute(1).unwrap();
    assert!(client.get_transaction(1).unwrap().get_dispute_status());
    client.deposit(2, dec(30000)).unwrap();
    assert_eq!(client.resolve(2).unwrap_err(), Error::TransactionNotDisputed(2, 1));
    assert_eq!(client.total(), dec(60000));
    assert_eq!(client.held(), dec(30000));
    assert_eq!(client.available(), dec(30000))
}

#[test]
fn test_chargeback_ok_case() {
    let mut client = Client::new(1);
    client.deposit(1, dec(30000)).unwrap();
    client.dispute(1).unwrap();
    assert!(client.get_transaction(1).unwrap().get_dispute_status());
    client.deposit(2, dec(30000)).unwrap();
    client.chargeback(1).unwrap();
    assert!(client.is_locked());
    assert_eq!(client.total(), dec(30000));
    assert_eq!(client.held(), dec(0));
    assert_eq!(client.available(), dec(30000))
}

#[test]
fn test_chargeback_account_locked() {
    let mut client = Client::new(1);
    client.deposit(1, dec(30000)).unwrap();
    client.dispute(1).unwrap();
    assert!(client.get_transaction(1).unwrap().get_dispute_status());
    client.deposit(2, dec(30000)).unwrap();
    client.dispute(2).unwrap();
    client.chargeback(1).unwrap();
    assert_eq!(client.chargeback(2).unwrap_err(), Error::LockedAccount(1));
    assert!(client.is_locked());
    assert_eq!(client.total(), dec(30000));
    assert_eq!(client.held(), dec(30000));
    assert_eq!(client.available(), dec(0))
}

#[test]
fn test_chargeback_transaction_does_not_exist() {
    let mut client = Client::new(1);
    client.deposit(1, dec(30000)).unwrap();
    client.dispute(1).unwrap();
    assert!(client.get_transaction(1).unwrap().get_dispute_status());
    client.deposit(2, dec(30000)).unwrap();
    assert_eq!(client.chargeback(3).unwrap_err(), Error::TransactionDoesNotExist(1, 3));
    assert!(!client.is_locked());
    assert_eq!(client.total(), dec(60000));
    assert_eq!(client.held(), dec(30000));
    assert_eq!(client.available(), dec(30000))
}

#[test]
fn test_chargeback_transaction_not_disputed() {
    let mut client = Client::new(1);
    client.deposit(1, dec(30000)).unwrap();
    client.dispute(1).unwrap();
    assert!(client.get_transaction(1).unwrap().get_dispute_status());
    client.deposit(2, dec(30000)).unwrap();
    assert_eq!(client.chargeback(2).unwrap_err(), Error::TransactionNotDisputed(2, 1));
    assert!(!client.is_locked());
    assert_eq!(client.total(), dec(60000));
    assert_eq!(client.held(), dec(30000));
    assert_eq!(client.available(), dec(30000))
}
