use ledger::money::Money;
use ledger::transaction::Transaction;

#[test]
fn money_units_round_trip() {
    assert_eq!(Money::from_units(12345).units(), 12345);
    assert_eq!(Money::from_units(-7).units(), -7);
    assert_eq!(Money::zero().units(), 0);
}

#[test]
fn money_exact_arithmetic() {
    let a = Money::from_units(10001);
    let b = Money::from_units(29999);
    assert_eq!(a.plus(b), Money::from_units(40000));
    assert_eq!(b.minus(a), Money::from_units(19998));
    assert!(a.less_than(b));
    assert!(!b.less_than(a));
    assert!(!a.less_than(a));
    assert!(Money::from_units(-1).is_negative());
    assert!(!Money::zero().is_negative());
}

#[test]
fn money_checked_arithmetic_detects_overflow() {
    let max = Money::from_units(i64::MAX);
    let min = Money::from_units(i64::MIN);
    let one = Money::from_units(1);
    assert_eq!(max.checked_plus(one), None);
    assert_eq!(min.checked_minus(one), None);
    assert_eq!(min.checked_plus(one), Some(Money::from_units(i64::MIN + 1)));
    assert_eq!(max.checked_minus(one), Some(Money::from_units(i64::MAX - 1)));
    assert_eq!(one.checked_plus(one), Some(Money::from_units(2)));
}

#[test]
fn transaction_records_its_fields() {
    let t = Transaction::new(9, Money::from_units(42));
    assert_eq!(t.get_amount(), Money::from_units(42));
    assert!(!t.get_dispute_status());
    let mut t = t;
    t.set_dispute_status(true);
    assert!(t.get_dispute_status());
    assert_eq!(t.get_amount(), Money::from_units(42));
    t.set_dispute_status(false);
    assert!(!t.get_dispute_status());
}
