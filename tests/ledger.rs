use simple_bank::{
    buy_investment, deposit, sell_investment, transfer, withdraw, Amount, BankError, BankState,
    Investment,
};

fn amt(n: i64) -> Amount {
    Amount::from_signed_bytes_le(n.to_le_bytes().to_vec())
}

fn name(s: &str) -> String {
    s.to_string()
}

fn bank(accounts: &[(&str, i64)], next_id: i64) -> BankState {
    let mut b = BankState::new(amt(next_id));
    for (n, v) in accounts {
        b.open_account(name(n), amt(*v)).unwrap();
    }
    b
}

fn balance_is(b: &BankState, who: &str, v: i64) -> bool {
    b.balance(&name(who)) == Some(&amt(v))
}

fn investment_is(b: &BankState, id: i64, owner: &str, v: i64) -> bool {
    match b.investment(&amt(id)) {
        Some(i) => i.owner == owner && i.amount == amt(v),
        None => false,
    }
}

fn same_ledger(a: &BankState, b: &BankState) -> bool {
    a.balances.len() == b.balances.len()
        && a.investments.len() == b.investments.len()
        && a.next_id == b.next_id
        && a.balances.iter().zip(b.balances.iter()).all(|(x, y)| x.0 == y.0 && x.1 == y.1)
        && a.investments.iter().zip(b.investments.iter()).all(|(x, y)| {
            x.0 == y.0 && x.1.owner == y.1.owner && x.1.amount == y.1.amount
        })
}

#[test]
fn example_transfer_buy_sell() {
    let mut b = bank(&[("A", 100), ("B", 0)], 1);
    assert_eq!(transfer(&mut b, name("A"), name("B"), amt(30)), Ok(()));
    assert!(balance_is(&b, "A", 70) && balance_is(&b, "B", 30));
    assert_eq!(buy_investment(&mut b, name("A"), amt(50)), Ok(()));
    assert!(balance_is(&b, "A", 20) && balance_is(&b, "B", 30));
    assert!(investment_is(&b, 1, "A", 50));
    assert_eq!(b.investments.len(), 1);
    assert!(b.next_id == amt(2));
    assert_eq!(sell_investment(&mut b, name("A"), amt(1)), Ok(()));
    assert!(balance_is(&b, "A", 70) && balance_is(&b, "B", 30));
    assert!(investment_is(&b, 1, "A", 50));
    assert_eq!(b.investments.len(), 1);
    assert!(b.next_id == amt(2));
}

#[test]
fn nonpositive_amounts_are_refused() {
    for a in [0i64, -1, -1000] {
        let before = bank(&[("A", 100), ("B", 5)], 3);
        let mut b = before.clone();
        assert_eq!(deposit(&mut b, name("A"), amt(a)), Err(BankError::InvalidAmount));
        assert_eq!(withdraw(&mut b, name("A"), amt(a)), Err(BankError::InvalidAmount));
        assert_eq!(transfer(&mut b, name("A"), name("B"), amt(a)), Err(BankError::InvalidAmount));
        assert_eq!(buy_investment(&mut b, name("A"), amt(a)), Err(BankError::InvalidAmount));
        assert!(same_ledger(&b, &before));
    }
}

#[test]
fn nonpositive_amount_is_refused_before_unknown_account() {
    let mut b = bank(&[("A", 1)], 1);
    assert_eq!(deposit(&mut b, name("Z"), amt(0)), Err(BankError::InvalidAmount));
}

#[test]
fn insufficient_balance_is_refused() {
    let before = bank(&[("A", 10), ("B", 0)], 1);
    let mut b = before.clone();
    assert_eq!(withdraw(&mut b, name("A"), amt(11)), Err(BankError::InsufficientBalance));
    assert_eq!(
        transfer(&mut b, name("A"), name("B"), amt(11)),
        Err(BankError::InsufficientBalance)
    );
    assert_eq!(buy_investment(&mut b, name("A"), amt(11)), Err(BankError::InsufficientBalance));
    assert_eq!(
        transfer(&mut b, name("A"), name("Nobody"), amt(11)),
        Err(BankError::InsufficientBalance)
    );
    assert!(same_ledger(&b, &before));
}

#[test]
fn whole_balance_can_be_withdrawn() {
    let mut b = bank(&[("A", 10)], 1);
    assert_eq!(withdraw(&mut b, name("A"), amt(10)), Ok(()));
    assert!(balance_is(&b, "A", 0));
}

#[test]
fn deposit_then_withdraw_restores_balance() {
    let before = bank(&[("X", 42), ("Y", 7)], 1);
    let mut b = before.clone();
    assert_eq!(deposit(&mut b, name("X"), amt(1000)), Ok(()));
    assert!(balance_is(&b, "X", 1042));
    assert_eq!(withdraw(&mut b, name("X"), amt(1000)), Ok(()));
    assert!(same_ledger(&b, &before));
}

#[test]
fn transfer_conserves_total() {
    let mut b = bank(&[("A", 500), ("B", 20), ("C", 3)], 1);
    assert_eq!(transfer(&mut b, name("A"), name("B"), amt(200)), Ok(()));
    assert!(balance_is(&b, "A", 300));
    assert!(balance_is(&b, "B", 220));
    assert!(balance_is(&b, "C", 3));
    let total = b.balances.iter().fold(amt(0), |acc, e| acc.add(&e.1));
    assert!(total == amt(523));
}

#[test]
fn transfer_to_self_changes_nothing() {
    let before = bank(&[("A", 50)], 1);
    let mut b = before.clone();
    assert_eq!(transfer(&mut b, name("A"), name("A"), amt(50)), Ok(()));
    assert!(same_ledger(&b, &before));
}

#[test]
fn buy_investment_records_one_position() {
    let mut b = bank(&[("X", 100)], 7);
    assert_eq!(buy_investment(&mut b, name("X"), amt(40)), Ok(()));
    assert!(balance_is(&b, "X", 60));
    assert_eq!(b.investments.len(), 1);
    assert!(investment_is(&b, 7, "X", 40));
    assert!(b.next_id == amt(8));
    assert_eq!(buy_investment(&mut b, name("X"), amt(60)), Ok(()));
    assert!(balance_is(&b, "X", 0));
    assert!(investment_is(&b, 8, "X", 60));
    assert!(b.next_id == amt(9));
}

#[test]
fn sell_investment_credits_owner_and_keeps_record() {
    let mut b = bank(&[("X", 100), ("Y", 0)], 1);
    assert_eq!(buy_investment(&mut b, name("X"), amt(30)), Ok(()));
    assert_eq!(sell_investment(&mut b, name("X"), amt(1)), Ok(()));
    assert!(balance_is(&b, "X", 100));
    assert!(investment_is(&b, 1, "X", 30));
    assert!(b.next_id == amt(2));
    assert_eq!(sell_investment(&mut b, name("X"), amt(1)), Ok(()));
    assert!(balance_is(&b, "X", 130));
}

#[test]
fn sell_by_other_is_refused() {
    let mut b = bank(&[("X", 100), ("Y", 0)], 1);
    assert_eq!(buy_investment(&mut b, name("X"), amt(30)), Ok(()));
    let before = b.clone();
    assert_eq!(sell_investment(&mut b, name("Y"), amt(1)), Err(BankError::UnauthorizedSale));
    assert!(same_ledger(&b, &before));
}

#[test]
fn sell_unknown_investment_is_refused() {
    let before = bank(&[("X", 100)], 1);
    let mut b = before.clone();
    assert_eq!(sell_investment(&mut b, name("X"), amt(1)), Err(BankError::UnknownInvestment));
    assert_eq!(sell_investment(&mut b, name("X"), amt(-3)), Err(BankError::UnknownInvestment));
    assert!(same_ledger(&b, &before));
}

#[test]
fn unknown_accounts_are_refused() {
    let before = bank(&[("A", 100)], 1);
    let mut b = before.clone();
    assert_eq!(deposit(&mut b, name("Z"), amt(1)), Err(BankError::UnknownAccount));
    assert_eq!(withdraw(&mut b, name("Z"), amt(1)), Err(BankError::UnknownAccount));
    assert_eq!(transfer(&mut b, name("Z"), name("A"), amt(1)), Err(BankError::UnknownAccount));
    assert_eq!(transfer(&mut b, name("A"), name("Z"), amt(1)), Err(BankError::UnknownAccount));
    assert_eq!(buy_investment(&mut b, name("Z"), amt(1)), Err(BankError::UnknownAccount));
    assert!(same_ledger(&b, &before));
}

#[test]
fn ledger_construction_checks() {
    let mut b = bank(&[("A", 100)], 5);
    assert_eq!(b.open_account(name("A"), amt(1)), Err(BankError::DuplicateAccount));
    let inv = |o: &str, v: i64| Investment { owner: name(o), amount: amt(v) };
    assert_eq!(b.record_investment(amt(5), inv("A", 1)), Err(BankError::InvestmentIdNotIssued));
    assert_eq!(b.record_investment(amt(2), inv("Q", 1)), Err(BankError::UnknownAccount));
    assert_eq!(b.record_investment(amt(2), inv("A", 9)), Ok(()));
    assert_eq!(b.record_investment(amt(2), inv("A", 1)), Err(BankError::DuplicateInvestment));
    assert!(investment_is(&b, 2, "A", 9));
    assert!(b.investment(&amt(3)).is_none());
    assert!(b.balance(&name("Q")).is_none());
    assert_eq!(sell_investment(&mut b, name("A"), amt(2)), Ok(()));
    assert!(balance_is(&b, "A", 109));
}

#[test]
fn amounts_beyond_machine_integers() {
    let big = amt(i64::MAX);
    let sum = big.add(&big).add(&amt(2));
    // 2^64 in two's complement: eight zero bytes, then a one.
    assert!(sum == Amount::from_signed_bytes_le(vec![0, 0, 0, 0, 0, 0, 0, 0, 1]));
    assert!(sum.sub(&big).sub(&big) == amt(2));
    assert!(big.lt(&sum));
    assert!(!sum.lt(&big));
    let mut b = bank(&[("A", i64::MAX)], 1);
    assert_eq!(deposit(&mut b, name("A"), amt(i64::MAX)), Ok(()));
    assert_eq!(deposit(&mut b, name("A"), amt(2)), Ok(()));
    assert!(b.balance(&name("A")) == Some(&sum));
}

#[test]
fn amount_arithmetic_and_order() {
    assert!(amt(5).add(&amt(-7)) == amt(-2));
    assert!(amt(-300).sub(&amt(-300)) == amt(0));
    assert!(amt(1000).sub(&amt(1)) == amt(999));
    assert!(amt(-1).lt(&amt(0)));
    assert!(!amt(0).lt(&amt(0)));
    assert!(amt(1).is_positive());
    assert!(!amt(0).is_positive());
    assert!(!amt(-5).is_positive());
    assert!(Amount::zero() == amt(0));
    assert!(Amount::one() == amt(1));
    assert!(Amount::from_signed_bytes_le(vec![]) == amt(0));
    assert!(Amount::from_signed_bytes_le(vec![1]) == Amount::from_signed_bytes_le(vec![1, 0, 0]));
    assert!(Amount::from_signed_bytes_le(vec![0xff]) == amt(-1));
    assert!(Amount::from_signed_bytes_le(vec![0x80]) == amt(-128));
    assert!(Amount::from_signed_bytes_le(vec![0x80, 0]) == amt(128));
    assert!(amt(5) != amt(6));
}

#[test]
fn error_messages() {
    assert_eq!(BankError::InvalidAmount.message(), "Amount should be greater than zero");
    assert_eq!(BankError::InsufficientBalance.message(), "Balance is too low");
    assert_eq!(BankError::UnknownInvestment.message(), "No investment with this id");
    assert_eq!(
        BankError::UnauthorizedSale.message(),
        "Seller can't sell an investment they don't own"
    );
}
