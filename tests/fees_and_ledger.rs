use bounty_escrow::testing::{
    assert_escrow_amount, assert_escrow_deadline, assert_escrow_exists, assert_escrow_status, generate_amount,
    generate_bounty_id, large_amount, small_amount, standard_amount,
};
use bounty_escrow::{
    AssetLedger, BountyEscrowContract, Error, EscrowStatus, ProgramEscrowContract, RefundMode, ReentrancyError,
    ReentrancyGuard, Role, Transfer,
};

#[test]
fn fee_values() {
    assert_eq!(BountyEscrowContract::calculate_fee(1000, 0), 0);
    assert_eq!(BountyEscrowContract::calculate_fee(1000, 100), 10);
    assert_eq!(BountyEscrowContract::calculate_fee(999, 100), 9);
    assert_eq!(BountyEscrowContract::calculate_fee(12345, 1000), 1234);
    assert_eq!(BountyEscrowContract::calculate_fee(i128::MAX, 2), 34028236692093846346337460743176821);
    assert_eq!(BountyEscrowContract::calculate_fee(1_000_000_000_000_000_000_000_000_000_000_000_000, 1000), 100_000_000_000_000_000_000_000_000_000_000_000);
    assert_eq!(BountyEscrowContract::calculate_fee(12_345, 10_000), 12_345);
    assert_eq!(ProgramEscrowContract::calculate_fee(5000, 250), 125);
}

#[test]
fn fee_split_adds_up() {
    for gross in [1i128, 7, 999, 1000, 123_456_789] {
        for rate in [0i128, 1, 100, 1000] {
            let fee = BountyEscrowContract::calculate_fee(gross, rate);
            assert_eq!(fee, gross * rate / 10_000);
            assert_eq!((gross - fee) + fee, gross);
        }
    }
}

#[test]
fn lock_and_release_with_fees() {
    let mut c = BountyEscrowContract::new(1000);
    c.init(1, 50).unwrap();
    assert_eq!(c.update_fee_config(1, Some(1001), None, None, None), Err(Error::InvalidFeeRate));
    c.update_fee_config(1, Some(100), Some(200), Some(9), Some(true)).unwrap();
    let t = c.lock_funds(2, 1, 1000, 500, None, 10).unwrap();
    assert_eq!(
        t,
        vec![
            Transfer { token: 50, from: 2, to: 1000, amount: 990 },
            Transfer { token: 50, from: 2, to: 9, amount: 10 },
        ]
    );
    assert_eq!(c.get_escrow_info(1).unwrap().amount, 990);
    let t = c.release_funds(1, 1, 3, None, None, 20).unwrap();
    assert_eq!(
        t,
        vec![
            Transfer { token: 50, from: 1000, to: 3, amount: 971 },
            Transfer { token: 50, from: 1000, to: 9, amount: 19 },
        ]
    );
    // The holdings are back where they were before the lock.
    assert_eq!(c.get_balance(), Ok(0));
}

#[test]
fn lock_then_refund_restores_balance() {
    let mut c = BountyEscrowContract::new(1000);
    c.init(1, 50).unwrap();
    let before = c.get_token_bal(50).unwrap();
    c.lock_funds(2, 1, 700, 500, None, 10).unwrap();
    assert_eq!(c.get_token_bal(50), Ok(before + 700));
    c.refund(1, None, None, RefundMode::Full, None, 500).unwrap();
    assert_eq!(c.get_token_bal(50), Ok(before));
}

#[test]
fn holdings_per_asset() {
    let mut c = BountyEscrowContract::new(1000);
    c.init(1, 50).unwrap();
    assert_eq!(c.add_token(1, 60), Ok(()));
    assert_eq!(c.add_token(1, 60), Err(Error::TokenAlreadyWhitelisted));
    c.lock_funds(2, 1, 300, 500, None, 10).unwrap();
    c.lock_funds(2, 2, 400, 500, Some(60), 10).unwrap();
    assert_eq!(c.get_token_bal(50), Ok(300));
    assert_eq!(c.get_token_bal(60), Ok(400));
    assert_eq!(c.get_token_balance(2, 60), Ok(400));
    assert_eq!(c.get_token_balance(2, 50), Ok(0));
    c.release_funds(1, 2, 3, Some(60), Some(150), 20).unwrap();
    assert_eq!(c.get_token_bal(60), Ok(250));
    assert_eq!(c.get_token_bal(99), Err(Error::TokenNotWhitelisted));
    let s = c.get_stats();
    assert_eq!(s.total_bounties, 2);
    assert_eq!(s.total_locked_amount, 550);
    assert_eq!(s.total_released_amount, 150);
    assert_eq!(s.total_refunded_amount, 0);
}

#[test]
fn amount_limits_apply() {
    let mut c = BountyEscrowContract::new(1000);
    c.init(1, 50).unwrap();
    assert_eq!(c.update_amount_limits(1, 10, 5, 1, 100), Err(Error::InvalidAmount));
    c.update_amount_limits(1, 10, 500, 1, 100).unwrap();
    assert_eq!(c.lock_funds(2, 1, 9, 500, None, 10), Err(Error::InvalidAmount));
    assert_eq!(c.lock_funds(2, 1, 501, 500, None, 10), Err(Error::InvalidAmount));
    c.lock_funds(2, 1, 200, 500, None, 10).unwrap();
    assert_eq!(c.release_funds(1, 1, 3, None, None, 20), Err(Error::InvalidAmount));
    assert!(c.release_funds(1, 1, 3, None, Some(100), 20).is_ok());
    assert_eq!(c.get_amount_limits().max_payout, 100);
}

#[test]
fn ledger_credit_and_debit() {
    let mut l = AssetLedger::new();
    l.credit(5, 100);
    l.credit(6, 50);
    l.credit(5, 25);
    assert_eq!(l.balance_of(5), 125);
    assert_eq!(l.balance_of(6), 50);
    assert_eq!(l.balance_of(7), 0);
    assert_eq!(l.total(), 175);
    assert_eq!(l.debit(6, 51), Err(Error::InsufficientFunds));
    assert_eq!(l.debit(6, 50), Ok(()));
    assert_eq!(l.balance_of(6), 0);
    assert_eq!(l.total(), 125);
}

#[test]
fn guard_enter_exit() {
    let mut g = ReentrancyGuard::new();
    assert!(!g.is_locked());
    assert_eq!(g.enter(), Ok(()));
    assert_eq!(g.enter(), Err(ReentrancyError::ReentrantCall));
    g.exit();
    assert!(!g.is_locked());
}

#[test]
fn role_names() {
    assert_eq!(Role::Admin.as_str(), "Admin");
    assert_eq!(Role::Operator.as_str(), "Operator");
    assert_eq!(Role::Pauser.as_str(), "Pauser");
    assert_eq!(Role::Viewer.as_str(), "Viewer");
}

#[test]
fn generators() {
    assert_eq!(generate_bounty_id(None), 1);
    assert_eq!(generate_bounty_id(Some(7)), 7);
    assert_eq!(generate_amount(1000, Some(10)), 10_000);
    assert_eq!(generate_amount(1000, None), 1000);
    assert_eq!(standard_amount(), 1000);
    assert_eq!(large_amount(), 1_000_000);
    assert_eq!(small_amount(), 100);
}

#[test]
fn escrow_checks() {
    let mut c = BountyEscrowContract::new(1000);
    c.init(1, 50).unwrap();
    c.lock_funds(2, 1, 300, 500, None, 10).unwrap();
    assert_escrow_exists(&c, 1);
    assert_escrow_status(&c, 1, EscrowStatus::Locked);
    assert_escrow_amount(&c, 1, 300);
    assert_escrow_deadline(&c, 1, 500);
    c.release_funds(1, 1, 3, None, None, 20).unwrap();
    assert_escrow_status(&c, 1, EscrowStatus::Released);
}

#[test]
fn role_names_read_back() {
    for r in [Role::Admin, Role::Operator, Role::Pauser, Role::Viewer] {
        assert_eq!(Role::from_str(r.as_str()), Some(r));
    }
    assert_eq!(Role::from_str("Operator"), Some(Role::Operator));
    assert_eq!(Role::from_str("admin"), None);
    assert_eq!(Role::from_str(""), None);
    assert_eq!(Role::from_str("Viewers"), None);
}

#[test]
fn refund_eligibility_report() {
    let mut c = BountyEscrowContract::new(1000);
    c.init(1, 50).unwrap();
    c.lock_funds(2, 1, 300, 500, None, 10).unwrap();
    assert_eq!(c.get_refund_eligibility(1, 100), Ok((false, false, 300, None)));
    assert_eq!(c.get_refund_eligibility(1, 500), Ok((true, true, 300, None)));
    assert_eq!(c.get_refund_eligibility(9, 500), Err(Error::BountyNotFound));
}

#[test]
fn large_amounts_still_pay_fees() {
    let big: i128 = 1_000_000_000_000_000_000_000_000_000_000_000_000;
    let mut c = BountyEscrowContract::new(1000);
    c.init(1, 50).unwrap();
    c.update_fee_config(1, Some(1000), Some(1000), Some(9), Some(true)).unwrap();
    let t = c.lock_funds(2, 1, big, 500, None, 10).unwrap();
    assert_eq!(
        t,
        vec![
            Transfer { token: 50, from: 2, to: 1000, amount: big - big / 10 },
            Transfer { token: 50, from: 2, to: 9, amount: big / 10 },
        ]
    );
    let held = big - big / 10;
    assert_eq!(c.get_escrow_info(1).unwrap().remaining_amount, held);
    let t = c.release_funds(1, 1, 3, None, None, 20).unwrap();
    assert_eq!(
        t,
        vec![
            Transfer { token: 50, from: 1000, to: 3, amount: held - held / 10 },
            Transfer { token: 50, from: 1000, to: 9, amount: held / 10 },
        ]
    );
}

#[test]
fn invariant_check_accepts_reached_states() {
    let mut c = BountyEscrowContract::new(1000);
    assert!(c.check_invariant());
    c.init(1, 50).unwrap();
    c.lock_funds(2, 1, 300, 500, None, 10).unwrap();
    c.lock_funds(2, 2, 700, 500, None, 10).unwrap();
    c.release_funds(1, 1, 3, None, Some(100), 20).unwrap();
    c.refund(2, Some(200), None, RefundMode::Partial, None, 500).unwrap();
    assert!(c.check_invariant());
}

#[test]
fn invariant_check_rejects_broken_states() {
    let mut c = BountyEscrowContract::new(1000);
    c.init(1, 50).unwrap();
    c.lock_funds(2, 1, 300, 500, None, 10).unwrap();
    // Holdings that no longer match the escrows.
    c.held.credit(50, 1);
    assert!(!c.check_invariant());
    let mut d = BountyEscrowContract::new(1000);
    d.init(1, 50).unwrap();
    d.lock_funds(2, 1, 300, 500, None, 10).unwrap();
    // A fee rate above the maximum.
    d.fee_config.lock_fee_rate = 2000;
    assert!(!d.check_invariant());
}
