use bounty_escrow::{
    Address, BountyEscrowContract, Error, EscrowStatus, LockFundsItem, RefundMode, ReleaseFundsItem, Transfer,
};
use std::collections::HashMap;

const CONTRACT: Address = 900;
const ADMIN: Address = 1;
const DEPOSITOR: Address = 2;
const CONTRIBUTOR: Address = 3;
const TOKEN: Address = 50;
const TOKEN2: Address = 51;

/// Token balances outside the contract, moved by the transfers it returns.
struct Bank {
    balances: HashMap<(Address, Address), i128>,
}

impl Bank {
    fn new() -> Bank {
        Bank { balances: HashMap::new() }
    }

    fn mint(&mut self, token: Address, holder: Address, amount: i128) {
        *self.balances.entry((token, holder)).or_insert(0) += amount;
    }

    fn balance(&self, token: Address, holder: Address) -> i128 {
        *self.balances.get(&(token, holder)).unwrap_or(&0)
    }

    fn apply(&mut self, transfers: Vec<Transfer>) {
        for t in transfers {
            let from = self.balance(t.token, t.from);
            assert!(from >= t.amount, "insufficient balance");
            self.balances.insert((t.token, t.from), from - t.amount);
            self.mint(t.token, t.to, t.amount);
        }
    }
}

struct Setup {
    escrow: BountyEscrowContract,
    bank: Bank,
    now: u64,
}

impl Setup {
    fn new() -> Setup {
        let mut escrow = BountyEscrowContract::new(CONTRACT);
        escrow.init(ADMIN, TOKEN).unwrap();
        let mut bank = Bank::new();
        bank.mint(TOKEN, DEPOSITOR, 1_000_000);
        Setup { escrow, bank, now: 0 }
    }

    fn multi_token() -> Setup {
        let mut s = Setup::new();
        s.bank.mint(TOKEN2, DEPOSITOR, 1_000_000);
        s
    }

    fn lock(&mut self, id: u64, amount: i128, deadline: u64, token: Option<Address>) {
        let t = self.escrow.lock_funds(DEPOSITOR, id, amount, deadline, token, self.now).unwrap();
        self.bank.apply(t);
    }

    fn release(&mut self, id: u64, to: Address) {
        let t = self.escrow.release_funds(ADMIN, id, to, None, None, self.now).unwrap();
        self.bank.apply(t);
    }

    fn refund(&mut self, id: u64, amount: Option<i128>, to: Option<Address>, mode: RefundMode) {
        let t = self.escrow.refund(id, amount, to, mode, None, self.now).unwrap();
        self.bank.apply(t);
    }
}

#[test]
fn test_balance_consistency_checker_pass() {
    let mut s = Setup::new();
    s.lock(1, 1000, 1000, None);
    s.lock(2, 500, 1000, None);
    let locked = s.escrow.get_escrow_info(1).unwrap().remaining_amount
        + s.escrow.get_escrow_info(2).unwrap().remaining_amount;
    assert!(locked <= s.bank.balance(TOKEN, CONTRACT));
    assert!(locked <= s.escrow.get_balance().unwrap());
}

#[test]
fn test_test_amount_limits_initialization() {
    let s = Setup::new();
    let limits = s.escrow.get_amount_limits();
    assert_eq!(limits.min_lock_amount, 1);
    assert_eq!(limits.max_lock_amount, i128::MAX);
    assert_eq!(limits.min_payout, 1);
    assert_eq!(limits.max_payout, i128::MAX);
}

#[test]
fn test_test_update_amount_limits() {
    let mut s = Setup::new();
    s.escrow.update_amount_limits(ADMIN, 100, 1000, 50, 500).unwrap();
    let limits = s.escrow.get_amount_limits();
    assert_eq!(limits.min_lock_amount, 100);
    assert_eq!(limits.max_lock_amount, 1000);
    assert_eq!(limits.min_payout, 50);
    assert_eq!(limits.max_payout, 500);
    assert_eq!(s.escrow.update_amount_limits(ADMIN, -100, 1000, 50, 500), Err(Error::InvalidAmount));
    assert_eq!(s.escrow.update_amount_limits(ADMIN, 1000, 100, 50, 500), Err(Error::InvalidAmount));
}

#[test]
fn test_lock_funds_respects_amount_limits() {
    let mut s = Setup::new();
    s.escrow.update_amount_limits(ADMIN, 100, 1000, 50, 500).unwrap();
    s.bank.mint(TOKEN, DEPOSITOR, 2000);
    let deadline = s.now + 86400;
    s.lock(1, 500, deadline, None);
    s.lock(2, 100, deadline, None);
    s.lock(3, 1000, deadline, None);
    assert_eq!(s.escrow.lock_funds(DEPOSITOR, 4, 50, deadline, None, s.now), Err(Error::InvalidAmount));
    assert_eq!(s.escrow.lock_funds(DEPOSITOR, 4, 1500, deadline, None, s.now), Err(Error::InvalidAmount));
}

#[test]
fn test_release_funds_respects_payout_limits() {
    let mut s = Setup::new();
    s.escrow.update_amount_limits(ADMIN, 100, 1000, 50, 500).unwrap();
    s.bank.mint(TOKEN, DEPOSITOR, 600);
    let deadline = s.now + 86400;
    s.lock(1, 600, deadline, None);
    // A payout of the whole 600 exceeds the payout maximum of 500.
    assert_eq!(s.escrow.release_funds(ADMIN, 1, CONTRIBUTOR, None, None, s.now), Err(Error::InvalidAmount));
    let t = s.escrow.release_funds(ADMIN, 1, CONTRIBUTOR, None, Some(500), s.now).unwrap();
    s.bank.apply(t);
    assert_eq!(s.bank.balance(TOKEN, CONTRIBUTOR), 500);
}

#[test]
fn test_batch_operations_respect_limits() {
    let mut s = Setup::new();
    s.escrow.update_amount_limits(ADMIN, 100, 1000, 50, 500).unwrap();
    s.bank.mint(TOKEN, DEPOSITOR, 3000);
    let deadline = s.now + 86400;
    let items = vec![
        LockFundsItem { bounty_id: 1, depositor: DEPOSITOR, amount: 200, deadline, token_address: None },
        LockFundsItem { bounty_id: 2, depositor: DEPOSITOR, amount: 500, deadline, token_address: None },
    ];
    let t = s.escrow.batch_lock_funds(items, s.now).unwrap();
    assert_eq!(t.len(), 2);
    s.bank.apply(t);
    let release_items = vec![
        ReleaseFundsItem { bounty_id: 1, contributor: CONTRIBUTOR },
        ReleaseFundsItem { bounty_id: 2, contributor: CONTRIBUTOR },
    ];
    let t = s.escrow.batch_release_funds(ADMIN, release_items, s.now).unwrap();
    assert_eq!(t.len(), 2);
    s.bank.apply(t);
}

#[test]
fn test_test_lock_funds_success() {
    let mut s = Setup::new();
    let amount = 1000;
    let deadline = s.now + 1000;
    s.lock(1, amount, deadline, None);
    let e = s.escrow.get_escrow_info(1).unwrap();
    assert_eq!(e.depositor, DEPOSITOR);
    assert_eq!(e.amount, amount);
    assert_eq!(e.remaining_amount, amount);
    assert_eq!(e.status, EscrowStatus::Locked);
    assert_eq!(e.deadline, deadline);
    assert_eq!(e.token_address, TOKEN);
    assert_eq!(s.bank.balance(TOKEN, CONTRACT), amount);
}

#[test]
fn test_get_escrow_info() {
    let mut s = Setup::new();
    let deadline = s.now + 1000;
    s.lock(1, 1000, deadline, None);
    let e = s.escrow.get_escrow_info(1).unwrap();
    assert_eq!(e.amount, 1000);
    assert_eq!(e.deadline, deadline);
    assert_eq!(e.depositor, DEPOSITOR);
    assert_eq!(e.status, EscrowStatus::Locked);
    assert_eq!(e.token_address, TOKEN);
}

#[test]
fn test_release_funds_success() {
    let mut s = Setup::new();
    s.lock(1, 1000, s.now + 1000, None);
    s.release(1, CONTRIBUTOR);
    let e = s.escrow.get_escrow_info(1).unwrap();
    assert_eq!(e.status, EscrowStatus::Released);
    assert_eq!(s.bank.balance(TOKEN, CONTRACT), 0);
    assert_eq!(s.bank.balance(TOKEN, CONTRIBUTOR), 1000);
}

#[test]
fn test_refund_full_after_deadline() {
    let mut s = Setup::new();
    let deadline = s.now + 1000;
    s.lock(1, 1000, deadline, None);
    s.now = deadline + 1;
    let before = s.bank.balance(TOKEN, DEPOSITOR);
    s.refund(1, None, None, RefundMode::Full);
    let e = s.escrow.get_escrow_info(1).unwrap();
    assert_eq!(e.status, EscrowStatus::Refunded);
    assert_eq!(e.remaining_amount, 0);
    assert_eq!(s.bank.balance(TOKEN, CONTRACT), 0);
    assert_eq!(s.bank.balance(TOKEN, DEPOSITOR), before + 1000);
    let h = s.escrow.get_refund_history(1).unwrap();
    assert_eq!(h.len(), 1);
    assert_eq!(h[0].amount, 1000);
    assert_eq!(h[0].recipient, DEPOSITOR);
    assert_eq!(h[0].mode, RefundMode::Full);
}

#[test]
fn test_refund_partial_after_deadline() {
    let mut s = Setup::new();
    let deadline = s.now + 1000;
    s.lock(1, 1000, deadline, None);
    s.now = deadline + 1;
    let before = s.bank.balance(TOKEN, DEPOSITOR);
    s.refund(1, Some(300), None, RefundMode::Partial);
    let e = s.escrow.get_escrow_info(1).unwrap();
    assert_eq!(e.status, EscrowStatus::PartiallyRefunded);
    assert_eq!(e.remaining_amount, 700);
    assert_eq!(s.bank.balance(TOKEN, CONTRACT), 700);
    assert_eq!(s.bank.balance(TOKEN, DEPOSITOR), before + 300);
    let h = s.escrow.get_refund_history(1).unwrap();
    assert_eq!(h.len(), 1);
    assert_eq!(h[0].amount, 300);
    assert_eq!(h[0].recipient, DEPOSITOR);
    assert_eq!(h[0].mode, RefundMode::Partial);
}

#[test]
fn test_refund_partial_multiple_times() {
    let mut s = Setup::new();
    let deadline = s.now + 1000;
    s.lock(1, 1000, deadline, None);
    s.now = deadline + 1;
    s.refund(1, Some(200), None, RefundMode::Partial);
    s.refund(1, Some(300), None, RefundMode::Partial);
    let e = s.escrow.get_escrow_info(1).unwrap();
    assert_eq!(e.status, EscrowStatus::PartiallyRefunded);
    assert_eq!(e.remaining_amount, 1000 - 200 - 300);
    let h = s.escrow.get_refund_history(1).unwrap();
    assert_eq!(h.len(), 2);
    assert_eq!(h[0].amount, 200);
    assert_eq!(h[1].amount, 300);
}

#[test]
fn test_refund_custom_after_deadline() {
    let mut s = Setup::new();
    let custom: Address = 77;
    let deadline = s.now + 1000;
    s.lock(1, 1000, deadline, None);
    s.now = deadline + 1;
    let before = s.bank.balance(TOKEN, custom);
    s.refund(1, Some(500), Some(custom), RefundMode::Custom);
    let e = s.escrow.get_escrow_info(1).unwrap();
    assert_eq!(e.status, EscrowStatus::PartiallyRefunded);
    assert_eq!(e.remaining_amount, 500);
    assert_eq!(s.bank.balance(TOKEN, custom), before + 500);
    let h = s.escrow.get_refund_history(1).unwrap();
    assert_eq!(h.len(), 1);
    assert_eq!(h[0].amount, 500);
    assert_eq!(h[0].recipient, custom);
    assert_eq!(h[0].mode, RefundMode::Custom);
}

#[test]
fn test_refund_approval_workflow() {
    let mut s = Setup::new();
    let custom: Address = 77;
    let deadline = s.now + 1000;
    s.lock(1, 1000, deadline, None);
    s.escrow.approve_refund(ADMIN, 1, 500, custom, RefundMode::Custom, s.now).unwrap();
    let (can_refund, deadline_passed, remaining, approval) = s.escrow.get_refund_eligibility(1, s.now).unwrap();
    assert!(can_refund);
    assert!(!deadline_passed);
    assert_eq!(remaining, 1000);
    let approval = approval.unwrap();
    assert_eq!(approval.amount, 500);
    assert_eq!(approval.recipient, custom);
    assert_eq!(approval.mode, RefundMode::Custom);
    assert_eq!(approval.approved_by, ADMIN);
    let before = s.bank.balance(TOKEN, custom);
    s.refund(1, Some(500), Some(custom), RefundMode::Custom);
    let (_, _, _, after) = s.escrow.get_refund_eligibility(1, s.now).unwrap();
    assert!(after.is_none());
    let e = s.escrow.get_escrow_info(1).unwrap();
    assert_eq!(e.status, EscrowStatus::PartiallyRefunded);
    assert_eq!(e.remaining_amount, 500);
    assert_eq!(s.bank.balance(TOKEN, custom), before + 500);
}

#[test]
fn test_refund_history_tracking() {
    let mut s = Setup::new();
    let deadline = s.now + 1000;
    s.lock(1, 1000, deadline, None);
    s.now = deadline + 1;
    s.refund(1, Some(200), None, RefundMode::Partial);
    s.refund(1, Some(300), None, RefundMode::Partial);
    let remaining = 1000 - 200 - 300;
    s.refund(1, Some(remaining), None, RefundMode::Partial);
    let h = s.escrow.get_refund_history(1).unwrap();
    assert_eq!(h.len(), 3);
    assert_eq!((h[0].amount, h[0].recipient, h[0].mode), (200, DEPOSITOR, RefundMode::Partial));
    assert_eq!((h[1].amount, h[1].recipient, h[1].mode), (300, DEPOSITOR, RefundMode::Partial));
    assert_eq!((h[2].amount, h[2].recipient, h[2].mode), (remaining, DEPOSITOR, RefundMode::Partial));
    let e = s.escrow.get_escrow_info(1).unwrap();
    assert_eq!(e.status, EscrowStatus::Refunded);
    assert_eq!(e.remaining_amount, 0);
}

#[test]
fn test_refund_history_with_custom_recipients() {
    let mut s = Setup::new();
    let (r1, r2): (Address, Address) = (71, 72);
    let deadline = s.now + 1000;
    s.lock(1, 1000, deadline, None);
    s.now = deadline + 1;
    s.refund(1, Some(300), Some(r1), RefundMode::Custom);
    s.refund(1, Some(400), Some(r2), RefundMode::Custom);
    let h = s.escrow.get_refund_history(1).unwrap();
    assert_eq!(h.len(), 2);
    assert_eq!(h[0].recipient, r1);
    assert_eq!(h[1].recipient, r2);
}

#[test]
fn test_get_refund_eligibility() {
    let mut s = Setup::new();
    let deadline = s.now + 1000;
    s.lock(1, 1000, deadline, None);
    assert_eq!(s.escrow.get_refund_eligibility(1, s.now), Ok((false, false, 1000, None)));
    s.now = deadline + 1;
    assert_eq!(s.escrow.get_refund_eligibility(1, s.now), Ok((true, true, 1000, None)));
    s.now = deadline - 100;
    s.escrow.approve_refund(ADMIN, 1, 500, 77, RefundMode::Custom, s.now).unwrap();
    let (can_refund, deadline_passed, remaining, approval) = s.escrow.get_refund_eligibility(1, s.now).unwrap();
    assert!(can_refund);
    assert!(!deadline_passed);
    assert_eq!(remaining, 1000);
    assert!(approval.is_some());
}

#[test]
fn test_test_get_balance() {
    let mut s = Setup::new();
    assert_eq!(s.escrow.get_balance(), Ok(0));
    s.lock(1, 500, s.now + 1000, None);
    assert_eq!(s.escrow.get_balance(), Ok(500));
    assert_eq!(s.bank.balance(TOKEN, CONTRACT), 500);
}

#[test]
fn test_batch_lock_funds_success() {
    let mut s = Setup::new();
    let deadline = s.now + 1000;
    let items = vec![
        LockFundsItem { bounty_id: 1, depositor: DEPOSITOR, amount: 1000, deadline, token_address: None },
        LockFundsItem { bounty_id: 2, depositor: DEPOSITOR, amount: 2000, deadline, token_address: None },
        LockFundsItem { bounty_id: 3, depositor: DEPOSITOR, amount: 3000, deadline, token_address: None },
    ];
    let t = s.escrow.batch_lock_funds(items, s.now).unwrap();
    assert_eq!(t.len(), 3);
    s.bank.apply(t);
    for i in 1..=3u64 {
        assert_eq!(s.escrow.get_escrow_info(i).unwrap().status, EscrowStatus::Locked);
    }
    assert_eq!(s.escrow.get_balance(), Ok(6000));
    assert_eq!(s.bank.balance(TOKEN, CONTRACT), 6000);
}

#[test]
fn test_batch_release_funds_success() {
    let mut s = Setup::new();
    let deadline = s.now + 1000;
    s.lock(1, 1000, deadline, None);
    s.lock(2, 2000, deadline, None);
    s.lock(3, 3000, deadline, None);
    let (c1, c2, c3): (Address, Address, Address) = (31, 32, 33);
    let items = vec![
        ReleaseFundsItem { bounty_id: 1, contributor: c1 },
        ReleaseFundsItem { bounty_id: 2, contributor: c2 },
        ReleaseFundsItem { bounty_id: 3, contributor: c3 },
    ];
    let t = s.escrow.batch_release_funds(ADMIN, items, s.now).unwrap();
    assert_eq!(t.len(), 3);
    s.bank.apply(t);
    for i in 1..=3u64 {
        assert_eq!(s.escrow.get_escrow_info(i).unwrap().status, EscrowStatus::Released);
    }
    assert_eq!(s.bank.balance(TOKEN, c1), 1000);
    assert_eq!(s.bank.balance(TOKEN, c2), 2000);
    assert_eq!(s.bank.balance(TOKEN, c3), 3000);
    assert_eq!(s.escrow.get_balance(), Ok(0));
}

#[test]
fn test_batch_operations_large_batch() {
    let mut s = Setup::new();
    let deadline = s.now + 1000;
    let items: Vec<LockFundsItem> = (1..=10u64)
        .map(|i| LockFundsItem {
            bounty_id: i,
            depositor: DEPOSITOR,
            amount: (i * 100) as i128,
            deadline,
            token_address: None,
        })
        .collect();
    let t = s.escrow.batch_lock_funds(items, s.now).unwrap();
    assert_eq!(t.len(), 10);
    s.bank.apply(t);
    for i in 1..=10u64 {
        assert_eq!(s.escrow.get_escrow_info(i).unwrap().status, EscrowStatus::Locked);
    }
    let release_items: Vec<ReleaseFundsItem> =
        (1..=10u64).map(|i| ReleaseFundsItem { bounty_id: i, contributor: 100 + i }).collect();
    let t = s.escrow.batch_release_funds(ADMIN, release_items, s.now).unwrap();
    assert_eq!(t.len(), 10);
}

#[test]
fn test_add_token_to_whitelist() {
    let mut s = Setup::multi_token();
    assert!(s.escrow.is_token_whitelisted(TOKEN));
    assert!(!s.escrow.is_token_whitelisted(TOKEN2));
    s.escrow.add_token(ADMIN, TOKEN2).unwrap();
    assert!(s.escrow.is_token_whitelisted(TOKEN2));
    assert_eq!(s.escrow.get_whitelisted_tokens().len(), 2);
}

#[test]
fn test_remove_token_from_whitelist() {
    let mut s = Setup::multi_token();
    s.escrow.add_token(ADMIN, TOKEN2).unwrap();
    assert!(s.escrow.is_token_whitelisted(TOKEN2));
    s.escrow.remove_token(ADMIN, TOKEN2).unwrap();
    assert!(!s.escrow.is_token_whitelisted(TOKEN2));
    assert!(s.escrow.is_token_whitelisted(TOKEN));
}

#[test]
fn test_lock_funds_with_multiple_tokens() {
    let mut s = Setup::multi_token();
    s.escrow.add_token(ADMIN, TOKEN2).unwrap();
    let deadline = s.now + 1000;
    s.lock(1, 1000, deadline, Some(TOKEN));
    s.lock(2, 2000, deadline, Some(TOKEN2));
    let e1 = s.escrow.get_escrow_info(1).unwrap();
    assert_eq!(e1.token_address, TOKEN);
    assert_eq!(e1.amount, 1000);
    let e2 = s.escrow.get_escrow_info(2).unwrap();
    assert_eq!(e2.token_address, TOKEN2);
    assert_eq!(e2.amount, 2000);
    assert_eq!(s.bank.balance(TOKEN, CONTRACT), 1000);
    assert_eq!(s.bank.balance(TOKEN2, CONTRACT), 2000);
}

#[test]
fn test_release_funds_with_correct_token() {
    let mut s = Setup::multi_token();
    s.escrow.add_token(ADMIN, TOKEN2).unwrap();
    let deadline = s.now + 1000;
    s.lock(1, 1000, deadline, Some(TOKEN));
    s.lock(2, 2000, deadline, Some(TOKEN2));
    s.release(2, CONTRIBUTOR);
    assert_eq!(s.bank.balance(TOKEN2, CONTRIBUTOR), 2000);
    assert_eq!(s.bank.balance(TOKEN, CONTRIBUTOR), 0);
    assert_eq!(s.bank.balance(TOKEN, CONTRACT), 1000);
    assert_eq!(s.bank.balance(TOKEN2, CONTRACT), 0);
}

#[test]
fn test_refund_with_correct_token() {
    let mut s = Setup::multi_token();
    s.escrow.add_token(ADMIN, TOKEN2).unwrap();
    let deadline = s.now + 1000;
    let initial = s.bank.balance(TOKEN2, DEPOSITOR);
    s.lock(1, 2000, deadline, Some(TOKEN2));
    s.now = deadline + 1;
    s.refund(1, None, None, RefundMode::Full);
    assert_eq!(s.bank.balance(TOKEN2, DEPOSITOR), initial);
    assert_eq!(s.bank.balance(TOKEN2, CONTRACT), 0);
}

#[test]
fn test_get_token_balance() {
    let mut s = Setup::multi_token();
    s.escrow.add_token(ADMIN, TOKEN2).unwrap();
    let deadline = s.now + 1000;
    s.lock(1, 1000, deadline, Some(TOKEN));
    s.lock(2, 2000, deadline, Some(TOKEN2));
    s.lock(3, 500, deadline, Some(TOKEN));
    assert_eq!(s.escrow.get_token_bal(TOKEN), Ok(1500));
    assert_eq!(s.escrow.get_token_bal(TOKEN2), Ok(2000));
}

#[test]
fn test_get_whitelisted_tokens() {
    let mut s = Setup::multi_token();
    let tokens = s.escrow.get_whitelisted_tokens();
    assert_eq!(tokens.len(), 1);
    assert_eq!(tokens[0], TOKEN);
    s.escrow.add_token(ADMIN, TOKEN2).unwrap();
    assert_eq!(s.escrow.get_whitelisted_tokens().len(), 2);
    assert_eq!(s.escrow.add_token(ADMIN, TOKEN), Err(Error::TokenAlreadyWhitelisted));
}

#[test]
fn test_multi_token_lifecycle() {
    let mut s = Setup::multi_token();
    s.escrow.add_token(ADMIN, TOKEN2).unwrap();
    let deadline = s.now + 1000;
    s.lock(1, 1000, deadline, Some(TOKEN));
    s.lock(2, 2000, deadline, Some(TOKEN2));
    s.lock(3, 1500, deadline, Some(TOKEN));
    s.release(1, CONTRIBUTOR);
    assert_eq!(s.bank.balance(TOKEN, CONTRIBUTOR), 1000);
    s.release(2, CONTRIBUTOR);
    assert_eq!(s.bank.balance(TOKEN2, CONTRIBUTOR), 2000);
    s.now = deadline + 1;
    let before = s.bank.balance(TOKEN, DEPOSITOR);
    s.refund(3, None, None, RefundMode::Full);
    assert_eq!(s.bank.balance(TOKEN, DEPOSITOR), before + 1500);
    assert_eq!(s.bank.balance(TOKEN, CONTRACT), 0);
    assert_eq!(s.bank.balance(TOKEN2, CONTRACT), 0);
}

#[test]
fn test_extend_refund_deadline_success() {
    let mut s = Setup::new();
    let initial = s.now + 1000;
    s.lock(1, 1000, initial, None);
    assert_eq!(s.escrow.get_escrow_info(1).unwrap().deadline, initial);
    let new_deadline = initial + 2000;
    s.escrow.extend_refund_deadline(DEPOSITOR, 1, new_deadline).unwrap();
    let e = s.escrow.get_escrow_info(1).unwrap();
    assert_eq!(e.deadline, new_deadline);
    assert_eq!(e.status, EscrowStatus::Locked);
    assert_eq!(e.amount, 1000);
}

#[test]
fn test_extend_refund_deadline_multiple_times() {
    let mut s = Setup::new();
    let initial = s.now + 1000;
    s.lock(1, 1000, initial, None);
    let first = initial + 1000;
    s.escrow.extend_refund_deadline(DEPOSITOR, 1, first).unwrap();
    assert_eq!(s.escrow.get_escrow_info(1).unwrap().deadline, first);
    let second = first + 2000;
    s.escrow.extend_refund_deadline(DEPOSITOR, 1, second).unwrap();
    assert_eq!(s.escrow.get_escrow_info(1).unwrap().deadline, second);
    let third = second + 3000;
    s.escrow.extend_refund_deadline(DEPOSITOR, 1, third).unwrap();
    assert_eq!(s.escrow.get_escrow_info(1).unwrap().deadline, third);
}

#[test]
fn test_extend_refund_deadline_with_partially_refunded() {
    let mut s = Setup::new();
    let initial = s.now + 1000;
    s.lock(1, 1000, initial, None);
    s.now = initial + 1;
    s.refund(1, Some(500), None, RefundMode::Partial);
    assert_eq!(s.escrow.get_escrow_info(1).unwrap().status, EscrowStatus::PartiallyRefunded);
    let new_deadline = initial + 2000;
    s.escrow.extend_refund_deadline(DEPOSITOR, 1, new_deadline).unwrap();
    let e = s.escrow.get_escrow_info(1).unwrap();
    assert_eq!(e.deadline, new_deadline);
    assert_eq!(e.status, EscrowStatus::PartiallyRefunded);
}
