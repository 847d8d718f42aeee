use bounty_escrow::{
    Address, BountyEscrowContract, Error, EscrowFilter, EscrowStatus, Pagination, LockFundsItem, RefundMode, ReleaseFundsItem, Transfer,
};

const CONTRACT: Address = 1000;
const ADMIN: Address = 1;
const TOKEN: Address = 50;
const DEPOSITOR: Address = 2;
const CONTRIBUTOR: Address = 3;
const OTHER: Address = 4;
const NOW: u64 = 10_000;

fn setup() -> BountyEscrowContract {
    let mut c = BountyEscrowContract::new(CONTRACT);
    assert_eq!(c.init(ADMIN, TOKEN), Ok(()));
    c
}

fn locked(c: &mut BountyEscrowContract, id: u64, amount: i128, deadline: u64) {
    let t = c.lock_funds(DEPOSITOR, id, amount, deadline, None, NOW).unwrap();
    assert_eq!(t, vec![Transfer { token: TOKEN, from: DEPOSITOR, to: CONTRACT, amount }]);
}

#[test]
fn lock_then_full_release() {
    let mut c = setup();
    locked(&mut c, 1, 1000, NOW + 1000);
    let e = c.get_escrow_info(1).unwrap();
    assert_eq!(e.status, EscrowStatus::Locked);
    assert_eq!(e.remaining_amount, 1000);
    assert_eq!(c.get_balance(), Ok(1000));
    let t = c.release_funds(ADMIN, 1, CONTRIBUTOR, None, None, NOW + 1).unwrap();
    assert_eq!(t, vec![Transfer { token: TOKEN, from: CONTRACT, to: CONTRIBUTOR, amount: 1000 }]);
    let e = c.get_escrow_info(1).unwrap();
    assert_eq!(e.status, EscrowStatus::Released);
    assert_eq!(e.remaining_amount, 0);
    assert_eq!(c.get_balance(), Ok(0));
    assert_eq!(c.get_payout_history(1).unwrap().len(), 1);
}

#[test]
fn partial_release_then_rest() {
    let mut c = setup();
    locked(&mut c, 1, 1000, NOW + 1000);
    let t = c.release_funds(ADMIN, 1, CONTRIBUTOR, None, Some(400), NOW).unwrap();
    assert_eq!(t[0].amount, 400);
    let e = c.get_escrow_info(1).unwrap();
    assert_eq!(e.status, EscrowStatus::PartiallyReleased);
    assert_eq!(e.remaining_amount, 600);
    let t = c.release_funds(ADMIN, 1, CONTRIBUTOR, None, Some(600), NOW).unwrap();
    assert_eq!(t[0].amount, 600);
    let e = c.get_escrow_info(1).unwrap();
    assert_eq!(e.status, EscrowStatus::Released);
    assert_eq!(e.remaining_amount, 0);
    assert_eq!(c.get_payout_history(1).unwrap().len(), 2);
}

#[test]
fn full_refund_after_deadline() {
    let mut c = setup();
    locked(&mut c, 1, 1000, NOW + 1000);
    let t = c.refund(1, None, None, RefundMode::Full, None, NOW + 1000).unwrap();
    assert_eq!(t, vec![Transfer { token: TOKEN, from: CONTRACT, to: DEPOSITOR, amount: 1000 }]);
    let e = c.get_escrow_info(1).unwrap();
    assert_eq!(e.status, EscrowStatus::Refunded);
    assert_eq!(e.remaining_amount, 0);
    let h = c.get_refund_history(1).unwrap();
    assert_eq!(h.len(), 1);
    assert_eq!(h[0].amount, 1000);
    assert_eq!(h[0].recipient, DEPOSITOR);
    assert_eq!(h[0].mode, RefundMode::Full);
}

#[test]
fn two_partial_refunds() {
    let mut c = setup();
    locked(&mut c, 1, 1000, NOW + 1000);
    c.refund(1, Some(200), None, RefundMode::Partial, None, NOW + 2000).unwrap();
    c.refund(1, Some(300), None, RefundMode::Partial, None, NOW + 2000).unwrap();
    let e = c.get_escrow_info(1).unwrap();
    assert_eq!(e.status, EscrowStatus::PartiallyRefunded);
    assert_eq!(e.remaining_amount, 500);
    assert_eq!(c.get_refund_history(1).unwrap().len(), 2);
    // What remains is the locked amount less the refunds.
    assert_eq!(e.remaining_amount, e.amount - 200 - 300);
}

#[test]
fn refund_before_deadline_refused() {
    let mut c = setup();
    locked(&mut c, 1, 1000, NOW + 1000);
    assert_eq!(c.refund(1, None, None, RefundMode::Full, None, NOW), Err(Error::DeadlineNotPassed));
    assert_eq!(c.refund(1, Some(10), None, RefundMode::Partial, None, NOW), Err(Error::DeadlineNotPassed));
    assert_eq!(c.get_escrow_info(1).unwrap().status, EscrowStatus::Locked);
}

#[test]
fn approved_custom_refund_is_single_use() {
    let mut c = setup();
    locked(&mut c, 1, 1000, NOW + 1000);
    assert_eq!(c.approve_refund(ADMIN, 1, 500, OTHER, RefundMode::Custom, NOW), Ok(()));
    // A mismatched amount is refused and the approval stays.
    assert_eq!(
        c.refund(1, Some(400), Some(OTHER), RefundMode::Custom, None, NOW),
        Err(Error::RefundNotApproved)
    );
    let (_, _, _, ap) = c.get_refund_eligibility(1, NOW).unwrap();
    assert!(ap.is_some());
    // The matching request succeeds and consumes the approval.
    let t = c.refund(1, Some(500), Some(OTHER), RefundMode::Custom, None, NOW).unwrap();
    assert_eq!(t, vec![Transfer { token: TOKEN, from: CONTRACT, to: OTHER, amount: 500 }]);
    let (_, _, rem, ap) = c.get_refund_eligibility(1, NOW).unwrap();
    assert_eq!(rem, 500);
    assert!(ap.is_none());
    assert_eq!(
        c.refund(1, Some(500), Some(OTHER), RefundMode::Custom, None, NOW),
        Err(Error::RefundNotApproved)
    );
    assert_eq!(c.get_escrow_info(1).unwrap().status, EscrowStatus::PartiallyRefunded);
}

#[test]
fn custom_refund_after_deadline_needs_no_approval() {
    let mut c = setup();
    locked(&mut c, 1, 1000, NOW + 1000);
    let t = c.refund(1, Some(300), Some(OTHER), RefundMode::Custom, None, NOW + 1000).unwrap();
    assert_eq!(t[0].to, OTHER);
    assert_eq!(c.get_escrow_info(1).unwrap().remaining_amount, 700);
}

#[test]
fn batch_lock_with_existing_id_changes_nothing() {
    let mut c = setup();
    locked(&mut c, 2, 1000, NOW + 1000);
    let items = vec![
        LockFundsItem { bounty_id: 1, depositor: DEPOSITOR, amount: 100, deadline: NOW + 10, token_address: None },
        LockFundsItem { bounty_id: 2, depositor: DEPOSITOR, amount: 100, deadline: NOW + 10, token_address: None },
        LockFundsItem { bounty_id: 3, depositor: DEPOSITOR, amount: 100, deadline: NOW + 10, token_address: None },
    ];
    assert_eq!(c.batch_lock_funds(items, NOW), Err(Error::BountyExists));
    assert_eq!(c.get_escrow_info(1).err(), Some(Error::BountyNotFound));
    assert_eq!(c.get_escrow_info(3).err(), Some(Error::BountyNotFound));
    assert_eq!(c.get_escrow_info(2).unwrap().remaining_amount, 1000);
    assert_eq!(c.get_balance(), Ok(1000));
}

#[test]
fn batch_lock_all_items() {
    let mut c = setup();
    let items = vec![
        LockFundsItem { bounty_id: 1, depositor: DEPOSITOR, amount: 100, deadline: NOW + 10, token_address: None },
        LockFundsItem { bounty_id: 2, depositor: OTHER, amount: 200, deadline: NOW + 20, token_address: None },
    ];
    let t = c.batch_lock_funds(items, NOW).unwrap();
    assert_eq!(t.len(), 2);
    assert_eq!(t[1], Transfer { token: TOKEN, from: OTHER, to: CONTRACT, amount: 200 });
    assert_eq!(c.get_escrow_info(2).unwrap().deadline, NOW + 20);
    assert_eq!(c.get_balance(), Ok(300));
}

#[test]
fn batch_lock_duplicate_in_batch() {
    let mut c = setup();
    let items = vec![
        LockFundsItem { bounty_id: 1, depositor: DEPOSITOR, amount: 100, deadline: NOW + 10, token_address: None },
        LockFundsItem { bounty_id: 1, depositor: DEPOSITOR, amount: 100, deadline: NOW + 10, token_address: None },
    ];
    assert_eq!(c.batch_lock_funds(items, NOW), Err(Error::DuplicateBountyId));
    assert_eq!(c.get_balance(), Ok(0));
}

#[test]
fn batch_lock_size_limits() {
    let mut c = setup();
    assert_eq!(c.batch_lock_funds(vec![], NOW), Err(Error::InvalidBatchSize));
    let mut items = Vec::new();
    for i in 0..101u64 {
        items.push(LockFundsItem { bounty_id: i, depositor: DEPOSITOR, amount: 1, deadline: NOW + 1, token_address: None });
    }
    assert_eq!(c.batch_lock_funds(items, NOW), Err(Error::InvalidBatchSize));
}

#[test]
fn batch_release_all_or_nothing() {
    let mut c = setup();
    locked(&mut c, 1, 100, NOW + 10);
    locked(&mut c, 2, 200, NOW + 10);
    let bad = vec![
        ReleaseFundsItem { bounty_id: 1, contributor: CONTRIBUTOR },
        ReleaseFundsItem { bounty_id: 9, contributor: CONTRIBUTOR },
    ];
    assert_eq!(c.batch_release_funds(ADMIN, bad, NOW), Err(Error::BountyNotFound));
    assert_eq!(c.get_escrow_info(1).unwrap().status, EscrowStatus::Locked);
    let good = vec![
        ReleaseFundsItem { bounty_id: 1, contributor: CONTRIBUTOR },
        ReleaseFundsItem { bounty_id: 2, contributor: OTHER },
    ];
    let t = c.batch_release_funds(ADMIN, good, NOW).unwrap();
    assert_eq!(t.len(), 2);
    assert_eq!(t[1], Transfer { token: TOKEN, from: CONTRACT, to: OTHER, amount: 200 });
    assert_eq!(c.get_escrow_info(2).unwrap().status, EscrowStatus::Released);
    assert_eq!(c.get_balance(), Ok(0));
}

#[test]
fn lock_errors() {
    let mut un = BountyEscrowContract::new(CONTRACT);
    assert_eq!(un.lock_funds(DEPOSITOR, 1, 100, NOW + 1, None, NOW), Err(Error::NotInitialized));
    let mut c = setup();
    assert_eq!(c.lock_funds(DEPOSITOR, 1, 0, NOW + 1, None, NOW), Err(Error::InvalidAmount));
    assert_eq!(c.lock_funds(DEPOSITOR, 1, -5, NOW + 1, None, NOW), Err(Error::InvalidAmount));
    assert_eq!(c.lock_funds(DEPOSITOR, 1, 100, NOW, None, NOW), Err(Error::InvalidDeadline));
    assert_eq!(c.lock_funds(DEPOSITOR, 1, 100, NOW + 1, Some(77), NOW), Err(Error::TokenNotWhitelisted));
    locked(&mut c, 1, 100, NOW + 1);
    assert_eq!(c.lock_funds(DEPOSITOR, 1, 100, NOW + 1, None, NOW), Err(Error::BountyExists));
    assert_eq!(c.init(ADMIN, TOKEN), Err(Error::AlreadyInitialized));
}

#[test]
fn release_errors() {
    let mut c = setup();
    locked(&mut c, 1, 100, NOW + 1);
    assert_eq!(c.release_funds(OTHER, 1, CONTRIBUTOR, None, None, NOW), Err(Error::Unauthorized));
    assert_eq!(c.release_funds(ADMIN, 9, CONTRIBUTOR, None, None, NOW), Err(Error::BountyNotFound));
    assert_eq!(c.release_funds(ADMIN, 1, CONTRIBUTOR, None, Some(101), NOW), Err(Error::InvalidAmount));
    assert_eq!(c.release_funds(ADMIN, 1, CONTRIBUTOR, Some(77), None, NOW), Err(Error::InvalidAmount));
    c.release_funds(ADMIN, 1, CONTRIBUTOR, None, None, NOW).unwrap();
    // Released is terminal.
    assert_eq!(c.release_funds(ADMIN, 1, CONTRIBUTOR, None, None, NOW), Err(Error::FundsNotLocked));
    assert_eq!(c.refund(1, None, None, RefundMode::Full, None, NOW + 5), Err(Error::FundsNotLocked));
    assert!(c.get_refund_history(1).unwrap().is_empty());
}

#[test]
fn paused_contract_refuses_operations() {
    let mut c = setup();
    locked(&mut c, 1, 100, NOW + 1);
    assert_eq!(c.pause(OTHER), Err(Error::Unauthorized));
    assert_eq!(c.pause(ADMIN), Ok(()));
    assert!(c.is_paused());
    assert_eq!(c.lock_funds(DEPOSITOR, 2, 100, NOW + 1, None, NOW), Err(Error::ContractPaused));
    assert_eq!(c.release_funds(ADMIN, 1, CONTRIBUTOR, None, None, NOW), Err(Error::ContractPaused));
    assert_eq!(c.expire(1, NOW + 5), Err(Error::ContractPaused));
    assert_eq!(c.unpause(ADMIN), Ok(()));
    assert!(c.expire(1, NOW + 5).is_ok());
}

#[test]
fn reentrant_call_refused() {
    let mut c = setup();
    assert_eq!(c.guard.enter(), Ok(()));
    assert_eq!(c.lock_funds(DEPOSITOR, 1, 100, NOW + 1, None, NOW), Err(Error::ReentrantCall));
    assert_eq!(c.refund(1, None, None, RefundMode::Full, None, NOW), Err(Error::ReentrantCall));
    c.guard.exit();
    assert!(c.lock_funds(DEPOSITOR, 1, 100, NOW + 1, None, NOW).is_ok());
    assert!(!c.guard.is_locked());
}

#[test]
fn expire_refunds_everything() {
    let mut c = setup();
    locked(&mut c, 1, 1000, NOW + 100);
    assert_eq!(c.expire(1, NOW + 99), Err(Error::DeadlineNotPassed));
    c.refund(1, Some(100), None, RefundMode::Partial, None, NOW + 100).unwrap();
    let t = c.expire(1, NOW + 100).unwrap();
    assert_eq!(t, vec![Transfer { token: TOKEN, from: CONTRACT, to: DEPOSITOR, amount: 900 }]);
    let e = c.get_escrow_info(1).unwrap();
    assert_eq!(e.status, EscrowStatus::Refunded);
    assert_eq!(c.get_refund_history(1).unwrap().len(), 2);
    assert_eq!(c.expire(1, NOW + 100), Err(Error::FundsNotLocked));
}

#[test]
fn extend_deadline_rules() {
    let mut c = setup();
    locked(&mut c, 1, 1000, NOW + 100);
    assert_eq!(c.extend_refund_deadline(DEPOSITOR, 1, NOW + 100), Err(Error::InvalidDeadlineExtension));
    assert_eq!(c.extend_refund_deadline(OTHER, 1, NOW + 200), Err(Error::Unauthorized));
    assert_eq!(c.extend_refund_deadline(DEPOSITOR, 1, NOW + 200), Ok(()));
    assert_eq!(c.extend_refund_deadline(ADMIN, 1, NOW + 300), Ok(()));
    assert_eq!(c.get_escrow_info(1).unwrap().deadline, NOW + 300);
    assert_eq!(c.extend_refund_deadline(ADMIN, 5, NOW + 300), Err(Error::BountyNotFound));
}

#[test]
fn approve_errors() {
    let mut c = setup();
    locked(&mut c, 1, 1000, NOW + 100);
    assert_eq!(c.approve_refund(OTHER, 1, 10, OTHER, RefundMode::Custom, NOW), Err(Error::Unauthorized));
    assert_eq!(c.approve_refund(ADMIN, 1, 0, OTHER, RefundMode::Custom, NOW), Err(Error::InvalidAmount));
    assert_eq!(c.approve_refund(ADMIN, 1, 1001, OTHER, RefundMode::Custom, NOW), Err(Error::InvalidAmount));
    assert_eq!(c.approve_refund(ADMIN, 2, 10, OTHER, RefundMode::Custom, NOW), Err(Error::BountyNotFound));
}

#[test]
fn list_bounties_with_filter_and_page() {
    let mut c = setup();
    for id in 1..=5u64 {
        c.lock_funds(if id % 2 == 0 { OTHER } else { DEPOSITOR }, id, 100 * id as i128, NOW + id, None, NOW)
            .unwrap();
    }
    let all = EscrowFilter {
        status: None,
        depositor: None,
        min_amount: None,
        max_amount: None,
        start_time: None,
        end_time: None,
    };
    let page = c.get_bounties(all, Pagination { start_index: 0, limit: 10 });
    assert_eq!(page.iter().map(|p| p.0).collect::<Vec<u64>>(), vec![1, 2, 3, 4, 5]);
    let page = c.get_bounties(all, Pagination { start_index: 1, limit: 2 });
    assert_eq!(page.iter().map(|p| p.0).collect::<Vec<u64>>(), vec![2, 3]);
    assert_eq!(page[1].1.amount, 300);
    let by_depositor = EscrowFilter { depositor: Some(DEPOSITOR), ..all };
    let page = c.get_bounties(by_depositor, Pagination { start_index: 0, limit: 10 });
    assert_eq!(page.iter().map(|p| p.0).collect::<Vec<u64>>(), vec![1, 3, 5]);
    let window = EscrowFilter { min_amount: Some(200), end_time: Some(NOW + 4), ..all };
    let page = c.get_bounties(window, Pagination { start_index: 0, limit: 10 });
    assert_eq!(page.iter().map(|p| p.0).collect::<Vec<u64>>(), vec![2, 3, 4]);
    c.release_funds(ADMIN, 3, CONTRIBUTOR, None, None, NOW).unwrap();
    let released = EscrowFilter { status: Some(EscrowStatus::Released), ..all };
    let page = c.get_bounties(released, Pagination { start_index: 0, limit: 10 });
    assert_eq!(page.iter().map(|p| p.0).collect::<Vec<u64>>(), vec![3]);
    let page = c.get_bounties(all, Pagination { start_index: 7, limit: 10 });
    assert!(page.is_empty());
}

#[test]
fn custody_covers_remaining_after_mixed_operations() {
    let mut c = setup();
    locked(&mut c, 1, 1000, NOW + 10);
    locked(&mut c, 2, 500, NOW + 10);
    c.release_funds(ADMIN, 1, CONTRIBUTOR, None, Some(250), NOW).unwrap();
    c.refund(2, Some(100), None, RefundMode::Partial, None, NOW + 10).unwrap();
    let remaining: i128 =
        c.get_escrow_info(1).unwrap().remaining_amount + c.get_escrow_info(2).unwrap().remaining_amount;
    assert!(remaining <= c.get_balance().unwrap());
    assert_eq!(remaining, 1150);
    let s = c.get_stats();
    assert_eq!(s.total_locked_amount, 1150);
    assert_eq!(s.total_released_amount, 250);
    assert_eq!(s.total_refunded_amount, 100);
}
