use vstd::prelude::*;
use crate::contract::{BountyEscrowContract, locked_total};
use crate::escrow::{Escrow, is_terminal, refund_total, valid_transition, lemma_payout_total_pos};
use crate::fees::{fee_of, lemma_fee_split};
use crate::lifecycle::is_fresh_lock;
use crate::refund::{is_refund_of, refundable};
use crate::release::{is_release_of, releasable};
use crate::types::{Address, EscrowStatus, RefundMode, MAX_FEE_RATE};

verus! {

/// For every asset, the remaining amounts of all escrows in that asset add
/// up to no more than what the contract holds of it.
pub proof fn custody_covers_escrows(c: &BountyEscrowContract, a: Address)
    requires
        c.wf(),
    ensures
        locked_total(c.escrows@, a) <= c.held.balance_spec(a),
{
}

/// A payout moves an escrow along an edge of the status graph.
pub proof fn release_follows_graph(old_e: Escrow, new_e: Escrow, payout: int, to: Address, now: u64)
    requires
        old_e.wf(),
        releasable(old_e.status),
        is_release_of(old_e, new_e, payout, to, now),
    ensures
        valid_transition(old_e.status, new_e.status),
{
}

/// A refund moves an escrow along an edge of the status graph.
pub proof fn refund_follows_graph(
    old_e: Escrow,
    new_e: Escrow,
    amount: int,
    to: Address,
    mode: RefundMode,
    now: u64,
)
    requires
        old_e.wf(),
        refundable(old_e.status),
        is_refund_of(old_e, new_e, amount, to, mode, now),
    ensures
        valid_transition(old_e.status, new_e.status),
{
}

/// `Released` and `Refunded` have no outgoing edge, and every operation that
/// could change an escrow in such a status is refused.
pub proof fn terminal_statuses_absorb(
    c: &BountyEscrowContract,
    id: u64,
    caller: Address,
    amount: Option<i128>,
    recipient: Option<Address>,
    mode: RefundMode,
    token: Option<Address>,
    new_deadline: u64,
    now: u64,
)
    requires
        c.wf(),
        c.has_bounty(id),
        is_terminal(c.escrow_of(id).status),
    ensures
        forall|s: EscrowStatus| !valid_transition(c.escrow_of(id).status, s),
        c.release_error(caller, id, token, amount) is Some,
        c.refund_error(id, amount, recipient, mode, token, now) is Some,
        c.expire_error(id, now) is Some,
        c.extend_error(caller, id, new_deadline) is Some,
        c.approve_error(caller, id, 1) is Some,
{
}

/// No escrow is both released and refunded: a released escrow has no refunds.
pub proof fn released_never_refunded(e: Escrow)
    requires
        e.wf(),
        e.status == EscrowStatus::Released,
    ensures
        e.refund_history@.len() == 0,
{
}

/// Every amount of an escrow is non-negative.
pub proof fn amounts_nonnegative(e: Escrow)
    requires
        e.wf(),
    ensures
        e.amount >= 0,
        e.remaining_amount >= 0,
        forall|k: int| 0 <= k < e.refund_history@.len() ==> #[trigger] e.refund_history@[k].amount >= 0,
        forall|k: int| 0 <= k < e.payout_history@.len() ==> #[trigger] e.payout_history@[k].amount >= 0,
{
}

/// Once refunds have begun, what remains is the locked amount less all refunds.
pub proof fn refunded_remaining_is_exact(e: Escrow)
    requires
        e.wf(),
        e.status == EscrowStatus::PartiallyRefunded || e.status == EscrowStatus::Refunded,
    ensures
        e.remaining_amount == e.amount - refund_total(e.refund_history@),
{
    lemma_payout_total_pos(e.payout_history@);
}

/// Refunds never add up to more than the amount locked.
pub proof fn refunds_bounded_by_amount(e: Escrow)
    requires
        e.wf(),
    ensures
        refund_total(e.refund_history@) <= e.amount,
{
    lemma_payout_total_pos(e.payout_history@);
}

/// A lock accepted at `now` has a deadline after `now`.
pub proof fn lock_deadline_in_future(
    c: &BountyEscrowContract,
    id: u64,
    amount: i128,
    deadline: u64,
    token: Option<Address>,
    now: u64,
)
    requires
        c.lock_error(id, amount, deadline, token, now) is None,
    ensures
        deadline > now,
{
}

/// A refund accepted before the deadline is a custom refund with a pending
/// approval; an expiry is accepted only once the deadline has passed.
pub proof fn early_refund_needs_approval(
    c: &BountyEscrowContract,
    id: u64,
    amount: Option<i128>,
    recipient: Option<Address>,
    mode: RefundMode,
    token: Option<Address>,
    now: u64,
)
    requires
        c.refund_error(id, amount, recipient, mode, token, now) is None,
        now < c.escrow_of(id).deadline,
    ensures
        mode == RefundMode::Custom,
        c.approval_of(id) is Some,
        c.expire_error(id, now) is Some,
{
}

/// A released escrow holds nothing.
pub proof fn released_holds_nothing(e: Escrow)
    requires
        e.wf(),
        e.status == EscrowStatus::Released,
    ensures
        e.remaining_amount == 0,
{
}

/// A refund lengthens the refund history by one record and keeps every earlier one.
pub proof fn refund_appends_to_history(
    old_e: Escrow,
    new_e: Escrow,
    amount: int,
    to: Address,
    mode: RefundMode,
    now: u64,
)
    requires
        is_refund_of(old_e, new_e, amount, to, mode, now),
    ensures
        new_e.refund_history@.len() == old_e.refund_history@.len() + 1,
        new_e.refund_history@.take(old_e.refund_history@.len() as int) == old_e.refund_history@,
{
    assert(new_e.refund_history@.take(old_e.refund_history@.len() as int) =~= old_e.refund_history@);
}

/// A payout leaves the refund history as it was.
pub proof fn release_keeps_refund_history(old_e: Escrow, new_e: Escrow, payout: int, to: Address, now: u64)
    requires
        is_release_of(old_e, new_e, payout, to, now),
    ensures
        new_e.refund_history@ == old_e.refund_history@,
{
}

/// For any fee-bearing amount the net and the fee add up to the gross, and
/// the fee is the gross times the rate over ten thousand, rounded down; the
/// fee is what `calculate_fee` returns and what `split_fee` takes.
pub proof fn fee_split_is_exact(gross: int, rate: int)
    requires
        gross >= 0,
        0 <= rate <= MAX_FEE_RATE,
    ensures
        (gross - fee_of(gross, rate)) + fee_of(gross, rate) == gross,
        fee_of(gross, rate) == gross * rate / 10000,
        0 <= fee_of(gross, rate) <= gross,
{
    lemma_fee_split(gross, rate);
}

/// Locking an amount and then releasing the whole escrow leaves the
/// contract's holdings of every asset as they were before the lock.
pub proof fn lock_then_release_restores_holdings(
    c0: &BountyEscrowContract,
    c1: &BountyEscrowContract,
    c2: &BountyEscrowContract,
    id: u64,
    depositor: Address,
    amount: i128,
    deadline: u64,
    token: Option<Address>,
    caller: Address,
)
    requires
        c1.wf(),
        c1.escrows@.len() == c0.escrows@.len() + 1,
        c1.escrows@.last().bounty_id == id,
        is_fresh_lock(c1.escrows@.last().escrow, depositor, c0.lock_net(amount), deadline, c0.lock_token(token)),
        forall|a: Address| #[trigger] c1.held.balance_spec(a) == c0.held.balance_spec(a) + if a == c0.lock_token(token) {
            c0.lock_net(amount)
        } else {
            0
        },
        c1.release_error(caller, id, None, None) is None,
        forall|a: Address| #[trigger] c2.held.balance_spec(a) == c1.held.balance_spec(a) - if a == c1.escrow_of(id).token_address {
            c1.release_amount(id, None)
        } else {
            0
        },
    ensures
        forall|a: Address| #[trigger] c2.held.balance_spec(a) == c0.held.balance_spec(a),
{
    c1.lemma_slot(c1.escrows@.len() - 1);
}

/// Locking an amount and then refunding the whole escrow in full leaves the
/// contract's holdings of every asset as they were before the lock.
pub proof fn lock_then_refund_restores_holdings(
    c0: &BountyEscrowContract,
    c1: &BountyEscrowContract,
    c2: &BountyEscrowContract,
    id: u64,
    depositor: Address,
    amount: i128,
    deadline: u64,
    token: Option<Address>,
    now: u64,
)
    requires
        c1.wf(),
        c1.escrows@.len() == c0.escrows@.len() + 1,
        c1.escrows@.last().bounty_id == id,
        is_fresh_lock(c1.escrows@.last().escrow, depositor, c0.lock_net(amount), deadline, c0.lock_token(token)),
        forall|a: Address| #[trigger] c1.held.balance_spec(a) == c0.held.balance_spec(a) + if a == c0.lock_token(token) {
            c0.lock_net(amount)
        } else {
            0
        },
        c1.refund_error(id, None, None, RefundMode::Full, None, now) is None,
        forall|a: Address| #[trigger] c2.held.balance_spec(a) == c1.held.balance_spec(a) - if a == c1.escrow_of(id).token_address {
            c1.refund_amount(id, None, RefundMode::Full)
        } else {
            0
        },
    ensures
        forall|a: Address| #[trigger] c2.held.balance_spec(a) == c0.held.balance_spec(a),
{
    c1.lemma_slot(c1.escrows@.len() - 1);
}

} // verus!

verus! {

/// An escrow that has begun paying out (or is released) can never be
/// refunded: past the guard and the pause, every refund is refused with
/// `FundsNotLocked`, so its refund history stays empty.
pub proof fn no_refund_after_payout(
    c: &BountyEscrowContract,
    id: u64,
    amount: Option<i128>,
    recipient: Option<Address>,
    mode: RefundMode,
    token: Option<Address>,
    now: u64,
)
    requires
        c.wf(),
        !c.guard.locked(),
        !c.paused,
        c.has_bounty(id),
        c.escrow_of(id).status == EscrowStatus::PartiallyReleased || c.escrow_of(id).status == EscrowStatus::Released,
    ensures
        c.refund_error(id, amount, recipient, mode, token, now) == Some(crate::types::Error::FundsNotLocked),
        c.escrow_of(id).refund_history@.len() == 0,
{
    assert(c.escrows@[c.slot(id)].escrow.wf());
}

/// An accepted refund takes a positive amount no larger than what remains.
pub proof fn refund_amount_in_bounds(
    c: &BountyEscrowContract,
    id: u64,
    amount: Option<i128>,
    recipient: Option<Address>,
    mode: RefundMode,
    token: Option<Address>,
    now: u64,
)
    requires
        c.refund_error(id, amount, recipient, mode, token, now) is None,
    ensures
        0 < c.refund_amount(id, amount, mode) <= c.escrow_of(id).remaining_amount,
{
}

/// Before the deadline, a full or partial refund is refused with
/// `DeadlineNotPassed`, and a custom refund without a matching approval with
/// `RefundNotApproved`.
pub proof fn early_refund_refused(
    c: &BountyEscrowContract,
    id: u64,
    amount: Option<i128>,
    recipient: Option<Address>,
    mode: RefundMode,
    now: u64,
)
    requires
        c.wf(),
        !c.guard.locked(),
        !c.paused,
        c.has_bounty(id),
        refundable(c.escrow_of(id).status),
        now < c.escrow_of(id).deadline,
        mode == RefundMode::Custom ==> amount is Some && recipient is Some && (c.approval_of(id) is None
            || c.approval_of(id)->Some_0.amount != amount->Some_0 || c.approval_of(id)->Some_0.recipient
            != recipient->Some_0 || c.approval_of(id)->Some_0.mode != mode),
    ensures
        mode != RefundMode::Custom ==> c.refund_error(id, amount, recipient, mode, None, now) == Some(
            crate::types::Error::DeadlineNotPassed,
        ),
        mode == RefundMode::Custom ==> c.refund_error(id, amount, recipient, mode, None, now) == Some(
            crate::types::Error::RefundNotApproved,
        ),
{
}

/// An administrator's release of an escrow that is not `Locked` or
/// `PartiallyReleased` is refused with `FundsNotLocked`.
pub proof fn release_needs_releasable_status(
    c: &BountyEscrowContract,
    caller: Address,
    id: u64,
    token: Option<Address>,
    amount: Option<i128>,
)
    requires
        !c.guard.locked(),
        !c.paused,
        c.is_admin(caller),
        c.has_bounty(id),
        !releasable(c.escrow_of(id).status),
    ensures
        c.release_error(caller, id, token, amount) == Some(crate::types::Error::FundsNotLocked),
{
}

/// An accepted release pays a positive amount no larger than what remains,
/// in the escrow's own asset.
pub proof fn release_amount_in_bounds(
    c: &BountyEscrowContract,
    caller: Address,
    id: u64,
    token: Option<Address>,
    amount: Option<i128>,
)
    requires
        c.release_error(caller, id, token, amount) is None,
    ensures
        0 < c.release_amount(id, amount) <= c.escrow_of(id).remaining_amount,
        token is Some ==> token == Some(c.escrow_of(id).token_address),
{
}

/// Expiry is refused with `FundsNotLocked` on an escrow that has paid out or
/// is finished, and with `DeadlineNotPassed` before the deadline.
pub proof fn expire_only_when_due(c: &BountyEscrowContract, id: u64, now: u64)
    requires
        !c.guard.locked(),
        !c.paused,
        c.has_bounty(id),
    ensures
        !refundable(c.escrow_of(id).status) ==> c.expire_error(id, now) == Some(
            crate::types::Error::FundsNotLocked,
        ),
        refundable(c.escrow_of(id).status) && now < c.escrow_of(id).deadline ==> c.expire_error(id, now)
            == Some(crate::types::Error::DeadlineNotPassed),
{
}

/// Paying out everything that remains leaves the escrow `Released` and empty.
pub proof fn full_payout_releases(old_e: Escrow, new_e: Escrow, to: Address, now: u64)
    requires
        old_e.wf(),
        releasable(old_e.status),
        is_release_of(old_e, new_e, old_e.remaining_amount as int, to, now),
    ensures
        new_e.status == EscrowStatus::Released,
        new_e.remaining_amount == 0,
{
}

} // verus!
