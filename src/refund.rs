use vstd::prelude::*;
use crate::contract::{BountyEscrowContract, approval_ids_unique, lemma_locked_covers, lemma_locked_update};
use crate::escrow::{Escrow, lemma_refund_total_push};
use crate::types::{Address, Error, EscrowStatus, RefundApproval, RefundMode, RefundRecord, Transfer};

verus! {

/// `new` is `old` after a refund of `amount` to `recipient` in `mode` at `now`.
pub open spec fn is_refund_of(
    old: Escrow,
    new: Escrow,
    amount: int,
    recipient: Address,
    mode: RefundMode,
    now: u64,
) -> bool {
    &&& new.depositor == old.depositor
    &&& new.amount == old.amount
    &&& new.deadline == old.deadline
    &&& new.token_address == old.token_address
    &&& new.payout_history@ == old.payout_history@
    &&& new.refund_history@ == old.refund_history@.push(
        RefundRecord { amount: amount as i128, recipient, mode, timestamp: now },
    )
    &&& new.remaining_amount == old.remaining_amount - amount
    &&& new.status == if new.remaining_amount == 0 {
        EscrowStatus::Refunded
    } else {
        EscrowStatus::PartiallyRefunded
    }
}

/// Whether an escrow in this status can be refunded.
pub open spec fn refundable(s: EscrowStatus) -> bool {
    s == EscrowStatus::Locked || s == EscrowStatus::PartiallyRefunded
}

impl BountyEscrowContract {
    /// Whether a refund approval is pending for `id`.
    pub open spec fn has_approval(&self, id: u64) -> bool {
        exists|i: int| 0 <= i < self.approvals@.len() && #[trigger] self.approvals@[i].bounty_id == id
    }

    /// The position of the pending approval for `id` (meaningful when there is one).
    pub open spec fn approval_slot(&self, id: u64) -> int {
        choose|i: int| 0 <= i < self.approvals@.len() && #[trigger] self.approvals@[i].bounty_id == id
    }

    /// The pending approval for `id`, if any.
    pub open spec fn approval_of(&self, id: u64) -> Option<RefundApproval> {
        if self.has_approval(id) {
            Some(self.approvals@[self.approval_slot(id)])
        } else {
            None
        }
    }

    /// The position of the pending approval for `id`, if there is one.
    pub fn find_approval(&self, id: u64) -> (r: Option<usize>)
        requires
            approval_ids_unique(self.approvals@),
        ensures
            match r {
                Some(i) => i < self.approvals@.len() && self.has_approval(id) && self.approval_slot(id) == i,
                None => !self.has_approval(id),
            },
    {
        let mut i: usize = 0;
        while i < self.approvals.len()
            invariant
                approval_ids_unique(self.approvals@),
                i <= self.approvals@.len(),
                forall|k: int| 0 <= k < i ==> self.approvals@[k].bounty_id != id,
            decreases self.approvals@.len() - i,
        {
            if self.approvals[i].bounty_id == id {
                proof {
                    assert(self.approvals@[i as int].bounty_id == id);
                    let j = self.approval_slot(id);
                    assert(self.approvals@[j].bounty_id == id);
                }
                return Some(i);
            }
            i = i + 1;
        }
        None
    }

    /// The amount a refund asks for in `mode`.
    pub open spec fn refund_amount(&self, bounty_id: u64, amount: Option<i128>, mode: RefundMode) -> int {
        let rem = self.escrow_of(bounty_id).remaining_amount as int;
        match mode {
            RefundMode::Full => rem,
            RefundMode::Partial => match amount {
                Some(x) => x as int,
                None => rem,
            },
            RefundMode::Custom => match amount {
                Some(x) => x as int,
                None => 0,
            },
        }
    }

    /// Who a refund in `mode` pays.
    pub open spec fn refund_recipient(&self, bounty_id: u64, recipient: Option<Address>, mode: RefundMode) -> Address {
        match (mode, recipient) {
            (RefundMode::Custom, Some(r)) => r,
            _ => self.escrow_of(bounty_id).depositor,
        }
    }

    /// Whether a refund consumes the pending approval: a custom refund before the deadline.
    pub open spec fn refund_needs_approval(&self, bounty_id: u64, mode: RefundMode, now: u64) -> bool {
        mode == RefundMode::Custom && now < self.escrow_of(bounty_id).deadline
    }

    /// Why a refund is refused, if it is; checks are made in this order.
    pub open spec fn refund_error(
        &self,
        bounty_id: u64,
        amount: Option<i128>,
        recipient: Option<Address>,
        mode: RefundMode,
        token: Option<Address>,
        now: u64,
    ) -> Option<Error> {
        if self.guard.locked() {
            Some(Error::ReentrantCall)
        } else {
            self.refund_item_error(bounty_id, amount, recipient, mode, token, now)
        }
    }

    /// The checks of a refund past the reentrancy guard.
    pub open spec fn refund_item_error(
        &self,
        bounty_id: u64,
        amount: Option<i128>,
        recipient: Option<Address>,
        mode: RefundMode,
        token: Option<Address>,
        now: u64,
    ) -> Option<Error> {
        let e = self.escrow_of(bounty_id);
        let amt = self.refund_amount(bounty_id, amount, mode);
        let to = self.refund_recipient(bounty_id, recipient, mode);
        let ap = self.approval_of(bounty_id);
        if self.paused {
            Some(Error::ContractPaused)
        } else if !self.has_bounty(bounty_id) {
            Some(Error::BountyNotFound)
        } else if !refundable(e.status) {
            Some(Error::FundsNotLocked)
        } else if token is Some && token != Some(e.token_address) {
            Some(Error::InvalidAmount)
        } else if mode != RefundMode::Custom && now < e.deadline {
            Some(Error::DeadlineNotPassed)
        } else if mode == RefundMode::Custom && (amount is None || recipient is None) {
            Some(Error::InvalidAmount)
        } else if self.refund_needs_approval(bounty_id, mode, now) && (ap is None || ap->Some_0.amount
            != amt || ap->Some_0.recipient != to || ap->Some_0.mode != mode) {
            Some(Error::RefundNotApproved)
        } else if amt <= 0 || amt > e.remaining_amount {
            Some(Error::InvalidAmount)
        } else {
            None
        }
    }

    /// Refunds `amount` from the escrow at position `i` to `recipient`.
    pub fn refund_one(&mut self, i: usize, amount: i128, recipient: Address, mode: RefundMode, now: u64) -> (r:
        Vec<Transfer>)
        requires
            old(self).wf(),
            i < old(self).escrows@.len(),
            refundable(old(self).escrows@[i as int].escrow.status),
            0 < amount <= old(self).escrows@[i as int].escrow.remaining_amount,
        ensures
            final(self).wf(),
            final(self).same_settings(old(self)),
            final(self).approvals == old(self).approvals,
            r@ == seq![
                Transfer {
                    token: old(self).escrows@[i as int].escrow.token_address,
                    from: old(self).contract,
                    to: recipient,
                    amount,
                },
            ],
            final(self).escrows@ == old(self).escrows@.update(i as int, final(self).escrows@[i as int]),
            final(self).escrows@[i as int].bounty_id == old(self).escrows@[i as int].bounty_id,
            is_refund_of(
                old(self).escrows@[i as int].escrow,
                final(self).escrows@[i as int].escrow,
                amount as int,
                recipient,
                mode,
                now,
            ),
            forall|a: Address| #[trigger] final(self).held.balance_spec(a) == old(self).held.balance_spec(a)
                - if a == old(self).escrows@[i as int].escrow.token_address {
                amount as int
            } else {
                0
            },
    {
        let ghost s0 = self.escrows@;
        proof {
            assert(s0[i as int].escrow.wf());
            lemma_locked_covers(s0, i as int);
        }
        let mut entry = self.escrows.remove(i);
        let token = entry.escrow.token_address;
        let rec = RefundRecord { amount, recipient, mode, timestamp: now };
        proof {
            lemma_refund_total_push(entry.escrow.refund_history@, rec);
        }
        let _ = entry.escrow.token_balances.debit(token, amount);
        entry.escrow.refund_history.push(rec);
        entry.escrow.remaining_amount = entry.escrow.remaining_amount - amount;
        if entry.escrow.remaining_amount == 0 {
            entry.escrow.status = EscrowStatus::Refunded;
        } else {
            entry.escrow.status = EscrowStatus::PartiallyRefunded;
        }
        proof {
            assert(entry.escrow.wf());
            lemma_locked_update(s0, i as int, entry);
        }
        self.escrows.insert(i, entry);
        let _ = self.held.debit(token, amount);
        proof {
            assert(self.escrows@ =~= s0.update(i as int, entry));
            let s = self.escrows@;
            assert forall|j: int, k: int| 0 <= j < k < s.len() implies s[j].bounty_id != s[k].bounty_id by {
                assert(s0[j].bounty_id == s[j].bounty_id || j == i);
                assert(s0[k].bounty_id == s[k].bounty_id || k == i);
            }
            assert forall|j: int| 0 <= j < s.len() implies (#[trigger] s[j]).escrow.wf() by {
                if j != i {
                    assert(s[j] == s0[j]);
                }
            }
        }
        let mut out: Vec<Transfer> = Vec::new();
        out.push(Transfer { token, from: self.contract, to: recipient, amount });
        proof {
            assert(out@ =~= seq![Transfer { token, from: old(self).contract, to: recipient, amount }]);
        }
        out
    }

    /// Drops the pending approval at position `j`.
    fn consume_approval(&mut self, j: usize)
        requires
            old(self).wf(),
            j < old(self).approvals@.len(),
        ensures
            final(self).wf(),
            final(self).same_settings(old(self)),
            final(self).escrows == old(self).escrows,
            final(self).held == old(self).held,
            final(self).approvals@ == old(self).approvals@.remove(j as int),
            !final(self).has_approval(old(self).approvals@[j as int].bounty_id),
    {
        let ghost id = self.approvals@[j as int].bounty_id;
        let ghost a0 = self.approvals@;
        let _ = self.approvals.remove(j);
        proof {
            let s = self.approvals@;
            assert forall|x: int, y: int| 0 <= x < y < s.len() implies s[x].bounty_id != s[y].bounty_id by {
                let ox = if x < j { x } else { x + 1 };
                let oy = if y < j { y } else { y + 1 };
                assert(s[x] == a0[ox]);
                assert(s[y] == a0[oy]);
            }
            if self.has_approval(id) {
                let k = choose|k: int| 0 <= k < s.len() && #[trigger] s[k].bounty_id == id;
                let ok = if k < j { k } else { k + 1 };
                assert(s[k] == a0[ok]);
                assert(false);
            }
        }
    }

    /// Refunds from the escrow of `bounty_id`. `Full` returns all that remains
    /// to the depositor and `Partial` returns `amount` (default: all) to the
    /// depositor, both only once the deadline has passed. `Custom` pays
    /// `amount` to `recipient`; before the deadline it needs a pending approval
    /// with exactly that amount, recipient and mode, which it consumes. The
    /// escrow is `Refunded` once nothing remains, else `PartiallyRefunded`.
    /// Returns the transfers.
    pub fn refund(
        &mut self,
        bounty_id: u64,
        amount: Option<i128>,
        recipient: Option<Address>,
        mode: RefundMode,
        token: Option<Address>,
        now: u64,
    ) -> (r: Result<Vec<Transfer>, Error>)
        requires
            old(self).wf(),
        ensures
            final(self).wf(),
            match old(self).refund_error(bounty_id, amount, recipient, mode, token, now) {
                Some(e) => r == Err::<Vec<Transfer>, Error>(e) && *final(self) == *old(self),
                None => {
                    let i = old(self).slot(bounty_id);
                    let old_e = old(self).escrow_of(bounty_id);
                    let amt = old(self).refund_amount(bounty_id, amount, mode);
                    let to = old(self).refund_recipient(bounty_id, recipient, mode);
                    &&& r is Ok
                    &&& r->Ok_0@ == seq![Transfer { token: old_e.token_address, from: old(self).contract, to, amount: amt as i128 }]
                    &&& final(self).same_settings(old(self))
                    &&& final(self).escrows@ == old(self).escrows@.update(i, final(self).escrows@[i])
                    &&& final(self).escrows@[i].bounty_id == bounty_id
                    &&& is_refund_of(old_e, final(self).escrows@[i].escrow, amt, to, mode, now)
                    &&& forall|a: Address| #[trigger] final(self).held.balance_spec(a) == old(self).held.balance_spec(a)
                        - if a == old_e.token_address {
                        amt
                    } else {
                        0
                    }
                    &&& if old(self).refund_needs_approval(bounty_id, mode, now) {
                        final(self).approvals@ == old(self).approvals@.remove(old(self).approval_slot(bounty_id))
                            && !final(self).has_approval(bounty_id)
                    } else {
                        final(self).approvals == old(self).approvals
                    }
                },
            },
    {
        if self.guard.enter().is_err() {
            return Err(Error::ReentrantCall);
        }
        let r = self.refund_checked(bounty_id, amount, recipient, mode, token, now);
        self.guard.exit();
        r
    }

    fn refund_checked(
        &mut self,
        bounty_id: u64,
        amount: Option<i128>,
        recipient: Option<Address>,
        mode: RefundMode,
        token: Option<Address>,
        now: u64,
    ) -> (r: Result<Vec<Transfer>, Error>)
        requires
            old(self).wf(),
            old(self).guard.locked(),
        ensures
            final(self).wf(),
            match old(self).refund_item_error(bounty_id, amount, recipient, mode, token, now) {
                Some(e) => r == Err::<Vec<Transfer>, Error>(e) && *final(self) == *old(self),
                None => {
                    let i = old(self).slot(bounty_id);
                    let old_e = old(self).escrow_of(bounty_id);
                    let amt = old(self).refund_amount(bounty_id, amount, mode);
                    let to = old(self).refund_recipient(bounty_id, recipient, mode);
                    &&& r is Ok
                    &&& r->Ok_0@ == seq![Transfer { token: old_e.token_address, from: old(self).contract, to, amount: amt as i128 }]
                    &&& final(self).same_settings(old(self))
                    &&& final(self).escrows@ == old(self).escrows@.update(i, final(self).escrows@[i])
                    &&& final(self).escrows@[i].bounty_id == bounty_id
                    &&& is_refund_of(old_e, final(self).escrows@[i].escrow, amt, to, mode, now)
                    &&& forall|a: Address| #[trigger] final(self).held.balance_spec(a) == old(self).held.balance_spec(a)
                        - if a == old_e.token_address {
                        amt
                    } else {
                        0
                    }
                    &&& if old(self).refund_needs_approval(bounty_id, mode, now) {
                        final(self).approvals@ == old(self).approvals@.remove(old(self).approval_slot(bounty_id))
                            && !final(self).has_approval(bounty_id)
                    } else {
                        final(self).approvals == old(self).approvals
                    }
                },
            },
    {
        if self.paused {
            return Err(Error::ContractPaused);
        }
        let i = match self.find_escrow(bounty_id) {
            None => return Err(Error::BountyNotFound),
            Some(i) => i,
        };
        let status = self.escrows[i].escrow.status;
        let primary = self.escrows[i].escrow.token_address;
        let deadline = self.escrows[i].escrow.deadline;
        let rem = self.escrows[i].escrow.remaining_amount;
        let depositor = self.escrows[i].escrow.depositor;
        if status != EscrowStatus::Locked && status != EscrowStatus::PartiallyRefunded {
            return Err(Error::FundsNotLocked);
        }
        match token {
            Some(t) => {
                if t != primary {
                    return Err(Error::InvalidAmount);
                }
            },
            None => {},
        }
        let before_deadline = now < deadline;
        let mut consume: Option<usize> = None;
        let (amt, to): (i128, Address) = match mode {
            RefundMode::Full => {
                if before_deadline {
                    return Err(Error::DeadlineNotPassed);
                }
                (rem, depositor)
            },
            RefundMode::Partial => {
                if before_deadline {
                    return Err(Error::DeadlineNotPassed);
                }
                match amount {
                    Some(x) => (x, depositor),
                    None => (rem, depositor),
                }
            },
            RefundMode::Custom => {
                let x = match amount {
                    Some(x) => x,
                    None => return Err(Error::InvalidAmount),
                };
                let to = match recipient {
                    Some(t) => t,
                    None => return Err(Error::InvalidAmount),
                };
                if before_deadline {
                    match self.find_approval(bounty_id) {
                        None => return Err(Error::RefundNotApproved),
                        Some(j) => {
                            let ap = self.approvals[j];
                            if ap.amount != x || ap.recipient != to || ap.mode != mode {
                                return Err(Error::RefundNotApproved);
                            }
                            consume = Some(j);
                        },
                    }
                }
                (x, to)
            },
        };
        if amt <= 0 || amt > rem {
            return Err(Error::InvalidAmount);
        }
        let out = self.refund_one(i, amt, to, mode, now);
        match consume {
            Some(j) => self.consume_approval(j),
            None => {},
        }
        Ok(out)
    }
}

} // verus!
