use vstd::prelude::*;
use crate::contract::BountyEscrowContract;
use crate::refund::{is_refund_of, refundable};
use crate::types::{Address, Error, EscrowStatus, RefundApproval, RefundMode, Transfer};

verus! {

impl BountyEscrowContract {
    /// Why an approval is refused, if it is; checks are made in this order.
    pub open spec fn approve_error(&self, caller: Address, bounty_id: u64, amount: i128) -> Option<Error> {
        let e = self.escrow_of(bounty_id);
        if self.guard.locked() {
            Some(Error::ReentrantCall)
        } else if !self.initialized() {
            Some(Error::NotInitialized)
        } else if !self.is_admin(caller) {
            Some(Error::Unauthorized)
        } else if !self.has_bounty(bounty_id) {
            Some(Error::BountyNotFound)
        } else if !refundable(e.status) {
            Some(Error::FundsNotLocked)
        } else if amount <= 0 || amount > e.remaining_amount {
            Some(Error::InvalidAmount)
        } else {
            None
        }
    }

    /// Records, in place of any earlier one, the administrator's approval of a
    /// custom refund of `amount` to `recipient` from the escrow of `bounty_id`.
    pub fn approve_refund(
        &mut self,
        caller: Address,
        bounty_id: u64,
        amount: i128,
        recipient: Address,
        mode: RefundMode,
        now: u64,
    ) -> (r: Result<(), Error>)
        requires
            old(self).wf(),
        ensures
            final(self).wf(),
            match old(self).approve_error(caller, bounty_id, amount) {
                Some(e) => r == Err::<(), Error>(e) && *final(self) == *old(self),
                None => {
                    let ap = RefundApproval {
                        bounty_id,
                        amount,
                        recipient,
                        mode,
                        approved_by: caller,
                        approved_at: now,
                    };
                    &&& r is Ok
                    &&& final(self).same_settings(old(self))
                    &&& final(self).escrows == old(self).escrows
                    &&& final(self).held == old(self).held
                    &&& final(self).approval_of(bounty_id) == Some(ap)
                    &&& if old(self).has_approval(bounty_id) {
                        final(self).approvals@ == old(self).approvals@.update(old(self).approval_slot(bounty_id), ap)
                    } else {
                        final(self).approvals@ == old(self).approvals@.push(ap)
                    }
                },
            },
    {
        if self.guard.is_locked() {
            return Err(Error::ReentrantCall);
        }
        let admin = match self.admin {
            None => return Err(Error::NotInitialized),
            Some(a) => a,
        };
        if caller != admin {
            return Err(Error::Unauthorized);
        }
        let i = match self.find_escrow(bounty_id) {
            None => return Err(Error::BountyNotFound),
            Some(i) => i,
        };
        let status = self.escrows[i].escrow.status;
        if status != EscrowStatus::Locked && status != EscrowStatus::PartiallyRefunded {
            return Err(Error::FundsNotLocked);
        }
        if amount <= 0 || amount > self.escrows[i].escrow.remaining_amount {
            return Err(Error::InvalidAmount);
        }
        let ap = RefundApproval { bounty_id, amount, recipient, mode, approved_by: caller, approved_at: now };
        let ghost a0 = self.approvals@;
        match self.find_approval(bounty_id) {
            Some(j) => {
                self.approvals.set(j, ap);
                proof {
                    let s = self.approvals@;
                    assert(s == a0.update(j as int, ap));
                    assert forall|x: int, y: int| 0 <= x < y < s.len() implies s[x].bounty_id != s[y].bounty_id by {
                        assert(x == j || s[x] == a0[x]);
                        assert(y == j || s[y] == a0[y]);
                    }
                    assert(s[j as int].bounty_id == bounty_id);
                    let k = self.approval_slot(bounty_id);
                    assert(self.has_approval(bounty_id));
                    assert(s[k].bounty_id == bounty_id);
                }
            },
            None => {
                self.approvals.push(ap);
                proof {
                    let s = self.approvals@;
                    assert(s == a0.push(ap));
                    assert forall|x: int, y: int| 0 <= x < y < s.len() implies s[x].bounty_id != s[y].bounty_id by {
                        if y == a0.len() {
                            assert(s[x] == a0[x]);
                        } else {
                            assert(s[x] == a0[x]);
                            assert(s[y] == a0[y]);
                        }
                    }
                    let n = a0.len() as int;
                    assert(s[n].bounty_id == bounty_id);
                    assert(self.has_approval(bounty_id));
                    let k = self.approval_slot(bounty_id);
                    assert(s[k].bounty_id == bounty_id);
                }
            },
        }
        Ok(())
    }

    /// Why an expiry is refused, if it is; checks are made in this order.
    pub open spec fn expire_error(&self, bounty_id: u64, now: u64) -> Option<Error> {
        let e = self.escrow_of(bounty_id);
        if self.guard.locked() {
            Some(Error::ReentrantCall)
        } else if self.paused {
            Some(Error::ContractPaused)
        } else if !self.has_bounty(bounty_id) {
            Some(Error::BountyNotFound)
        } else if !refundable(e.status) {
            Some(Error::FundsNotLocked)
        } else if now < e.deadline {
            Some(Error::DeadlineNotPassed)
        } else if e.remaining_amount <= 0 {
            Some(Error::InvalidAmount)
        } else {
            None
        }
    }

    /// Once the deadline has passed, anyone may return all that remains in
    /// the escrow of `bounty_id` to its depositor, as a full refund.
    pub fn expire(&mut self, bounty_id: u64, now: u64) -> (r: Result<Vec<Transfer>, Error>)
        requires
            old(self).wf(),
        ensures
            final(self).wf(),
            match old(self).expire_error(bounty_id, now) {
                Some(e) => r == Err::<Vec<Transfer>, Error>(e) && *final(self) == *old(self),
                None => {
                    let i = old(self).slot(bounty_id);
                    let old_e = old(self).escrow_of(bounty_id);
                    let amt = old_e.remaining_amount;
                    &&& r is Ok
                    &&& r->Ok_0@ == seq![Transfer { token: old_e.token_address, from: old(self).contract, to: old_e.depositor, amount: amt }]
                    &&& final(self).same_settings(old(self))
                    &&& final(self).approvals == old(self).approvals
                    &&& final(self).escrows@ == old(self).escrows@.update(i, final(self).escrows@[i])
                    &&& final(self).escrows@[i].bounty_id == bounty_id
                    &&& is_refund_of(old_e, final(self).escrows@[i].escrow, amt as int, old_e.depositor, RefundMode::Full, now)
                    &&& final(self).escrows@[i].escrow.status == EscrowStatus::Refunded
                    &&& forall|a: Address| #[trigger] final(self).held.balance_spec(a) == old(self).held.balance_spec(a)
                        - if a == old_e.token_address {
                        amt as int
                    } else {
                        0
                    }
                },
            },
    {
        if self.guard.is_locked() {
            return Err(Error::ReentrantCall);
        }
        if self.paused {
            return Err(Error::ContractPaused);
        }
        let i = match self.find_escrow(bounty_id) {
            None => return Err(Error::BountyNotFound),
            Some(i) => i,
        };
        let status = self.escrows[i].escrow.status;
        if status != EscrowStatus::Locked && status != EscrowStatus::PartiallyRefunded {
            return Err(Error::FundsNotLocked);
        }
        if now < self.escrows[i].escrow.deadline {
            return Err(Error::DeadlineNotPassed);
        }
        let amt = self.escrows[i].escrow.remaining_amount;
        if amt <= 0 {
            return Err(Error::InvalidAmount);
        }
        let depositor = self.escrows[i].escrow.depositor;
        Ok(self.refund_one(i, amt, depositor, RefundMode::Full, now))
    }

    /// Why a deadline extension is refused, if it is; checks are made in this order.
    pub open spec fn extend_error(&self, caller: Address, bounty_id: u64, new_deadline: u64) -> Option<Error> {
        let e = self.escrow_of(bounty_id);
        if self.guard.locked() {
            Some(Error::ReentrantCall)
        } else if self.paused {
            Some(Error::ContractPaused)
        } else if !self.has_bounty(bounty_id) {
            Some(Error::BountyNotFound)
        } else if !refundable(e.status) {
            Some(Error::FundsNotLocked)
        } else if new_deadline <= e.deadline {
            Some(Error::InvalidDeadlineExtension)
        } else if caller != e.depositor && !self.is_admin(caller) {
            Some(Error::Unauthorized)
        } else {
            None
        }
    }

    /// Moves the deadline of the escrow of `bounty_id` later; the depositor or
    /// the administrator may do so. Nothing else changes.
    pub fn extend_refund_deadline(&mut self, caller: Address, bounty_id: u64, new_deadline: u64) -> (r: Result<
        (),
        Error,
    >)
        requires
            old(self).wf(),
        ensures
            final(self).wf(),
            match old(self).extend_error(caller, bounty_id, new_deadline) {
                Some(e) => r == Err::<(), Error>(e) && *final(self) == *old(self),
                None => {
                    let i = old(self).slot(bounty_id);
                    let old_e = old(self).escrow_of(bounty_id);
                    let new_e = final(self).escrows@[i].escrow;
                    &&& r is Ok
                    &&& final(self).same_settings(old(self))
                    &&& final(self).approvals == old(self).approvals
                    &&& final(self).held == old(self).held
                    &&& final(self).escrows@ == old(self).escrows@.update(i, final(self).escrows@[i])
                    &&& final(self).escrows@[i].bounty_id == bounty_id
                    &&& new_e.deadline == new_deadline
                    &&& new_e.depositor == old_e.depositor
                    &&& new_e.amount == old_e.amount
                    &&& new_e.status == old_e.status
                    &&& new_e.token_address == old_e.token_address
                    &&& new_e.remaining_amount == old_e.remaining_amount
                    &&& new_e.refund_history == old_e.refund_history
                    &&& new_e.payout_history == old_e.payout_history
                    &&& new_e.token_balances == old_e.token_balances
                },
            },
    {
        if self.guard.is_locked() {
            return Err(Error::ReentrantCall);
        }
        if self.paused {
            return Err(Error::ContractPaused);
        }
        let i = match self.find_escrow(bounty_id) {
            None => return Err(Error::BountyNotFound),
            Some(i) => i,
        };
        let status = self.escrows[i].escrow.status;
        if status != EscrowStatus::Locked && status != EscrowStatus::PartiallyRefunded {
            return Err(Error::FundsNotLocked);
        }
        if new_deadline <= self.escrows[i].escrow.deadline {
            return Err(Error::InvalidDeadlineExtension);
        }
        let is_admin = match self.admin {
            Some(a) => a == caller,
            None => false,
        };
        if caller != self.escrows[i].escrow.depositor && !is_admin {
            return Err(Error::Unauthorized);
        }
        let ghost s0 = self.escrows@;
        let mut entry = self.escrows.remove(i);
        entry.escrow.deadline = new_deadline;
        self.escrows.insert(i, entry);
        proof {
            assert(self.escrows@ =~= s0.update(i as int, entry));
            let s = self.escrows@;
            assert forall|j: int, k: int| 0 <= j < k < s.len() implies s[j].bounty_id != s[k].bounty_id by {
                assert(s0[j].bounty_id == s[j].bounty_id || j == i);
                assert(s0[k].bounty_id == s[k].bounty_id || k == i);
            }
            assert forall|j: int| 0 <= j < s.len() implies (#[trigger] s[j]).escrow.wf() by {
                if j != i {
                    assert(s[j] == s0[j]);
                }
            }
            assert(s0[i as int].escrow.wf());
            crate::contract::lemma_locked_update(s0, i as int, entry);
        }
        Ok(())
    }
}

} // verus!
