use vstd::prelude::*;
use crate::contract::{BountyEscrowContract, locked_total};
use crate::escrow::{Escrow, copy_payouts, copy_refunds, payout_total, refund_total, lemma_payout_total_pos, lemma_refund_total_pos};
use crate::refund::refundable;
use crate::types::{Address, Error, PayoutRecord, RefundApproval, RefundRecord};

verus! {

/// Totals over all escrows.
#[derive(Clone, Copy, Debug, PartialEq, Eq, Structural)]
pub struct EscrowStats {
    pub total_bounties: u64,
    pub total_locked_amount: i128,
    pub total_released_amount: i128,
    pub total_refunded_amount: i128,
}

/// A window over a listing: `limit` entries from position `start_index`.
#[derive(Clone, Copy, Debug, PartialEq, Eq, Structural)]
pub struct Pagination {
    pub start_index: u64,
    pub limit: u32,
}

/// `x` clamped to the range of an `i128` from above.
pub open spec fn cap(x: int) -> int {
    if x > i128::MAX {
        i128::MAX as int
    } else {
        x
    }
}

/// Sum of remaining amounts over `s`.
pub open spec fn remaining_sum(s: Seq<crate::contract::EscrowEntry>) -> int
    decreases s.len(),
{
    if s.len() == 0 {
        0
    } else {
        remaining_sum(s.drop_last()) + s.last().escrow.remaining_amount
    }
}

/// Sum of payout totals over `s`.
pub open spec fn released_sum(s: Seq<crate::contract::EscrowEntry>) -> int
    decreases s.len(),
{
    if s.len() == 0 {
        0
    } else {
        released_sum(s.drop_last()) + payout_total(s.last().escrow.payout_history@)
    }
}

/// Sum of refund totals over `s`.
pub open spec fn refunded_sum(s: Seq<crate::contract::EscrowEntry>) -> int
    decreases s.len(),
{
    if s.len() == 0 {
        0
    } else {
        refunded_sum(s.drop_last()) + refund_total(s.last().escrow.refund_history@)
    }
}

/// Adds a non-negative `x` to `acc`, stopping at the largest `i128`.
fn add_capped(acc: i128, x: i128) -> (r: i128)
    requires
        acc >= 0,
        x >= 0,
    ensures
        r == if acc + x > i128::MAX { i128::MAX as int } else { acc + x },
{
    if acc > i128::MAX - x {
        i128::MAX
    } else {
        acc + x
    }
}

/// The sum of a refund history's amounts, stopping at the largest `i128`.
fn refund_sum_capped(v: &Vec<RefundRecord>) -> (r: i128)
    requires
        forall|k: int| 0 <= k < v@.len() ==> #[trigger] v@[k].amount > 0,
    ensures
        r == cap(refund_total(v@)),
{
    let mut acc: i128 = 0;
    let mut i: usize = 0;
    proof {
        assert(v@.take(0) =~= Seq::<RefundRecord>::empty());
    }
    while i < v.len()
        invariant
            i <= v@.len(),
            forall|k: int| 0 <= k < v@.len() ==> #[trigger] v@[k].amount > 0,
            acc == cap(refund_total(v@.take(i as int))),
            acc >= 0,
        decreases v@.len() - i,
    {
        proof {
            assert(v@.take(i as int + 1).drop_last() =~= v@.take(i as int));
            assert forall|k: int| 0 <= k < v@.take(i as int).len() implies #[trigger] v@.take(i as int)[k].amount > 0 by {
                assert(v@.take(i as int)[k] == v@[k]);
            }
            lemma_refund_total_pos(v@.take(i as int));
        }
        acc = add_capped(acc, v[i].amount);
        i = i + 1;
    }
    proof {
        assert(v@.take(i as int) =~= v@);
    }
    acc
}

/// The sum of a payout history's amounts, stopping at the largest `i128`.
fn payout_sum_capped(v: &Vec<PayoutRecord>) -> (r: i128)
    requires
        forall|k: int| 0 <= k < v@.len() ==> #[trigger] v@[k].amount > 0,
    ensures
        r == cap(payout_total(v@)),
{
    let mut acc: i128 = 0;
    let mut i: usize = 0;
    proof {
        assert(v@.take(0) =~= Seq::<PayoutRecord>::empty());
    }
    while i < v.len()
        invariant
            i <= v@.len(),
            forall|k: int| 0 <= k < v@.len() ==> #[trigger] v@[k].amount > 0,
            acc == cap(payout_total(v@.take(i as int))),
            acc >= 0,
        decreases v@.len() - i,
    {
        proof {
            assert(v@.take(i as int + 1).drop_last() =~= v@.take(i as int));
            assert forall|k: int| 0 <= k < v@.take(i as int).len() implies #[trigger] v@.take(i as int)[k].amount > 0 by {
                assert(v@.take(i as int)[k] == v@[k]);
            }
            lemma_payout_total_pos(v@.take(i as int));
        }
        acc = add_capped(acc, v[i].amount);
        i = i + 1;
    }
    proof {
        assert(v@.take(i as int) =~= v@);
    }
    acc
}

impl BountyEscrowContract {
    /// A copy of the escrow of `bounty_id`.
    pub fn get_escrow_info(&self, bounty_id: u64) -> (r: Result<Escrow, Error>)
        requires
            self.wf(),
        ensures
            !self.has_bounty(bounty_id) ==> r == Err::<Escrow, Error>(Error::BountyNotFound),
            self.has_bounty(bounty_id) ==> r is Ok && self.escrow_of(bounty_id).same_record(r->Ok_0),
    {
        match self.find_escrow(bounty_id) {
            None => Err(Error::BountyNotFound),
            Some(i) => Ok(self.escrows[i].escrow.duplicate()),
        }
    }

    /// The refunds made from the escrow of `bounty_id`, oldest first.
    pub fn get_refund_history(&self, bounty_id: u64) -> (r: Result<Vec<RefundRecord>, Error>)
        requires
            self.wf(),
        ensures
            !self.has_bounty(bounty_id) ==> r == Err::<Vec<RefundRecord>, Error>(Error::BountyNotFound),
            self.has_bounty(bounty_id) ==> r is Ok && r->Ok_0@ == self.escrow_of(bounty_id).refund_history@,
    {
        match self.find_escrow(bounty_id) {
            None => Err(Error::BountyNotFound),
            Some(i) => Ok(copy_refunds(&self.escrows[i].escrow.refund_history)),
        }
    }

    /// The payouts made from the escrow of `bounty_id`, oldest first.
    pub fn get_payout_history(&self, bounty_id: u64) -> (r: Result<Vec<PayoutRecord>, Error>)
        requires
            self.wf(),
        ensures
            !self.has_bounty(bounty_id) ==> r == Err::<Vec<PayoutRecord>, Error>(Error::BountyNotFound),
            self.has_bounty(bounty_id) ==> r is Ok && r->Ok_0@ == self.escrow_of(bounty_id).payout_history@,
    {
        match self.find_escrow(bounty_id) {
            None => Err(Error::BountyNotFound),
            Some(i) => Ok(copy_payouts(&self.escrows[i].escrow.payout_history)),
        }
    }

    /// Whether the escrow of `bounty_id` can be refunded at `now`, whether its
    /// deadline has passed, what remains in it, and its pending approval.
    pub fn get_refund_eligibility(&self, bounty_id: u64, now: u64) -> (r: Result<
        (bool, bool, i128, Option<RefundApproval>),
        Error,
    >)
        requires
            self.wf(),
        ensures
            !self.has_bounty(bounty_id) ==> r is Err && r->Err_0 == Error::BountyNotFound,
            self.has_bounty(bounty_id) ==> r is Ok && {
                let (can, passed, rem, ap) = r->Ok_0;
                let e = self.escrow_of(bounty_id);
                &&& passed == (now >= e.deadline)
                &&& ap == self.approval_of(bounty_id)
                &&& can == (refundable(e.status) && (passed || ap is Some))
                &&& rem == e.remaining_amount
            },
    {
        let i = match self.find_escrow(bounty_id) {
            None => return Err(Error::BountyNotFound),
            Some(i) => i,
        };
        let e = &self.escrows[i].escrow;
        let passed = now >= e.deadline;
        let ap: Option<RefundApproval> = match self.find_approval(bounty_id) {
            Some(j) => Some(self.approvals[j]),
            None => None,
        };
        let can = (e.status == crate::types::EscrowStatus::Locked || e.status
            == crate::types::EscrowStatus::PartiallyRefunded) && (passed || ap.is_some());
        Ok((can, passed, e.remaining_amount, ap))
    }

    /// What remains in the escrow of `bounty_id` in asset `token`.
    pub fn get_token_balance(&self, bounty_id: u64, token: Address) -> (r: Result<i128, Error>)
        requires
            self.wf(),
        ensures
            !self.has_bounty(bounty_id) ==> r == Err::<i128, Error>(Error::BountyNotFound),
            self.has_bounty(bounty_id) ==> r == Ok::<i128, Error>(
                self.escrow_of(bounty_id).token_balances.balance_spec(token) as i128,
            ),
    {
        match self.find_escrow(bounty_id) {
            None => Err(Error::BountyNotFound),
            Some(i) => {
                proof {
                    assert(self.escrows@[i as int].escrow.wf());
                }
                Ok(self.escrows[i].escrow.token_balances.balance_of(token))
            },
        }
    }

    /// What the contract holds of the default token.
    pub fn get_balance(&self) -> (r: Result<i128, Error>)
        requires
            self.wf(),
        ensures
            !self.initialized() ==> r == Err::<i128, Error>(Error::NotInitialized),
            self.initialized() ==> r == Ok::<i128, Error>(self.held.balance_spec(self.default_token) as i128),
    {
        if self.admin.is_none() {
            return Err(Error::NotInitialized);
        }
        Ok(self.held.balance_of(self.default_token))
    }

    /// What the contract holds of asset `token`, which must be on the allow-list.
    pub fn get_token_bal(&self, token: Address) -> (r: Result<i128, Error>)
        requires
            self.wf(),
        ensures
            !self.whitelisted_tokens@.contains(token) ==> r == Err::<i128, Error>(Error::TokenNotWhitelisted),
            self.whitelisted_tokens@.contains(token) ==> r is Ok && r->Ok_0 == self.held.balance_spec(token)
                && r->Ok_0 == locked_total(self.escrows@, token),
    {
        if !self.is_token_whitelisted(token) {
            return Err(Error::TokenNotWhitelisted);
        }
        Ok(self.held.balance_of(token))
    }

    /// Totals over all escrows: how many there are, what is still locked,
    /// what has been paid out and what has been refunded. A total too large
    /// for an `i128` is reported as the largest `i128`.
    pub fn get_stats(&self) -> (r: EscrowStats)
        requires
            self.wf(),
        ensures
            r.total_bounties == self.escrows@.len(),
            r.total_locked_amount == cap(remaining_sum(self.escrows@)),
            r.total_released_amount == cap(released_sum(self.escrows@)),
            r.total_refunded_amount == cap(refunded_sum(self.escrows@)),
    {
        let mut locked: i128 = 0;
        let mut released: i128 = 0;
        let mut refunded: i128 = 0;
        let mut i: usize = 0;
        let ghost s = self.escrows@;
        proof {
            assert(s.take(0) =~= Seq::<crate::contract::EscrowEntry>::empty());
        }
        while i < self.escrows.len()
            invariant
                self.wf(),
                s == self.escrows@,
                i <= s.len(),
                locked == cap(remaining_sum(s.take(i as int))),
                released == cap(released_sum(s.take(i as int))),
                refunded == cap(refunded_sum(s.take(i as int))),
                locked >= 0,
                released >= 0,
                refunded >= 0,
            decreases s.len() - i,
        {
            let e = &self.escrows[i].escrow;
            proof {
                assert(s[i as int].escrow.wf());
                assert(s.take(i as int + 1).drop_last() =~= s.take(i as int));
                assert(s.take(i as int + 1).last() == s[i as int]);
                lemma_sums_nonneg(s.take(i as int));
                lemma_payout_total_pos(e.payout_history@);
                lemma_refund_total_pos(e.refund_history@);
            }
            let p = payout_sum_capped(&e.payout_history);
            let f = refund_sum_capped(&e.refund_history);
            locked = add_capped(locked, e.remaining_amount);
            released = add_capped(released, p);
            refunded = add_capped(refunded, f);
            i = i + 1;
        }
        proof {
            assert(s.take(i as int) =~= s);
        }
        EscrowStats {
            total_bounties: self.escrows.len() as u64,
            total_locked_amount: locked,
            total_released_amount: released,
            total_refunded_amount: refunded,
        }
    }
}

proof fn lemma_sums_nonneg(s: Seq<crate::contract::EscrowEntry>)
    requires
        forall|i: int| 0 <= i < s.len() ==> (#[trigger] s[i]).escrow.wf(),
    ensures
        remaining_sum(s) >= 0,
        released_sum(s) >= 0,
        refunded_sum(s) >= 0,
    decreases s.len(),
{
    if s.len() > 0 {
        let t = s.drop_last();
        assert forall|i: int| 0 <= i < t.len() implies (#[trigger] t[i]).escrow.wf() by {
            assert(t[i] == s[i]);
        }
        lemma_sums_nonneg(t);
        assert(s[s.len() - 1].escrow.wf());
        lemma_payout_total_pos(s.last().escrow.payout_history@);
        lemma_refund_total_pos(s.last().escrow.refund_history@);
    }
}

} // verus!
