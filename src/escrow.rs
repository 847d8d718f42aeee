use vstd::prelude::*;
use crate::ledger::AssetLedger;
use crate::types::{Address, EscrowStatus, PayoutRecord, RefundRecord};

verus! {

/// The sum of the amounts of a refund history.
pub open spec fn refund_total(s: Seq<RefundRecord>) -> int
    decreases s.len(),
{
    if s.len() == 0 {
        0
    } else {
        refund_total(s.drop_last()) + s.last().amount
    }
}

/// The sum of the amounts of a payout history.
pub open spec fn payout_total(s: Seq<PayoutRecord>) -> int
    decreases s.len(),
{
    if s.len() == 0 {
        0
    } else {
        payout_total(s.drop_last()) + s.last().amount
    }
}

/// The edges of the status graph: `Locked` leads anywhere, a partial status
/// leads to itself or to its terminal status, and terminal statuses lead nowhere.
pub open spec fn valid_transition(from: EscrowStatus, to: EscrowStatus) -> bool {
    match from {
        EscrowStatus::Locked => to != EscrowStatus::Locked,
        EscrowStatus::PartiallyReleased => to == EscrowStatus::PartiallyReleased || to
            == EscrowStatus::Released,
        EscrowStatus::PartiallyRefunded => to == EscrowStatus::PartiallyRefunded || to
            == EscrowStatus::Refunded,
        EscrowStatus::Released => false,
        EscrowStatus::Refunded => false,
    }
}

/// Whether a status admits no further transition.
pub open spec fn is_terminal(s: EscrowStatus) -> bool {
    s == EscrowStatus::Released || s == EscrowStatus::Refunded
}

/// The custody record of one bounty.
///
/// `amount` is the net amount locked; `remaining_amount` is what is still
/// held for the bounty. Payouts record the gross amount taken from the
/// escrow (fee included).
///
/// The histories are std `Vec`s because the host's `Vec` can only be built
/// inside a running host environment; the host binding converts them.
pub struct Escrow {
    pub depositor: Address,
    pub amount: i128,
    pub status: EscrowStatus,
    pub deadline: u64,
    pub token_address: Address,
    pub refund_history: Vec<RefundRecord>,
    pub payout_history: Vec<PayoutRecord>,
    pub remaining_amount: i128,
    pub token_balances: AssetLedger,
}

impl Escrow {
    /// The invariant of an escrow record.
    pub open spec fn wf(&self) -> bool {
        &&& self.token_balances.wf()
        &&& self.token_balances.total_spec() == self.remaining_amount
        &&& self.token_balances.balance_spec(self.token_address) == self.remaining_amount
        &&& 0 <= self.remaining_amount <= self.amount
        &&& forall|k: int| 0 <= k < self.refund_history@.len() ==> #[trigger] self.refund_history@[k].amount > 0
        &&& forall|k: int| 0 <= k < self.payout_history@.len() ==> #[trigger] self.payout_history@[k].amount > 0
        &&& refund_total(self.refund_history@) + payout_total(self.payout_history@) + self.remaining_amount
            == self.amount
        &&& match self.status {
            EscrowStatus::Locked => self.refund_history@.len() == 0 && self.payout_history@.len() == 0
                && self.remaining_amount > 0,
            EscrowStatus::PartiallyReleased => self.refund_history@.len() == 0 && self.remaining_amount
                > 0,
            EscrowStatus::Released => self.refund_history@.len() == 0 && self.remaining_amount == 0,
            EscrowStatus::PartiallyRefunded => self.payout_history@.len() == 0 && self.remaining_amount
                > 0,
            EscrowStatus::Refunded => self.payout_history@.len() == 0 && self.remaining_amount == 0,
        }
    }

    /// Whether `other` holds the same record as `self`.
    pub open spec fn same_record(&self, other: Escrow) -> bool {
        &&& other.depositor == self.depositor
        &&& other.amount == self.amount
        &&& other.status == self.status
        &&& other.deadline == self.deadline
        &&& other.token_address == self.token_address
        &&& other.refund_history@ == self.refund_history@
        &&& other.payout_history@ == self.payout_history@
        &&& other.remaining_amount == self.remaining_amount
        &&& other.token_balances.entries@ == self.token_balances.entries@
    }

    /// A copy of this record.
    pub fn duplicate(&self) -> (r: Escrow)
        ensures
            self.same_record(r),
    {
        Escrow {
            depositor: self.depositor,
            amount: self.amount,
            status: self.status,
            deadline: self.deadline,
            token_address: self.token_address,
            refund_history: copy_refunds(&self.refund_history),
            payout_history: copy_payouts(&self.payout_history),
            remaining_amount: self.remaining_amount,
            token_balances: AssetLedger { entries: self.token_balances.entries.clone() },
        }
    }
}

/// A copy of a refund history.
pub fn copy_refunds(v: &Vec<RefundRecord>) -> (r: Vec<RefundRecord>)
    ensures
        r@ == v@,
{
    let mut r: Vec<RefundRecord> = Vec::new();
    let mut i: usize = 0;
    while i < v.len()
        invariant
            i <= v@.len(),
            r@ == v@.take(i as int),
        decreases v@.len() - i,
    {
        r.push(v[i]);
        i = i + 1;
        proof {
            assert(r@ =~= v@.take(i as int));
        }
    }
    proof {
        assert(v@.take(i as int) =~= v@);
    }
    r
}

/// A copy of a payout history.
pub fn copy_payouts(v: &Vec<PayoutRecord>) -> (r: Vec<PayoutRecord>)
    ensures
        r@ == v@,
{
    let mut r: Vec<PayoutRecord> = Vec::new();
    let mut i: usize = 0;
    while i < v.len()
        invariant
            i <= v@.len(),
            r@ == v@.take(i as int),
        decreases v@.len() - i,
    {
        r.push(v[i]);
        i = i + 1;
        proof {
            assert(r@ =~= v@.take(i as int));
        }
    }
    proof {
        assert(v@.take(i as int) =~= v@);
    }
    r
}

/// Appending a record adds its amount to the refund total.
pub proof fn lemma_refund_total_push(s: Seq<RefundRecord>, x: RefundRecord)
    ensures
        refund_total(s.push(x)) == refund_total(s) + x.amount,
{
    assert(s.push(x).drop_last() =~= s);
}

/// Appending a record adds its amount to the payout total.
pub proof fn lemma_payout_total_push(s: Seq<PayoutRecord>, x: PayoutRecord)
    ensures
        payout_total(s.push(x)) == payout_total(s) + x.amount,
{
    assert(s.push(x).drop_last() =~= s);
}

/// With positive amounts, the refund total is zero exactly when the history is empty,
/// and otherwise positive.
pub proof fn lemma_refund_total_pos(s: Seq<RefundRecord>)
    requires
        forall|k: int| 0 <= k < s.len() ==> #[trigger] s[k].amount > 0,
    ensures
        s.len() == 0 ==> refund_total(s) == 0,
        s.len() > 0 ==> refund_total(s) > 0,
    decreases s.len(),
{
    if s.len() > 0 {
        lemma_refund_total_pos(s.drop_last());
    }
}

/// With positive amounts, the payout total is non-negative.
pub proof fn lemma_payout_total_pos(s: Seq<PayoutRecord>)
    requires
        forall|k: int| 0 <= k < s.len() ==> #[trigger] s[k].amount > 0,
    ensures
        payout_total(s) >= 0,
        s.len() == 0 ==> payout_total(s) == 0,
    decreases s.len(),
{
    if s.len() > 0 {
        lemma_payout_total_pos(s.drop_last());
    }
}

} // verus!

verus! {

proof fn lemma_refund_prefix(s: Seq<RefundRecord>, k: int)
    requires
        0 <= k < s.len(),
        forall|j: int| 0 <= j < s.len() ==> #[trigger] s[j].amount > 0,
    ensures
        refund_total(s.take(k + 1)) == refund_total(s.take(k)) + s[k].amount,
        refund_total(s.take(k + 1)) <= refund_total(s),
    decreases s.len(),
{
    assert(s.take(k + 1).drop_last() =~= s.take(k));
    if k + 1 < s.len() {
        let t = s.drop_last();
        assert forall|j: int| 0 <= j < t.len() implies #[trigger] t[j].amount > 0 by {
            assert(t[j] == s[j]);
        }
        lemma_refund_prefix(t, k);
        assert(t.take(k + 1) =~= s.take(k + 1));
        assert(s.last() == s[s.len() - 1]);
    } else {
        assert(s.take(k + 1) =~= s);
    }
}

proof fn lemma_payout_prefix(s: Seq<PayoutRecord>, k: int)
    requires
        0 <= k < s.len(),
        forall|j: int| 0 <= j < s.len() ==> #[trigger] s[j].amount > 0,
    ensures
        payout_total(s.take(k + 1)) == payout_total(s.take(k)) + s[k].amount,
        payout_total(s.take(k + 1)) <= payout_total(s),
    decreases s.len(),
{
    assert(s.take(k + 1).drop_last() =~= s.take(k));
    if k + 1 < s.len() {
        let t = s.drop_last();
        assert forall|j: int| 0 <= j < t.len() implies #[trigger] t[j].amount > 0 by {
            assert(t[j] == s[j]);
        }
        lemma_payout_prefix(t, k);
        assert(t.take(k + 1) =~= s.take(k + 1));
        assert(s.last() == s[s.len() - 1]);
    } else {
        assert(s.take(k + 1) =~= s);
    }
}

impl Escrow {
    /// Whether the record keeps its invariant.
    #[verifier::loop_isolation(false)]
    pub fn is_wf(&self) -> (r: bool)
        ensures
            r == self.wf(),
    {
        if !self.token_balances.is_wf() {
            return false;
        }
        if self.token_balances.total() != self.remaining_amount {
            return false;
        }
        if self.token_balances.balance_of(self.token_address) != self.remaining_amount {
            return false;
        }
        if self.remaining_amount < 0 || self.remaining_amount > self.amount {
            return false;
        }
        let rh = &self.refund_history;
        let ph = &self.payout_history;
        let mut i: usize = 0;
        while i < rh.len()
            invariant
                i <= rh@.len(),
                forall|k: int| 0 <= k < i ==> #[trigger] rh@[k].amount > 0,
            decreases rh@.len() - i,
        {
            if rh[i].amount <= 0 {
                proof {
                    assert(!(self.refund_history@[i as int].amount > 0));
                }
                return false;
            }
            i = i + 1;
        }
        let mut i: usize = 0;
        while i < ph.len()
            invariant
                i <= ph@.len(),
                forall|k: int| 0 <= k < i ==> #[trigger] ph@[k].amount > 0,
            decreases ph@.len() - i,
        {
            if ph[i].amount <= 0 {
                proof {
                    assert(!(self.payout_history@[i as int].amount > 0));
                }
                return false;
            }
            i = i + 1;
        }
        proof {
            lemma_refund_total_pos(rh@);
            lemma_payout_total_pos(ph@);
            assert(rh@.take(0) =~= Seq::<RefundRecord>::empty());
            assert(ph@.take(0) =~= Seq::<PayoutRecord>::empty());
        }
        // What may still be accounted for by history entries.
        let room: i128 = self.amount - self.remaining_amount;
        let mut racc: i128 = 0;
        let mut i: usize = 0;
        while i < rh.len()
            invariant
                i <= rh@.len(),
                forall|k: int| 0 <= k < rh@.len() ==> #[trigger] rh@[k].amount > 0,
                forall|k: int| 0 <= k < ph@.len() ==> #[trigger] ph@[k].amount > 0,
                racc == refund_total(rh@.take(i as int)),
                0 <= racc <= room,
                room == self.amount - self.remaining_amount,
            decreases rh@.len() - i,
        {
            proof {
                lemma_refund_prefix(rh@, i as int);
            }
            if racc > room - rh[i].amount {
                proof {
                    lemma_payout_total_pos(ph@);
                }
                return false;
            }
            racc = racc + rh[i].amount;
            i = i + 1;
        }
        proof {
            assert(rh@.take(i as int) =~= rh@);
        }
        let mut pacc: i128 = 0;
        let mut i: usize = 0;
        while i < ph.len()
            invariant
                i <= ph@.len(),
                forall|k: int| 0 <= k < ph@.len() ==> #[trigger] ph@[k].amount > 0,
                pacc == payout_total(ph@.take(i as int)),
                0 <= pacc <= room - racc,
                0 <= racc <= room,
                racc == refund_total(rh@),
                room == self.amount - self.remaining_amount,
            decreases ph@.len() - i,
        {
            proof {
                lemma_payout_prefix(ph@, i as int);
            }
            if pacc > room - racc - ph[i].amount {
                return false;
            }
            pacc = pacc + ph[i].amount;
            i = i + 1;
        }
        proof {
            assert(ph@.take(i as int) =~= ph@);
        }
        if racc + pacc != room {
            return false;
        }
        let nr = rh.len();
        let np = ph.len();
        let rem = self.remaining_amount;
        match self.status {
            EscrowStatus::Locked => nr == 0 && np == 0 && rem > 0,
            EscrowStatus::PartiallyReleased => nr == 0 && rem > 0,
            EscrowStatus::Released => nr == 0 && rem == 0,
            EscrowStatus::PartiallyRefunded => np == 0 && rem > 0,
            EscrowStatus::Refunded => np == 0 && rem == 0,
        }
    }
}

} // verus!
