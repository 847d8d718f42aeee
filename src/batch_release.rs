use vstd::prelude::*;
use crate::contract::BountyEscrowContract;
use crate::release::is_release_of;
use crate::types::{Address, Error, EscrowStatus, MAX_BATCH_SIZE, ReleaseFundsItem, Transfer};

verus! {

/// Whether another item of `items` has the bounty id of item `k`.
pub open spec fn release_dup_at(items: Seq<ReleaseFundsItem>, k: int) -> bool {
    exists|j: int| 0 <= j < items.len() && j != k && #[trigger] items[j].bounty_id == items[k].bounty_id
}

impl BountyEscrowContract {
    /// The checks a batch release makes on one item: the escrow exists, is
    /// untouched, and its whole remaining amount, net of fee, is a valid payout.
    pub open spec fn batch_release_item_error(&self, it: ReleaseFundsItem) -> Option<Error> {
        let e = self.escrow_of(it.bounty_id);
        let net = e.remaining_amount - self.release_fee(e.remaining_amount as int);
        if !self.has_bounty(it.bounty_id) {
            Some(Error::BountyNotFound)
        } else if e.status != EscrowStatus::Locked {
            Some(Error::FundsNotLocked)
        } else if net < self.amount_limits.min_payout || net > self.amount_limits.max_payout {
            Some(Error::InvalidAmount)
        } else {
            None
        }
    }

    /// The error of the first item from position `k` on that fails its checks.
    pub open spec fn first_release_item_error(&self, items: Seq<ReleaseFundsItem>, k: int) -> Option<Error>
        decreases items.len() - k,
    {
        if k < 0 || k >= items.len() {
            None
        } else {
            match self.batch_release_item_error(items[k]) {
                Some(e) => Some(e),
                None => if release_dup_at(items, k) {
                    Some(Error::DuplicateBountyId)
                } else {
                    self.first_release_item_error(items, k + 1)
                },
            }
        }
    }

    /// Why a batch release is refused, if it is; checks are made in this order.
    pub open spec fn batch_release_error(&self, caller: Address, items: Seq<ReleaseFundsItem>) -> Option<Error> {
        if self.guard.locked() {
            Some(Error::ReentrantCall)
        } else if items.len() == 0 || items.len() > MAX_BATCH_SIZE {
            Some(Error::InvalidBatchSize)
        } else if self.paused {
            Some(Error::ContractPaused)
        } else if !self.initialized() {
            Some(Error::NotInitialized)
        } else if !self.is_admin(caller) {
            Some(Error::Unauthorized)
        } else {
            self.first_release_item_error(items, 0)
        }
    }

    /// The amounts released from asset `a` by the first `k` items.
    pub open spec fn release_sum(&self, items: Seq<ReleaseFundsItem>, k: int, a: Address) -> int
        decreases k,
    {
        if k <= 0 {
            0
        } else {
            let e = self.escrow_of(items[k - 1].bounty_id);
            self.release_sum(items, k - 1, a) + if e.token_address == a {
                e.remaining_amount as int
            } else {
                0
            }
        }
    }

    /// The transfers of the first `k` items' releases, in order.
    pub open spec fn batch_release_transfers(&self, items: Seq<ReleaseFundsItem>, k: int) -> Seq<Transfer>
        decreases k,
    {
        if k <= 0 {
            Seq::empty()
        } else {
            let e = self.escrow_of(items[k - 1].bounty_id);
            self.batch_release_transfers(items, k - 1) + self.release_transfers(
                items[k - 1].contributor,
                e.remaining_amount as int,
                e.token_address,
            )
        }
    }

    fn has_release_dup(items: &Vec<ReleaseFundsItem>, k: usize) -> (r: bool)
        requires
            k < items@.len(),
        ensures
            r == release_dup_at(items@, k as int),
    {
        let id = items[k].bounty_id;
        let mut j: usize = 0;
        while j < items.len()
            invariant
                k < items@.len(),
                id == items@[k as int].bounty_id,
                j <= items@.len(),
                forall|x: int| 0 <= x < j && x != k ==> items@[x].bounty_id != id,
            decreases items@.len() - j,
        {
            if j != k && items[j].bounty_id == id {
                proof {
                    assert(items@[j as int].bounty_id == items@[k as int].bounty_id);
                }
                return true;
            }
            j = j + 1;
        }
        false
    }

    fn check_batch_release_item(&self, it: ReleaseFundsItem) -> (r: Option<Error>)
        requires
            self.wf(),
        ensures
            r == self.batch_release_item_error(it),
    {
        let i = match self.find_escrow(it.bounty_id) {
            None => return Some(Error::BountyNotFound),
            Some(i) => i,
        };
        if self.escrows[i].escrow.status != EscrowStatus::Locked {
            return Some(Error::FundsNotLocked);
        }
        let rem = self.escrows[i].escrow.remaining_amount;
        proof {
            assert(self.escrows@[i as int].escrow.wf());
            crate::fees::lemma_fee_split(rem as int, self.fee_config.release_fee_rate as int);
        }
        let (net, _fee) = crate::fees::split_fee(rem, self.fee_config.fee_enabled, self.fee_config.release_fee_rate);
        if net < self.amount_limits.min_payout || net > self.amount_limits.max_payout {
            return Some(Error::InvalidAmount);
        }
        None
    }

    /// Releases in full every escrow named in `items` to its contributor, or
    /// none: all items are checked (and for repeated bounty ids) before any
    /// payout, and the first failure is returned with nothing changed. Only the
    /// administrator may do so. Returns the transfers of all the payouts.
    pub fn batch_release_funds(&mut self, caller: Address, items: Vec<ReleaseFundsItem>, now: u64) -> (r: Result<
        Vec<Transfer>,
        Error,
    >)
        requires
            old(self).wf(),
        ensures
            final(self).wf(),
            match old(self).batch_release_error(caller, items@) {
                Some(e) => r == Err::<Vec<Transfer>, Error>(e) && *final(self) == *old(self),
                None => {
                    let n = items@.len() as int;
                    &&& r is Ok
                    &&& r->Ok_0@ == old(self).batch_release_transfers(items@, n)
                    &&& final(self).same_settings(old(self))
                    &&& final(self).approvals == old(self).approvals
                    &&& final(self).escrows@.len() == old(self).escrows@.len()
                    &&& forall|p: int| 0 <= p < final(self).escrows@.len() ==> (#[trigger] final(self).escrows@[p]).bounty_id
                        == old(self).escrows@[p].bounty_id
                    &&& forall|p: int| 0 <= p < final(self).escrows@.len() && (forall|j: int| 0 <= j < n ==> p != old(self).slot(
                        #[trigger] items@[j].bounty_id)) ==> #[trigger] final(self).escrows@[p] == old(self).escrows@[p]
                    &&& forall|j: int| 0 <= j < n ==> {
                        let id = (#[trigger] items@[j]).bounty_id;
                        let e = old(self).escrow_of(id);
                        &&& is_release_of(e, final(self).escrows@[old(self).slot(id)].escrow, e.remaining_amount as int,
                            items@[j].contributor, now)
                        &&& final(self).escrows@[old(self).slot(id)].escrow.status == EscrowStatus::Released
                    }
                    &&& forall|a: Address| #[trigger] final(self).held.balance_spec(a) == old(self).held.balance_spec(a)
                        - old(self).release_sum(items@, n, a)
                },
            },
    {
        if self.guard.is_locked() {
            return Err(Error::ReentrantCall);
        }
        if items.len() == 0 || items.len() > MAX_BATCH_SIZE as usize {
            return Err(Error::InvalidBatchSize);
        }
        if self.paused {
            return Err(Error::ContractPaused);
        }
        let admin = match self.admin {
            None => return Err(Error::NotInitialized),
            Some(a) => a,
        };
        if caller != admin {
            return Err(Error::Unauthorized);
        }
        let n = items.len();
        // Phase one: check every item without changing anything.
        let mut k: usize = 0;
        while k < n
            invariant
                self.wf(),
                *self == *old(self),
                !self.guard.locked(),
                !self.paused,
                self.is_admin(caller),
                0 < n <= MAX_BATCH_SIZE,
                n == items@.len(),
                self.first_release_item_error(items@, 0) == self.first_release_item_error(items@, k as int),
                k <= n,
                forall|j: int| 0 <= j < k ==> self.batch_release_item_error(#[trigger] items@[j]) is None
                    && !release_dup_at(items@, j),
            decreases n - k,
        {
            proof {
                assert(self.first_release_item_error(items@, k as int) == match self.batch_release_item_error(items@[k as int]) {
                    Some(e) => Some(e),
                    None => if release_dup_at(items@, k as int) {
                        Some(Error::DuplicateBountyId)
                    } else {
                        self.first_release_item_error(items@, k as int + 1)
                    },
                });
            }
            match self.check_batch_release_item(items[k]) {
                Some(e) => return Err(e),
                None => {},
            }
            if Self::has_release_dup(&items, k) {
                return Err(Error::DuplicateBountyId);
            }
            k = k + 1;
        }
        // Phase two: every check passed; pay out each escrow in order.
        let ghost o = *self;
        proof {
            assert(self.first_release_item_error(items@, n as int) is None);
        }
        let mut out: Vec<Transfer> = Vec::new();
        let mut k: usize = 0;
        while k < n
            invariant
                self.wf(),
                o.wf(),
                o == *old(self),
                n == items@.len(),
                k <= n,
                forall|j: int| 0 <= j < n ==> o.batch_release_item_error(#[trigger] items@[j]) is None
                    && !release_dup_at(items@, j),
                self.same_settings(&o),
                self.approvals == o.approvals,
                self.escrows@.len() == o.escrows@.len(),
                forall|p: int| 0 <= p < self.escrows@.len() ==> (#[trigger] self.escrows@[p]).bounty_id
                    == o.escrows@[p].bounty_id,
                forall|p: int| 0 <= p < self.escrows@.len() && (forall|j: int| 0 <= j < k ==> p != o.slot(
                    #[trigger] items@[j].bounty_id)) ==> #[trigger] self.escrows@[p] == o.escrows@[p],
                forall|j: int| 0 <= j < k ==> {
                    let id = (#[trigger] items@[j]).bounty_id;
                    let e = o.escrow_of(id);
                    &&& is_release_of(e, self.escrows@[o.slot(id)].escrow, e.remaining_amount as int,
                        items@[j].contributor, now)
                    &&& self.escrows@[o.slot(id)].escrow.status == EscrowStatus::Released
                },
                forall|a: Address| #[trigger] self.held.balance_spec(a) == o.held.balance_spec(a) - o.release_sum(items@, k as int, a),
                out@ == o.batch_release_transfers(items@, k as int),
            decreases n - k,
        {
            let it = items[k];
            let ghost sk = o.slot(it.bounty_id);
            proof {
                assert(o.batch_release_item_error(items@[k as int]) is None);
                assert(!release_dup_at(items@, k as int));
                assert forall|j: int| 0 <= j < k implies sk != o.slot(#[trigger] items@[j].bounty_id) by {
                    assert(items@[j].bounty_id != it.bounty_id);
                    let sj = o.slot(items@[j].bounty_id);
                    assert(o.has_bounty(items@[j].bounty_id)) by {
                        assert(o.batch_release_item_error(items@[j]) is None);
                    }
                }
                assert(self.escrows@[sk] == o.escrows@[sk]);
            }
            let i = match self.find_escrow(it.bounty_id) {
                Some(i) => i,
                None => {
                    proof {
                        assert(self.escrows@[sk].bounty_id == it.bounty_id);
                    }
                    return Err(Error::BountyNotFound);
                },
            };
            proof {
                assert(o.escrows@[i as int].bounty_id == it.bounty_id);
                assert(i == sk);
                assert(self.escrows@[i as int].escrow.wf());
            }
            let rem = self.escrows[i].escrow.remaining_amount;
            let ghost before = *self;
            let mut tr = self.release_one(i, it.contributor, rem, now);
            out.append(&mut tr);
            proof {
                assert forall|p: int| 0 <= p < self.escrows@.len() && (forall|j: int| 0 <= j < k + 1 ==> p != o.slot(
                    #[trigger] items@[j].bounty_id)) implies #[trigger] self.escrows@[p] == o.escrows@[p] by {
                    assert(p != o.slot(items@[k as int].bounty_id));
                    assert(self.escrows@[p] == before.escrows@[p]);
                    assert(forall|j: int| 0 <= j < k ==> p != o.slot(#[trigger] items@[j].bounty_id));
                }
                assert forall|j: int| 0 <= j < k + 1 implies {
                    let id = (#[trigger] items@[j]).bounty_id;
                    let e = o.escrow_of(id);
                    &&& is_release_of(e, self.escrows@[o.slot(id)].escrow, e.remaining_amount as int,
                        items@[j].contributor, now)
                    &&& self.escrows@[o.slot(id)].escrow.status == EscrowStatus::Released
                } by {
                    if j < k {
                        assert(items@[j].bounty_id != it.bounty_id);
                        assert(o.has_bounty(items@[j].bounty_id)) by {
                            assert(o.batch_release_item_error(items@[j]) is None);
                        }
                        assert(self.escrows@[o.slot(items@[j].bounty_id)] == before.escrows@[o.slot(items@[j].bounty_id)]);
                    }
                }
                assert(out@ =~= o.batch_release_transfers(items@, k as int + 1));
            }
            k = k + 1;
        }
        Ok(out)
    }
}

} // verus!
