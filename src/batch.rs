use vstd::prelude::*;
use crate::contract::BountyEscrowContract;
use crate::fees::{split_fee, lemma_fee_leaves_net};
use crate::lifecycle::is_fresh_lock;
use crate::types::{Address, Error, LockFundsItem, MAX_BATCH_SIZE, Transfer};

verus! {

/// Whether another item of `items` has the bounty id of item `k`.
pub open spec fn lock_dup_at(items: Seq<LockFundsItem>, k: int) -> bool {
    exists|j: int| 0 <= j < items.len() && j != k && #[trigger] items[j].bounty_id == items[k].bounty_id
}

impl BountyEscrowContract {
    /// The amount a lock of `amount` puts into custody.
    pub open spec fn lock_net(&self, amount: i128) -> int {
        amount - self.lock_fee(amount as int)
    }

    /// The net amounts of the first `k` items.
    pub open spec fn net_sum(&self, items: Seq<LockFundsItem>, k: int) -> int
        decreases k,
    {
        if k <= 0 {
            0
        } else {
            self.net_sum(items, k - 1) + self.lock_net(items[k - 1].amount)
        }
    }

    /// The net amounts of the first `k` items that go to asset `a`.
    pub open spec fn credit_sum(&self, items: Seq<LockFundsItem>, k: int, a: Address) -> int
        decreases k,
    {
        if k <= 0 {
            0
        } else {
            self.credit_sum(items, k - 1, a) + if self.lock_token(items[k - 1].token_address) == a {
                self.lock_net(items[k - 1].amount)
            } else {
                0
            }
        }
    }

    /// The transfers of the locks of the first `k` items, in order.
    pub open spec fn batch_lock_transfers(&self, items: Seq<LockFundsItem>, k: int) -> Seq<Transfer>
        decreases k,
    {
        if k <= 0 {
            Seq::empty()
        } else {
            self.batch_lock_transfers(items, k - 1) + self.lock_transfers(
                items[k - 1].depositor,
                items[k - 1].amount as int,
                self.lock_token(items[k - 1].token_address),
            )
        }
    }

    /// The checks a batch makes on one item against the current state.
    pub open spec fn batch_item_error(&self, it: LockFundsItem, now: u64) -> Option<Error> {
        if it.amount <= 0 || it.amount < self.amount_limits.min_lock_amount || it.amount
            > self.amount_limits.max_lock_amount {
            Some(Error::InvalidAmount)
        } else if it.deadline <= now {
            Some(Error::InvalidDeadline)
        } else if self.has_bounty(it.bounty_id) {
            Some(Error::BountyExists)
        } else if it.token_address is Some && !self.token_registered(self.lock_token(it.token_address)) {
            Some(Error::TokenNotWhitelisted)
        } else {
            None
        }
    }

    /// The error of the first item from position `k` on that fails its checks.
    pub open spec fn first_lock_item_error(&self, items: Seq<LockFundsItem>, k: int, now: u64) -> Option<Error>
        decreases items.len() - k,
    {
        if k < 0 || k >= items.len() {
            None
        } else {
            match self.batch_item_error(items[k], now) {
                Some(e) => Some(e),
                None => if lock_dup_at(items, k) {
                    Some(Error::DuplicateBountyId)
                } else {
                    self.first_lock_item_error(items, k + 1, now)
                },
            }
        }
    }

    /// Why a batch lock is refused, if it is; checks are made in this order.
    pub open spec fn batch_lock_error(&self, items: Seq<LockFundsItem>, now: u64) -> Option<Error> {
        if self.guard.locked() {
            Some(Error::ReentrantCall)
        } else {
            self.batch_lock_checks(items, now)
        }
    }

    /// The checks of a batch lock past the reentrancy guard.
    pub open spec fn batch_lock_checks(&self, items: Seq<LockFundsItem>, now: u64) -> Option<Error> {
        if items.len() == 0 || items.len() > MAX_BATCH_SIZE {
            Some(Error::InvalidBatchSize)
        } else if self.paused {
            Some(Error::ContractPaused)
        } else if !self.initialized() {
            Some(Error::NotInitialized)
        } else if self.first_lock_item_error(items, 0, now) is Some {
            self.first_lock_item_error(items, 0, now)
        } else if self.held.total_spec() + self.net_sum(items, items.len() as int) > i128::MAX {
            Some(Error::InvalidAmount)
        } else {
            None
        }
    }

    proof fn lemma_net_sum_nonneg(&self, items: Seq<LockFundsItem>, k: int)
        requires
            0 <= k <= items.len(),
            0 <= self.fee_config.lock_fee_rate <= 1000,
            forall|j: int| 0 <= j < items.len() ==> (#[trigger] items[j]).amount > 0,
        ensures
            0 <= self.net_sum(items, k),
        decreases k,
    {
        if k > 0 {
            self.lemma_net_sum_nonneg(items, k - 1);
            lemma_fee_leaves_net(items[k - 1].amount as int, self.fee_config.lock_fee_rate as int);
        }
    }

    proof fn lemma_net_sum_grows(&self, items: Seq<LockFundsItem>, k: int, m: int)
        requires
            0 <= k <= m <= items.len(),
            0 <= self.fee_config.lock_fee_rate <= 1000,
            forall|j: int| 0 <= j < items.len() ==> (#[trigger] items[j]).amount > 0,
        ensures
            0 <= self.net_sum(items, k) <= self.net_sum(items, m),
        decreases m - k,
    {
        if k < m {
            self.lemma_net_sum_grows(items, k, m - 1);
            lemma_fee_leaves_net(items[m - 1].amount as int, self.fee_config.lock_fee_rate as int);
        } else {
            self.lemma_net_sum_nonneg(items, k);
        }
    }

    /// Whether another item of `items` has the bounty id of item `k`.
    fn has_lock_dup(items: &Vec<LockFundsItem>, k: usize) -> (r: bool)
        requires
            k < items@.len(),
        ensures
            r == lock_dup_at(items@, k as int),
    {
        let id = items[k].bounty_id;
        let mut j: usize = 0;
        while j < items.len()
            invariant
                k < items@.len(),
                id == items@[k as int].bounty_id,
                j <= items@.len(),
                forall|x: int| 0 <= x < j && x != k ==> items@[x].bounty_id != id,
            decreases items@.len() - j,
        {
            if j != k && items[j].bounty_id == id {
                proof {
                    assert(items@[j as int].bounty_id == items@[k as int].bounty_id);
                }
                return true;
            }
            j = j + 1;
        }
        false
    }

    fn check_batch_item(&self, it: LockFundsItem, now: u64) -> (r: Option<Error>)
        requires
            self.wf(),
        ensures
            r == self.batch_item_error(it, now),
    {
        if it.amount <= 0 || it.amount < self.amount_limits.min_lock_amount || it.amount > self.amount_limits.max_lock_amount {
            return Some(Error::InvalidAmount);
        }
        if it.deadline <= now {
            return Some(Error::InvalidDeadline);
        }
        if self.find_escrow(it.bounty_id).is_some() {
            return Some(Error::BountyExists);
        }
        match it.token_address {
            Some(t) => {
                if !self.is_token_registered(t) {
                    return Some(Error::TokenNotWhitelisted);
                }
            },
            None => {},
        }
        None
    }

    /// Locks every item of `items`, or none: all items are checked against
    /// the current state (and for repeated bounty ids) before any escrow is
    /// created, and the first failure is returned with nothing changed.
    /// Returns the transfers of all the locks, in order.
    pub fn batch_lock_funds(&mut self, items: Vec<LockFundsItem>, now: u64) -> (r: Result<Vec<Transfer>, Error>)
        requires
            old(self).wf(),
        ensures
            final(self).wf(),
            match old(self).batch_lock_error(items@, now) {
                Some(e) => r == Err::<Vec<Transfer>, Error>(e) && *final(self) == *old(self),
                None => {
                    let n0 = old(self).escrows@.len();
                    &&& r is Ok
                    &&& r->Ok_0@ == old(self).batch_lock_transfers(items@, items@.len() as int)
                    &&& final(self).same_settings(old(self))
                    &&& final(self).approvals == old(self).approvals
                    &&& final(self).escrows@.len() == n0 + items@.len()
                    &&& final(self).escrows@.take(n0 as int) == old(self).escrows@
                    &&& forall|p: int| n0 <= p < final(self).escrows@.len() ==> {
                        let it = items@[p - n0];
                        &&& (#[trigger] final(self).escrows@[p]).bounty_id == it.bounty_id
                        &&& is_fresh_lock(final(self).escrows@[p].escrow, it.depositor, old(self).lock_net(it.amount),
                            it.deadline, old(self).lock_token(it.token_address))
                    }
                    &&& forall|a: Address| #[trigger] final(self).held.balance_spec(a) == old(self).held.balance_spec(a)
                        + old(self).credit_sum(items@, items@.len() as int, a)
                    &&& final(self).held.total_spec() == old(self).held.total_spec() + old(self).net_sum(
                        items@,
                        items@.len() as int,
                    )
                },
            },
    {
        if self.guard.is_locked() {
            return Err(Error::ReentrantCall);
        }
        self.batch_lock_checked(&items, now)
    }

    fn batch_lock_checked(&mut self, items: &Vec<LockFundsItem>, now: u64) -> (r: Result<Vec<Transfer>, Error>)
        requires
            old(self).wf(),
        ensures
            final(self).wf(),
            match old(self).batch_lock_checks(items@, now) {
                Some(e) => r == Err::<Vec<Transfer>, Error>(e) && *final(self) == *old(self),
                None => {
                    let n0 = old(self).escrows@.len();
                    &&& r is Ok
                    &&& r->Ok_0@ == old(self).batch_lock_transfers(items@, items@.len() as int)
                    &&& final(self).same_settings(old(self))
                    &&& final(self).approvals == old(self).approvals
                    &&& final(self).escrows@.len() == n0 + items@.len()
                    &&& final(self).escrows@.take(n0 as int) == old(self).escrows@
                    &&& forall|p: int| n0 <= p < final(self).escrows@.len() ==> {
                        let it = items@[p - n0];
                        &&& (#[trigger] final(self).escrows@[p]).bounty_id == it.bounty_id
                        &&& is_fresh_lock(final(self).escrows@[p].escrow, it.depositor, old(self).lock_net(it.amount),
                            it.deadline, old(self).lock_token(it.token_address))
                    }
                    &&& forall|a: Address| #[trigger] final(self).held.balance_spec(a) == old(self).held.balance_spec(a)
                        + old(self).credit_sum(items@, items@.len() as int, a)
                    &&& final(self).held.total_spec() == old(self).held.total_spec() + old(self).net_sum(
                        items@,
                        items@.len() as int,
                    )
                },
            },
    {
        if items.len() == 0 || items.len() > MAX_BATCH_SIZE as usize {
            return Err(Error::InvalidBatchSize);
        }
        if self.paused {
            return Err(Error::ContractPaused);
        }
        if self.admin.is_none() {
            return Err(Error::NotInitialized);
        }
        let n = items.len();
        // Phase one: check every item without changing anything.
        let mut k: usize = 0;
        while k < n
            invariant
                self.wf(),
                *self == *old(self),
                !self.paused,
                self.initialized(),
                n == items@.len(),
                0 < n <= MAX_BATCH_SIZE,
                k <= n,
                self.first_lock_item_error(items@, 0, now) == self.first_lock_item_error(items@, k as int, now),
                forall|j: int| 0 <= j < k ==> self.batch_item_error(#[trigger] items@[j], now) is None && !lock_dup_at(items@, j),
            decreases n - k,
        {
            proof {
                assert(self.first_lock_item_error(items@, k as int, now) == match self.batch_item_error(items@[k as int], now) {
                    Some(e) => Some(e),
                    None => if lock_dup_at(items@, k as int) {
                        Some(Error::DuplicateBountyId)
                    } else {
                        self.first_lock_item_error(items@, k as int + 1, now)
                    },
                });
            }
            match self.check_batch_item(items[k], now) {
                Some(e) => return Err(e),
                None => {},
            }
            if Self::has_lock_dup(items, k) {
                return Err(Error::DuplicateBountyId);
            }
            k = k + 1;
        }
        proof {
            assert(self.first_lock_item_error(items@, n as int, now) is None);
            assert forall|j: int| 0 <= j < items@.len() implies (#[trigger] items@[j]).amount > 0 by {
                assert(self.batch_item_error(items@[j], now) is None);
            }
        }
        // Phase one, continued: the holdings must stay within range.
        let total = self.held.total();
        let mut acc: i128 = total;
        let mut k: usize = 0;
        proof {
            self.held.lemma_bounds(0);
        }
        while k < n
            invariant
                self.wf(),
                *self == *old(self),
                !self.paused,
                self.initialized(),
                self.first_lock_item_error(items@, 0, now) is None,
                n == items@.len(),
                0 < n <= MAX_BATCH_SIZE,
                k <= n,
                total == self.held.total_spec(),
                acc == total + self.net_sum(items@, k as int),
                acc <= i128::MAX,
                forall|j: int| 0 <= j < items@.len() ==> (#[trigger] items@[j]).amount > 0,
            decreases n - k,
        {
            proof {
                lemma_fee_leaves_net(items@[k as int].amount as int, self.fee_config.lock_fee_rate as int);
                self.lemma_net_sum_grows(items@, k as int, k as int);
            }
            let (net, _fee) = split_fee(items[k].amount, self.fee_config.fee_enabled, self.fee_config.lock_fee_rate);
            proof {
                assert(self.net_sum(items@, k as int + 1) == self.net_sum(items@, k as int) + self.lock_net(items@[k as int].amount));
            }
            if acc > i128::MAX - net {
                proof {
                    self.lemma_net_sum_grows(items@, k as int + 1, n as int);
                }
                return Err(Error::InvalidAmount);
            }
            acc = acc + net;
            k = k + 1;
        }
        // Phase two: every check passed; create the escrows in order.
        let ghost old_self = *self;
        proof {
            assert(old_self == *old(self));
        }
        let ghost n0 = self.escrows@.len();
        let mut out: Vec<Transfer> = Vec::new();
        let mut k: usize = 0;
        while k < n
            invariant
                self.wf(),
                n == items@.len(),
                k <= n,
                n0 == old_self.escrows@.len(),
                old_self.wf(),
                old_self.held.total_spec() + old_self.net_sum(items@, n as int) <= i128::MAX,
                forall|j: int| 0 <= j < items@.len() ==> old_self.batch_item_error(#[trigger] items@[j], now) is None
                    && !lock_dup_at(items@, j),
                forall|j: int| 0 <= j < items@.len() ==> (#[trigger] items@[j]).amount > 0,
                self.same_settings(&old_self),
                self.approvals == old_self.approvals,
                self.escrows@.len() == n0 + k,
                self.escrows@.take(n0 as int) == old_self.escrows@,
                forall|p: int| n0 <= p < self.escrows@.len() ==> {
                    let it = items@[p - n0];
                    &&& (#[trigger] self.escrows@[p]).bounty_id == it.bounty_id
                    &&& is_fresh_lock(self.escrows@[p].escrow, it.depositor, old_self.lock_net(it.amount),
                        it.deadline, old_self.lock_token(it.token_address))
                },
                self.held.total_spec() == old_self.held.total_spec() + old_self.net_sum(items@, k as int),
                forall|a: Address| #[trigger] self.held.balance_spec(a) == old_self.held.balance_spec(a)
                    + old_self.credit_sum(items@, k as int, a),
                out@ == old_self.batch_lock_transfers(items@, k as int),
            decreases n - k,
        {
            let it = items[k];
            let t: Address = match it.token_address {
                Some(t) => t,
                None => self.default_token,
            };
            proof {
                assert(old_self.batch_item_error(items@[k as int], now) is None);
                old_self.lemma_net_sum_grows(items@, k as int + 1, n as int);
                if self.has_bounty(it.bounty_id) {
                    let p = choose|p: int| 0 <= p < self.escrows@.len() && #[trigger] self.escrows@[p].bounty_id == it.bounty_id;
                    if p < n0 {
                        assert(self.escrows@.take(n0 as int)[p] == self.escrows@[p]);
                        assert(old_self.escrows@[p].bounty_id == it.bounty_id);
                        assert(old_self.has_bounty(it.bounty_id));
                    } else {
                        let j = p - n0;
                        assert(self.escrows@[p].bounty_id == items@[j].bounty_id);
                        assert(j != k);
                        assert(!lock_dup_at(items@, k as int));
                        assert(items@[j].bounty_id == items@[k as int].bounty_id);
                    }
                    assert(false);
                }
            }
            let ghost before = *self;
            let tr = self.lock_one(it.depositor, it.bounty_id, it.amount, it.deadline, t);
            let mut tr = tr;
            out.append(&mut tr);
            proof {
                assert(self.escrows@.take(n0 as int) =~= old_self.escrows@) by {
                    assert(self.escrows@.drop_last() == before.escrows@);
                    assert forall|p: int| 0 <= p < n0 implies self.escrows@.take(n0 as int)[p] == old_self.escrows@[p] by {
                        assert(before.escrows@.take(n0 as int)[p] == old_self.escrows@[p]);
                        assert(self.escrows@.drop_last()[p] == self.escrows@[p]);
                    }
                }
                assert forall|p: int| n0 <= p < self.escrows@.len() implies {
                    let it2 = items@[p - n0];
                    &&& (#[trigger] self.escrows@[p]).bounty_id == it2.bounty_id
                    &&& is_fresh_lock(self.escrows@[p].escrow, it2.depositor, old_self.lock_net(it2.amount),
                        it2.deadline, old_self.lock_token(it2.token_address))
                } by {
                    if p < self.escrows@.len() - 1 {
                        assert(self.escrows@.drop_last()[p] == self.escrows@[p]);
                        assert(before.escrows@[p] == self.escrows@[p]);
                    }
                }
                assert(out@ =~= old_self.batch_lock_transfers(items@, k as int + 1));
            }
            k = k + 1;
        }
        Ok(out)
    }
}

} // verus!
