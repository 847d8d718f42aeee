use vstd::prelude::*;
use crate::contract::{BountyEscrowContract, lemma_locked_covers, lemma_locked_update};
use crate::escrow::{Escrow, lemma_payout_total_push};
use crate::fees::{fee_of, split_fee, lemma_fee_split};
use crate::types::{Address, Error, EscrowStatus, PayoutRecord, Transfer};

verus! {

/// `new` is `old` after a payout of `payout` to `recipient` at `now`.
pub open spec fn is_release_of(old: Escrow, new: Escrow, payout: int, recipient: Address, now: u64) -> bool {
    &&& new.depositor == old.depositor
    &&& new.amount == old.amount
    &&& new.deadline == old.deadline
    &&& new.token_address == old.token_address
    &&& new.refund_history@ == old.refund_history@
    &&& new.payout_history@ == old.payout_history@.push(
        PayoutRecord { amount: payout as i128, recipient, timestamp: now },
    )
    &&& new.remaining_amount == old.remaining_amount - payout
    &&& new.status == if new.remaining_amount == 0 {
        EscrowStatus::Released
    } else {
        EscrowStatus::PartiallyReleased
    }
}

/// Whether an escrow in this status can pay out.
pub open spec fn releasable(s: EscrowStatus) -> bool {
    s == EscrowStatus::Locked || s == EscrowStatus::PartiallyReleased
}

impl BountyEscrowContract {
    /// The release-side fee on `amount`.
    pub open spec fn release_fee(&self, amount: int) -> int {
        let rate = self.fee_config.release_fee_rate as int;
        if self.fee_config.fee_enabled && rate > 0 {
            fee_of(amount, rate)
        } else {
            0
        }
    }

    /// The token movements of a payout of `payout` from custody: the net amount
    /// to `recipient`, then the fee to the fee recipient when there is one.
    pub open spec fn release_transfers(&self, recipient: Address, payout: int, token: Address) -> Seq<Transfer> {
        let fee = self.release_fee(payout);
        let out = Transfer { token, from: self.contract, to: recipient, amount: (payout - fee) as i128 };
        if fee > 0 {
            seq![out, Transfer { token, from: self.contract, to: self.fee_config.fee_recipient, amount: fee as i128 }]
        } else {
            seq![out]
        }
    }

    /// The amount a release asks for: the one given, or all that remains.
    pub open spec fn release_amount(&self, bounty_id: u64, amount: Option<i128>) -> int {
        match amount {
            Some(x) => x as int,
            None => self.escrow_of(bounty_id).remaining_amount as int,
        }
    }

    /// Why a release is refused, if it is; checks are made in this order.
    pub open spec fn release_error(
        &self,
        caller: Address,
        bounty_id: u64,
        token: Option<Address>,
        amount: Option<i128>,
    ) -> Option<Error> {
        if self.guard.locked() {
            Some(Error::ReentrantCall)
        } else if !self.initialized() {
            Some(Error::NotInitialized)
        } else if self.paused {
            Some(Error::ContractPaused)
        } else if !self.is_admin(caller) {
            Some(Error::Unauthorized)
        } else {
            self.release_item_error(bounty_id, token, amount)
        }
    }

    /// The checks that a release makes on the escrow and the amount.
    pub open spec fn release_item_error(&self, bounty_id: u64, token: Option<Address>, amount: Option<i128>) -> Option<
        Error,
    > {
        let e = self.escrow_of(bounty_id);
        let payout = self.release_amount(bounty_id, amount);
        let net = payout - self.release_fee(payout);
        if !self.has_bounty(bounty_id) {
            Some(Error::BountyNotFound)
        } else if !releasable(e.status) {
            Some(Error::FundsNotLocked)
        } else if token is Some && token != Some(e.token_address) {
            Some(Error::InvalidAmount)
        } else if payout <= 0 || payout > e.remaining_amount {
            Some(Error::InvalidAmount)
        } else if net < self.amount_limits.min_payout || net > self.amount_limits.max_payout {
            Some(Error::InvalidAmount)
        } else {
            None
        }
    }

    /// Pays `payout` out of the escrow at position `i` to `contributor`.
    pub fn release_one(&mut self, i: usize, contributor: Address, payout: i128, now: u64) -> (r: Vec<
        Transfer,
    >)
        requires
            old(self).wf(),
            i < old(self).escrows@.len(),
            releasable(old(self).escrows@[i as int].escrow.status),
            0 < payout <= old(self).escrows@[i as int].escrow.remaining_amount,
        ensures
            final(self).wf(),
            final(self).same_settings(old(self)),
            final(self).approvals == old(self).approvals,
            r@ == old(self).release_transfers(
                contributor,
                payout as int,
                old(self).escrows@[i as int].escrow.token_address,
            ),
            final(self).escrows@ == old(self).escrows@.update(i as int, final(self).escrows@[i as int]),
            final(self).escrows@[i as int].bounty_id == old(self).escrows@[i as int].bounty_id,
            is_release_of(
                old(self).escrows@[i as int].escrow,
                final(self).escrows@[i as int].escrow,
                payout as int,
                contributor,
                now,
            ),
            forall|a: Address| #[trigger] final(self).held.balance_spec(a) == old(self).held.balance_spec(a)
                - if a == old(self).escrows@[i as int].escrow.token_address {
                payout as int
            } else {
                0
            },
    {
        let ghost s0 = self.escrows@;
        proof {
            assert(s0[i as int].escrow.wf());
            lemma_locked_covers(s0, i as int);
            lemma_fee_split(payout as int, self.fee_config.release_fee_rate as int);
        }
        let mut entry = self.escrows.remove(i);
        let token = entry.escrow.token_address;
        let rec = PayoutRecord { amount: payout, recipient: contributor, timestamp: now };
        proof {
            lemma_payout_total_push(entry.escrow.payout_history@, rec);
        }
        let _ = entry.escrow.token_balances.debit(token, payout);
        entry.escrow.payout_history.push(rec);
        entry.escrow.remaining_amount = entry.escrow.remaining_amount - payout;
        if entry.escrow.remaining_amount == 0 {
            entry.escrow.status = EscrowStatus::Released;
        } else {
            entry.escrow.status = EscrowStatus::PartiallyReleased;
        }
        proof {
            assert(entry.escrow.wf());
            lemma_locked_update(s0, i as int, entry);
        }
        self.escrows.insert(i, entry);
        let _ = self.held.debit(token, payout);
        proof {
            assert(self.escrows@ =~= s0.update(i as int, entry));
            let s = self.escrows@;
            assert forall|j: int, k: int| 0 <= j < k < s.len() implies s[j].bounty_id != s[k].bounty_id by {
                assert(s0[j].bounty_id == s[j].bounty_id || j == i);
                assert(s0[k].bounty_id == s[k].bounty_id || k == i);
            }
            assert forall|j: int| 0 <= j < s.len() implies (#[trigger] s[j]).escrow.wf() by {
                if j != i {
                    assert(s[j] == s0[j]);
                }
            }
        }
        let (net, fee) = split_fee(payout, self.fee_config.fee_enabled, self.fee_config.release_fee_rate);
        let mut out: Vec<Transfer> = Vec::new();
        out.push(Transfer { token, from: self.contract, to: contributor, amount: net });
        if fee > 0 {
            out.push(Transfer { token, from: self.contract, to: self.fee_config.fee_recipient, amount: fee });
        }
        proof {
            assert(out@ =~= old(self).release_transfers(contributor, payout as int, token));
        }
        out
    }

    /// The checks of a release on the escrow and the amount, in the order of
    /// `release_item_error`; on success, the escrow's position and the payout.
    fn check_release_item(&self, bounty_id: u64, token: Option<Address>, amount: Option<i128>) -> (r: Result<
        (usize, i128),
        Error,
    >)
        requires
            self.wf(),
        ensures
            match self.release_item_error(bounty_id, token, amount) {
                Some(e) => r == Err::<(usize, i128), Error>(e),
                None => r is Ok && r->Ok_0.0 == self.slot(bounty_id) && r->Ok_0.1 == self.release_amount(
                    bounty_id,
                    amount,
                ),
            },
    {
        let i = match self.find_escrow(bounty_id) {
            None => return Err(Error::BountyNotFound),
            Some(i) => i,
        };
        let e = &self.escrows[i].escrow;
        if e.status != EscrowStatus::Locked && e.status != EscrowStatus::PartiallyReleased {
            return Err(Error::FundsNotLocked);
        }
        match token {
            Some(t) => {
                if t != e.token_address {
                    return Err(Error::InvalidAmount);
                }
            },
            None => {},
        }
        let payout: i128 = match amount {
            Some(x) => x,
            None => e.remaining_amount,
        };
        if payout <= 0 || payout > e.remaining_amount {
            return Err(Error::InvalidAmount);
        }
        proof {
            lemma_fee_split(payout as int, self.fee_config.release_fee_rate as int);
        }
        let (net, _fee) = split_fee(payout, self.fee_config.fee_enabled, self.fee_config.release_fee_rate);
        if net < self.amount_limits.min_payout || net > self.amount_limits.max_payout {
            return Err(Error::InvalidAmount);
        }
        Ok((i, payout))
    }

    /// Pays out of the escrow of `bounty_id` to `contributor`: `amount`, or all
    /// that remains when none is given. Only the administrator may release.
    /// The fee, if any, goes to the fee recipient; the escrow is `Released`
    /// once nothing remains, else `PartiallyReleased`. Returns the transfers.
    pub fn release_funds(
        &mut self,
        caller: Address,
        bounty_id: u64,
        contributor: Address,
        token: Option<Address>,
        amount: Option<i128>,
        now: u64,
    ) -> (r: Result<Vec<Transfer>, Error>)
        requires
            old(self).wf(),
        ensures
            final(self).wf(),
            match old(self).release_error(caller, bounty_id, token, amount) {
                Some(e) => r == Err::<Vec<Transfer>, Error>(e) && *final(self) == *old(self),
                None => {
                    let i = old(self).slot(bounty_id);
                    let old_e = old(self).escrow_of(bounty_id);
                    let payout = old(self).release_amount(bounty_id, amount);
                    &&& r is Ok
                    &&& r->Ok_0@ == old(self).release_transfers(contributor, payout, old_e.token_address)
                    &&& final(self).same_settings(old(self))
                    &&& final(self).approvals == old(self).approvals
                    &&& final(self).escrows@ == old(self).escrows@.update(i, final(self).escrows@[i])
                    &&& final(self).escrows@[i].bounty_id == bounty_id
                    &&& is_release_of(old_e, final(self).escrows@[i].escrow, payout, contributor, now)
                    &&& forall|a: Address| #[trigger] final(self).held.balance_spec(a) == old(self).held.balance_spec(a)
                        - if a == old_e.token_address {
                        payout
                    } else {
                        0
                    }
                },
            },
    {
        if self.guard.enter().is_err() {
            return Err(Error::ReentrantCall);
        }
        let r = match self.admin {
            None => Err(Error::NotInitialized),
            Some(admin) => {
                if self.paused {
                    Err(Error::ContractPaused)
                } else if caller != admin {
                    Err(Error::Unauthorized)
                } else {
                    match self.check_release_item(bounty_id, token, amount) {
                        Err(e) => Err(e),
                        Ok((i, payout)) => Ok(self.release_one(i, contributor, payout, now)),
                    }
                }
            },
        };
        self.guard.exit();
        r
    }
}

} // verus!
