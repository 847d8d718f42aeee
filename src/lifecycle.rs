use vstd::prelude::*;
use crate::contract::{BountyEscrowContract, EscrowEntry, lemma_locked_push};
use crate::escrow::Escrow;
use crate::fees::{fee_of, split_fee, lemma_fee_leaves_net};
use crate::ledger::AssetLedger;
use crate::types::{Address, Error, EscrowStatus, Transfer};

verus! {

/// The record made by a lock: `net` held in `token` for `depositor`, nothing paid out.
pub open spec fn is_fresh_lock(e: Escrow, depositor: Address, net: int, deadline: u64, token: Address) -> bool {
    &&& e.depositor == depositor
    &&& e.amount == net
    &&& e.remaining_amount == net
    &&& e.status == EscrowStatus::Locked
    &&& e.deadline == deadline
    &&& e.token_address == token
    &&& e.refund_history@.len() == 0
    &&& e.payout_history@.len() == 0
}

impl BountyEscrowContract {
    /// The lock-side fee on `amount`.
    pub open spec fn lock_fee(&self, amount: int) -> int {
        let rate = self.fee_config.lock_fee_rate as int;
        if self.fee_config.fee_enabled && rate > 0 {
            fee_of(amount, rate)
        } else {
            0
        }
    }

    /// The asset a lock uses: the one named, or the default token.
    pub open spec fn lock_token(&self, token: Option<Address>) -> Address {
        match token {
            Some(t) => t,
            None => self.default_token,
        }
    }

    /// Why a lock is refused, if it is; checks are made in this order.
    pub open spec fn lock_error(
        &self,
        bounty_id: u64,
        amount: i128,
        deadline: u64,
        token: Option<Address>,
        now: u64,
    ) -> Option<Error> {
        if self.guard.locked() {
            Some(Error::ReentrantCall)
        } else if self.paused {
            Some(Error::ContractPaused)
        } else {
            self.lock_item_error(bounty_id, amount, deadline, token, now)
        }
    }

    /// The checks that a lock makes on its own inputs.
    pub open spec fn lock_item_error(
        &self,
        bounty_id: u64,
        amount: i128,
        deadline: u64,
        token: Option<Address>,
        now: u64,
    ) -> Option<Error> {
        if amount <= 0 || amount < self.amount_limits.min_lock_amount || amount
            > self.amount_limits.max_lock_amount {
            Some(Error::InvalidAmount)
        } else if deadline <= now {
            Some(Error::InvalidDeadline)
        } else if !self.initialized() {
            Some(Error::NotInitialized)
        } else if self.has_bounty(bounty_id) {
            Some(Error::BountyExists)
        } else if token is Some && !self.token_registered(self.lock_token(token)) {
            Some(Error::TokenNotWhitelisted)
        } else if self.held.total_spec() + (amount - self.lock_fee(amount as int)) > i128::MAX {
            Some(Error::InvalidAmount)
        } else {
            None
        }
    }

    /// The token movements of a lock: the net amount into custody, then the
    /// fee to the fee recipient when there is one.
    pub open spec fn lock_transfers(&self, depositor: Address, amount: int, token: Address) -> Seq<Transfer> {
        let fee = self.lock_fee(amount);
        let into = Transfer {
            token,
            from: depositor,
            to: self.contract,
            amount: (amount - fee) as i128,
        };
        if fee > 0 {
            seq![into, Transfer { token, from: depositor, to: self.fee_config.fee_recipient, amount: fee as i128 }]
        } else {
            seq![into]
        }
    }

    /// Creates the escrow of a lock whose checks have passed.
    pub fn lock_one(
        &mut self,
        depositor: Address,
        bounty_id: u64,
        amount: i128,
        deadline: u64,
        token: Address,
    ) -> (r: Vec<Transfer>)
        requires
            old(self).wf(),
            !old(self).has_bounty(bounty_id),
            amount > 0,
            old(self).held.total_spec() + (amount - old(self).lock_fee(amount as int)) <= i128::MAX,
        ensures
            final(self).wf(),
            final(self).same_settings(old(self)),
            final(self).approvals == old(self).approvals,
            r@ == old(self).lock_transfers(depositor, amount as int, token),
            final(self).escrows@.len() == old(self).escrows@.len() + 1,
            final(self).escrows@.drop_last() == old(self).escrows@,
            final(self).escrows@.last().bounty_id == bounty_id,
            is_fresh_lock(
                final(self).escrows@.last().escrow,
                depositor,
                amount - old(self).lock_fee(amount as int),
                deadline,
                token,
            ),
            final(self).held.total_spec() == old(self).held.total_spec() + (amount - old(self).lock_fee(amount as int)),
            forall|a: Address| #[trigger] final(self).held.balance_spec(a) == old(self).held.balance_spec(a) + if a == token {
                amount - old(self).lock_fee(amount as int)
            } else {
                0
            },
    {
        proof {
            lemma_fee_leaves_net(amount as int, self.fee_config.lock_fee_rate as int);
        }
        let (net, fee) = split_fee(amount, self.fee_config.fee_enabled, self.fee_config.lock_fee_rate);
        let mut balances = AssetLedger::new();
        balances.credit(token, net);
        let escrow = Escrow {
            depositor,
            amount: net,
            status: EscrowStatus::Locked,
            deadline,
            token_address: token,
            refund_history: Vec::new(),
            payout_history: Vec::new(),
            remaining_amount: net,
            token_balances: balances,
        };
        let entry = EscrowEntry { bounty_id, escrow };
        proof {
            lemma_locked_push(self.escrows@, entry);
            let s = self.escrows@.push(entry);
            assert forall|i: int, j: int| 0 <= i < j < s.len() implies s[i].bounty_id != s[j].bounty_id by {
                if j == s.len() - 1 {
                    assert(self.escrows@[i].bounty_id == s[i].bounty_id);
                }
            }
        }
        self.escrows.push(entry);
        self.held.credit(token, net);
        proof {
            assert(self.escrows@.drop_last() =~= old(self).escrows@);
            assert forall|i: int| 0 <= i < self.escrows@.len() implies (#[trigger] self.escrows@[i]).escrow.wf() by {
                if i < old(self).escrows@.len() {
                    assert(self.escrows@[i] == old(self).escrows@[i]);
                }
            }
        }
        let mut out: Vec<Transfer> = Vec::new();
        out.push(Transfer { token, from: depositor, to: self.contract, amount: net });
        if fee > 0 {
            out.push(Transfer { token, from: depositor, to: self.fee_config.fee_recipient, amount: fee });
        }
        proof {
            assert(out@ =~= old(self).lock_transfers(depositor, amount as int, token));
        }
        out
    }

    /// The checks of a lock on its own inputs, in the order of `lock_item_error`.
    fn check_lock_item(
        &self,
        bounty_id: u64,
        amount: i128,
        deadline: u64,
        token: Option<Address>,
        now: u64,
    ) -> (r: Result<Address, Error>)
        requires
            self.wf(),
        ensures
            match self.lock_item_error(bounty_id, amount, deadline, token, now) {
                Some(e) => r == Err::<Address, Error>(e),
                None => r == Ok::<Address, Error>(self.lock_token(token)),
            },
    {
        if amount <= 0 || amount < self.amount_limits.min_lock_amount || amount > self.amount_limits.max_lock_amount {
            return Err(Error::InvalidAmount);
        }
        if deadline <= now {
            return Err(Error::InvalidDeadline);
        }
        if self.admin.is_none() {
            return Err(Error::NotInitialized);
        }
        if self.find_escrow(bounty_id).is_some() {
            return Err(Error::BountyExists);
        }
        let t: Address = match token {
            Some(t) => {
                if !self.is_token_registered(t) {
                    return Err(Error::TokenNotWhitelisted);
                }
                t
            },
            None => self.default_token,
        };
        proof {
            lemma_fee_leaves_net(amount as int, self.fee_config.lock_fee_rate as int);
            self.held.lemma_bounds(t);
        }
        let (net, _fee) = split_fee(amount, self.fee_config.fee_enabled, self.fee_config.lock_fee_rate);
        let total = self.held.total();
        if total > i128::MAX - net {
            return Err(Error::InvalidAmount);
        }
        Ok(t)
    }

    /// Locks `amount` of `token` (the default token when none is named) for
    /// `bounty_id` until `deadline`, on behalf of an authenticated `depositor`.
    /// The lock fee, if any, goes to the fee recipient and the rest into
    /// custody. Returns the transfers to carry out.
    pub fn lock_funds(
        &mut self,
        depositor: Address,
        bounty_id: u64,
        amount: i128,
        deadline: u64,
        token: Option<Address>,
        now: u64,
    ) -> (r: Result<Vec<Transfer>, Error>)
        requires
            old(self).wf(),
        ensures
            final(self).wf(),
            match old(self).lock_error(bounty_id, amount, deadline, token, now) {
                Some(e) => r == Err::<Vec<Transfer>, Error>(e) && *final(self) == *old(self),
                None => {
                    let tok = old(self).lock_token(token);
                    let net = amount - old(self).lock_fee(amount as int);
                    &&& r is Ok
                    &&& r->Ok_0@ == old(self).lock_transfers(depositor, amount as int, tok)
                    &&& final(self).same_settings(old(self))
                    &&& final(self).approvals == old(self).approvals
                    &&& final(self).escrows@.drop_last() == old(self).escrows@
                    &&& final(self).escrows@.len() == old(self).escrows@.len() + 1
                    &&& final(self).escrows@.last().bounty_id == bounty_id
                    &&& is_fresh_lock(final(self).escrows@.last().escrow, depositor, net, deadline, tok)
                    &&& final(self).held.total_spec() == old(self).held.total_spec() + net
                    &&& forall|a: Address| #[trigger] final(self).held.balance_spec(a) == old(self).held.balance_spec(a)
                        + if a == tok {
                        net
                    } else {
                        0
                    }
                },
            },
    {
        if self.guard.enter().is_err() {
            return Err(Error::ReentrantCall);
        }
        if self.paused {
            self.guard.exit();
            return Err(Error::ContractPaused);
        }
        let r = match self.check_lock_item(bounty_id, amount, deadline, token, now) {
            Err(e) => Err(e),
            Ok(t) => Ok(self.lock_one(depositor, bounty_id, amount, deadline, t)),
        };
        self.guard.exit();
        r
    }
}

} // verus!
