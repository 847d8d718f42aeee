use vstd::prelude::*;
use crate::escrow::Escrow;
use crate::guard::ReentrancyGuard;
use crate::ledger::AssetLedger;
use crate::types::{Address, AmountLimits, Error, FeeConfig, MAX_FEE_RATE, RefundApproval};

verus! {

/// An escrow together with the bounty it belongs to.
pub struct EscrowEntry {
    pub bounty_id: u64,
    pub escrow: Escrow,
}

/// Sum of `remaining_amount` over the escrows of `s` whose primary asset is `a`.
pub open spec fn locked_total(s: Seq<EscrowEntry>, a: Address) -> int
    decreases s.len(),
{
    if s.len() == 0 {
        0
    } else {
        locked_total(s.drop_last(), a) + if s.last().escrow.token_address == a {
            s.last().escrow.remaining_amount as int
        } else {
            0
        }
    }
}

pub open spec fn ids_unique(s: Seq<EscrowEntry>) -> bool {
    forall|i: int, j: int| 0 <= i < j < s.len() ==> s[i].bounty_id != s[j].bounty_id
}

pub open spec fn approval_ids_unique(s: Seq<RefundApproval>) -> bool {
    forall|i: int, j: int| 0 <= i < j < s.len() ==> s[i].bounty_id != s[j].bounty_id
}

pub proof fn lemma_locked_push(s: Seq<EscrowEntry>, x: EscrowEntry)
    ensures
        forall|a: Address| #[trigger] locked_total(s.push(x), a) == locked_total(s, a) + if x.escrow.token_address == a {
            x.escrow.remaining_amount as int
        } else {
            0
        },
{
    assert(s.push(x).drop_last() =~= s);
}

pub proof fn lemma_locked_update(s: Seq<EscrowEntry>, i: int, x: EscrowEntry)
    requires
        0 <= i < s.len(),
        x.escrow.token_address == s[i].escrow.token_address,
    ensures
        forall|a: Address| #[trigger] locked_total(s.update(i, x), a) == locked_total(s, a) + if x.escrow.token_address == a {
            x.escrow.remaining_amount - s[i].escrow.remaining_amount
        } else {
            0
        },
    decreases s.len(),
{
    let t = s.update(i, x);
    assert forall|a: Address| #[trigger] locked_total(t, a) == locked_total(s, a) + if x.escrow.token_address == a {
        x.escrow.remaining_amount - s[i].escrow.remaining_amount
    } else {
        0
    } by {
        if i == s.len() - 1 {
            assert(t.drop_last() =~= s.drop_last());
            assert(t.last() == x);
        } else {
            lemma_locked_update(s.drop_last(), i, x);
            assert(t.drop_last() =~= s.drop_last().update(i, x));
            assert(t.last() == s.last());
        }
        assert(locked_total(t, a) == locked_total(t.drop_last(), a) + if t.last().escrow.token_address == a {
            t.last().escrow.remaining_amount as int
        } else {
            0
        });
        assert(locked_total(s, a) == locked_total(s.drop_last(), a) + if s.last().escrow.token_address == a {
            s.last().escrow.remaining_amount as int
        } else {
            0
        });
    }
}

/// An escrow's remaining amount is part of the sum for its primary asset.
pub proof fn lemma_locked_covers(s: Seq<EscrowEntry>, i: int)
    requires
        0 <= i < s.len(),
        forall|k: int| 0 <= k < s.len() ==> (#[trigger] s[k]).escrow.remaining_amount >= 0,
    ensures
        locked_total(s, s[i].escrow.token_address) >= s[i].escrow.remaining_amount,
        forall|a: Address| #[trigger] locked_total(s, a) >= 0,
    decreases s.len(),
{
    let a0 = s[i].escrow.token_address;
    assert forall|a: Address| #[trigger] locked_total(s, a) >= 0 by {
        lemma_locked_nonneg(s, a);
    }
    if i < s.len() - 1 {
        lemma_locked_covers(s.drop_last(), i);
        assert(s.drop_last()[i] == s[i]);
        assert forall|k: int| 0 <= k < s.drop_last().len() implies (#[trigger] s.drop_last()[k]).escrow.remaining_amount >= 0 by {
            assert(s.drop_last()[k] == s[k]);
        }
    } else {
        lemma_locked_nonneg(s.drop_last(), a0);
    }
}

proof fn lemma_locked_nonneg(s: Seq<EscrowEntry>, a: Address)
    requires
        forall|k: int| 0 <= k < s.len() ==> (#[trigger] s[k]).escrow.remaining_amount >= 0,
    ensures
        locked_total(s, a) >= 0,
    decreases s.len(),
{
    if s.len() > 0 {
        assert forall|k: int| 0 <= k < s.drop_last().len() implies (#[trigger] s.drop_last()[k]).escrow.remaining_amount >= 0 by {
            assert(s.drop_last()[k] == s[k]);
        }
        lemma_locked_nonneg(s.drop_last(), a);
        assert(s.last() == s[s.len() - 1]);
    }
}

/// The whole contract: configuration, the escrow records, pending refund
/// approvals, and the balances the contract holds per asset.
pub struct BountyEscrowContract {
    /// The contract's own identity, source of payouts and target of locks.
    pub contract: Address,
    pub admin: Option<Address>,
    pub default_token: Address,
    pub fee_config: FeeConfig,
    pub amount_limits: AmountLimits,
    pub paused: bool,
    pub guard: ReentrancyGuard,
    pub whitelisted_tokens: Vec<Address>,
    pub escrows: Vec<EscrowEntry>,
    pub approvals: Vec<RefundApproval>,
    pub held: AssetLedger,
}

impl BountyEscrowContract {
    /// The invariant of the contract state.
    pub open spec fn wf(&self) -> bool {
        &&& ids_unique(self.escrows@)
        &&& forall|i: int| 0 <= i < self.escrows@.len() ==> (#[trigger] self.escrows@[i]).escrow.wf()
        &&& self.held.wf()
        &&& forall|a: Address| #[trigger] self.held.balance_spec(a) == locked_total(self.escrows@, a)
        &&& approval_ids_unique(self.approvals@)
        &&& 0 <= self.fee_config.lock_fee_rate <= MAX_FEE_RATE
        &&& 0 <= self.fee_config.release_fee_rate <= MAX_FEE_RATE
    }

    /// Whether an escrow exists for `id`.
    pub open spec fn has_bounty(&self, id: u64) -> bool {
        exists|i: int| 0 <= i < self.escrows@.len() && #[trigger] self.escrows@[i].bounty_id == id
    }

    /// The position of the escrow for `id` (meaningful when it exists).
    pub open spec fn slot(&self, id: u64) -> int {
        choose|i: int| 0 <= i < self.escrows@.len() && #[trigger] self.escrows@[i].bounty_id == id
    }

    /// The escrow for `id` (meaningful when it exists).
    pub open spec fn escrow_of(&self, id: u64) -> Escrow {
        self.escrows@[self.slot(id)].escrow
    }

    pub open spec fn initialized(&self) -> bool {
        self.admin is Some
    }

    pub open spec fn is_admin(&self, who: Address) -> bool {
        self.admin == Some(who)
    }

    /// Tokens that may be locked: the default token and the whitelisted ones.
    pub open spec fn token_registered(&self, t: Address) -> bool {
        (self.initialized() && t == self.default_token) || self.whitelisted_tokens@.contains(t)
    }

    /// Everything but the escrows, approvals and holdings is left as it was.
    pub open spec fn same_settings(&self, other: &Self) -> bool {
        &&& self.contract == other.contract
        &&& self.admin == other.admin
        &&& self.default_token == other.default_token
        &&& self.fee_config == other.fee_config
        &&& self.amount_limits == other.amount_limits
        &&& self.paused == other.paused
        &&& self.guard == other.guard
        &&& self.whitelisted_tokens@ == other.whitelisted_tokens@
    }

    pub proof fn lemma_slot(&self, i: int)
        requires
            ids_unique(self.escrows@),
            0 <= i < self.escrows@.len(),
        ensures
            self.has_bounty(self.escrows@[i].bounty_id),
            self.slot(self.escrows@[i].bounty_id) == i,
    {
        let id = self.escrows@[i].bounty_id;
        assert(self.escrows@[i].bounty_id == id);
        let j = self.slot(id);
        assert(0 <= j < self.escrows@.len() && self.escrows@[j].bounty_id == id);
        assert(i == j);
    }

    /// A contract with the given identity, not yet initialized.
    pub fn new(contract: Address) -> (r: BountyEscrowContract)
        ensures
            r.wf(),
            r.contract == contract,
            !r.initialized(),
            !r.paused,
            !r.guard.locked(),
            r.escrows@.len() == 0,
            r.approvals@.len() == 0,
            r.whitelisted_tokens@.len() == 0,
            r.held.entries@.len() == 0,
            r.held.total_spec() == 0,
            r.default_token == 0,
            r.fee_config == (FeeConfig { lock_fee_rate: 0, release_fee_rate: 0, fee_recipient: 0, fee_enabled: false }),
            r.amount_limits == (AmountLimits {
                min_lock_amount: 1,
                max_lock_amount: i128::MAX,
                min_payout: 1,
                max_payout: i128::MAX,
            }),
    {
        let r = BountyEscrowContract {
            contract,
            admin: None,
            default_token: 0,
            fee_config: FeeConfig {
                lock_fee_rate: 0,
                release_fee_rate: 0,
                fee_recipient: 0,
                fee_enabled: false,
            },
            amount_limits: AmountLimits {
                min_lock_amount: 1,
                max_lock_amount: i128::MAX,
                min_payout: 1,
                max_payout: i128::MAX,
            },
            paused: false,
            guard: ReentrancyGuard::new(),
            whitelisted_tokens: Vec::new(),
            escrows: Vec::new(),
            approvals: Vec::new(),
            held: AssetLedger::new(),
        };
        proof {
            assert forall|a: Address| #[trigger] r.held.balance_spec(a) == locked_total(r.escrows@, a) by {}
        }
        r
    }

    /// Sets the administrator and the default token, once; the default token
    /// is also put on the token allow-list. Fees start
    /// disabled with the administrator as recipient; the default limits admit
    /// every positive amount.
    pub fn init(&mut self, admin: Address, token: Address) -> (r: Result<(), Error>)
        requires
            old(self).wf(),
        ensures
            final(self).wf(),
            old(self).initialized() ==> r == Err::<(), Error>(Error::AlreadyInitialized) && *final(self)
                == *old(self),
            !old(self).initialized() ==> r is Ok && final(self).admin == Some(admin)
                && final(self).default_token == token && final(self).token_registered(token)
                && final(self).whitelisted_tokens@ == old(self).whitelisted_tokens@.push(token)
                && final(self).fee_config == (FeeConfig {
                lock_fee_rate: 0,
                release_fee_rate: 0,
                fee_recipient: admin,
                fee_enabled: false,
            }) && final(self).amount_limits == (AmountLimits {
                min_lock_amount: 1,
                max_lock_amount: i128::MAX,
                min_payout: 1,
                max_payout: i128::MAX,
            }) && final(self).contract == old(self).contract && final(self).paused == old(self).paused
                && final(self).guard == old(self).guard && final(self).escrows == old(self).escrows
                && final(self).approvals == old(self).approvals && final(self).held == old(self).held,
    {
        if self.admin.is_some() {
            return Err(Error::AlreadyInitialized);
        }
        self.admin = Some(admin);
        self.default_token = token;
        self.whitelisted_tokens.push(token);
        self.fee_config = FeeConfig {
            lock_fee_rate: 0,
            release_fee_rate: 0,
            fee_recipient: admin,
            fee_enabled: false,
        };
        self.amount_limits = AmountLimits {
            min_lock_amount: 1,
            max_lock_amount: i128::MAX,
            min_payout: 1,
            max_payout: i128::MAX,
        };
        Ok(())
    }

    /// The position of the escrow for `id`, if there is one.
    pub fn find_escrow(&self, id: u64) -> (r: Option<usize>)
        requires
            ids_unique(self.escrows@),
        ensures
            match r {
                Some(i) => i < self.escrows@.len() && self.escrows@[i as int].bounty_id == id
                    && self.has_bounty(id) && self.slot(id) == i,
                None => !self.has_bounty(id),
            },
    {
        let mut i: usize = 0;
        while i < self.escrows.len()
            invariant
                ids_unique(self.escrows@),
                i <= self.escrows@.len(),
                forall|k: int| 0 <= k < i ==> self.escrows@[k].bounty_id != id,
            decreases self.escrows@.len() - i,
        {
            if self.escrows[i].bounty_id == id {
                proof {
                    self.lemma_slot(i as int);
                }
                return Some(i);
            }
            i = i + 1;
        }
        None
    }

    /// Whether `t` may be locked.
    pub fn is_token_registered(&self, t: Address) -> (r: bool)
        ensures
            r == self.token_registered(t),
    {
        if self.admin.is_some() && t == self.default_token {
            return true;
        }
        let mut i: usize = 0;
        while i < self.whitelisted_tokens.len()
            invariant
                i <= self.whitelisted_tokens@.len(),
                forall|k: int| 0 <= k < i ==> self.whitelisted_tokens@[k] != t,
            decreases self.whitelisted_tokens@.len() - i,
        {
            if self.whitelisted_tokens[i] == t {
                proof {
                    assert(self.whitelisted_tokens@[i as int] == t);
                }
                return true;
            }
            i = i + 1;
        }
        false
    }
}

} // verus!
