use vstd::prelude::*;
use crate::contract::BountyEscrowContract;
use crate::types::{Address, AmountLimits, Error, FeeConfig, MAX_FEE_RATE};

verus! {

/// `s` with every occurrence of `t` taken out.
pub open spec fn without(s: Seq<Address>, t: Address) -> Seq<Address>
    decreases s.len(),
{
    if s.len() == 0 {
        s
    } else if s.last() == t {
        without(s.drop_last(), t)
    } else {
        without(s.drop_last(), t).push(s.last())
    }
}

proof fn lemma_without_excludes(s: Seq<Address>, t: Address)
    ensures
        !without(s, t).contains(t),
    decreases s.len(),
{
    if s.len() > 0 {
        lemma_without_excludes(s.drop_last(), t);
        let w = without(s.drop_last(), t);
        if s.last() != t {
            assert forall|k: int| 0 <= k < w.push(s.last()).len() implies w.push(s.last())[k] != t by {
                if k < w.len() {
                    assert(w.push(s.last())[k] == w[k]);
                }
            }
        }
    }
}

impl BountyEscrowContract {
    /// Why an administrative change by `caller` is refused, if it is.
    pub open spec fn admin_error(&self, caller: Address) -> Option<Error> {
        if !self.initialized() {
            Some(Error::NotInitialized)
        } else if !self.is_admin(caller) {
            Some(Error::Unauthorized)
        } else {
            None
        }
    }

    /// Whether `rate` is an admissible fee rate, in basis points.
    pub open spec fn valid_rate(rate: Option<i128>) -> bool {
        match rate {
            Some(x) => 0 <= x <= MAX_FEE_RATE,
            None => true,
        }
    }

    fn check_admin(&self, caller: Address) -> (r: Option<Error>)
        ensures
            r == self.admin_error(caller),
    {
        match self.admin {
            None => Some(Error::NotInitialized),
            Some(a) => if a == caller {
                None
            } else {
                Some(Error::Unauthorized)
            },
        }
    }

    /// Changes the given parts of the fee settings. A rate outside
    /// `0..=MAX_FEE_RATE` is refused and nothing changes.
    pub fn update_fee_config(
        &mut self,
        caller: Address,
        lock_fee_rate: Option<i128>,
        release_fee_rate: Option<i128>,
        fee_recipient: Option<Address>,
        fee_enabled: Option<bool>,
    ) -> (r: Result<(), Error>)
        requires
            old(self).wf(),
        ensures
            final(self).wf(),
            old(self).admin_error(caller) is Some ==> r == Err::<(), Error>(old(self).admin_error(caller)->Some_0)
                && *final(self) == *old(self),
            old(self).admin_error(caller) is None && !(Self::valid_rate(lock_fee_rate) && Self::valid_rate(
                release_fee_rate,
            )) ==> r == Err::<(), Error>(Error::InvalidFeeRate) && *final(self) == *old(self),
            old(self).admin_error(caller) is None && Self::valid_rate(lock_fee_rate) && Self::valid_rate(
                release_fee_rate,
            ) ==> r is Ok && final(self).fee_config == (FeeConfig {
                lock_fee_rate: match lock_fee_rate {
                    Some(x) => x,
                    None => old(self).fee_config.lock_fee_rate,
                },
                release_fee_rate: match release_fee_rate {
                    Some(x) => x,
                    None => old(self).fee_config.release_fee_rate,
                },
                fee_recipient: match fee_recipient {
                    Some(x) => x,
                    None => old(self).fee_config.fee_recipient,
                },
                fee_enabled: match fee_enabled {
                    Some(x) => x,
                    None => old(self).fee_config.fee_enabled,
                },
            }) && *final(self) == (BountyEscrowContract { fee_config: final(self).fee_config, ..*old(self) }),
    {
        match self.check_admin(caller) {
            Some(e) => return Err(e),
            None => {},
        }
        let mut cfg = self.fee_config;
        match lock_fee_rate {
            Some(x) => {
                if x < 0 || x > MAX_FEE_RATE {
                    return Err(Error::InvalidFeeRate);
                }
                cfg.lock_fee_rate = x;
            },
            None => {},
        }
        match release_fee_rate {
            Some(x) => {
                if x < 0 || x > MAX_FEE_RATE {
                    return Err(Error::InvalidFeeRate);
                }
                cfg.release_fee_rate = x;
            },
            None => {},
        }
        match fee_recipient {
            Some(x) => cfg.fee_recipient = x,
            None => {},
        }
        match fee_enabled {
            Some(x) => cfg.fee_enabled = x,
            None => {},
        }
        self.fee_config = cfg;
        Ok(())
    }

    /// The fee settings.
    pub fn get_fee_config(&self) -> (r: FeeConfig)
        ensures
            r == self.fee_config,
    {
        self.fee_config
    }

    /// Replaces the amount limits. Limits whose minimum exceeds their maximum,
    /// or with a negative bound, are refused.
    pub fn update_amount_limits(
        &mut self,
        caller: Address,
        min_lock_amount: i128,
        max_lock_amount: i128,
        min_payout: i128,
        max_payout: i128,
    ) -> (r: Result<(), Error>)
        requires
            old(self).wf(),
        ensures
            final(self).wf(),
            old(self).admin_error(caller) is Some ==> r == Err::<(), Error>(old(self).admin_error(caller)->Some_0)
                && *final(self) == *old(self),
            old(self).admin_error(caller) is None && (min_lock_amount < 0 || max_lock_amount < min_lock_amount
                || min_payout < 0 || max_payout < min_payout) ==> r == Err::<(), Error>(Error::InvalidAmount)
                && *final(self) == *old(self),
            old(self).admin_error(caller) is None && !(min_lock_amount < 0 || max_lock_amount < min_lock_amount
                || min_payout < 0 || max_payout < min_payout) ==> r is Ok && *final(self) == (BountyEscrowContract {
                amount_limits: AmountLimits { min_lock_amount, max_lock_amount, min_payout, max_payout },
                ..*old(self)
            }),
    {
        match self.check_admin(caller) {
            Some(e) => return Err(e),
            None => {},
        }
        if min_lock_amount < 0 || max_lock_amount < min_lock_amount || min_payout < 0 || max_payout < min_payout {
            return Err(Error::InvalidAmount);
        }
        self.amount_limits = AmountLimits { min_lock_amount, max_lock_amount, min_payout, max_payout };
        Ok(())
    }

    /// The amount limits.
    pub fn get_amount_limits(&self) -> (r: AmountLimits)
        ensures
            r == self.amount_limits,
    {
        self.amount_limits
    }

    /// Stops locks, releases, refunds, expiries and extensions until unpaused.
    pub fn pause(&mut self, caller: Address) -> (r: Result<(), Error>)
        requires
            old(self).wf(),
        ensures
            final(self).wf(),
            old(self).admin_error(caller) is Some ==> r == Err::<(), Error>(old(self).admin_error(caller)->Some_0)
                && *final(self) == *old(self),
            old(self).admin_error(caller) is None ==> r is Ok && *final(self) == (BountyEscrowContract {
                paused: true,
                ..*old(self)
            }),
    {
        match self.check_admin(caller) {
            Some(e) => return Err(e),
            None => {},
        }
        self.paused = true;
        Ok(())
    }

    /// Lifts a pause.
    pub fn unpause(&mut self, caller: Address) -> (r: Result<(), Error>)
        requires
            old(self).wf(),
        ensures
            final(self).wf(),
            old(self).admin_error(caller) is Some ==> r == Err::<(), Error>(old(self).admin_error(caller)->Some_0)
                && *final(self) == *old(self),
            old(self).admin_error(caller) is None ==> r is Ok && *final(self) == (BountyEscrowContract {
                paused: false,
                ..*old(self)
            }),
    {
        match self.check_admin(caller) {
            Some(e) => return Err(e),
            None => {},
        }
        self.paused = false;
        Ok(())
    }

    /// Whether the contract is paused.
    pub fn is_paused(&self) -> (r: bool)
        ensures
            r == self.paused,
    {
        self.paused
    }

    /// Allows `token` to be locked. A token already allowed is refused.
    pub fn add_token(&mut self, caller: Address, token: Address) -> (r: Result<(), Error>)
        requires
            old(self).wf(),
        ensures
            final(self).wf(),
            old(self).admin_error(caller) is Some ==> r == Err::<(), Error>(old(self).admin_error(caller)->Some_0)
                && *final(self) == *old(self),
            old(self).admin_error(caller) is None && old(self).whitelisted_tokens@.contains(token) ==> r == Err::<
                (),
                Error,
            >(Error::TokenAlreadyWhitelisted) && *final(self) == *old(self),
            old(self).admin_error(caller) is None && !old(self).whitelisted_tokens@.contains(token) ==> r is Ok
                && final(self).whitelisted_tokens@ == old(self).whitelisted_tokens@.push(token)
                && final(self).token_registered(token)
                && *final(self) == (BountyEscrowContract {
                whitelisted_tokens: final(self).whitelisted_tokens,
                ..*old(self)
            }),
    {
        match self.check_admin(caller) {
            Some(e) => return Err(e),
            None => {},
        }
        if self.is_token_whitelisted(token) {
            return Err(Error::TokenAlreadyWhitelisted);
        }
        self.whitelisted_tokens.push(token);
        proof {
            assert(self.whitelisted_tokens@[self.whitelisted_tokens@.len() - 1] == token);
        }
        Ok(())
    }

    /// Takes `token` off the allow-list. A token not on it is refused.
    pub fn remove_token(&mut self, caller: Address, token: Address) -> (r: Result<(), Error>)
        requires
            old(self).wf(),
        ensures
            final(self).wf(),
            old(self).admin_error(caller) is Some ==> r == Err::<(), Error>(old(self).admin_error(caller)->Some_0)
                && *final(self) == *old(self),
            old(self).admin_error(caller) is None && !old(self).whitelisted_tokens@.contains(token) ==> r == Err::<
                (),
                Error,
            >(Error::TokenNotWhitelisted) && *final(self) == *old(self),
            old(self).admin_error(caller) is None && old(self).whitelisted_tokens@.contains(token) ==> r is Ok
                && final(self).whitelisted_tokens@ == without(old(self).whitelisted_tokens@, token)
                && !final(self).whitelisted_tokens@.contains(token)
                && *final(self) == (BountyEscrowContract {
                whitelisted_tokens: final(self).whitelisted_tokens,
                ..*old(self)
            }),
    {
        match self.check_admin(caller) {
            Some(e) => return Err(e),
            None => {},
        }
        if !self.is_token_whitelisted(token) {
            return Err(Error::TokenNotWhitelisted);
        }
        let ghost s = self.whitelisted_tokens@;
        let mut kept: Vec<Address> = Vec::new();
        let mut i: usize = 0;
        proof {
            assert(s.take(0) =~= Seq::<Address>::empty());
        }
        while i < self.whitelisted_tokens.len()
            invariant
                s == self.whitelisted_tokens@,
                i <= s.len(),
                kept@ == without(s.take(i as int), token),
            decreases s.len() - i,
        {
            proof {
                assert(s.take(i as int + 1).drop_last() =~= s.take(i as int));
                assert(s.take(i as int + 1).last() == s[i as int]);
            }
            let t = self.whitelisted_tokens[i];
            if t != token {
                kept.push(t);
            }
            i = i + 1;
        }
        proof {
            assert(s.take(i as int) =~= s);
            lemma_without_excludes(s, token);
        }
        self.whitelisted_tokens = kept;
        Ok(())
    }

    /// The tokens on the allow-list, in the order they were added.
    pub fn get_whitelisted_tokens(&self) -> (r: Vec<Address>)
        ensures
            r@ == self.whitelisted_tokens@,
    {
        self.whitelisted_tokens.clone()
    }

    /// Whether `token` has been allowed explicitly.
    pub fn is_token_whitelisted(&self, token: Address) -> (r: bool)
        ensures
            r == self.whitelisted_tokens@.contains(token),
    {
        let mut i: usize = 0;
        while i < self.whitelisted_tokens.len()
            invariant
                i <= self.whitelisted_tokens@.len(),
                forall|k: int| 0 <= k < i ==> self.whitelisted_tokens@[k] != token,
            decreases self.whitelisted_tokens@.len() - i,
        {
            if self.whitelisted_tokens[i] == token {
                proof {
                    assert(self.whitelisted_tokens@[i as int] == token);
                }
                return true;
            }
            i = i + 1;
        }
        false
    }
}

} // verus!
