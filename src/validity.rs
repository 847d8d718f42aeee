use vstd::prelude::*;
use crate::contract::{BountyEscrowContract, EscrowEntry, locked_total};
use crate::ledger::lemma_absent;
use crate::types::{Address, MAX_FEE_RATE};

verus! {

proof fn lemma_locked_zero(s: Seq<EscrowEntry>, a: Address)
    requires
        forall|k: int| 0 <= k < s.len() ==> (#[trigger] s[k]).escrow.token_address != a,
    ensures
        locked_total(s, a) == 0,
    decreases s.len(),
{
    if s.len() > 0 {
        let t = s.drop_last();
        assert forall|k: int| 0 <= k < t.len() implies (#[trigger] t[k]).escrow.token_address != a by {
            assert(t[k] == s[k]);
        }
        lemma_locked_zero(t, a);
        assert(s.last() == s[s.len() - 1]);
    }
}

proof fn lemma_locked_prefix(s: Seq<EscrowEntry>, k: int, a: Address)
    requires
        0 <= k < s.len(),
        forall|j: int| 0 <= j < s.len() ==> (#[trigger] s[j]).escrow.remaining_amount >= 0,
    ensures
        locked_total(s.take(k + 1), a) == locked_total(s.take(k), a) + if s[k].escrow.token_address == a {
            s[k].escrow.remaining_amount as int
        } else {
            0
        },
        locked_total(s.take(k + 1), a) <= locked_total(s, a),
    decreases s.len(),
{
    assert(s.take(k + 1).drop_last() =~= s.take(k));
    assert(s.take(k + 1).last() == s[k]);
    if k + 1 < s.len() {
        let t = s.drop_last();
        assert forall|j: int| 0 <= j < t.len() implies (#[trigger] t[j]).escrow.remaining_amount >= 0 by {
            assert(t[j] == s[j]);
        }
        lemma_locked_prefix(t, k, a);
        assert(t.take(k + 1) =~= s.take(k + 1));
        assert(s.last() == s[s.len() - 1]);
    } else {
        assert(s.take(k + 1) =~= s);
    }
}

impl BountyEscrowContract {
    /// The sum of the remaining amounts in asset `a`, or `None` when that sum
    /// exceeds the largest `i128`.
    fn locked_sum(&self, a: Address) -> (r: Option<i128>)
        requires
            forall|j: int| 0 <= j < self.escrows@.len() ==> (#[trigger] self.escrows@[j]).escrow.remaining_amount >= 0,
        ensures
            match r {
                Some(v) => v == locked_total(self.escrows@, a),
                None => locked_total(self.escrows@, a) > i128::MAX,
            },
    {
        let ghost s = self.escrows@;
        let mut acc: i128 = 0;
        let mut i: usize = 0;
        proof {
            assert(s.take(0) =~= Seq::<EscrowEntry>::empty());
        }
        while i < self.escrows.len()
            invariant
                s == self.escrows@,
                i <= s.len(),
                forall|j: int| 0 <= j < s.len() ==> (#[trigger] s[j]).escrow.remaining_amount >= 0,
                acc == locked_total(s.take(i as int), a),
                0 <= acc,
            decreases s.len() - i,
        {
            proof {
                lemma_locked_prefix(s, i as int, a);
            }
            let e = &self.escrows[i].escrow;
            if e.token_address == a {
                if acc > i128::MAX - e.remaining_amount {
                    return None;
                }
                acc = acc + e.remaining_amount;
            }
            i = i + 1;
        }
        proof {
            assert(s.take(i as int) =~= s);
        }
        Some(acc)
    }

    /// Whether what the contract holds of `a` equals the escrows' remaining
    /// amounts in `a`.
    fn custody_matches(&self, a: Address) -> (r: bool)
        requires
            self.held.wf(),
            forall|j: int| 0 <= j < self.escrows@.len() ==> (#[trigger] self.escrows@[j]).escrow.remaining_amount >= 0,
        ensures
            r == (self.held.balance_spec(a) == locked_total(self.escrows@, a)),
    {
        let h = self.held.balance_of(a);
        proof {
            self.held.lemma_bounds(a);
        }
        match self.locked_sum(a) {
            Some(v) => v == h,
            None => false,
        }
    }

    /// Whether the state keeps the invariant that every operation requires.
    /// A state rebuilt from storage is tested with this before use.
    #[verifier::loop_isolation(false)]
    pub fn check_invariant(&self) -> (r: bool)
        ensures
            r == self.wf(),
    {
        let s = &self.escrows;
        let n = s.len();
        // Bounty ids are unique.
        let mut i: usize = 0;
        while i < n
            invariant
                n == s@.len(),
                i <= n,
                forall|x: int, y: int| 0 <= x < i && x < y < n ==> s@[x].bounty_id != s@[y].bounty_id,
            decreases n - i,
        {
            let mut j: usize = i + 1;
            while j < n
                invariant
                    n == s@.len(),
                    i < n,
                    i + 1 <= j <= n,
                    forall|x: int, y: int| 0 <= x < i && x < y < n ==> s@[x].bounty_id != s@[y].bounty_id,
                    forall|y: int| i < y < j ==> s@[i as int].bounty_id != s@[y].bounty_id,
                decreases n - j,
            {
                if s[i].bounty_id == s[j].bounty_id {
                    return false;
                }
                j = j + 1;
            }
            i = i + 1;
        }
        // Every escrow keeps its own invariant.
        let mut i: usize = 0;
        while i < n
            invariant
                n == s@.len(),
                i <= n,
                forall|k: int| 0 <= k < i ==> (#[trigger] s@[k]).escrow.wf(),
            decreases n - i,
        {
            if !s[i].escrow.is_wf() {
                return false;
            }
            i = i + 1;
        }
        if !self.held.is_wf() {
            return false;
        }
        // Approvals are one per bounty.
        let ap = &self.approvals;
        let m = ap.len();
        let mut i: usize = 0;
        while i < m
            invariant
                m == ap@.len(),
                i <= m,
                forall|x: int, y: int| 0 <= x < i && x < y < m ==> ap@[x].bounty_id != ap@[y].bounty_id,
            decreases m - i,
        {
            let mut j: usize = i + 1;
            while j < m
                invariant
                    m == ap@.len(),
                    i < m,
                    i + 1 <= j <= m,
                    forall|x: int, y: int| 0 <= x < i && x < y < m ==> ap@[x].bounty_id != ap@[y].bounty_id,
                    forall|y: int| i < y < j ==> ap@[i as int].bounty_id != ap@[y].bounty_id,
                decreases m - j,
            {
                if ap[i].bounty_id == ap[j].bounty_id {
                    return false;
                }
                j = j + 1;
            }
            i = i + 1;
        }
        let f = self.fee_config;
        if f.lock_fee_rate < 0 || f.lock_fee_rate > MAX_FEE_RATE || f.release_fee_rate < 0 || f.release_fee_rate
            > MAX_FEE_RATE {
            return false;
        }
        // Holdings match the escrows for every asset held and every escrow's asset.
        let entries = &self.held.entries;
        let mut i: usize = 0;
        while i < entries.len()
            invariant
                i <= entries@.len(),
                forall|k: int| 0 <= k < i ==> #[trigger] self.held.balance_spec(entries@[k].asset) == locked_total(
                    s@,
                    entries@[k].asset,
                ),
            decreases entries@.len() - i,
        {
            if !self.custody_matches(entries[i].asset) {
                return false;
            }
            i = i + 1;
        }
        let mut i: usize = 0;
        while i < n
            invariant
                n == s@.len(),
                i <= n,
                forall|k: int| 0 <= k < i ==> #[trigger] self.held.balance_spec(s@[k].escrow.token_address)
                    == locked_total(s@, s@[k].escrow.token_address),
            decreases n - i,
        {
            if !self.custody_matches(s[i].escrow.token_address) {
                return false;
            }
            i = i + 1;
        }
        proof {
            assert forall|a: Address| #[trigger] self.held.balance_spec(a) == locked_total(s@, a) by {
                if exists|k: int| 0 <= k < entries@.len() && entries@[k].asset == a {
                    let k = choose|k: int| 0 <= k < entries@.len() && entries@[k].asset == a;
                    assert(self.held.balance_spec(entries@[k].asset) == locked_total(s@, entries@[k].asset));
                } else if exists|k: int| 0 <= k < n && s@[k].escrow.token_address == a {
                    let k = choose|k: int| 0 <= k < n && s@[k].escrow.token_address == a;
                    assert(self.held.balance_spec(s@[k].escrow.token_address) == locked_total(
                        s@,
                        s@[k].escrow.token_address,
                    ));
                } else {
                    lemma_absent(entries@, a);
                    lemma_locked_zero(s@, a);
                }
            }
        }
        true
    }
}

} // verus!
