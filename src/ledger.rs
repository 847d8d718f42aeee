use vstd::prelude::*;
use crate::types::{Address, Error};

verus! {

/// The balance held in one asset.
#[derive(Clone, Copy, Debug, PartialEq, Eq, Structural)]
pub struct AssetBalance {
    pub asset: Address,
    pub balance: i128,
}

/// The sum of the balances recorded for `a` in `s`.
pub open spec fn balance_in(s: Seq<AssetBalance>, a: Address) -> int
    decreases s.len(),
{
    if s.len() == 0 {
        0
    } else {
        balance_in(s.drop_last(), a) + if s.last().asset == a {
            s.last().balance as int
        } else {
            0
        }
    }
}

/// The sum of all balances in `s`.
pub open spec fn total_in(s: Seq<AssetBalance>) -> int
    decreases s.len(),
{
    if s.len() == 0 {
        0
    } else {
        total_in(s.drop_last()) + s.last().balance
    }
}

pub open spec fn keys_unique(s: Seq<AssetBalance>) -> bool {
    forall|i: int, j: int| 0 <= i < j < s.len() ==> s[i].asset != s[j].asset
}

pub open spec fn all_nonneg(s: Seq<AssetBalance>) -> bool {
    forall|i: int| 0 <= i < s.len() ==> s[i].balance >= 0
}

pub proof fn lemma_absent(s: Seq<AssetBalance>, a: Address)
    requires
        forall|k: int| 0 <= k < s.len() ==> s[k].asset != a,
    ensures
        balance_in(s, a) == 0,
    decreases s.len(),
{
    if s.len() > 0 {
        lemma_absent(s.drop_last(), a);
    }
}

proof fn lemma_lookup(s: Seq<AssetBalance>, i: int)
    requires
        keys_unique(s),
        0 <= i < s.len(),
    ensures
        balance_in(s, s[i].asset) == s[i].balance,
    decreases s.len(),
{
    if i == s.len() - 1 {
        lemma_absent(s.drop_last(), s[i].asset);
    } else {
        lemma_lookup(s.drop_last(), i);
    }
}

pub proof fn lemma_nonneg(s: Seq<AssetBalance>, a: Address)
    requires
        all_nonneg(s),
    ensures
        0 <= balance_in(s, a) <= total_in(s),
        total_in(s) >= 0,
    decreases s.len(),
{
    if s.len() > 0 {
        lemma_nonneg(s.drop_last(), a);
    }
}

proof fn lemma_update(s: Seq<AssetBalance>, i: int, v: i128)
    requires
        0 <= i < s.len(),
    ensures
        ({
            let t = s.update(i, AssetBalance { asset: s[i].asset, balance: v });
            &&& total_in(t) == total_in(s) - s[i].balance + v
            &&& forall|a: Address| #[trigger] balance_in(t, a) == balance_in(s, a) + if s[i].asset == a {
                v - s[i].balance
            } else {
                0
            }
        }),
    decreases s.len(),
{
    let t = s.update(i, AssetBalance { asset: s[i].asset, balance: v });
    if i == s.len() - 1 {
        assert(t.drop_last() =~= s.drop_last());
    } else {
        lemma_update(s.drop_last(), i, v);
        assert(t.drop_last() =~= s.drop_last().update(i, AssetBalance { asset: s[i].asset, balance: v }));
    }
    assert forall|a: Address| #[trigger] balance_in(t, a) == balance_in(s, a) + if s[i].asset == a {
        v - s[i].balance
    } else {
        0
    } by {
        if i == s.len() - 1 {
            assert(t.drop_last() =~= s.drop_last());
            assert(t.last() == AssetBalance { asset: s[i].asset, balance: v });
        } else {
            lemma_update(s.drop_last(), i, v);
            assert(t.drop_last() =~= s.drop_last().update(i, AssetBalance { asset: s[i].asset, balance: v }));
            assert(t.last() == s.last());
        }
        assert(balance_in(t, a) == balance_in(t.drop_last(), a) + if t.last().asset == a {
            t.last().balance as int
        } else {
            0
        });
    }
}

proof fn lemma_push(s: Seq<AssetBalance>, x: AssetBalance)
    ensures
        total_in(s.push(x)) == total_in(s) + x.balance,
        forall|a: Address| #[trigger] balance_in(s.push(x), a) == balance_in(s, a) + if x.asset == a {
            x.balance as int
        } else {
            0
        },
{
    assert(s.push(x).drop_last() =~= s);
}

pub proof fn lemma_prefix_total(s: Seq<AssetBalance>, k: int)
    requires
        all_nonneg(s),
        0 <= k < s.len(),
    ensures
        total_in(s.take(k + 1)) == total_in(s.take(k)) + s[k].balance,
        total_in(s.take(k + 1)) <= total_in(s),
    decreases s.len(),
{
    assert(s.take(k + 1).drop_last() =~= s.take(k));
    if k + 1 < s.len() {
        lemma_prefix_total(s.drop_last(), k);
        assert(s.drop_last().take(k + 1) =~= s.take(k + 1));
        assert(s.drop_last().take(k) =~= s.take(k));
    } else {
        assert(s.take(k + 1) =~= s);
    }
}

/// Balances per asset. Each asset has at most one entry, no balance is
/// negative, and the total of all balances fits in an `i128`.
///
/// Kept in a `Vec` rather than the host's `Map`, which can only be built
/// inside a running host environment.
pub struct AssetLedger {
    pub entries: Vec<AssetBalance>,
}

impl AssetLedger {
    pub open spec fn wf(&self) -> bool {
        &&& keys_unique(self.entries@)
        &&& all_nonneg(self.entries@)
        &&& total_in(self.entries@) <= i128::MAX
    }

    /// The balance held in asset `a`.
    pub open spec fn balance_spec(&self, a: Address) -> int {
        balance_in(self.entries@, a)
    }

    /// The sum of the balances over all assets.
    pub open spec fn total_spec(&self) -> int {
        total_in(self.entries@)
    }

    pub proof fn lemma_bounds(&self, a: Address)
        requires
            self.wf(),
        ensures
            0 <= self.balance_spec(a) <= self.total_spec() <= i128::MAX,
    {
        lemma_nonneg(self.entries@, a);
    }

    /// Whether the ledger keeps its invariant.
    pub fn is_wf(&self) -> (r: bool)
        ensures
            r == self.wf(),
    {
        let n = self.entries.len();
        let mut i: usize = 0;
        while i < n
            invariant
                n == self.entries@.len(),
                i <= n,
                forall|x: int, y: int| 0 <= x < i && x < y < n ==> self.entries@[x].asset != self.entries@[y].asset,
            decreases n - i,
        {
            let mut j: usize = i + 1;
            while j < n
                invariant
                    n == self.entries@.len(),
                    i < n,
                    i + 1 <= j <= n,
                    forall|x: int, y: int| 0 <= x < i && x < y < n ==> self.entries@[x].asset != self.entries@[y].asset,
                    forall|y: int| i < y < j ==> self.entries@[i as int].asset != self.entries@[y].asset,
                decreases n - j,
            {
                if self.entries[i].asset == self.entries[j].asset {
                    return false;
                }
                j = j + 1;
            }
            i = i + 1;
        }
        let mut i: usize = 0;
        while i < n
            invariant
                n == self.entries@.len(),
                i <= n,
                forall|k: int| 0 <= k < i ==> self.entries@[k].balance >= 0,
            decreases n - i,
        {
            if self.entries[i].balance < 0 {
                return false;
            }
            i = i + 1;
        }
        let mut sum: i128 = 0;
        let mut i: usize = 0;
        proof {
            assert(self.entries@.take(0) =~= Seq::<AssetBalance>::empty());
        }
        while i < n
            invariant
                n == self.entries@.len(),
                i <= n,
                all_nonneg(self.entries@),
                sum == total_in(self.entries@.take(i as int)),
                0 <= sum,
            decreases n - i,
        {
            proof {
                lemma_prefix_total(self.entries@, i as int);
            }
            let x = self.entries[i].balance;
            if sum > i128::MAX - x {
                return false;
            }
            sum = sum + x;
            i = i + 1;
        }
        proof {
            assert(self.entries@.take(n as int) =~= self.entries@);
        }
        true
    }

    /// A ledger with no balances.
    pub fn new() -> (r: AssetLedger)
        ensures
            r.wf(),
            r.entries@.len() == 0,
            r.total_spec() == 0,
            forall|a: Address| #[trigger] r.balance_spec(a) == 0,
    {
        AssetLedger { entries: Vec::new() }
    }

    /// The index of the entry for `a`, if there is one.
    fn find(&self, a: Address) -> (r: Option<usize>)
        ensures
            match r {
                Some(i) => i < self.entries@.len() && self.entries@[i as int].asset == a,
                None => forall|k: int| 0 <= k < self.entries@.len() ==> self.entries@[k].asset != a,
            },
    {
        let mut i: usize = 0;
        while i < self.entries.len()
            invariant
                i <= self.entries@.len(),
                forall|k: int| 0 <= k < i ==> self.entries@[k].asset != a,
            decreases self.entries@.len() - i,
        {
            if self.entries[i].asset == a {
                return Some(i);
            }
            i = i + 1;
        }
        None
    }

    /// The balance held in asset `a`; zero for an asset never credited.
    pub fn balance_of(&self, a: Address) -> (r: i128)
        requires
            self.wf(),
        ensures
            r == self.balance_spec(a),
            r >= 0,
    {
        match self.find(a) {
            Some(i) => {
                proof {
                    lemma_lookup(self.entries@, i as int);
                }
                self.entries[i].balance
            },
            None => {
                proof {
                    lemma_absent(self.entries@, a);
                }
                0
            },
        }
    }

    /// The sum of the balances over all assets.
    pub fn total(&self) -> (r: i128)
        requires
            self.wf(),
        ensures
            r == self.total_spec(),
    {
        let mut sum: i128 = 0;
        let mut i: usize = 0;
        proof {
            assert(self.entries@.take(0) =~= Seq::<AssetBalance>::empty());
        }
        while i < self.entries.len()
            invariant
                self.wf(),
                i <= self.entries@.len(),
                sum == total_in(self.entries@.take(i as int)),
            decreases self.entries@.len() - i,
        {
            proof {
                lemma_prefix_total(self.entries@, i as int);
                lemma_nonneg(self.entries@.take(i as int), 0);
            }
            sum = sum + self.entries[i].balance;
            i = i + 1;
        }
        proof {
            assert(self.entries@.take(i as int) =~= self.entries@);
        }
        sum
    }

    /// Adds `amount` to the balance of `a`.
    pub fn credit(&mut self, a: Address, amount: i128)
        requires
            old(self).wf(),
            amount >= 0,
            old(self).total_spec() + amount <= i128::MAX,
        ensures
            final(self).wf(),
            final(self).total_spec() == old(self).total_spec() + amount,
            forall|b: Address| #[trigger] final(self).balance_spec(b) == old(self).balance_spec(b) + if b == a {
                amount as int
            } else {
                0
            },
    {
        proof {
            lemma_nonneg(self.entries@, a);
        }
        match self.find(a) {
            Some(i) => {
                proof {
                    lemma_lookup(self.entries@, i as int);
                }
                let v: i128 = self.entries[i].balance + amount;
                proof {
                    lemma_update(self.entries@, i as int, v);
                }
                self.entries.set(i, AssetBalance { asset: a, balance: v });
            },
            None => {
                let x = AssetBalance { asset: a, balance: amount };
                proof {
                    lemma_push(self.entries@, x);
                }
                self.entries.push(x);
            },
        }
    }

    /// Takes `amount` from the balance of `a`; fails, changing nothing, when
    /// that balance is smaller than `amount`.
    pub fn debit(&mut self, a: Address, amount: i128) -> (r: Result<(), Error>)
        requires
            old(self).wf(),
            amount >= 0,
        ensures
            final(self).wf(),
            old(self).balance_spec(a) < amount ==> r == Err::<(), Error>(Error::InsufficientFunds)
                && *final(self) == *old(self),
            old(self).balance_spec(a) >= amount ==> r is Ok
                && final(self).total_spec() == old(self).total_spec() - amount
                && forall|b: Address| #[trigger] final(self).balance_spec(b) == old(self).balance_spec(b) - if b == a {
                    amount as int
                } else {
                    0
                },
    {
        match self.find(a) {
            Some(i) => {
                proof {
                    lemma_lookup(self.entries@, i as int);
                }
                let cur: i128 = self.entries[i].balance;
                if cur < amount {
                    return Err(Error::InsufficientFunds);
                }
                let v: i128 = cur - amount;
                proof {
                    lemma_update(self.entries@, i as int, v);
                }
                self.entries.set(i, AssetBalance { asset: a, balance: v });
                Ok(())
            },
            None => {
                proof {
                    lemma_absent(self.entries@, a);
                }
                if amount == 0 {
                    return Ok(());
                }
                Err(Error::InsufficientFunds)
            },
        }
    }
}

} // verus!
