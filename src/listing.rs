use vstd::prelude::*;
use crate::contract::{BountyEscrowContract, EscrowEntry};
use crate::escrow::Escrow;
use crate::queries::Pagination;
use crate::types::{Address, EscrowStatus};

verus! {

/// Conditions on the escrows to list; each one given must hold.
#[derive(Clone, Copy, Debug, PartialEq, Eq, Structural)]
pub struct EscrowFilter {
    pub status: Option<EscrowStatus>,
    pub depositor: Option<Address>,
    pub min_amount: Option<i128>,
    pub max_amount: Option<i128>,
    /// Earliest deadline admitted.
    pub start_time: Option<u64>,
    /// Latest deadline admitted.
    pub end_time: Option<u64>,
}

/// Whether `e` meets every condition of `f`.
pub open spec fn matches_filter(e: Escrow, f: EscrowFilter) -> bool {
    &&& (f.status is Some ==> e.status == f.status->Some_0)
    &&& (f.depositor is Some ==> e.depositor == f.depositor->Some_0)
    &&& (f.min_amount is Some ==> e.amount >= f.min_amount->Some_0)
    &&& (f.max_amount is Some ==> e.amount <= f.max_amount->Some_0)
    &&& (f.start_time is Some ==> e.deadline >= f.start_time->Some_0)
    &&& (f.end_time is Some ==> e.deadline <= f.end_time->Some_0)
}

/// The ids of the escrows of `s` that meet `f`, in order.
pub open spec fn matching_ids(s: Seq<EscrowEntry>, f: EscrowFilter) -> Seq<u64>
    decreases s.len(),
{
    if s.len() == 0 {
        Seq::empty()
    } else if matches_filter(s.last().escrow, f) {
        matching_ids(s.drop_last(), f).push(s.last().bounty_id)
    } else {
        matching_ids(s.drop_last(), f)
    }
}

/// The part of `ids` that page `p` selects.
pub open spec fn page_of(ids: Seq<u64>, p: Pagination) -> Seq<u64> {
    let lo = if p.start_index as int <= ids.len() { p.start_index as int } else { ids.len() as int };
    let hi = if p.start_index + p.limit <= ids.len() { p.start_index + p.limit } else { ids.len() as int };
    ids.subrange(lo, hi)
}

fn matches(e: &Escrow, f: &EscrowFilter) -> (r: bool)
    ensures
        r == matches_filter(*e, *f),
{
    match f.status {
        Some(st) => if e.status != st {
            return false;
        },
        None => {},
    }
    match f.depositor {
        Some(d) => if e.depositor != d {
            return false;
        },
        None => {},
    }
    match f.min_amount {
        Some(m) => if e.amount < m {
            return false;
        },
        None => {},
    }
    match f.max_amount {
        Some(m) => if e.amount > m {
            return false;
        },
        None => {},
    }
    match f.start_time {
        Some(t) => if e.deadline < t {
            return false;
        },
        None => {},
    }
    match f.end_time {
        Some(t) => if e.deadline > t {
            return false;
        },
        None => {},
    }
    true
}

impl BountyEscrowContract {
    /// The escrows that meet `filter`, in the order they were created, and
    /// of those only the page that `pagination` selects, each with its id.
    pub fn get_bounties(&self, filter: EscrowFilter, pagination: Pagination) -> (r: Vec<(u64, Escrow)>)
        requires
            self.wf(),
        ensures
            r@.len() == page_of(matching_ids(self.escrows@, filter), pagination).len(),
            forall|k: int| 0 <= k < r@.len() ==> {
                let id = page_of(matching_ids(self.escrows@, filter), pagination)[k];
                &&& (#[trigger] r@[k]).0 == id
                &&& self.has_bounty(id)
                &&& self.escrow_of(id).same_record(r@[k].1)
            },
    {
        let ghost s = self.escrows@;
        let mut out: Vec<(u64, Escrow)> = Vec::new();
        let mut found: u64 = 0;
        let mut i: usize = 0;
        proof {
            assert(s.take(0) =~= Seq::<EscrowEntry>::empty());
        }
        while i < self.escrows.len()
            invariant
                self.wf(),
                s == self.escrows@,
                i <= s.len(),
                found == matching_ids(s.take(i as int), filter).len(),
                found <= i,
                out@.len() == page_of(matching_ids(s.take(i as int), filter), pagination).len(),
                forall|k: int| 0 <= k < out@.len() ==> {
                    let id = page_of(matching_ids(s.take(i as int), filter), pagination)[k];
                    &&& (#[trigger] out@[k]).0 == id
                    &&& self.has_bounty(id)
                    &&& self.escrow_of(id).same_record(out@[k].1)
                },
            decreases s.len() - i,
        {
            let ghost prev = matching_ids(s.take(i as int), filter);
            proof {
                assert(s.take(i as int + 1).drop_last() =~= s.take(i as int));
                assert(s.take(i as int + 1).last() == s[i as int]);
                self.lemma_slot(i as int);
            }
            let entry = &self.escrows[i];
            if matches(&entry.escrow, &filter) {
                let ghost next = prev.push(entry.bounty_id);
                proof {
                    assert(matching_ids(s.take(i as int + 1), filter) == next);
                }
                if found >= pagination.start_index && found - pagination.start_index < pagination.limit as u64 {
                    let ghost before = out@;
                    out.push((entry.bounty_id, entry.escrow.duplicate()));
                    proof {
                        assert(page_of(next, pagination) =~= page_of(prev, pagination).push(entry.bounty_id));
                        assert forall|k: int| 0 <= k < out@.len() implies {
                            let id = page_of(next, pagination)[k];
                            &&& (#[trigger] out@[k]).0 == id
                            &&& self.has_bounty(id)
                            &&& self.escrow_of(id).same_record(out@[k].1)
                        } by {
                            if k < before.len() {
                                assert(out@[k] == before[k]);
                            }
                        }
                    }
                } else {
                    proof {
                        assert(page_of(next, pagination) =~= page_of(prev, pagination));
                    }
                }
                found = found + 1;
            } else {
                proof {
                    assert(matching_ids(s.take(i as int + 1), filter) == prev);
                }
            }
            i = i + 1;
        }
        proof {
            assert(s.take(i as int) =~= s);
        }
        out
    }
}

} // verus!
