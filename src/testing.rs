use vstd::prelude::*;
use crate::contract::BountyEscrowContract;
use crate::types::EscrowStatus;

verus! {

/// A bounty id for tests: the index given, else 1.
pub fn generate_bounty_id(index: Option<u64>) -> (r: u64)
    ensures
        r == match index {
            Some(i) => i,
            None => 1,
        },
{
    match index {
        Some(i) => i,
        None => 1,
    }
}

/// An amount for tests: `base` times the multiplier, which defaults to 1.
pub fn generate_amount(base: i128, multiplier: Option<i128>) -> (r: i128)
    requires
        i128::MIN <= base * match multiplier {
            Some(m) => m as int,
            None => 1,
        } <= i128::MAX,
    ensures
        r == base * match multiplier {
            Some(m) => m as int,
            None => 1,
        },
{
    let m: i128 = match multiplier {
        Some(m) => m,
        None => 1,
    };
    base * m
}

/// The standard test amount.
pub fn standard_amount() -> (r: i128)
    ensures
        r == 1000,
{
    1000
}

/// A large test amount.
pub fn large_amount() -> (r: i128)
    ensures
        r == 1_000_000,
{
    1_000_000
}

/// A small test amount.
pub fn small_amount() -> (r: i128)
    ensures
        r == 100,
{
    100
}

/// Asserts that the escrow of `bounty_id` exists with status `expected`.
/// Callers must only assert what holds.
pub fn assert_escrow_status(c: &BountyEscrowContract, bounty_id: u64, expected: EscrowStatus)
    requires
        c.wf(),
        c.has_bounty(bounty_id),
        c.escrow_of(bounty_id).status == expected,
{
    let i = c.find_escrow(bounty_id);
    proof {
        assert(i is Some);
    }
}

/// Asserts that the escrow of `bounty_id` exists with locked amount `expected`.
/// Callers must only assert what holds.
pub fn assert_escrow_amount(c: &BountyEscrowContract, bounty_id: u64, expected: i128)
    requires
        c.wf(),
        c.has_bounty(bounty_id),
        c.escrow_of(bounty_id).amount == expected,
{
    let i = c.find_escrow(bounty_id);
    proof {
        assert(i is Some);
    }
}

/// Asserts that an escrow exists for `bounty_id`. Callers must only assert
/// what holds.
pub fn assert_escrow_exists(c: &BountyEscrowContract, bounty_id: u64)
    requires
        c.wf(),
        c.has_bounty(bounty_id),
{
    let i = c.find_escrow(bounty_id);
    proof {
        assert(i is Some);
    }
}

/// Asserts that the escrow of `bounty_id` exists with deadline `expected`.
/// Callers must only assert what holds.
pub fn assert_escrow_deadline(c: &BountyEscrowContract, bounty_id: u64, expected: u64)
    requires
        c.wf(),
        c.has_bounty(bounty_id),
        c.escrow_of(bounty_id).deadline == expected,
{
    let i = c.find_escrow(bounty_id);
    proof {
        assert(i is Some);
    }
}

} // verus!
