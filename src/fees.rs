use vstd::prelude::*;
use crate::contract::BountyEscrowContract;
use crate::types::BASIS_POINTS;

verus! {

/// The fee on `amount` at `rate` basis points, rounded down.
pub open spec fn fee_of(amount: int, rate: int) -> int {
    amount * rate / 10000
}

impl BountyEscrowContract {
    /// The fee on `amount` at `fee_rate` basis points, rounded down. The
    /// product `amount * fee_rate` is never formed, so every amount is admitted.
    pub fn calculate_fee(amount: i128, fee_rate: i128) -> (r: i128)
        requires
            amount >= 0,
            0 <= fee_rate <= BASIS_POINTS,
        ensures
            r == fee_of(amount as int, fee_rate as int),
            0 <= r <= amount,
    {
        if fee_rate == 0 {
            proof {
                assert(amount * fee_rate == 0) by (nonlinear_arith) requires fee_rate == 0;
            }
            return 0;
        }
        let q: i128 = amount / BASIS_POINTS;
        let m: i128 = amount % BASIS_POINTS;
        proof {
            lemma_fee_by_parts(amount as int, fee_rate as int, q as int, m as int);
        }
        q * fee_rate + (m * fee_rate) / BASIS_POINTS
    }
}

/// Splitting the amount into whole multiples of ten thousand and a remainder
/// gives the same rounded-down fee, with every partial result bounded.
proof fn lemma_fee_by_parts(a: int, r: int, q: int, m: int)
    requires
        a >= 0,
        0 <= r <= 10000,
        q == a / 10000,
        m == a % 10000,
    ensures
        0 <= q * r <= a,
        0 <= m * r < 100000000,
        q * r + (m * r) / 10000 == fee_of(a, r),
        0 <= fee_of(a, r) <= a,
{
    assert(a == 10000 * q + m && 0 <= m < 10000 && q >= 0) by {
        vstd::arithmetic::div_mod::lemma_fundamental_div_mod(a, 10000);
    }
    assert(0 <= q * r <= q * 10000) by (nonlinear_arith) requires q >= 0, 0 <= r <= 10000;
    assert(0 <= m * r < 100000000) by (nonlinear_arith) requires 0 <= m < 10000, 0 <= r <= 10000;
    assert(a * r == (q * r) * 10000 + m * r) by (nonlinear_arith) requires a == 10000 * q + m;
    vstd::arithmetic::div_mod::lemma_hoist_over_denominator(m * r, q * r, 10000);
    assert((m * r + (q * r) * 10000) == a * r);
    lemma_fee_split(a, r);
}

/// Program escrows take their fees by the same rule as bounty escrows.
pub struct ProgramEscrowContract {}

impl ProgramEscrowContract {
    /// The fee on `amount` at `fee_rate` basis points, as for bounty escrows.
    pub fn calculate_fee(amount: i128, fee_rate: i128) -> (r: i128)
        requires
            amount >= 0,
            0 <= fee_rate <= BASIS_POINTS,
        ensures
            r == fee_of(amount as int, fee_rate as int),
    {
        BountyEscrowContract::calculate_fee(amount, fee_rate)
    }
}

/// Splits a gross amount into the part that goes on and the fee taken from it,
/// when fees are enabled with a positive rate; otherwise there is no fee.
pub fn split_fee(gross: i128, enabled: bool, rate: i128) -> (r: (i128, i128))
    requires
        gross >= 0,
        0 <= rate <= BASIS_POINTS,
    ensures
        r.0 + r.1 == gross,
        0 <= r.1 <= gross,
        r.1 == (if enabled && rate > 0 {
            fee_of(gross as int, rate as int)
        } else {
            0
        }),
{
    let fee: i128 = if enabled && rate > 0 {
        BountyEscrowContract::calculate_fee(gross, rate)
    } else {
        0
    };
    (gross - fee, fee)
}

/// For any fee-bearing amount the net and the fee add up to the gross, and the
/// fee is the gross times the rate over ten thousand, rounded down.
pub proof fn lemma_fee_split(gross: int, rate: int)
    requires
        gross >= 0,
        0 <= rate <= 10000,
    ensures
        0 <= fee_of(gross, rate) <= gross,
        (gross - fee_of(gross, rate)) + fee_of(gross, rate) == gross,
{
    assert(0 <= gross * rate <= gross * 10000) by (nonlinear_arith)
        requires gross >= 0, 0 <= rate <= 10000;
    assert(gross * rate / 10000 <= gross) by (nonlinear_arith)
        requires 0 <= gross * rate <= gross * 10000;
    assert(gross * rate / 10000 >= 0) by (nonlinear_arith)
        requires 0 <= gross * rate;
}

} // verus!

verus! {

/// At a rate of at most ten percent, the fee on a positive amount leaves a
/// positive net amount.
pub proof fn lemma_fee_leaves_net(amount: int, rate: int)
    requires
        amount >= 1,
        0 <= rate <= 1000,
    ensures
        0 <= fee_of(amount, rate) < amount,
{
    assert(0 <= amount * rate <= amount * 1000) by (nonlinear_arith)
        requires amount >= 1, 0 <= rate <= 1000;
    assert(amount * rate / 10000 < amount) by (nonlinear_arith)
        requires 0 <= amount * rate <= amount * 1000, amount >= 1;
    assert(amount * rate / 10000 >= 0) by (nonlinear_arith)
        requires 0 <= amount * rate;
}

} // verus!
