use vstd::prelude::*;

verus! {

/// An account or asset identity. Authentication of an identity happens
/// outside the engine; here it is only compared for equality.
pub type Address = u64;

/// Errors returned by the escrow operations.
#[derive(Clone, Copy, Debug, PartialEq, Eq, Structural)]
pub enum Error {
    AlreadyInitialized,
    NotInitialized,
    BountyExists,
    BountyNotFound,
    FundsNotLocked,
    DeadlineNotPassed,
    Unauthorized,
    TokenNotWhitelisted,
    TokenAlreadyWhitelisted,
    InvalidFeeRate,
    FeeRecipientNotSet,
    InvalidBatchSize,
    ContractPaused,
    DuplicateBountyId,
    InvalidAmount,
    InvalidDeadline,
    InsufficientFunds,
    RefundNotApproved,
    BatchSizeMismatch,
    InvalidDeadlineExtension,
    MetadataTooLarge,
    ReentrantCall,
    ParticipantNotAllowed,
    ActionNotFound,
    ActionNotReady,
    InvalidTimeLock,
}

/// Lifecycle status of an escrow.
#[derive(Clone, Copy, Debug, PartialEq, Eq, Structural)]
pub enum EscrowStatus {
    Locked,
    Released,
    Refunded,
    PartiallyRefunded,
    PartiallyReleased,
}

/// How a refund is computed and to whom it goes.
#[derive(Clone, Copy, Debug, PartialEq, Eq, Structural)]
pub enum RefundMode {
    Full,
    Partial,
    Custom,
}

/// One payout made by a release.
#[derive(Clone, Copy, Debug, PartialEq, Eq, Structural)]
pub struct PayoutRecord {
    pub amount: i128,
    pub recipient: Address,
    pub timestamp: u64,
}

/// One refund made from an escrow.
#[derive(Clone, Copy, Debug, PartialEq, Eq, Structural)]
pub struct RefundRecord {
    pub amount: i128,
    pub recipient: Address,
    pub mode: RefundMode,
    pub timestamp: u64,
}

/// A pending, single-use authorisation for a custom refund before the deadline.
#[derive(Clone, Copy, Debug, PartialEq, Eq, Structural)]
pub struct RefundApproval {
    pub bounty_id: u64,
    pub amount: i128,
    pub recipient: Address,
    pub mode: RefundMode,
    pub approved_by: Address,
    pub approved_at: u64,
}

/// One entry of a batch lock.
#[derive(Clone, Copy, Debug, PartialEq, Eq, Structural)]
pub struct LockFundsItem {
    pub bounty_id: u64,
    pub depositor: Address,
    pub amount: i128,
    pub deadline: u64,
    pub token_address: Option<Address>,
}

/// One entry of a batch release.
#[derive(Clone, Copy, Debug, PartialEq, Eq, Structural)]
pub struct ReleaseFundsItem {
    pub bounty_id: u64,
    pub contributor: Address,
}

/// Fee settings, rates in basis points.
#[derive(Clone, Copy, Debug, PartialEq, Eq, Structural)]
pub struct FeeConfig {
    pub lock_fee_rate: i128,
    pub release_fee_rate: i128,
    pub fee_recipient: Address,
    pub fee_enabled: bool,
}

/// Bounds on lock amounts and on net payouts.
#[derive(Clone, Copy, Debug, PartialEq, Eq, Structural)]
pub struct AmountLimits {
    pub min_lock_amount: i128,
    pub max_lock_amount: i128,
    pub min_payout: i128,
    pub max_payout: i128,
}

/// A token movement that the host must carry out for an operation to take effect.
#[derive(Clone, Copy, Debug, PartialEq, Eq, Structural)]
pub struct Transfer {
    pub token: Address,
    pub from: Address,
    pub to: Address,
    pub amount: i128,
}

/// Largest number of items in one batch.
pub const MAX_BATCH_SIZE: u32 = 100;

/// Basis points in one whole.
pub const BASIS_POINTS: i128 = 10_000;

/// Largest fee rate that can be configured (10%).
pub const MAX_FEE_RATE: i128 = 1_000;

} // verus!
