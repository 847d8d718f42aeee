//! A verified escrow engine for bounty payouts: custody of locked funds,
//! release to contributors, refunds to depositors, and the ledger
//! invariants that hold after every operation.
//!
//! Every mutating operation returns the token transfers that the host must
//! carry out; the engine itself only keeps the books.

pub mod types;
pub mod fees;
pub mod guard;
pub mod ledger;
pub mod escrow;
pub mod contract;
pub mod lifecycle;
pub mod release;
pub mod refund;
pub mod expiry;
pub mod batch;
pub mod batch_release;
pub mod laws;
pub mod queries;
pub mod listing;
pub mod admin;
pub mod rbac;
pub mod testing;
pub mod validity;

pub use contract::{BountyEscrowContract, EscrowEntry};
pub use escrow::Escrow;
pub use fees::ProgramEscrowContract;
pub use guard::{GuardState, ReentrancyError, ReentrancyGuard};
pub use ledger::{AssetBalance, AssetLedger};
pub use listing::EscrowFilter;
pub use queries::{EscrowStats, Pagination};
pub use rbac::Role;
pub use types::{
    Address, AmountLimits, Error, EscrowStatus, FeeConfig, LockFundsItem, PayoutRecord, RefundApproval,
    RefundMode, RefundRecord, ReleaseFundsItem, Transfer,
};
