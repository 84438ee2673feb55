//! Hashed-timelock escrow engines for atomic swaps between two ledgers.
//!
//! Every operation is a pure transition on an owned engine value: the host
//! supplies the caller's identity, the ledger time and the attached amount,
//! and receives the record of what happened together with the transfer it has
//! to carry out. All behaviour is stated in contracts and machine-checked.
//!
//! [`FusionHTLC`] holds escrows under textual commitments and the registry of
//! outbound requests; [`HTLCNear`] holds escrows under binary commitments and
//! the book of orders that are filled in parts.

pub mod contract;
pub mod error;
pub mod fills;
pub mod fusion;
pub mod fusion_laws;
pub mod hashing;
pub mod ids;
pub mod near;
pub mod near_laws;
pub mod store;
pub mod swap;
pub mod text;

pub use contract::{
    CrossChainHTLC, FillState, HTLCContract, PartialFill, PartialFillSwap, SwapProgress,
};
pub use error::HtlcError;
pub use fusion::{FusionHTLC, FusionState};
pub use near::{HTLCNear, NearState};
pub use swap::{
    EthSwapRequest, EthSwapRequestedEvent, HTLCSwap, SwapClaimedEvent, SwapInitiatedEvent,
    SwapRefundedEvent, SwapState, SwapStatus, Transfer,
};
