//! A small on-chain value-exchange ledger as a verified state machine:
//! token issuance and minting, a time-boxed crowd-sale, and fee-less
//! constant-product liquidity pools.
//!
//! The host's collaborators stay outside: the accounts that signed a call
//! come in as an `AuthContext`, the clock and the contract's live balance
//! as plain values, and asset movements go out as `Transfer`s for the host
//! to carry out within the same call.
pub mod auth;
pub mod error;
pub mod lumifi;
pub mod pool;
pub mod token;

pub use auth::AuthContext;
pub use error::LumiFiError;
pub use lumifi::{DataKey, FIXED_ICO_ID, Ico, IcoId, LumiFi, Transfer};
pub use pool::{PoolKey, swap_amount};
pub use token::{Account, Token};
