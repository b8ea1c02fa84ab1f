//! A multi-currency balance ledger whose balances and issuance figures decay
//! continuously over time (demurrage), applied lazily whenever an entry is
//! read or written, with deterministic fixed-point arithmetic.
pub mod demurrage;
pub mod fixed_point;
pub mod laws;
pub mod ledger;
pub mod runtime;
pub mod store;

pub use demurrage::{BalanceEntry, BlockNumber, apply_demurrage};
pub use fixed_point::BalanceType;
pub use ledger::{Error, Event};
pub use runtime::{CurrencyIdentifier, CurrencyProperties, Runtime};
pub use store::{AccountId, ExtBuilder, Module};
