//! State-transition core of a fungible-token ledger.
//!
//! Balances and allowances live in a byte-level key-value store; every
//! operation is one atomic transition of that store, stated against a
//! mathematical model of it.

pub mod amount;
pub mod error;
pub mod event;
pub mod history;
pub mod keys;
pub mod laws;
pub mod ledger;
pub mod model;
pub mod store;
pub mod supply;
pub mod text;

pub use error::Error;
pub use keys::Address;
pub use ledger::{allowance, approve, balanceOf, init, transfer, transferFrom, Ledger};
pub use model::TOTAL_SUPPLY;
