//! A minimal bank ledger: account balances and investment positions, changed
//! by five checked operations whose effects are stated over a mathematical
//! model of the ledger and proved.

pub mod amount;
pub mod error;
pub mod model;
pub mod bank;
pub mod laws;

pub use amount::Amount;
pub use bank::{buy_investment, deposit, sell_investment, transfer, withdraw, BankState, Investment};
pub use error::BankError;
