//! Accounting core of a fungible-token ledger: balances, total supply,
//! delegated allowances and mint authority with an optional supply cap.
pub mod laws;
pub mod ledger;
pub mod model;
pub mod msg;
