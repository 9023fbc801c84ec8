//! A fungible-asset ledger and the constant-product exchanges built on it.
//!
//! Every pool pairs one ledger asset with the chain's native currency. The
//! ledger, the pool registry and the pricing rules are executable code whose
//! contracts are proved; the native currency is reached through the
//! [`currency::Currency`] interface.

pub mod primitives;
pub mod table;
pub mod types;
pub mod assets;
pub mod currency;
pub mod settlement;
pub mod account;
pub mod pricing;
pub mod dex;
pub mod laws;
