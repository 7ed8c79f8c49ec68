//! A custodial ledger for fungible value in an account-based store.
//!
//! Accounts are addressed by deterministic derivation from a namespace tag
//! and owner-bound seeds, every mutation is gated by an authorization proof,
//! all arithmetic is checked, and delegated collection goes through a gateway
//! whose counterparty is pinned at configuration time.

pub mod address;
pub mod auth;
pub mod errors;
pub mod gateway;
pub mod ledger;
pub mod transfer;
