//! Parts of a crowdfunding contract on Soroban, with their contracts proved:
//! per-wallet campaign bookmarks (an ordered list of the campaign ids a wallet
//! has saved, stored on the ledger under its address), campaign deadline
//! arithmetic, basis-point rounding, the pause rule and the storage layout
//! version.
//!
//! `host` declares the `soroban_sdk` items that the verified code calls.

pub mod bookmarks;
pub mod error;
pub mod fees;
pub mod host;
pub mod lifecycle;
pub mod pause;
pub mod saved_list;
pub mod storage;
pub mod version;
