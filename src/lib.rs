//! Ledger and marketplace for limited-edition trail series: series creation,
//! sequential minting of copies, sales with a platform fee, ownership
//! transfers and storage-deposit reconciliation.
//!
//! The host (account identity, attached deposits, storage metering, value
//! transfers, event logs) stays outside this crate: every operation takes what
//! it needs from the host as plain values and hands back what the host must do.
use vstd::prelude::*;

pub mod fee;
pub mod ids;
pub mod metadata;
pub mod event;
pub mod error;
pub mod storage;
pub mod ledger;
pub mod market;
pub mod nft_core;
pub mod create_serie;
pub mod admin;
pub mod sub_admin;
pub mod bridge;
pub mod laws;

verus! {

/// Separates the series id from the copy number inside a copy id.
pub const TRAIL_DELIMETER: char = ':';

/// One NEAR in yoctoNEAR.
pub const ONE_NEAR: u128 = 1000000000000000000000000;

/// Storage deposit that covers one purchase.
pub const BUY_STORAGE: u128 = 6920000000000000000000;

/// Ceiling on a series price (one billion NEAR, in yoctoNEAR).
pub const MAX_PRICE: u128 = 1000000000000000000000000000000000;

} // verus!
