//! Single-supply token issuance: one ordered, all-or-nothing operation
//! that creates a mint with zero fractional precision, provisions a
//! deterministic holding account for a recipient, mints exactly one unit
//! into it, and records descriptive metadata in a fixed-size slot whose
//! address is derived from the mint.
//!
//! The entry point is [`issuance::issue`], which drives the two services
//! it consumes: the [`ledger::Ledger`] (mints, holding accounts, units)
//! and the [`store::Store`] (fixed-size, write-once record slots).
//! Addresses of created accounts come from the deterministic scheme in
//! [`derivation`], and records are persisted in the durable byte layout
//! of [`codec`].

pub mod address;
pub mod capability;
pub mod codec;
pub mod derivation;
pub mod issuance;
pub mod keyed;
pub mod ledger;
pub mod metadata;
pub mod store;
