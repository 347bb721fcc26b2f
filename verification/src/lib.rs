//! Issuing and validating UTXO redemption claims against an
//! accumulator-based ledger.
//!
//! A redemption claim sweeps an owner's spendable coins into at most two
//! outputs — one immediately liquid, one time-locked — and publishes
//! plaintext announcements from which a third party can audit exactly what
//! was redeemed.  The library covers the deterministic halves of the
//! protocol: assembling claim batches from eligible coins, validating a set
//! of already-proved claims against one accumulator state, guarding the
//! premine allocation through a lower bound on ledger insertion indices,
//! and compiling the audit report.

pub mod address;
pub mod amount;
pub mod announcement;
pub mod bound;
pub mod claim;
pub mod digest;
pub mod redeem;
pub mod report;
pub mod text;
pub mod timestamp;
pub mod validate;
