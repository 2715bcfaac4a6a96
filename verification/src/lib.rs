//! A per-identifier reputation ledger for phone numbers.
//!
//! The crate keeps a mapping from an opaque phone-number identifier to a
//! trust record, and applies three operations to it: registering a number,
//! inspecting its record, and reporting it for spam. Spam reports bump a
//! 16-slot saturating trust-rating bank and, once the sum of the bank
//! strictly exceeds a fixed threshold, classify the number's domain as
//! `"spam"` — a transition that is never reverted.
//!
//! The store is owned by the host and passed by reference into every
//! operation; authentication, ordering and delivery of the emitted
//! notifications are the host's concern.

pub mod laws;
pub mod ledger;
pub mod pallet;
pub mod record;
