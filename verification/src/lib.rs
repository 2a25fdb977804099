//! Incoming cross-chain NFT transfers: a message from another chain is
//! authenticated, guarded against replay, turned into one unit of a local asset and
//! an origin record, and logged.
//!
//! - [`codec`]: integers and texts as bytes.
//! - [`state`]: the message and the records kept in storage slots.
//! - [`pda`]: the addresses of those slots.
//! - [`ledger`]: the slots, the issuances and the audit log.
//! - [`instructions`]: the handler, and what holds of it.

pub mod codec;
pub mod instructions;
pub mod ledger;
pub mod pda;
pub mod state;
