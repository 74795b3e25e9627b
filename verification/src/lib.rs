//! A registry of vulnerability reports.
//!
//! A reporter stores one report per repository and may have a badge issued
//! for it: a token of supply one, held by the reporter, with a description.
//! Where a report lives is not looked up but derived, from the reporter's
//! identity and the digest of the repository's identifier; that an address
//! is given out once is all that keeps a report from being stored twice.
//!
//! - [`address`]: identities and addresses.
//! - [`digest`], [`derive`]: from reporter and repository to an address.
//! - [`report`]: the report and the bytes in which it persists.
//! - [`ledger`]: the accounts that the collaborators keep, in memory.
//! - [`store`]: creating and reading reports.
//! - [`badge`]: issuing a badge, all steps or none.
//! - [`program`]: the operations that callers reach.
//! - [`laws`]: what holds of all of these, proved.

pub mod address;
pub mod badge;
pub mod derive;
pub mod digest;
pub mod error;
pub mod laws;
pub mod ledger;
pub mod program;
pub mod report;
pub mod store;
