//! A peer-announcement protocol core: a signed message envelope codec and a
//! directory of known sites built from verified envelopes.
//!
//! The codec signs and canonically encodes announcement payloads, and decodes
//! and verifies received byte blobs. The directory records which site names
//! have been seen, keyed by name, with a logical last-seen stamp. Dispatch
//! routines consume transport events, feed verified registrations into the
//! directory, and build the outgoing announcement bytes. All transport,
//! timer and terminal concerns live outside this crate.

pub mod crypto;
pub mod dispatch;
pub mod messages;
pub mod site_messages;
pub mod sites;
pub mod topic;
pub mod wire;

use vstd::prelude::*;

verus! {

} // verus!
