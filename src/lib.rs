//! Identity and license-state rotation for a locally installed desktop application: process
//! guarding, identity generation, dual-store writes, a reversible fingerprint-gated source patch,
//! and a deduplicated ledger of account credentials.

use vstd::prelude::*;

pub mod config;
pub mod hook;
pub mod identity;
pub mod ledger;
pub mod paths;
pub mod process;
pub mod rotation;
pub mod store;
pub mod text;
pub mod types;
pub mod version;

verus! {

} // verus!
