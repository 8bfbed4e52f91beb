//! Account identities, reduced to plain numeric ids.
//!
//! The host ledger's addresses are opaque to the vault's accounting: all the
//! engine ever does with one is compare it for equality and use it as a key.
//! A plain numeric id carries exactly that.

use vstd::prelude::*;

verus! {

/// An on-ledger identity: the vault's base asset, its admin, its accounts.
#[derive(Clone, Copy, PartialEq, Eq, Structural, Debug, Hash)]
pub struct Address(pub u64);

} // verus!
