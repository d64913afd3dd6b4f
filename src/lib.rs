//! A fungible-token ledger with proved conservation of supply.
//!
//! - `ledger`: the error kinds and the balance arithmetic of a move, a mint and a burn.
//! - `state`: the in-memory ledger, its invariant, and what each operation does to it.
//! - `contract`: the token's operations and queries, and the laws they obey.
//! - `msg`: the request and answer types.

use vstd::prelude::*;

pub mod contract;
pub mod ledger;
pub mod msg;
pub mod state;

verus! {

} // verus!
