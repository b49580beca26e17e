//! A verified wallet account aggregate: a single logical account that owns a
//! set of derived addresses, an append-only ledger of messages (transactions),
//! and a computed balance. The account can be synchronized against a snapshot
//! of network state, generate new receiving addresses, build transfers, and
//! consolidate dust outputs.
//!
//! Network, signing and persistence are external collaborators: the library
//! takes their outputs as plain values (a network snapshot, freshly derived
//! address values, network-assigned message ids) and performs all bookkeeping
//! and decision logic over them in verified code.

pub mod account;
pub mod address;
pub mod balance;
pub mod error;
pub mod ledger;
pub mod message;
pub mod render;
pub mod sync;

use vstd::prelude::*;

verus! {

/// Saturating addition on `u64`, used by balance summation so that a
/// pathological state cannot overflow.
pub fn sat_add(a: u64, b: u64) -> (r: u64)
    ensures
        r as int == if a + b <= u64::MAX { a + b } else { u64::MAX as int },
{
    if a <= u64::MAX - b {
        a + b
    } else {
        u64::MAX
    }
}

} // verus!
