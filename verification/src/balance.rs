//! The balance calculator: derives the account's balance snapshot from the
//! address book and the message ledger, on demand.
//!
//! `total` is the sum of all address balances. Unconfirmed sent amounts are
//! excluded from `available` but included in `outgoing`; unconfirmed received
//! amounts are excluded from `available` and included in `incoming`. Sums are
//! saturated at `u64::MAX` so that no state can overflow the snapshot.

use vstd::prelude::*;

use crate::address::{Address, AddressBook};
use crate::ledger::MessageLedger;
use crate::message::{Message, MessageType};
use crate::sat_add;

verus! {

/// A derived balance snapshot; never stored, recomputed on demand.
#[derive(Clone, Copy, PartialEq, Eq, Structural, Debug)]
pub struct AccountBalance {
    pub total: u64,
    pub available: u64,
    pub incoming: u64,
    pub outgoing: u64,
}

impl AccountBalance {
    /// Sum of all address balances, confirmed and unconfirmed.
    pub fn get_total(&self) -> (r: u64)
        ensures
            r == self.total,
    {
        self.total
    }

    /// `total` minus the amounts already committed to pending outgoing
    /// messages.
    pub fn get_available(&self) -> (r: u64)
        ensures
            r == self.available,
    {
        self.available
    }

    /// Sum of amounts of not-yet-confirmed received messages.
    pub fn get_incoming(&self) -> (r: u64)
        ensures
            r == self.incoming,
    {
        self.incoming
    }

    /// Sum of amounts of not-yet-confirmed sent messages.
    pub fn get_outgoing(&self) -> (r: u64)
        ensures
            r == self.outgoing,
    {
        self.outgoing
    }
}

/// The sum of the balances of `s`.
pub open spec fn sum_balances(s: Seq<Address>) -> nat
    decreases s.len(),
{
    if s.len() == 0 {
        0
    } else {
        sum_balances(s.drop_last()) + s.last().balance as nat
    }
}

/// The sum of the values of the unconfirmed messages of type `t` in `l`.
pub open spec fn sum_unconfirmed(l: Seq<Message>, t: MessageType) -> nat
    decreases l.len(),
{
    if l.len() == 0 {
        0
    } else if !l.last().confirmed && l.last().message_type == t {
        sum_unconfirmed(l.drop_last(), t) + l.last().value as nat
    } else {
        sum_unconfirmed(l.drop_last(), t)
    }
}

/// `x` saturated at `u64::MAX`.
pub open spec fn clamped(x: nat) -> u64 {
    if x <= u64::MAX as nat {
        x as u64
    } else {
        u64::MAX
    }
}

/// The balance snapshot derived from address and ledger contents.
pub open spec fn spec_balance(ext: Seq<Address>, itl: Seq<Address>, l: Seq<Message>)
    -> AccountBalance {
    let total = clamped(sum_balances(ext) + sum_balances(itl));
    let incoming = clamped(sum_unconfirmed(l, MessageType::Received));
    let outgoing = clamped(sum_unconfirmed(l, MessageType::Sent));
    AccountBalance {
        total,
        available: if outgoing <= total {
            (total - outgoing) as u64
        } else {
            0
        },
        incoming,
        outgoing,
    }
}

/// Adds the balances of `v` onto `acc`, saturating at `u64::MAX`.
fn add_balances(v: &Vec<Address>, acc: u64) -> (r: u64)
    ensures
        r == clamped(acc as nat + sum_balances(v@)),
{
    let mut r = acc;
    let mut i: usize = 0;
    while i < v.len()
        invariant
            0 <= i <= v@.len(),
            r == clamped(acc as nat + sum_balances(v@.take(i as int))),
        decreases v@.len() - i,
    {
        proof {
            assert(v@.take(i + 1).drop_last() =~= v@.take(i as int));
            assert(v@.take(i + 1).last() == v@[i as int]);
        }
        r = sat_add(r, v[i].balance);
        i += 1;
    }
    proof {
        assert(v@.take(v@.len() as int) =~= v@);
    }
    r
}

/// Adds the values of the unconfirmed messages of type `t` onto `acc`,
/// saturating at `u64::MAX`.
fn add_unconfirmed(l: &Vec<Message>, t: MessageType, acc: u64) -> (r: u64)
    ensures
        r == clamped(acc as nat + sum_unconfirmed(l@, t)),
{
    let mut r = acc;
    let mut i: usize = 0;
    while i < l.len()
        invariant
            0 <= i <= l@.len(),
            r == clamped(acc as nat + sum_unconfirmed(l@.take(i as int), t)),
        decreases l@.len() - i,
    {
        proof {
            assert(l@.take(i + 1).drop_last() =~= l@.take(i as int));
            assert(l@.take(i + 1).last() == l@[i as int]);
        }
        if !l[i].confirmed && l[i].message_type == t {
            r = sat_add(r, l[i].value);
        }
        i += 1;
    }
    proof {
        assert(l@.take(l@.len() as int) =~= l@);
    }
    r
}

/// Derives the balance snapshot from the current address book and message
/// ledger. A pure function of the state handed to it: nothing is cached
/// across mutations.
pub fn compute_balance(book: &AddressBook, ledger: &MessageLedger) -> (r: AccountBalance)
    ensures
        r == spec_balance(book.external@, book.internal@, ledger@),
{
    let total = add_balances(&book.internal, add_balances(&book.external, 0));
    let incoming = add_unconfirmed(&ledger.messages, MessageType::Received, 0);
    let outgoing = add_unconfirmed(&ledger.messages, MessageType::Sent, 0);
    let available = if outgoing <= total {
        total - outgoing
    } else {
        0
    };
    AccountBalance { total, available, incoming, outgoing }
}

/// Law: the balance snapshot never double-counts an amount across `available`
/// and `outgoing`: whenever the pending outgoing amount does not exceed the
/// account total (and the total fits in a `u64`), the snapshot satisfies
/// `total == available + outgoing`.
pub proof fn lemma_balance_invariant(ext: Seq<Address>, itl: Seq<Address>, l: Seq<Message>)
    requires
        sum_unconfirmed(l, MessageType::Sent) <= sum_balances(ext) + sum_balances(itl),
        sum_balances(ext) + sum_balances(itl) <= u64::MAX,
    ensures
        spec_balance(ext, itl, l).total == spec_balance(ext, itl, l).available + spec_balance(
            ext,
            itl,
            l,
        ).outgoing,
{
}

} // verus!
