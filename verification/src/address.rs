//! Addresses and the account's address book.
//!
//! An address is identified within an account by its derivation index and its
//! role (external receiving address or internal change address); indexes are
//! assigned monotonically and are contiguous per role. The encoded address
//! value itself is produced by the key-derivation backend and is opaque data
//! here: operations that derive a new address take the freshly derived value
//! as an argument.

use vstd::prelude::*;
use vstd::pervasive::VecAdditionalExecFns;

verus! {

/// A derived address of the account.
///
/// `balance`, `output_count` and `dust_allowance_count` reflect what the last
/// synchronization reported for this address; `used` records whether the
/// address has ever appeared in a known message, and never reverts to
/// `false`.
pub struct Address {
    pub value: String,
    pub index: u64,
    pub internal: bool,
    pub balance: u64,
    pub used: bool,
    pub output_count: u64,
    pub dust_allowance_count: u64,
}

impl Address {
    /// A copy of this address.
    pub fn duplicate(&self) -> (r: Address)
        ensures
            r == *self,
    {
        Address {
            value: self.value.clone(),
            index: self.index,
            internal: self.internal,
            balance: self.balance,
            used: self.used,
            output_count: self.output_count,
            dust_allowance_count: self.dust_allowance_count,
        }
    }
}

/// A freshly derived address with role `internal` and index `index`, not yet
/// seen in any message.
pub open spec fn fresh_address(value: String, index: u64, internal: bool) -> Address {
    Address {
        value,
        index,
        internal,
        balance: 0,
        used: false,
        output_count: 0,
        dust_allowance_count: 0,
    }
}

/// Well-formed role column: entry `i` carries derivation index `i` and the
/// role `internal`.
pub open spec fn addresses_wf(s: Seq<Address>, internal: bool) -> bool {
    forall|i: int|
        0 <= i < s.len() ==> (#[trigger] s[i]).index == i && s[i].internal == internal
}

/// The account's derived addresses, one column per role, each ordered by
/// derivation index.
pub struct AddressBook {
    pub external: Vec<Address>,
    pub internal: Vec<Address>,
}

impl AddressBook {
    /// Well-formed book: per role, indexes are exactly `0..len`, ascending.
    pub open spec fn wf(&self) -> bool {
        &&& addresses_wf(self.external@, false)
        &&& addresses_wf(self.internal@, true)
        &&& self.external@.len() <= u64::MAX
        &&& self.internal@.len() <= u64::MAX
    }

    /// An empty address book.
    pub fn new() -> (r: AddressBook)
        ensures
            r.external@ == Seq::<Address>::empty(),
            r.internal@ == Seq::<Address>::empty(),
            r.wf(),
    {
        AddressBook { external: Vec::new(), internal: Vec::new() }
    }

    /// Derives the next external address: appends a fresh address at the next
    /// available index, built around the backend-derived `value`.
    pub fn derive_external(&mut self, value: String) -> (r: Address)
        requires
            old(self).wf(),
            old(self).external@.len() < u64::MAX,
        ensures
            final(self).wf(),
            final(self).internal@ == old(self).internal@,
            final(self).external@ == old(self).external@.push(
                fresh_address(value, old(self).external@.len() as u64, false),
            ),
            r == fresh_address(value, old(self).external@.len() as u64, false),
    {
        let index = self.external.len() as u64;
        let a = Address {
            value,
            index,
            internal: false,
            balance: 0,
            used: false,
            output_count: 0,
            dust_allowance_count: 0,
        };
        let r = a.duplicate();
        self.external.push(a);
        r
    }

    /// The highest-index external address, if any exists.
    pub fn latest_external(&self) -> (r: Option<&Address>)
        ensures
            match r {
                Some(a) => self.external@.len() > 0 && *a == self.external@.last(),
                None => self.external@.len() == 0,
            },
    {
        if self.external.len() == 0 {
            None
        } else {
            Some(&self.external[self.external.len() - 1])
        }
    }

    /// True iff the highest-index external address exists and has not been
    /// used yet.
    pub fn is_latest_unused(&self) -> (r: bool)
        ensures
            r == (self.external@.len() > 0 && !self.external@.last().used),
    {
        match self.latest_external() {
            Some(a) => !a.used,
            None => false,
        }
    }

    /// The position of the first unused external address, if one exists.
    pub fn first_unused_external(&self) -> (r: Option<usize>)
        ensures
            match r {
                Some(i) => i < self.external@.len() && !self.external@[i as int].used && forall|
                    j: int,
                |
                    0 <= j < i ==> self.external@[j].used,
                None => forall|j: int| 0 <= j < self.external@.len() ==> self.external@[j].used,
            },
    {
        let mut i: usize = 0;
        while i < self.external.len()
            invariant
                0 <= i <= self.external@.len(),
                forall|j: int| 0 <= j < i ==> self.external@[j].used,
            decreases self.external@.len() - i,
        {
            if !self.external[i].used {
                return Some(i);
            }
            i += 1;
        }
        None
    }

    /// Marks the external address at position `i` as used.
    pub fn mark_external_used(&mut self, i: usize)
        requires
            old(self).wf(),
            i < old(self).external@.len(),
        ensures
            final(self).wf(),
            final(self).internal@ == old(self).internal@,
            final(self).external@ == old(self).external@.update(
                i as int,
                Address { used: true, ..old(self).external@[i as int] },
            ),
    {
        let updated = Address { used: true, ..self.external[i].duplicate() };
        self.external.set(i, updated);
    }

    /// Marks the internal address at position `i` as used.
    pub fn mark_internal_used(&mut self, i: usize)
        requires
            old(self).wf(),
            i < old(self).internal@.len(),
        ensures
            final(self).wf(),
            final(self).external@ == old(self).external@,
            final(self).internal@ == old(self).internal@.update(
                i as int,
                Address { used: true, ..old(self).internal@[i as int] },
            ),
    {
        let updated = Address { used: true, ..self.internal[i].duplicate() };
        self.internal.set(i, updated);
    }
}

/// The addresses of `s` whose `used` flag equals `used`, in derivation-index
/// order.
pub open spec fn partition_by_used(s: Seq<Address>, used: bool) -> Seq<Address> {
    s.filter(|a: Address| a.used == used)
}

/// Collects the addresses of `v` whose `used` flag equals `used`, preserving
/// derivation-index order.
pub fn collect_by_used(v: &Vec<Address>, used: bool) -> (r: Vec<Address>)
    ensures
        r@ == partition_by_used(v@, used),
{
    let mut r: Vec<Address> = Vec::new();
    let mut i: usize = 0;
    while i < v.len()
        invariant
            0 <= i <= v@.len(),
            r@ == partition_by_used(v@.take(i as int), used),
        decreases v@.len() - i,
    {
        proof {
            assert(v@.take(i + 1).drop_last() =~= v@.take(i as int));
            assert(v@.take(i + 1).last() == v@[i as int]);
            reveal_with_fuel(Seq::filter, 2);
        }
        if v[i].used == used {
            r.push(v[i].duplicate());
        }
        i += 1;
    }
    proof {
        assert(v@.take(v@.len() as int) =~= v@);
    }
    r
}

} // verus!
