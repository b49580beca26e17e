//! The synchronizer: reconciles the local address book and message ledger
//! against a snapshot of network truth.
//!
//! The network itself is an external collaborator. A caller queries it — for
//! every known external address and a lookahead window beyond the highest
//! known index — and hands the answers in as a `NetworkSnapshot`: one
//! `AddressRecord` per external derivation index, starting at index zero.
//! Applying a snapshot is a pure state transition, so it is verified for
//! every possible network answer:
//!
//! - every reported message not yet in the ledger is appended, deduplicated
//!   by id; a known message's `confirmed` flag may be raised, never lowered;
//! - an address found with message history becomes `used = true` (and never
//!   reverts);
//! - the address book is extended by gap-limit discovery: addresses are
//!   derived until a trailing window of `gap_limit` unused addresses follows
//!   the highest active index.
//!
//! Synchronization is idempotent, not atomic: applying the same snapshot
//! twice changes nothing (`lemma_sync_idempotent`), and a caller whose
//! network queries partially failed may apply the successfully queried
//! prefix, surface a `SyncError`, and re-sync later without duplicating
//! messages.

use vstd::prelude::*;
use vstd::pervasive::VecAdditionalExecFns;

use crate::address::{addresses_wf, fresh_address, Address, AddressBook};
use crate::ledger::MessageLedger;
use crate::message::{
    absorbed, lemma_merge_absorbed, lemma_merge_absorbs, lemma_merge_message_shape, merge_messages, merge_messages_prefix, Message,
};

verus! {

/// What the network reports for one external derivation index: the address's
/// balance, its output counts, and its message history.
pub struct AddressRecord {
    pub balance: u64,
    pub output_count: u64,
    pub dust_allowance_count: u64,
    pub messages: Vec<Message>,
}

/// A snapshot of network truth: `records[i]` describes the external address
/// at derivation index `i`. Indexes beyond the snapshot's length reported no
/// activity.
pub struct NetworkSnapshot {
    pub records: Vec<AddressRecord>,
}

/// Whether the network found any trace of this address: message history or a
/// nonzero balance.
pub open spec fn record_active(r: AddressRecord) -> bool {
    r.messages@.len() > 0 || r.balance > 0
}

/// One past the highest active index of the snapshot; `0` if nothing is
/// active.
pub open spec fn active_end(recs: Seq<AddressRecord>) -> int
    decreases recs.len(),
{
    if recs.len() == 0 {
        0
    } else if record_active(recs.last()) {
        recs.len() as int
    } else {
        active_end(recs.drop_last())
    }
}

/// The address book length after gap-limit discovery: never shrinks, and
/// reaches `gap_limit` unused addresses past the highest active index.
pub open spec fn synced_len(old_len: int, recs: Seq<AddressRecord>, gap: int) -> int {
    let target = active_end(recs) + gap;
    if old_len >= target {
        old_len
    } else {
        target
    }
}

/// An existing address after the snapshot is applied: balance and output
/// counts are taken from the network's record, `used` is raised if the
/// address has message history, and nothing reverts.
pub open spec fn synced_existing(a: Address, i: int, recs: Seq<AddressRecord>) -> Address {
    if 0 <= i < recs.len() {
        Address {
            balance: recs[i].balance,
            output_count: recs[i].output_count,
            dust_allowance_count: recs[i].dust_allowance_count,
            used: a.used || recs[i].messages@.len() > 0,
            ..a
        }
    } else {
        a
    }
}

/// An address derived during discovery, immediately reconciled with the
/// snapshot's record for its index.
pub open spec fn synced_new(value: String, i: int, recs: Seq<AddressRecord>) -> Address {
    synced_existing(fresh_address(value, i as u64, false), i, recs)
}

/// The external address column after the snapshot is applied, with newly
/// derived addresses built around the caller-supplied fresh values.
pub open spec fn synced_addresses(
    olds: Seq<Address>,
    recs: Seq<AddressRecord>,
    values: Seq<String>,
    gap: int,
) -> Seq<Address> {
    Seq::new(
        synced_len(olds.len() as int, recs, gap) as nat,
        |i: int|
            if i < olds.len() {
                synced_existing(olds[i], i, recs)
            } else {
                synced_new(values[i - olds.len()], i, recs)
            },
    )
}

/// The ledger contents after the message histories of the first `n` records
/// are reconciled in, in index order.
pub open spec fn merge_records_prefix(l: Seq<Message>, recs: Seq<AddressRecord>, n: int) -> Seq<
    Message,
>
    decreases n,
{
    if n <= 0 {
        l
    } else {
        merge_messages(merge_records_prefix(l, recs, n - 1), recs[n - 1].messages@)
    }
}

/// The ledger contents after the whole snapshot is reconciled in.
pub open spec fn merged_ledger(l: Seq<Message>, recs: Seq<AddressRecord>) -> Seq<Message> {
    merge_records_prefix(l, recs, recs.len() as int)
}

/// Reconciling messages never drops ledger entries: the merged ledger is at
/// least as long as the old one, and absorption is preserved while every
/// reconciled message becomes absorbed.
pub proof fn lemma_merge_messages_props(l: Seq<Message>, ms: Seq<Message>, n: int)
    requires
        0 <= n <= ms.len(),
    ensures
        merge_messages_prefix(l, ms, n).len() >= l.len(),
        forall|x: Message| absorbed(l, x) ==> absorbed(merge_messages_prefix(l, ms, n), x),
        forall|j: int| 0 <= j < n ==> absorbed(merge_messages_prefix(l, ms, n), ms[j]),
    decreases n,
{
    if n > 0 {
        lemma_merge_messages_props(l, ms, n - 1);
        let prev = merge_messages_prefix(l, ms, n - 1);
        lemma_merge_message_shape(prev, ms[n - 1]);
        assert forall|x: Message| absorbed(l, x) implies absorbed(
            merge_messages_prefix(l, ms, n),
            x,
        ) by {
            lemma_merge_absorbs(prev, ms[n - 1], x);
        }
        assert forall|j: int| 0 <= j < n implies absorbed(
            merge_messages_prefix(l, ms, n),
            ms[j],
        ) by {
            lemma_merge_absorbs(prev, ms[n - 1], ms[j]);
        }
    }
}

/// Reconciling only absorbed messages changes nothing.
pub proof fn lemma_merge_messages_absorbed(l: Seq<Message>, ms: Seq<Message>, n: int)
    requires
        0 <= n <= ms.len(),
        forall|j: int| 0 <= j < n ==> absorbed(l, ms[j]),
    ensures
        merge_messages_prefix(l, ms, n) == l,
    decreases n,
{
    if n > 0 {
        lemma_merge_messages_absorbed(l, ms, n - 1);
        lemma_merge_absorbed(l, ms[n - 1]);
    }
}

/// Reconciling a snapshot never drops ledger entries, preserves absorption,
/// and absorbs every message the snapshot reports.
pub proof fn lemma_merge_records_props(l: Seq<Message>, recs: Seq<AddressRecord>, n: int)
    requires
        0 <= n <= recs.len(),
    ensures
        merge_records_prefix(l, recs, n).len() >= l.len(),
        forall|x: Message| absorbed(l, x) ==> absorbed(merge_records_prefix(l, recs, n), x),
        forall|i: int, j: int|
            0 <= i < n && 0 <= j < recs[i].messages@.len() ==> absorbed(
                merge_records_prefix(l, recs, n),
                recs[i].messages@[j],
            ),
    decreases n,
{
    if n > 0 {
        lemma_merge_records_props(l, recs, n - 1);
        let prev = merge_records_prefix(l, recs, n - 1);
        let ms = recs[n - 1].messages@;
        lemma_merge_messages_props(prev, ms, ms.len() as int);
        assert forall|i: int, j: int|
            0 <= i < n && 0 <= j < recs[i].messages@.len() implies absorbed(
            merge_records_prefix(l, recs, n),
            recs[i].messages@[j],
        ) by {
            if i < n - 1 {
                assert(absorbed(prev, recs[i].messages@[j]));
            }
        }
    }
}

/// Reconciling a snapshot whose messages are all absorbed changes nothing.
pub proof fn lemma_merge_records_absorbed(l: Seq<Message>, recs: Seq<AddressRecord>, n: int)
    requires
        0 <= n <= recs.len(),
        forall|i: int, j: int|
            0 <= i < n && 0 <= j < recs[i].messages@.len() ==> absorbed(l, recs[i].messages@[j]),
    ensures
        merge_records_prefix(l, recs, n) == l,
    decreases n,
{
    if n > 0 {
        lemma_merge_records_absorbed(l, recs, n - 1);
        let ms = recs[n - 1].messages@;
        lemma_merge_messages_absorbed(l, ms, ms.len() as int);
    }
}

/// Law (idempotent sync): applying the same snapshot twice yields the same
/// ledger contents and the same addresses — same usage flags, balances and
/// derived indexes — as applying it once, whatever fresh values a second
/// discovery would have used.
pub proof fn lemma_sync_idempotent(
    olds: Seq<Address>,
    l: Seq<Message>,
    recs: Seq<AddressRecord>,
    values1: Seq<String>,
    values2: Seq<String>,
    gap: int,
)
    requires
        gap >= 0,
    ensures
        synced_addresses(synced_addresses(olds, recs, values1, gap), recs, values2, gap)
            == synced_addresses(olds, recs, values1, gap),
        merged_ledger(merged_ledger(l, recs), recs) == merged_ledger(l, recs),
{
    let a1 = synced_addresses(olds, recs, values1, gap);
    let a2 = synced_addresses(a1, recs, values2, gap);
    assert(a1.len() == synced_len(olds.len() as int, recs, gap));
    assert(a2.len() == a1.len());
    assert forall|i: int| 0 <= i < a1.len() implies a2[i] == a1[i] by {
        assert(a2[i] == synced_existing(a1[i], i, recs));
    }
    assert(a2 =~= a1);

    let l1 = merged_ledger(l, recs);
    lemma_merge_records_props(l, recs, recs.len() as int);
    lemma_merge_records_absorbed(l1, recs, recs.len() as int);
}

/// Law (gap-limit discovery): if the network reports activity at index `k`,
/// synchronization leaves the account with at least `k + gap` derived
/// external addresses.
pub proof fn lemma_gap_limit(
    olds: Seq<Address>,
    recs: Seq<AddressRecord>,
    values: Seq<String>,
    gap: int,
    k: int,
)
    requires
        0 <= k < recs.len(),
        record_active(recs[k]),
        gap >= 0,
    ensures
        synced_addresses(olds, recs, values, gap).len() >= k + gap,
{
    lemma_active_end_past(recs, k);
}

/// Activity at index `k` pushes `active_end` past `k`.
pub proof fn lemma_active_end_past(recs: Seq<AddressRecord>, k: int)
    requires
        0 <= k < recs.len(),
        record_active(recs[k]),
    ensures
        active_end(recs) >= k + 1,
    decreases recs.len(),
{
    if !record_active(recs.last()) {
        assert(k < recs.len() - 1);
        assert(recs.drop_last()[k] == recs[k]);
        lemma_active_end_past(recs.drop_last(), k);
    }
}

/// `active_end` never exceeds the snapshot length.
pub proof fn lemma_active_end_le(recs: Seq<AddressRecord>)
    ensures
        0 <= active_end(recs) <= recs.len(),
    decreases recs.len(),
{
    if recs.len() > 0 && !record_active(recs.last()) {
        lemma_active_end_le(recs.drop_last());
    }
}

/// One past the highest derivation index at which the snapshot found
/// activity; `0` if it found none.
pub fn find_active_end(snapshot: &NetworkSnapshot) -> (r: usize)
    ensures
        r as int == active_end(snapshot.records@),
{
    let mut i: usize = snapshot.records.len();
    proof {
        assert(snapshot.records@.take(snapshot.records@.len() as int) =~= snapshot.records@);
    }
    while i > 0
        invariant
            0 <= i <= snapshot.records@.len(),
            active_end(snapshot.records@) == active_end(snapshot.records@.take(i as int)),
        decreases i,
    {
        let active = snapshot.records[i - 1].messages.len() > 0 || snapshot.records[i - 1].balance
            > 0;
        proof {
            assert(snapshot.records@.take(i as int).last() == snapshot.records@[i - 1]);
            assert(snapshot.records@.take(i as int).drop_last() =~= snapshot.records@.take(i - 1));
        }
        if active {
            proof {
                assert(record_active(snapshot.records@.take(i as int).last()));
                assert(active_end(snapshot.records@.take(i as int)) == i as int);
            }
            return i;
        }
        i -= 1;
    }
    0
}

/// How many fresh address values gap-limit discovery will consume for this
/// snapshot: the number of addresses the book will grow by.
pub fn values_needed(book: &AddressBook, snapshot: &NetworkSnapshot, gap_limit: usize) -> (r:
    usize)
    requires
        snapshot.records@.len() + gap_limit <= usize::MAX,
    ensures
        r as int == synced_len(book.external@.len() as int, snapshot.records@, gap_limit as int)
            - book.external@.len(),
{
    proof {
        lemma_active_end_le(snapshot.records@);
    }
    let target = find_active_end(snapshot) + gap_limit;
    let len = book.external.len();
    if len >= target {
        0
    } else {
        target - len
    }
}

/// Applies a network snapshot: updates every known external address from its
/// record, extends the book by gap-limit discovery using the caller-supplied
/// fresh values, and reconciles all reported messages into the ledger.
/// Returns the newly discovered messages, in the order they were appended.
pub fn apply_snapshot(
    book: &mut AddressBook,
    ledger: &mut MessageLedger,
    snapshot: &NetworkSnapshot,
    fresh_values: &Vec<String>,
    gap_limit: usize,
) -> (new_messages: Vec<Message>)
    requires
        old(book).wf(),
        old(ledger).wf(),
        snapshot.records@.len() + gap_limit <= usize::MAX,
        fresh_values@.len() >= synced_len(
            old(book).external@.len() as int,
            snapshot.records@,
            gap_limit as int,
        ) - old(book).external@.len(),
    ensures
        final(book).wf(),
        final(ledger).wf(),
        final(book).external@ == synced_addresses(
            old(book).external@,
            snapshot.records@,
            fresh_values@,
            gap_limit as int,
        ),
        final(book).internal@ == old(book).internal@,
        final(ledger)@ == merged_ledger(old(ledger)@, snapshot.records@),
        new_messages@ == final(ledger)@.skip(old(ledger)@.len() as int),
{
    let ghost old_ext = book.external@;
    let ghost recs = snapshot.records@;
    let ghost gap = gap_limit as int;

    // Reconcile the addresses the book already knows.
    let known = book.external.len();
    let mut i: usize = 0;
    while i < known
        invariant
            book.wf(),
            known == book.external@.len() == old_ext.len(),
            book.internal@ == old(book).internal@,
            0 <= i <= known,
            forall|k: int| 0 <= k < i ==> book.external@[k] == synced_existing(old_ext[k], k, recs),
            forall|k: int| i <= k < known ==> book.external@[k] == old_ext[k],
            recs == snapshot.records@,
        decreases known - i,
    {
        if i < snapshot.records.len() {
            let a = &book.external[i];
            let updated = Address {
                balance: snapshot.records[i].balance,
                output_count: snapshot.records[i].output_count,
                dust_allowance_count: snapshot.records[i].dust_allowance_count,
                used: a.used || snapshot.records[i].messages.len() > 0,
                ..a.duplicate()
            };
            book.external.set(i, updated);
        }
        i += 1;
    }

    // Gap-limit discovery: derive until `gap_limit` unused addresses trail
    // the highest active index.
    proof {
        lemma_active_end_le(recs);
    }
    let target = find_active_end(snapshot) + gap_limit;
    let final_len = if known >= target {
        known
    } else {
        target
    };
    while book.external.len() < final_len
        invariant
            book.wf(),
            book.internal@ == old(book).internal@,
            final_len as int == synced_len(old_ext.len() as int, recs, gap),
            known == old_ext.len(),
            gap == gap_limit as int,
            old_ext.len() <= book.external@.len() <= final_len,
            fresh_values@.len() >= final_len - old_ext.len(),
            forall|k: int|
                0 <= k < old_ext.len() ==> book.external@[k] == synced_existing(
                    old_ext[k],
                    k,
                    recs,
                ),
            forall|k: int|
                old_ext.len() <= k < book.external@.len() ==> book.external@[k] == synced_new(
                    fresh_values@[k - old_ext.len()],
                    k,
                    recs,
                ),
            recs == snapshot.records@,
        decreases final_len - book.external@.len(),
    {
        let idx = book.external.len();
        let value = fresh_values[idx - known].clone();
        let mut a = Address {
            value,
            index: idx as u64,
            internal: false,
            balance: 0,
            used: false,
            output_count: 0,
            dust_allowance_count: 0,
        };
        if idx < snapshot.records.len() {
            a = Address {
                balance: snapshot.records[idx].balance,
                output_count: snapshot.records[idx].output_count,
                dust_allowance_count: snapshot.records[idx].dust_allowance_count,
                used: snapshot.records[idx].messages.len() > 0,
                ..a
            };
        }
        book.external.push(a);
    }
    proof {
        assert(book.external@ =~= synced_addresses(old_ext, recs, fresh_values@, gap));
    }

    // Reconcile every reported message into the ledger, deduplicated by id.
    let ghost old_ledger = ledger@;
    let start: usize = ledger.messages.len();
    let mut r: usize = 0;
    while r < snapshot.records.len()
        invariant
            ledger.wf(),
            0 <= r <= recs.len(),
            ledger@ == merge_records_prefix(old_ledger, recs, r as int),
            recs == snapshot.records@,
        decreases recs.len() - r,
    {
        ledger.merge_many(&snapshot.records[r].messages);
        r += 1;
    }

    // The newly discovered messages are exactly what the merge appended.
    proof {
        lemma_merge_records_props(old_ledger, recs, recs.len() as int);
    }
    let mut new_messages: Vec<Message> = Vec::new();
    let mut j: usize = start;
    while j < ledger.messages.len()
        invariant
            start == old_ledger.len(),
            start <= j <= ledger@.len(),
            new_messages@ == ledger@.subrange(start as int, j as int),
        decreases ledger@.len() - j,
    {
        new_messages.push(ledger.messages[j]);
        proof {
            assert(new_messages@ =~= ledger@.subrange(start as int, j + 1));
        }
        j += 1;
    }
    proof {
        assert(new_messages@ =~= ledger@.skip(start as int));
    }
    new_messages
}

} // verus!
