//! Messages (transaction records) and the account's message ledger.
//!
//! The ledger is append-only: messages enter when the synchronizer observes
//! them on the network or when a transfer / consolidation is committed, and
//! are never deleted. Message ids are unique within the ledger; a message's
//! `confirmed` flag may transition from `false` to `true` (when the network
//! reports finality) but never reverts.

use vstd::prelude::*;

verus! {

/// Classification of a message, used for filtering.
#[derive(Clone, Copy, PartialEq, Eq, Structural, Debug)]
pub enum MessageType {
    /// Funds arriving at one of the account's addresses.
    Received,
    /// An outgoing transfer built by this account.
    Sent,
    /// An internal transfer that merges small outputs of one address.
    Consolidation,
}

/// A recorded transaction affecting the account.
///
/// `id` is assigned by the network and unique within the ledger; `value` is
/// the amount the message moves; `confirmed` is the finality marker.
#[derive(Clone, Copy, PartialEq, Eq, Structural, Debug)]
pub struct Message {
    pub id: u64,
    pub message_type: MessageType,
    pub value: u64,
    pub confirmed: bool,
}

/// Whether some message in `l` carries the id `id`.
pub open spec fn has_id(l: Seq<Message>, id: u64) -> bool {
    exists|i: int| 0 <= i < l.len() && l[i].id == id
}

/// Well-formed ledger contents: message ids are pairwise distinct.
pub open spec fn ledger_ids_unique(l: Seq<Message>) -> bool {
    forall|i: int, j: int| 0 <= i < j < l.len() ==> l[i].id != l[j].id
}

/// One step of reconciling a network-observed message into ledger contents:
/// a new id is appended; a known id only has its `confirmed` flag raised
/// (never lowered).
pub open spec fn merge_message(l: Seq<Message>, m: Message) -> Seq<Message> {
    if has_id(l, m.id) {
        l.map(
            |i: int, x: Message|
                if x.id == m.id && m.confirmed && !x.confirmed {
                    Message { confirmed: true, ..x }
                } else {
                    x
                },
        )
    } else {
        l.push(m)
    }
}

/// Reconciling the first `n` messages of `ms` into `l`, in order.
pub open spec fn merge_messages_prefix(l: Seq<Message>, ms: Seq<Message>, n: int) -> Seq<Message>
    decreases n,
{
    if n <= 0 {
        l
    } else {
        merge_message(merge_messages_prefix(l, ms, n - 1), ms[n - 1])
    }
}

/// Reconciling all of `ms` into `l`, in order.
pub open spec fn merge_messages(l: Seq<Message>, ms: Seq<Message>) -> Seq<Message> {
    merge_messages_prefix(l, ms, ms.len() as int)
}

/// `m` leaves ledger contents `l` unchanged when merged: its id is present
/// and, if `m` is confirmed, every entry with that id is already confirmed.
pub open spec fn absorbed(l: Seq<Message>, m: Message) -> bool {
    &&& has_id(l, m.id)
    &&& m.confirmed ==> forall|i: int|
        0 <= i < l.len() && l[i].id == m.id ==> l[i].confirmed
}

/// The messages of `l2` that lie beyond the length of `l1`: what a merge
/// appended, as opposed to confirmed in place.
pub open spec fn appended_suffix(l1: Seq<Message>, l2: Seq<Message>) -> Seq<Message> {
    l2.skip(l1.len() as int)
}

/// Merging one message preserves uniqueness of ids and never shortens the
/// ledger; ids and positions of existing entries are kept.
pub proof fn lemma_merge_message_shape(l: Seq<Message>, m: Message)
    ensures
        merge_message(l, m).len() >= l.len(),
        has_id(l, m.id) ==> merge_message(l, m).len() == l.len(),
        !has_id(l, m.id) ==> merge_message(l, m) == l.push(m),
        forall|i: int|
            0 <= i < l.len() ==> (#[trigger] merge_message(l, m)[i]).id == l[i].id,
        forall|i: int|
            0 <= i < l.len() ==> (l[i].confirmed ==> merge_message(l, m)[i].confirmed),
        ledger_ids_unique(l) ==> ledger_ids_unique(merge_message(l, m)),
        has_id(merge_message(l, m), m.id),
        forall|id: u64| #[trigger] has_id(l, id) ==> has_id(merge_message(l, m), id),
{
    let r = merge_message(l, m);
    if has_id(l, m.id) {
        assert(forall|i: int| 0 <= i < l.len() ==> (#[trigger] r[i]).id == l[i].id);
        assert(forall|id: u64| #[trigger] has_id(l, id) ==> has_id(r, id)) by {
            assert forall|id: u64| #[trigger] has_id(l, id) implies has_id(r, id) by {
                let w = choose|i: int| 0 <= i < l.len() && l[i].id == id;
                assert(r[w].id == id);
            }
        }
    } else {
        assert(r == l.push(m));
        assert(r[l.len() as int].id == m.id);
        assert forall|id: u64| #[trigger] has_id(l, id) implies has_id(r, id) by {
            let w = choose|i: int| 0 <= i < l.len() && l[i].id == id;
            assert(r[w].id == id);
        }
        if ledger_ids_unique(l) {
            assert forall|i: int, j: int| 0 <= i < j < r.len() implies r[i].id != r[j].id by {
                if j == l.len() as int {
                    assert(r[i] == l[i]);
                    assert(!has_id(l, m.id));
                    assert(l[i].id != m.id) by {
                        if l[i].id == m.id {
                            assert(has_id(l, m.id));
                        }
                    }
                }
            }
        }
    }
}

/// A message absorbed by `l` merges to `l` itself.
pub proof fn lemma_merge_absorbed(l: Seq<Message>, m: Message)
    requires
        absorbed(l, m),
    ensures
        merge_message(l, m) == l,
{
    let r = merge_message(l, m);
    assert(has_id(l, m.id));
    assert forall|i: int| 0 <= i < l.len() implies r[i] == l[i] by {
        if l[i].id == m.id && m.confirmed && !l[i].confirmed {
            assert(l[i].confirmed);
        }
    }
    assert(r =~= l);
}

/// Merging preserves absorption: anything `l` already absorbs, the merged
/// ledger absorbs too, and the merged message itself becomes absorbed.
pub proof fn lemma_merge_absorbs(l: Seq<Message>, m: Message, x: Message)
    ensures
        absorbed(l, x) ==> absorbed(merge_message(l, m), x),
        absorbed(merge_message(l, m), m),
{
    let r = merge_message(l, m);
    lemma_merge_message_shape(l, m);
    if has_id(l, m.id) {
        if absorbed(l, x) {
            let w = choose|i: int| 0 <= i < l.len() && l[i].id == x.id;
            assert(r[w].id == x.id);
            if x.confirmed {
                assert forall|i: int|
                    0 <= i < r.len() && r[i].id == x.id implies r[i].confirmed by {
                    assert(l[i].id == x.id);
                }
            }
        }
        let w = choose|i: int| 0 <= i < l.len() && l[i].id == m.id;
        assert(r[w].id == m.id);
        if m.confirmed {
            assert forall|i: int| 0 <= i < r.len() && r[i].id == m.id implies r[i].confirmed by {
                assert(l[i].id == m.id);
            }
        }
    } else {
        assert(r == l.push(m));
        if absorbed(l, x) {
            let w = choose|i: int| 0 <= i < l.len() && l[i].id == x.id;
            assert(r[w].id == x.id);
            if x.confirmed {
                assert forall|i: int|
                    0 <= i < r.len() && r[i].id == x.id implies r[i].confirmed by {
                    if i < l.len() {
                        assert(l[i].id == x.id);
                    } else {
                        assert(r[i] == m);
                        assert(has_id(l, x.id) && !has_id(l, m.id));
                    }
                }
            }
        }
        assert(r[l.len() as int] == m);
        if m.confirmed {
            assert forall|i: int| 0 <= i < r.len() && r[i].id == m.id implies r[i].confirmed by {
                if i < l.len() {
                    assert(has_id(l, m.id));
                }
            }
        }
    }
}

} // verus!
