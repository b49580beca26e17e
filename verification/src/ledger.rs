//! The executable message ledger: an append-only record of the account's
//! messages with unique ids, queryable by id, type and pagination window.

use vstd::prelude::*;
use vstd::pervasive::VecAdditionalExecFns;

use crate::message::{
    has_id, ledger_ids_unique, lemma_merge_message_shape, merge_message, merge_messages,
    merge_messages_prefix, Message, MessageType,
};

verus! {

/// Whether `m` passes the optional type filter `f`.
pub open spec fn matches_filter(m: Message, f: Option<MessageType>) -> bool {
    match f {
        Some(t) => m.message_type == t,
        None => true,
    }
}

/// The messages of `l` that pass the filter `f`, newest first (the ledger is
/// append-only, so the newest message sits at the end of `l`).
pub open spec fn filtered_desc(l: Seq<Message>, f: Option<MessageType>) -> Seq<Message>
    decreases l.len(),
{
    if l.len() == 0 {
        Seq::empty()
    } else if matches_filter(l.last(), f) {
        seq![l.last()] + filtered_desc(l.drop_last(), f)
    } else {
        filtered_desc(l.drop_last(), f)
    }
}

/// A pagination window over `s`: up to `count` elements starting at offset
/// `from`; an offset beyond the end yields the empty sequence.
pub open spec fn page_of(s: Seq<Message>, from: int, count: int) -> Seq<Message> {
    if from >= s.len() {
        Seq::empty()
    } else if from + count <= s.len() {
        s.subrange(from, from + count)
    } else {
        s.subrange(from, s.len() as int)
    }
}

/// The account's append-only record of messages.
pub struct MessageLedger {
    pub messages: Vec<Message>,
}

impl MessageLedger {
    /// The ledger's contents, oldest first.
    pub open spec fn view(&self) -> Seq<Message> {
        self.messages@
    }

    /// Well-formed ledger: message ids are pairwise distinct.
    pub open spec fn wf(&self) -> bool {
        ledger_ids_unique(self@)
    }

    /// An empty ledger.
    pub fn new() -> (r: MessageLedger)
        ensures
            r@ == Seq::<Message>::empty(),
            r.wf(),
    {
        MessageLedger { messages: Vec::new() }
    }

    /// The number of recorded messages.
    pub fn len(&self) -> (r: usize)
        ensures
            r == self@.len(),
    {
        self.messages.len()
    }

    /// Whether a message with id `id` is recorded.
    pub fn contains_id(&self, id: u64) -> (r: bool)
        ensures
            r == has_id(self@, id),
    {
        let mut i: usize = 0;
        while i < self.messages.len()
            invariant
                0 <= i <= self@.len(),
                forall|j: int| 0 <= j < i ==> self@[j].id != id,
            decreases self@.len() - i,
        {
            if self.messages[i].id == id {
                return true;
            }
            i += 1;
        }
        false
    }

    /// Point lookup by id; an absent id yields `None`, never an error.
    pub fn get_message(&self, id: u64) -> (r: Option<Message>)
        ensures
            match r {
                Some(m) => has_id(self@, id) && m.id == id && self@.contains(m),
                None => !has_id(self@, id),
            },
    {
        let mut i: usize = 0;
        while i < self.messages.len()
            invariant
                0 <= i <= self@.len(),
                forall|j: int| 0 <= j < i ==> self@[j].id != id,
            decreases self@.len() - i,
        {
            if self.messages[i].id == id {
                return Some(self.messages[i]);
            }
            i += 1;
        }
        None
    }

    /// Appends a message whose id is not yet recorded (a transfer or
    /// consolidation commit).
    pub fn append(&mut self, m: Message)
        requires
            old(self).wf(),
            !has_id(old(self)@, m.id),
        ensures
            final(self)@ == old(self)@.push(m),
            final(self).wf(),
    {
        proof {
            lemma_merge_message_shape(self@, m);
        }
        self.messages.push(m);
    }

    /// Reconciles one network-observed message: appends it if its id is new,
    /// otherwise raises the recorded message's `confirmed` flag if the
    /// network now reports it confirmed. Never lowers a `confirmed` flag.
    pub fn merge_one(&mut self, m: Message)
        requires
            old(self).wf(),
        ensures
            final(self)@ == merge_message(old(self)@, m),
            final(self).wf(),
    {
        proof {
            lemma_merge_message_shape(self@, m);
        }
        let ghost l0 = self@;
        let mut i: usize = 0;
        while i < self.messages.len()
            invariant
                self@ == l0,
                l0 == old(self)@,
                ledger_ids_unique(l0),
                0 <= i <= l0.len(),
                forall|j: int| 0 <= j < i ==> l0[j].id != m.id,
            decreases l0.len() - i,
        {
            if self.messages[i].id == m.id {
                if m.confirmed && !self.messages[i].confirmed {
                    let updated = Message { confirmed: true, ..self.messages[i] };
                    self.messages.set(i, updated);
                }
                proof {
                    assert(has_id(l0, m.id)) by {
                        assert(l0[i as int].id == m.id);
                    }
                    let mm = merge_message(l0, m);
                    assert forall|k: int| 0 <= k < l0.len() implies self@[k] == mm[k] by {
                        if k < i {
                            assert(l0[k].id != l0[i as int].id);
                        } else if k > i {
                            assert(l0[i as int].id != l0[k].id);
                        }
                    }
                    assert(self@ =~= mm);
                }
                return ;
            }
            i += 1;
        }
        proof {
            assert(!has_id(l0, m.id));
        }
        self.messages.push(m);
    }

    /// Reconciles a batch of network-observed messages, in order.
    pub fn merge_many(&mut self, ms: &Vec<Message>)
        requires
            old(self).wf(),
        ensures
            final(self)@ == merge_messages(old(self)@, ms@),
            final(self).wf(),
    {
        let ghost l0 = self@;
        let mut i: usize = 0;
        while i < ms.len()
            invariant
                self.wf(),
                0 <= i <= ms@.len(),
                self@ == merge_messages_prefix(l0, ms@, i as int),
            decreases ms@.len() - i,
        {
            self.merge_one(ms[i]);
            i += 1;
        }
    }

    /// Up to `count` messages starting at offset `from`, newest first,
    /// optionally filtered by type. An offset beyond the ledger size yields
    /// an empty sequence, not an error.
    pub fn list_messages(&self, count: usize, from: usize, message_type: Option<MessageType>) -> (r:
        Vec<Message>)
        ensures
            r@ == page_of(filtered_desc(self@, message_type), from as int, count as int),
    {
        let mut filtered: Vec<Message> = Vec::new();
        let mut i: usize = 0;
        while i < self.messages.len()
            invariant
                0 <= i <= self@.len(),
                filtered@ == filtered_desc(self@.take(i as int), message_type),
            decreases self@.len() - i,
        {
            let m = self.messages[i];
            proof {
                assert(self@.take(i + 1).last() == m);
                assert(self@.take(i + 1).drop_last() =~= self@.take(i as int));
            }
            let matches = match message_type {
                Some(t) => m.message_type == t,
                None => true,
            };
            if matches {
                filtered.insert(0, m);
                proof {
                    assert(filtered@ =~= seq![m] + filtered_desc(
                        self@.take(i as int),
                        message_type,
                    ));
                }
            }
            i += 1;
        }
        proof {
            assert(self@.take(self@.len() as int) =~= self@);
        }
        let total = filtered.len();
        let mut r: Vec<Message> = Vec::new();
        if from >= total {
            proof {
                assert(r@ =~= page_of(filtered@, from as int, count as int));
            }
            return r;
        }
        let end = if count <= total - from {
            from + count
        } else {
            total
        };
        let mut j: usize = from;
        while j < end
            invariant
                from <= j <= end <= filtered@.len(),
                r@ == filtered@.subrange(from as int, j as int),
            decreases end - j,
        {
            r.push(filtered[j]);
            proof {
                assert(r@ =~= filtered@.subrange(from as int, j + 1));
            }
            j += 1;
        }
        proof {
            assert(r@ =~= page_of(filtered@, from as int, count as int));
        }
        r
    }
}

} // verus!
