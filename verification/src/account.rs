//! The account aggregate: composes the address book, the message ledger, the
//! balance calculator, the synchronizer and the transfer executor behind one
//! public contract.
//!
//! Concurrency policy: every mutating operation takes `&mut self`, so two
//! operations on one account can never race — mutual exclusion is enforced by
//! exclusive ownership rather than by rejecting an in-flight peer. A caller
//! that shares one account behind a lock and prefers rejection can surface
//! `WalletError::SyncInProgress` itself; this library never needs to.
//!
//! Timestamps are plain unix-epoch seconds handed in by the caller: reading
//! the clock, like querying the network and deriving key material, is an
//! external collaborator's job.

use vstd::prelude::*;
use vstd::pervasive::VecAdditionalExecFns;

use crate::address::{
    addresses_wf, collect_by_used, fresh_address, partition_by_used, Address, AddressBook,
};
use crate::balance::{compute_balance, spec_balance, AccountBalance};
use crate::error::WalletError;
use crate::ledger::{filtered_desc, page_of, MessageLedger};
use crate::message::{has_id, ledger_ids_unique, Message, MessageType};
use crate::sync::{
    apply_snapshot, merged_ledger, synced_addresses, synced_len, values_needed, NetworkSnapshot,
};

verus! {

/// The kind of key-derivation / signing backend the account is bound to.
#[derive(Clone, Copy, PartialEq, Eq, Structural, Debug)]
pub enum SignerType {
    Stronghold,
    LedgerNano,
}

/// Network-connection configuration: the nodes to talk to. Well-formed
/// options name at least one node.
pub struct ClientOptions {
    pub nodes: Vec<String>,
}

impl ClientOptions {
    /// Options naming the given nodes.
    pub fn new(nodes: Vec<String>) -> (r: ClientOptions)
        ensures
            r.nodes@ == nodes@,
    {
        ClientOptions { nodes }
    }

    /// Malformed options name no node at all.
    pub open spec fn valid(&self) -> bool {
        self.nodes@.len() > 0
    }

    /// A copy of these options, naming the same nodes.
    pub fn duplicate(&self) -> (r: ClientOptions)
        ensures
            r.nodes@ == self.nodes@,
    {
        let mut nodes: Vec<String> = Vec::new();
        let mut i: usize = 0;
        while i < self.nodes.len()
            invariant
                0 <= i <= self.nodes@.len(),
                nodes@ == self.nodes@.take(i as int),
            decreases self.nodes@.len() - i,
        {
            nodes.push(self.nodes[i].clone());
            proof {
                assert(nodes@ =~= self.nodes@.take(i + 1));
            }
            i += 1;
        }
        proof {
            assert(nodes@ =~= self.nodes@);
        }
        ClientOptions { nodes }
    }
}

/// A transfer specification: destination address and amount.
pub struct Transfer {
    pub address: String,
    pub amount: u64,
}

impl Transfer {
    /// A transfer of `amount` to `address`.
    pub fn new(address: String, amount: u64) -> (r: Transfer)
        ensures
            r.address@ == address@,
            r.amount == amount,
    {
        Transfer { address, amount }
    }
}

/// A well-formed destination: the encoded address is nonempty. Whether the
/// encoding itself is valid is the network's to judge; a submission it
/// rejects surfaces as `SubmitOutcome::NetworkRejected`.
pub open spec fn valid_destination(s: Seq<char>) -> bool {
    s.len() > 0
}

/// What the signing and network collaborators answered when a built transfer
/// was signed and submitted: the network-assigned message id on acceptance,
/// or the stage that rejected it.
pub enum SubmitOutcome {
    Accepted(u64),
    SignerRejected(String),
    NetworkRejected(String),
}

/// An address after a transfer commits under the all-unspent input policy:
/// every unspent address holding funds is consumed (marked used).
pub open spec fn input_marked(a: Address) -> Address {
    if !a.used && a.balance > 0 {
        Address { used: true, ..a }
    } else {
        a
    }
}

/// A whole address column after a transfer commits.
pub open spec fn inputs_marked(s: Seq<Address>) -> Seq<Address> {
    Seq::new(s.len(), |i: int| input_marked(s[i]))
}

/// Whether an address qualifies for output consolidation: it holds more than
/// one output, counting dust-allowance outputs only when asked to.
pub open spec fn qualifies(a: Address, include_dust: bool) -> bool {
    a.output_count + (if include_dust {
        a.dust_allowance_count as int
    } else {
        0
    }) >= 2
}

/// The addresses of `s` that qualify for consolidation, in order.
pub open spec fn qualifying_seq(s: Seq<Address>, include_dust: bool) -> Seq<Address> {
    s.filter(|a: Address| qualifies(a, include_dust))
}

/// An address after consolidation: a qualifying address is left with a single
/// merged output (and, when dust-allowance outputs were included, none of
/// those); balances do not move.
pub open spec fn consolidated(a: Address, include_dust: bool) -> Address {
    if qualifies(a, include_dust) {
        Address {
            output_count: 1,
            dust_allowance_count: if include_dust {
                0
            } else {
                a.dust_allowance_count
            },
            ..a
        }
    } else {
        a
    }
}

/// A whole address column after consolidation.
pub open spec fn consolidated_col(s: Seq<Address>, include_dust: bool) -> Seq<Address> {
    Seq::new(s.len(), |i: int| consolidated(s[i], include_dust))
}

/// The consolidation messages for the qualifying addresses `q`, one per
/// address, under the network-assigned ids `ids`.
pub open spec fn consolidation_messages(q: Seq<Address>, ids: Seq<u64>) -> Seq<Message> {
    Seq::new(
        q.len(),
        |j: int|
            Message {
                id: ids[j],
                message_type: MessageType::Consolidation,
                value: q[j].balance,
                confirmed: false,
            },
    )
}

/// Whether the network-assigned ids can commit `count` new messages against
/// ledger contents `l`: enough of them, pairwise distinct, none already
/// recorded.
pub open spec fn ids_ok(l: Seq<Message>, ids: Seq<u64>, count: int) -> bool {
    &&& ids.len() >= count
    &&& forall|a: int| 0 <= a < count ==> !has_id(l, ids[a])
    &&& forall|a: int, b: int| 0 <= a < b < count ==> ids[a] != ids[b]
}

/// The wallet's per-identity aggregate of addresses, messages and balance.
pub struct Account {
    pub id: String,
    pub alias: String,
    pub created_at: i64,
    pub last_synced_at: Option<i64>,
    pub client_options: ClientOptions,
    pub skip_persistence: bool,
    pub book: AddressBook,
    pub ledger: MessageLedger,
}

impl Account {
    /// Valid account state: per-role contiguous address indexes and unique
    /// message ids.
    pub open spec fn wf(&self) -> bool {
        &&& self.book.wf()
        &&& self.ledger.wf()
    }

    /// The account's stable identifier, assigned at creation.
    pub fn id(&self) -> (r: String)
        ensures
            r == self.id,
    {
        self.id.clone()
    }

    /// The account's human-readable label.
    pub fn alias(&self) -> (r: String)
        ensures
            r == self.alias,
    {
        self.alias.clone()
    }

    /// When the account was created (unix-epoch seconds).
    pub fn created_at(&self) -> (r: i64)
        ensures
            r == self.created_at,
    {
        self.created_at
    }

    /// When the account last completed a synchronization; `None` until the
    /// first one.
    pub fn last_synced_at(&self) -> (r: Option<i64>)
        ensures
            r == self.last_synced_at,
    {
        self.last_synced_at
    }

    /// The current network-connection configuration.
    pub fn client_options(&self) -> (r: ClientOptions)
        ensures
            r.nodes@ == self.client_options.nodes@,
    {
        self.client_options.duplicate()
    }

    /// Relabels the account. Takes effect immediately; nothing else changes.
    pub fn set_alias(&mut self, alias: String) -> (r: Result<(), WalletError>)
        ensures
            r is Ok,
            *final(self) == (Account { alias, ..*old(self) }),
    {
        self.alias = alias;
        Ok(())
    }

    /// Replaces the network-connection configuration for all subsequent
    /// network operations (not retroactive). Malformed options — naming no
    /// node — are rejected with `ConfigError` and nothing changes.
    pub fn set_client_options(&mut self, options: ClientOptions) -> (r: Result<(), WalletError>)
        ensures
            match r {
                Ok(()) => options.valid() && *final(self) == (Account {
                    client_options: options,
                    ..*old(self)
                }),
                Err(e) => !options.valid() && e is ConfigError && *final(self) == *old(self),
            },
    {
        if options.nodes.len() == 0 {
            return Err(
                WalletError::ConfigError(String::from_str("client options name no node")),
            );
        }
        self.client_options = options;
        Ok(())
    }

    /// The account's balance snapshot, derived on demand from the address
    /// book and the message ledger.
    pub fn balance(&self) -> (r: Result<AccountBalance, WalletError>)
        ensures
            r == Ok::<AccountBalance, WalletError>(
                spec_balance(self.book.external@, self.book.internal@, self.ledger@),
            ),
    {
        Ok(compute_balance(&self.book, &self.ledger))
    }

    /// Point lookup of a message by id; an absent id yields `None`, never an
    /// error.
    pub fn get_message(&self, message_id: u64) -> (r: Option<Message>)
        ensures
            match r {
                Some(m) => has_id(self.ledger@, message_id) && m.id == message_id
                    && self.ledger@.contains(m),
                None => !has_id(self.ledger@, message_id),
            },
    {
        self.ledger.get_message(message_id)
    }

    /// Up to `count` messages starting at offset `from`, newest first,
    /// optionally filtered by type; an offset beyond the ledger size yields
    /// an empty list, not an error.
    pub fn list_messages(
        &self,
        count: usize,
        from: usize,
        message_type: Option<MessageType>,
    ) -> (r: Result<Vec<Message>, WalletError>)
        ensures
            match r {
                Ok(v) => v@ == page_of(
                    filtered_desc(self.ledger@, message_type),
                    from as int,
                    count as int,
                ),
                Err(_) => false,
            },
    {
        Ok(self.ledger.list_messages(count, from, message_type))
    }

    /// The account's used (spent) addresses, external then internal, each in
    /// derivation-index order.
    pub fn list_spent_addresses(&self) -> (r: Result<Vec<Address>, WalletError>)
        ensures
            match r {
                Ok(v) => v@ == partition_by_used(self.book.external@, true) + partition_by_used(
                    self.book.internal@,
                    true,
                ),
                Err(_) => false,
            },
    {
        let mut v = collect_by_used(&self.book.external, true);
        let mut w = collect_by_used(&self.book.internal, true);
        let ghost ve = v@;
        let ghost wi = w@;
        v.append(&mut w);
        proof {
            assert(v@ =~= ve + wi);
        }
        Ok(v)
    }

    /// The account's unused (unspent) addresses, external then internal, each
    /// in derivation-index order.
    pub fn list_unspent_addresses(&self) -> (r: Result<Vec<Address>, WalletError>)
        ensures
            match r {
                Ok(v) => v@ == partition_by_used(self.book.external@, false) + partition_by_used(
                    self.book.internal@,
                    false,
                ),
                Err(_) => false,
            },
    {
        let mut v = collect_by_used(&self.book.external, false);
        let mut w = collect_by_used(&self.book.internal, false);
        let ghost ve = v@;
        let ghost wi = w@;
        v.append(&mut w);
        proof {
            assert(v@ =~= ve + wi);
        }
        Ok(v)
    }

    /// True iff the highest-index external address exists and has not been
    /// used yet (an account with no address yet has no unused latest
    /// address).
    pub fn is_latest_address_unused(&self) -> (r: Result<bool, WalletError>)
        ensures
            r == Ok::<bool, WalletError>(
                self.book.external@.len() > 0 && !self.book.external@.last().used,
            ),
    {
        Ok(self.book.is_latest_unused())
    }

    /// Derives the next external address at the next available index, built
    /// around the freshly derived encoded `value`; `None` means the
    /// key-derivation backend was unavailable, surfaced as `SignerError`.
    pub fn generate_address(&mut self, value: Option<String>) -> (r: Result<Address, WalletError>)
        requires
            old(self).wf(),
            old(self).book.external@.len() < u64::MAX,
        ensures
            final(self).wf(),
            match r {
                Ok(a) => {
                    &&& value matches Some(v) && a == fresh_address(
                        v,
                        old(self).book.external@.len() as u64,
                        false,
                    )
                    &&& final(self).book.external@ == old(self).book.external@.push(a)
                    &&& *final(self) == (Account { book: final(self).book, ..*old(self) })
                    &&& final(self).book.internal@ == old(self).book.internal@
                },
                Err(e) => value is None && e is SignerError && *final(self) == *old(self),
            },
    {
        match value {
            Some(v) => {
                let a = self.book.derive_external(v);
                Ok(a)
            },
            None => Err(
                WalletError::SignerError(
                    String::from_str("key derivation backend unavailable"),
                ),
            ),
        }
    }

    /// Derives `amount` consecutive external addresses in one call, built
    /// around the first `amount` of the freshly derived `values`; result
    /// ordering matches derivation-index ordering. Fails with `SignerError`,
    /// changing nothing, when the backend supplied too few values.
    pub fn generate_addresses(&mut self, amount: usize, values: &Vec<String>) -> (r: Result<
        Vec<Address>,
        WalletError,
    >)
        requires
            old(self).wf(),
            old(self).book.external@.len() + amount <= u64::MAX,
        ensures
            final(self).wf(),
            match r {
                Ok(v) => {
                    &&& values@.len() >= amount
                    &&& v@.len() == amount
                    &&& forall|i: int|
                        0 <= i < amount ==> v@[i] == fresh_address(
                            values@[i],
                            (old(self).book.external@.len() + i) as u64,
                            false,
                        )
                    &&& final(self).book.external@ == old(self).book.external@ + v@
                    &&& final(self).book.internal@ == old(self).book.internal@
                    &&& *final(self) == (Account { book: final(self).book, ..*old(self) })
                },
                Err(e) => values@.len() < amount && e is SignerError && *final(self) == *old(
                    self,
                ),
            },
    {
        if values.len() < amount {
            return Err(
                WalletError::SignerError(
                    String::from_str("key derivation backend supplied too few addresses"),
                ),
            );
        }
        let mut out: Vec<Address> = Vec::new();
        let mut i: usize = 0;
        while i < amount
            invariant
                self.wf(),
                0 <= i <= amount,
                values@.len() >= amount,
                old(self).book.external@.len() + amount <= u64::MAX,
                self.book.external@.len() == old(self).book.external@.len() + i,
                out@.len() == i,
                forall|k: int|
                    0 <= k < i ==> out@[k] == fresh_address(
                        values@[k],
                        (old(self).book.external@.len() + k) as u64,
                        false,
                    ),
                self.book.external@ == old(self).book.external@ + out@,
                self.book.internal@ == old(self).book.internal@,
                self.id == old(self).id,
                self.alias == old(self).alias,
                self.created_at == old(self).created_at,
                self.last_synced_at == old(self).last_synced_at,
                self.client_options == old(self).client_options,
                self.skip_persistence == old(self).skip_persistence,
                self.ledger == old(self).ledger,
            decreases amount - i,
        {
            let a = self.book.derive_external(values[i].clone());
            out.push(a);
            proof {
                assert(self.book.external@ =~= old(self).book.external@ + out@);
            }
            i += 1;
        }
        Ok(out)
    }

    /// Returns the first unused external address, deriving a new one (from
    /// `value`) only if every known external address is used. `None` stands
    /// for an unavailable derivation backend and matters only in that case.
    pub fn get_unused_address(&mut self, value: Option<String>) -> (r: Result<
        Address,
        WalletError,
    >)
        requires
            old(self).wf(),
            old(self).book.external@.len() < u64::MAX,
        ensures
            final(self).wf(),
            match r {
                Ok(a) => {
                    if exists|i: int|
                        0 <= i < old(self).book.external@.len() && !old(
                            self,
                        ).book.external@[i].used {
                        &&& *final(self) == *old(self)
                        &&& exists|i: int|
                            {
                                &&& 0 <= i < old(self).book.external@.len()
                                &&& !old(self).book.external@[i].used
                                &&& a == old(self).book.external@[i]
                                &&& forall|j: int| 0 <= j < i ==> old(self).book.external@[j].used
                            }
                    } else {
                        &&& value matches Some(v) && a == fresh_address(
                            v,
                            old(self).book.external@.len() as u64,
                            false,
                        )
                        &&& final(self).book.external@ == old(self).book.external@.push(a)
                        &&& final(self).book.internal@ == old(self).book.internal@
                        &&& *final(self) == (Account { book: final(self).book, ..*old(self) })
                    }
                },
                Err(e) => {
                    &&& e is SignerError
                    &&& value is None
                    &&& *final(self) == *old(self)
                    &&& forall|i: int|
                        0 <= i < old(self).book.external@.len() ==> old(
                            self,
                        ).book.external@[i].used
                },
            },
    {
        match self.book.first_unused_external() {
            Some(i) => {
                let a = self.book.external[i].duplicate();
                Ok(a)
            },
            None => self.generate_address(value),
        }
    }

    /// The highest-index external address, deriving one (from `value`) only
    /// if the account has none yet.
    pub fn latest_address(&mut self, value: Option<String>) -> (r: Result<Address, WalletError>)
        requires
            old(self).wf(),
            old(self).book.external@.len() < u64::MAX,
        ensures
            final(self).wf(),
            match r {
                Ok(a) => {
                    if old(self).book.external@.len() > 0 {
                        a == old(self).book.external@.last() && *final(self) == *old(self)
                    } else {
                        &&& value matches Some(v) && a == fresh_address(v, 0, false)
                        &&& final(self).book.external@ == old(self).book.external@.push(a)
                        &&& final(self).book.internal@ == old(self).book.internal@
                        &&& *final(self) == (Account { book: final(self).book, ..*old(self) })
                    }
                },
                Err(e) => {
                    &&& e is SignerError
                    &&& value is None
                    &&& old(self).book.external@.len() == 0
                    &&& *final(self) == *old(self)
                },
            },
    {
        if self.book.external.len() > 0 {
            let a = self.book.external[self.book.external.len() - 1].duplicate();
            Ok(a)
        } else {
            self.generate_address(value)
        }
    }

    /// How many fresh address values a synchronization against `snapshot`
    /// with this gap limit will consume; callers derive that many up front.
    pub fn sync_values_needed(&self, snapshot: &NetworkSnapshot, gap_limit: usize) -> (r: usize)
        requires
            snapshot.records@.len() + gap_limit <= usize::MAX,
        ensures
            r as int == synced_len(
                self.book.external@.len() as int,
                snapshot.records@,
                gap_limit as int,
            ) - self.book.external@.len(),
    {
        values_needed(&self.book, snapshot, gap_limit)
    }

    /// Synchronizes the account against a snapshot of network truth (see
    /// `crate::sync`): updates every known external address, extends the book
    /// by gap-limit discovery using the caller-supplied `fresh_values`,
    /// reconciles all reported messages into the ledger deduplicated by id,
    /// and — on success — stamps `last_synced_at = now` and returns the newly
    /// discovered messages.
    ///
    /// Fails only with `SignerError`, changing nothing, when `fresh_values`
    /// holds fewer values than discovery needs (`sync_values_needed`).
    /// Applying the same snapshot twice yields the same ledger and addresses
    /// (`crate::sync::lemma_sync_idempotent`).
    pub fn sync(
        &mut self,
        snapshot: &NetworkSnapshot,
        fresh_values: &Vec<String>,
        gap_limit: usize,
        now: i64,
    ) -> (r: Result<Vec<Message>, WalletError>)
        requires
            old(self).wf(),
            snapshot.records@.len() + gap_limit <= usize::MAX,
        ensures
            final(self).wf(),
            match r {
                Ok(msgs) => {
                    &&& fresh_values@.len() >= synced_len(
                        old(self).book.external@.len() as int,
                        snapshot.records@,
                        gap_limit as int,
                    ) - old(self).book.external@.len()
                    &&& final(self).book.external@ == synced_addresses(
                        old(self).book.external@,
                        snapshot.records@,
                        fresh_values@,
                        gap_limit as int,
                    )
                    &&& final(self).book.internal@ == old(self).book.internal@
                    &&& final(self).ledger@ == merged_ledger(old(self).ledger@, snapshot.records@)
                    &&& msgs@ == final(self).ledger@.skip(old(self).ledger@.len() as int)
                    &&& final(self).last_synced_at == Some(now)
                    &&& *final(self) == (Account {
                        book: final(self).book,
                        ledger: final(self).ledger,
                        last_synced_at: Some(now),
                        ..*old(self)
                    })
                },
                Err(e) => {
                    &&& e is SignerError
                    &&& fresh_values@.len() < synced_len(
                        old(self).book.external@.len() as int,
                        snapshot.records@,
                        gap_limit as int,
                    ) - old(self).book.external@.len()
                    &&& *final(self) == *old(self)
                },
            },
    {
        let needed = values_needed(&self.book, snapshot, gap_limit);
        if fresh_values.len() < needed {
            return Err(
                WalletError::SignerError(
                    String::from_str("key derivation backend supplied too few addresses"),
                ),
            );
        }
        let msgs = apply_snapshot(&mut self.book, &mut self.ledger, snapshot, fresh_values, gap_limit);
        self.last_synced_at = Some(now);
        Ok(msgs)
    }

    /// Validates and executes an outgoing transfer. The spec is checked first
    /// — nonempty destination, nonzero amount, sufficient available balance —
    /// and a spec that fails validation is rejected (`InvalidDestination`, or
    /// `InsufficientBalance` for a zero amount, which no balance can satisfy,
    /// as for one beyond the available balance) without touching any state.
    /// `outcome` is what the signing and network collaborators answered when
    /// the built transfer was signed and submitted; a rejection surfaces as
    /// `SignerError` or `NetworkError`, again changing nothing (all-or-
    /// nothing). On acceptance the new message — the network-assigned id,
    /// type `Sent`, initially unconfirmed — is appended to the ledger, and
    /// the inputs are consumed under the all-unspent policy: every unspent
    /// address holding funds is marked used, deterministically. An accepted
    /// id that already exists in the ledger would corrupt it and is rejected
    /// as `NetworkError`.
    pub fn transfer(&mut self, transfer: Transfer, outcome: SubmitOutcome) -> (r: Result<
        Message,
        WalletError,
    >)
        requires
            old(self).wf(),
        ensures
            final(self).wf(),
            match r {
                Ok(m) => {
                    &&& valid_destination(transfer.address@)
                    &&& transfer.amount > 0
                    &&& transfer.amount <= spec_balance(
                        old(self).book.external@,
                        old(self).book.internal@,
                        old(self).ledger@,
                    ).available
                    &&& outcome matches SubmitOutcome::Accepted(id) && !has_id(
                        old(self).ledger@,
                        id,
                    ) && m == (Message {
                        id,
                        message_type: MessageType::Sent,
                        value: transfer.amount,
                        confirmed: false,
                    })
                    &&& final(self).ledger@ == old(self).ledger@.push(m)
                    &&& final(self).book.external@ == inputs_marked(old(self).book.external@)
                    &&& final(self).book.internal@ == inputs_marked(old(self).book.internal@)
                    &&& *final(self) == (Account {
                        book: final(self).book,
                        ledger: final(self).ledger,
                        ..*old(self)
                    })
                },
                Err(e) => {
                    &&& *final(self) == *old(self)
                    &&& if !valid_destination(transfer.address@) {
                        e is InvalidDestination
                    } else if transfer.amount == 0 || transfer.amount > spec_balance(
                        old(self).book.external@,
                        old(self).book.internal@,
                        old(self).ledger@,
                    ).available {
                        e is InsufficientBalance
                    } else {
                        match outcome {
                            SubmitOutcome::SignerRejected(_) => e is SignerError,
                            SubmitOutcome::NetworkRejected(_) => e is NetworkError,
                            SubmitOutcome::Accepted(id) => has_id(old(self).ledger@, id)
                                && e is NetworkError,
                        }
                    }
                },
            },
    {
        if transfer.address.as_str().unicode_len() == 0 {
            return Err(
                WalletError::InvalidDestination(String::from_str("destination address is empty")),
            );
        }
        let bal = compute_balance(&self.book, &self.ledger);
        if transfer.amount == 0 || transfer.amount > bal.available {
            return Err(
                WalletError::InsufficientBalance(
                    String::from_str("transfer amount is zero or exceeds the available balance"),
                ),
            );
        }
        let id = match outcome {
            SubmitOutcome::Accepted(id) => id,
            SubmitOutcome::SignerRejected(_) => {
                return Err(
                    WalletError::SignerError(String::from_str("the signer rejected the transfer")),
                );
            },
            SubmitOutcome::NetworkRejected(_) => {
                return Err(
                    WalletError::NetworkError(
                        String::from_str("the network rejected the transfer"),
                    ),
                );
            },
        };
        if self.ledger.contains_id(id) {
            return Err(
                WalletError::NetworkError(
                    String::from_str("the network answered with a message id already recorded"),
                ),
            );
        }
        let m = Message {
            id,
            message_type: MessageType::Sent,
            value: transfer.amount,
            confirmed: false,
        };
        self.ledger.append(m);
        mark_column_inputs(&mut self.book.external);
        mark_column_inputs(&mut self.book.internal);
        proof {
            assert(addresses_wf(self.book.external@, false));
            assert(addresses_wf(self.book.internal@, true));
        }
        Ok(m)
    }

    /// Merges the outputs of every address holding more than one of them —
    /// counting dust-allowance outputs only when asked to — into a single
    /// output per address, one internal (consolidation) transfer per address,
    /// external addresses first, then internal, each in derivation-index
    /// order. `fresh_ids` are the network-assigned ids of the submitted
    /// consolidation transfers, consumed in that same order. Safe to call
    /// with nothing to consolidate: the result is an empty list, not an
    /// error. Ids that cannot commit — too few, duplicated, or already
    /// recorded — are rejected as `NetworkError` with nothing changed
    /// (all-or-nothing).
    pub fn consolidate_outputs(
        &mut self,
        include_dust_allowance_outputs: bool,
        fresh_ids: &Vec<u64>,
    ) -> (r: Result<Vec<Message>, WalletError>)
        requires
            old(self).wf(),
            old(self).book.external@.len() + old(self).book.internal@.len() <= usize::MAX,
        ensures
            final(self).wf(),
            ({
                let q = qualifying_seq(old(self).book.external@, include_dust_allowance_outputs)
                    + qualifying_seq(old(self).book.internal@, include_dust_allowance_outputs);
                match r {
                    Ok(msgs) => {
                        &&& ids_ok(old(self).ledger@, fresh_ids@, q.len() as int)
                        &&& msgs@ == consolidation_messages(q, fresh_ids@)
                        &&& final(self).ledger@ == old(self).ledger@ + msgs@
                        &&& final(self).book.external@ == consolidated_col(
                            old(self).book.external@,
                            include_dust_allowance_outputs,
                        )
                        &&& final(self).book.internal@ == consolidated_col(
                            old(self).book.internal@,
                            include_dust_allowance_outputs,
                        )
                        &&& *final(self) == (Account {
                            book: final(self).book,
                            ledger: final(self).ledger,
                            ..*old(self)
                        })
                    },
                    Err(e) => {
                        &&& e is NetworkError
                        &&& !ids_ok(old(self).ledger@, fresh_ids@, q.len() as int)
                        &&& *final(self) == *old(self)
                    },
                }
            }),
    {
        let with_dust = include_dust_allowance_outputs;
        let ghost ext0 = self.book.external@;
        let ghost int0 = self.book.internal@;
        let ghost l0 = self.ledger@;
        let ghost qe = qualifying_seq(ext0, with_dust);
        let ghost qi = qualifying_seq(int0, with_dust);
        let ghost q = qe + qi;

        // Validation: the ids must be able to commit, all-or-nothing.
        let count = count_qualifying(&self.book.external, with_dust) + count_qualifying(
            &self.book.internal,
            with_dust,
        );
        if fresh_ids.len() < count {
            return Err(
                WalletError::NetworkError(
                    String::from_str("too few message ids for consolidation"),
                ),
            );
        }
        let mut a: usize = 0;
        while a < count
            invariant
                *self == *old(self),
                self.wf(),
                0 <= a <= count,
                count == q.len(),
                q == qualifying_seq(old(self).book.external@, with_dust) + qualifying_seq(
                    old(self).book.internal@,
                    with_dust,
                ),
                with_dust == include_dust_allowance_outputs,
                fresh_ids@.len() >= count,
                l0 == self.ledger@,
                forall|x: int| 0 <= x < a ==> !has_id(l0, fresh_ids@[x]),
                forall|x: int, y: int| 0 <= x < y < a ==> fresh_ids@[x] != fresh_ids@[y],
            decreases count - a,
        {
            if self.ledger.contains_id(fresh_ids[a]) {
                return Err(
                    WalletError::NetworkError(
                        String::from_str("a consolidation message id is already recorded"),
                    ),
                );
            }
            let mut b: usize = 0;
            while b < a
                invariant
                    *self == *old(self),
                    self.wf(),
                    0 <= b <= a < count <= fresh_ids@.len(),
                    count == q.len(),
                    q == qualifying_seq(old(self).book.external@, with_dust) + qualifying_seq(
                        old(self).book.internal@,
                        with_dust,
                    ),
                    with_dust == include_dust_allowance_outputs,
                    l0 == self.ledger@,
                    forall|x: int| 0 <= x < b ==> fresh_ids@[x] != fresh_ids@[a as int],
                decreases a - b,
            {
                if fresh_ids[b] == fresh_ids[a] {
                    return Err(
                        WalletError::NetworkError(
                            String::from_str("duplicate message ids for consolidation"),
                        ),
                    );
                }
                b += 1;
            }
            a += 1;
        }
        proof {
            assert(ids_ok(l0, fresh_ids@, q.len() as int));
        }

        // Commit: one consolidation message per qualifying address.
        let mut out: Vec<Message> = Vec::new();
        let mut j: usize = 0;
        let mut i: usize = 0;
        while i < self.book.external.len()
            invariant
                self.ledger.wf(),
                ext0 == old(self).book.external@,
                int0 == old(self).book.internal@,
                l0 == old(self).ledger@,
                with_dust == include_dust_allowance_outputs,
                self.id == old(self).id,
                self.alias == old(self).alias,
                self.created_at == old(self).created_at,
                self.last_synced_at == old(self).last_synced_at,
                self.client_options == old(self).client_options,
                self.skip_persistence == old(self).skip_persistence,
                0 <= i <= ext0.len(),
                self.book.external@.len() == ext0.len(),
                self.book.internal@ == int0,
                addresses_wf(self.book.external@, false),
                addresses_wf(self.book.internal@, true),
                ext0.len() <= u64::MAX,
                ids_ok(l0, fresh_ids@, q.len() as int),
                count == q.len() <= fresh_ids@.len(),
                qe == qualifying_seq(ext0, with_dust),
                q == qe + qi,
                j == qualifying_seq(ext0.take(i as int), with_dust).len(),
                out@ == consolidation_messages(
                    qualifying_seq(ext0.take(i as int), with_dust),
                    fresh_ids@,
                ),
                self.ledger@ == l0 + out@,
                forall|k: int| 0 <= k < i ==> self.book.external@[k] == consolidated(ext0[k], with_dust),
                forall|k: int| i <= k < ext0.len() ==> self.book.external@[k] == ext0[k],
            decreases ext0.len() - i,
        {
            proof {
                assert(ext0.take(i + 1).drop_last() =~= ext0.take(i as int));
                assert(ext0.take(i + 1).last() == ext0[i as int]);
                reveal_with_fuel(Seq::filter, 2);
                lemma_qualifying_take_le(ext0, with_dust, i + 1);
            }
            if is_qualifying(&self.book.external[i], with_dust) {
                proof {
                    assert(qualifying_seq(ext0.take(i + 1), with_dust).len() == j + 1);
                    assert(j < qe.len());
                    assert(q[j as int] == qe[j as int]);
                }
                let m = Message {
                    id: fresh_ids[j],
                    message_type: MessageType::Consolidation,
                    value: self.book.external[i].balance,
                    confirmed: false,
                };
                proof {
                    assert(!has_id(self.ledger@, m.id)) by {
                        assert(!has_id(l0, fresh_ids@[j as int]));
                        if has_id(self.ledger@, m.id) {
                            let w = choose|w: int|
                                0 <= w < self.ledger@.len() && self.ledger@[w].id == m.id;
                            if w < l0.len() {
                                assert(l0[w].id == m.id);
                            } else {
                                assert(self.ledger@[w] == out@[w - l0.len()]);
                                assert(fresh_ids@[w - l0.len()] != fresh_ids@[j as int]);
                            }
                        }
                    }
                }
                self.ledger.append(m);
                let updated = Address {
                    output_count: 1,
                    dust_allowance_count: if with_dust {
                        0
                    } else {
                        self.book.external[i].dust_allowance_count
                    },
                    ..self.book.external[i].duplicate()
                };
                self.book.external.set(i, updated);
                out.push(m);
                proof {
                    assert(out@ =~= consolidation_messages(
                        qualifying_seq(ext0.take(i + 1), with_dust),
                        fresh_ids@,
                    ));
                    assert(self.ledger@ =~= l0 + out@);
                }
                j += 1;
            } else {
                proof {
                    assert(qualifying_seq(ext0.take(i + 1), with_dust)
                        == qualifying_seq(ext0.take(i as int), with_dust));
                }
            }
            i += 1;
        }
        proof {
            assert(ext0.take(ext0.len() as int) =~= ext0);
            assert(self.book.external@ =~= consolidated_col(ext0, with_dust));
        }
        let mut i: usize = 0;
        while i < self.book.internal.len()
            invariant
                self.ledger.wf(),
                ext0 == old(self).book.external@,
                int0 == old(self).book.internal@,
                l0 == old(self).ledger@,
                with_dust == include_dust_allowance_outputs,
                self.id == old(self).id,
                self.alias == old(self).alias,
                self.created_at == old(self).created_at,
                self.last_synced_at == old(self).last_synced_at,
                self.client_options == old(self).client_options,
                self.skip_persistence == old(self).skip_persistence,
                0 <= i <= int0.len(),
                self.book.internal@.len() == int0.len(),
                self.book.external@ == consolidated_col(ext0, with_dust),
                addresses_wf(self.book.external@, false),
                addresses_wf(self.book.internal@, true),
                int0.len() <= u64::MAX,
                ids_ok(l0, fresh_ids@, q.len() as int),
                count == q.len() <= fresh_ids@.len(),
                qe == qualifying_seq(ext0, with_dust),
                qi == qualifying_seq(int0, with_dust),
                q == qe + qi,
                j == qe.len() + qualifying_seq(int0.take(i as int), with_dust).len(),
                out@ == consolidation_messages(
                    qe + qualifying_seq(int0.take(i as int), with_dust),
                    fresh_ids@,
                ),
                self.ledger@ == l0 + out@,
                forall|k: int| 0 <= k < i ==> self.book.internal@[k] == consolidated(int0[k], with_dust),
                forall|k: int| i <= k < int0.len() ==> self.book.internal@[k] == int0[k],
            decreases int0.len() - i,
        {
            proof {
                assert(int0.take(i + 1).drop_last() =~= int0.take(i as int));
                assert(int0.take(i + 1).last() == int0[i as int]);
                reveal_with_fuel(Seq::filter, 2);
                lemma_qualifying_take_le(int0, with_dust, i + 1);
            }
            if is_qualifying(&self.book.internal[i], with_dust) {
                proof {
                    assert(qualifying_seq(int0.take(i + 1), with_dust).len()
                        == qualifying_seq(int0.take(i as int), with_dust).len() + 1);
                    assert(j < q.len());
                    assert(q[j as int] == qi[j - qe.len()]);
                }
                let m = Message {
                    id: fresh_ids[j],
                    message_type: MessageType::Consolidation,
                    value: self.book.internal[i].balance,
                    confirmed: false,
                };
                proof {
                    assert(!has_id(self.ledger@, m.id)) by {
                        assert(!has_id(l0, fresh_ids@[j as int]));
                        if has_id(self.ledger@, m.id) {
                            let w = choose|w: int|
                                0 <= w < self.ledger@.len() && self.ledger@[w].id == m.id;
                            if w < l0.len() {
                                assert(l0[w].id == m.id);
                            } else {
                                assert(self.ledger@[w] == out@[w - l0.len()]);
                                assert(fresh_ids@[w - l0.len()] != fresh_ids@[j as int]);
                            }
                        }
                    }
                }
                self.ledger.append(m);
                let updated = Address {
                    output_count: 1,
                    dust_allowance_count: if with_dust {
                        0
                    } else {
                        self.book.internal[i].dust_allowance_count
                    },
                    ..self.book.internal[i].duplicate()
                };
                self.book.internal.set(i, updated);
                out.push(m);
                proof {
                    assert(qe + qualifying_seq(int0.take(i + 1), with_dust) =~= (qe
                        + qualifying_seq(int0.take(i as int), with_dust)).push(int0[i as int]));
                    assert(out@ =~= consolidation_messages(
                        qe + qualifying_seq(int0.take(i + 1), with_dust),
                        fresh_ids@,
                    ));
                    assert(self.ledger@ =~= l0 + out@);
                }
                j += 1;
            } else {
                proof {
                    assert(qualifying_seq(int0.take(i + 1), with_dust)
                        == qualifying_seq(int0.take(i as int), with_dust));
                }
            }
            i += 1;
        }
        proof {
            assert(int0.take(int0.len() as int) =~= int0);
            assert(self.book.internal@ =~= consolidated_col(int0, with_dust));
            assert(out@ == consolidation_messages(q, fresh_ids@));
        }
        Ok(out)
    }
}

/// The addresses of `s` with role `internal`, in their original order.
pub open spec fn role_filter(s: Seq<Address>, internal: bool) -> Seq<Address> {
    s.filter(|a: Address| a.internal == internal)
}

/// A plain configuration object for constructing an account: a fixed set of
/// optional parameters — signer type, alias, creation time, seed messages and
/// addresses, persistence opt-out — validated once at `initialise`.
pub struct AccountInitialiser {
    pub id: String,
    pub signer_type: SignerType,
    pub alias: Option<String>,
    pub created_at: Option<i64>,
    pub messages: Vec<Message>,
    pub addresses: Vec<Address>,
    pub skip_persistence: bool,
}

impl AccountInitialiser {
    /// A fresh configuration for an account with the given stable id: no
    /// alias, no creation time, no seed state, persistence on, a stronghold
    /// signer.
    pub fn new(id: String) -> (r: AccountInitialiser)
        ensures
            r.id == id,
            r.signer_type == SignerType::Stronghold,
            r.alias is None,
            r.created_at is None,
            r.messages@ == Seq::<Message>::empty(),
            r.addresses@ == Seq::<Address>::empty(),
            !r.skip_persistence,
    {
        AccountInitialiser {
            id,
            signer_type: SignerType::Stronghold,
            alias: None,
            created_at: None,
            messages: Vec::new(),
            addresses: Vec::new(),
            skip_persistence: false,
        }
    }

    /// Sets the kind of signing backend the account is bound to.
    pub fn signer_type(self, signer_type: SignerType) -> (r: Self)
        ensures
            r == (AccountInitialiser { signer_type, ..self }),
    {
        AccountInitialiser { signer_type, ..self }
    }

    /// Sets the account's human-readable label.
    pub fn alias(self, alias: String) -> (r: Self)
        ensures
            r == (AccountInitialiser { alias: Some(alias), ..self }),
    {
        AccountInitialiser { alias: Some(alias), ..self }
    }

    /// Sets the account's creation time (unix-epoch seconds).
    pub fn created_at(self, created_at: i64) -> (r: Self)
        ensures
            r == (AccountInitialiser { created_at: Some(created_at), ..self }),
    {
        AccountInitialiser { created_at: Some(created_at), ..self }
    }

    /// Seeds the account with already-known messages.
    pub fn messages(self, messages: Vec<Message>) -> (r: Self)
        ensures
            r == (AccountInitialiser { messages, ..self }),
    {
        AccountInitialiser { messages, ..self }
    }

    /// Seeds the account with already-derived addresses.
    pub fn addresses(self, addresses: Vec<Address>) -> (r: Self)
        ensures
            r == (AccountInitialiser { addresses, ..self }),
    {
        AccountInitialiser { addresses, ..self }
    }

    /// Opts the account out of durable persistence (recorded for the
    /// caller's surrounding layer; the core itself never touches storage).
    pub fn skip_persistence(self) -> (r: Self)
        ensures
            r == (AccountInitialiser { skip_persistence: true, ..self }),
    {
        AccountInitialiser { skip_persistence: true, ..self }
    }

    /// Validates the configuration once and constructs the account: seed
    /// messages must carry unique ids and seed addresses contiguous per-role
    /// derivation indexes, else `ConfigError` — the account would otherwise
    /// start in a corrupt state. The alias defaults to the id; the creation
    /// time to the epoch; the ledger and the address book to the seed state;
    /// `last_synced_at` to `None` until the first synchronization.
    pub fn initialise(self) -> (r: Result<Account, WalletError>)
        ensures
            match r {
                Ok(acc) => {
                    &&& ledger_ids_unique(self.messages@)
                    &&& addresses_wf(role_filter(self.addresses@, false), false)
                    &&& addresses_wf(role_filter(self.addresses@, true), true)
                    &&& acc.wf()
                    &&& acc.id == self.id
                    &&& (match self.alias {
                        Some(al) => acc.alias == al,
                        None => acc.alias == self.id,
                    })
                    &&& acc.created_at == (match self.created_at {
                        Some(t) => t,
                        None => 0,
                    })
                    &&& acc.last_synced_at is None
                    &&& acc.skip_persistence == self.skip_persistence
                    &&& acc.book.external@ == role_filter(self.addresses@, false)
                    &&& acc.book.internal@ == role_filter(self.addresses@, true)
                    &&& acc.ledger@ == self.messages@
                    &&& acc.client_options.nodes@.len() == 0
                },
                Err(e) => {
                    &&& e is ConfigError
                    &&& !(ledger_ids_unique(self.messages@) && addresses_wf(
                        role_filter(self.addresses@, false),
                        false,
                    ) && addresses_wf(role_filter(self.addresses@, true), true))
                },
            },
    {
        if !check_unique_ids(&self.messages) {
            return Err(
                WalletError::ConfigError(String::from_str("seed messages repeat a message id")),
            );
        }
        let ext = collect_role(&self.addresses, false);
        let itl = collect_role(&self.addresses, true);
        if !check_contiguous(&ext) || !check_contiguous(&itl) {
            return Err(
                WalletError::ConfigError(
                    String::from_str("seed addresses have gaps in their derivation indexes"),
                ),
            );
        }
        let alias = match self.alias {
            Some(al) => al,
            None => self.id.clone(),
        };
        let created_at = match self.created_at {
            Some(t) => t,
            None => 0,
        };
        let ne = ext.len();
        let ni = itl.len();
        proof {
            assert(ext@.len() == ne && ne <= usize::MAX);
            assert(itl@.len() == ni && ni <= usize::MAX);
            assert(ext@.len() <= u64::MAX);
            assert(itl@.len() <= u64::MAX);
        }
        Ok(
            Account {
                id: self.id,
                alias,
                created_at,
                last_synced_at: None,
                client_options: ClientOptions { nodes: Vec::new() },
                skip_persistence: self.skip_persistence,
                book: AddressBook { external: ext, internal: itl },
                ledger: MessageLedger { messages: self.messages },
            },
        )
    }
}

/// No element of `s` qualifying means an empty qualifying sequence.
proof fn lemma_no_qualifying(s: Seq<Address>, with_dust: bool)
    requires
        forall|i: int| 0 <= i < s.len() ==> !qualifies(#[trigger] s[i], with_dust),
    ensures
        qualifying_seq(s, with_dust) == Seq::<Address>::empty(),
    decreases s.len(),
{
    reveal_with_fuel(Seq::filter, 2);
    if s.len() > 0 {
        assert(forall|i: int|
            0 <= i < s.drop_last().len() ==> !qualifies(#[trigger] s.drop_last()[i], with_dust));
        lemma_no_qualifying(s.drop_last(), with_dust);
        assert(!qualifies(s.last(), with_dust));
    }
}

/// Law (consolidation no-op): on an account whose addresses each hold at most
/// a single output — counting dust-allowance outputs only when asked to —
/// nothing qualifies for consolidation: the consolidation message sequence is
/// empty and every address is left exactly as it was.
pub proof fn lemma_consolidation_noop(ext: Seq<Address>, itl: Seq<Address>, with_dust: bool)
    requires
        forall|i: int| 0 <= i < ext.len() ==> !qualifies(#[trigger] ext[i], with_dust),
        forall|i: int| 0 <= i < itl.len() ==> !qualifies(#[trigger] itl[i], with_dust),
    ensures
        qualifying_seq(ext, with_dust) + qualifying_seq(itl, with_dust) == Seq::<
            Address,
        >::empty(),
        consolidated_col(ext, with_dust) == ext,
        consolidated_col(itl, with_dust) == itl,
{
    lemma_no_qualifying(ext, with_dust);
    lemma_no_qualifying(itl, with_dust);
    assert(qualifying_seq(ext, with_dust) + qualifying_seq(itl, with_dust) =~= Seq::<
        Address,
    >::empty());
    assert(consolidated_col(ext, with_dust) =~= ext);
    assert(consolidated_col(itl, with_dust) =~= itl);
}

/// Whether the ids of `v` are pairwise distinct.
fn check_unique_ids(v: &Vec<Message>) -> (r: bool)
    ensures
        r == ledger_ids_unique(v@),
{
    let mut i: usize = 0;
    while i < v.len()
        invariant
            0 <= i <= v@.len(),
            forall|x: int, y: int| 0 <= x < y < v@.len() && x < i ==> v@[x].id != v@[y].id,
        decreases v@.len() - i,
    {
        let mut j: usize = i + 1;
        while j < v.len()
            invariant
                0 <= i < j <= v@.len(),
                forall|y: int| i < y < j ==> v@[i as int].id != v@[y].id,
            decreases v@.len() - j,
        {
            if v[i].id == v[j].id {
                return false;
            }
            j += 1;
        }
        i += 1;
    }
    true
}

/// Collects the addresses of `v` with role `internal`, preserving order.
fn collect_role(v: &Vec<Address>, internal: bool) -> (r: Vec<Address>)
    ensures
        r@ == role_filter(v@, internal),
        forall|k: int| 0 <= k < r@.len() ==> (#[trigger] r@[k]).internal == internal,
{
    let mut r: Vec<Address> = Vec::new();
    let mut i: usize = 0;
    while i < v.len()
        invariant
            0 <= i <= v@.len(),
            r@ == role_filter(v@.take(i as int), internal),
            forall|k: int| 0 <= k < r@.len() ==> (#[trigger] r@[k]).internal == internal,
        decreases v@.len() - i,
    {
        proof {
            assert(v@.take(i + 1).drop_last() =~= v@.take(i as int));
            assert(v@.take(i + 1).last() == v@[i as int]);
            reveal_with_fuel(Seq::filter, 2);
        }
        if v[i].internal == internal {
            r.push(v[i].duplicate());
        }
        i += 1;
    }
    proof {
        assert(v@.take(v@.len() as int) =~= v@);
    }
    r
}

/// Whether the addresses of `v` sit at their own positions: entry `k` carries
/// derivation index `k`.
fn check_contiguous(v: &Vec<Address>) -> (r: bool)
    ensures
        r == forall|k: int| 0 <= k < v@.len() ==> (#[trigger] v@[k]).index == k,
{
    let mut i: usize = 0;
    while i < v.len()
        invariant
            0 <= i <= v@.len(),
            forall|k: int| 0 <= k < i ==> (#[trigger] v@[k]).index == k,
        decreases v@.len() - i,
    {
        if v[i].index != i as u64 {
            return false;
        }
        i += 1;
    }
    true
}

/// Whether `a` qualifies for consolidation, computed without overflowing.
fn is_qualifying(a: &Address, include_dust: bool) -> (r: bool)
    ensures
        r == qualifies(*a, include_dust),
{
    if include_dust {
        a.output_count >= 2 || a.dust_allowance_count >= 2 || (a.output_count >= 1
            && a.dust_allowance_count >= 1)
    } else {
        a.output_count >= 2
    }
}

/// How many addresses of `v` qualify for consolidation.
fn count_qualifying(v: &Vec<Address>, include_dust: bool) -> (r: usize)
    ensures
        r == qualifying_seq(v@, include_dust).len(),
{
    let mut c: usize = 0;
    let mut i: usize = 0;
    while i < v.len()
        invariant
            0 <= i <= v@.len(),
            c == qualifying_seq(v@.take(i as int), include_dust).len(),
            c <= i,
        decreases v@.len() - i,
    {
        proof {
            assert(v@.take(i + 1).drop_last() =~= v@.take(i as int));
            assert(v@.take(i + 1).last() == v@[i as int]);
            reveal_with_fuel(Seq::filter, 2);
        }
        if is_qualifying(&v[i], include_dust) {
            c += 1;
        }
        i += 1;
    }
    proof {
        assert(v@.take(v@.len() as int) =~= v@);
    }
    c
}

/// A prefix of a column has no more qualifying addresses than the column.
proof fn lemma_qualifying_take_le(s: Seq<Address>, include_dust: bool, i: int)
    requires
        0 <= i <= s.len(),
    ensures
        qualifying_seq(s.take(i), include_dust).len() <= qualifying_seq(s, include_dust).len(),
    decreases s.len() - i,
{
    if i < s.len() {
        assert(s.take(i + 1).drop_last() =~= s.take(i));
        assert(s.take(i + 1).last() == s[i]);
        reveal_with_fuel(Seq::filter, 2);
        lemma_qualifying_take_le(s, include_dust, i + 1);
        assert(s.take(s.len() as int) =~= s);
    } else {
        assert(s.take(i) =~= s);
    }
}

/// Consumes a column's inputs under the all-unspent policy: marks every
/// unspent address holding funds as used.
fn mark_column_inputs(v: &mut Vec<Address>)
    ensures
        final(v)@ == inputs_marked(old(v)@),
{
    let ghost v0 = v@;
    let mut i: usize = 0;
    while i < v.len()
        invariant
            0 <= i <= v0.len(),
            v@.len() == v0.len(),
            forall|k: int| 0 <= k < i ==> v@[k] == input_marked(v0[k]),
            forall|k: int| i <= k < v0.len() ==> v@[k] == v0[k],
        decreases v0.len() - i,
    {
        if !v[i].used && v[i].balance > 0 {
            let updated = Address { used: true, ..v[i].duplicate() };
            v.set(i, updated);
        }
        i += 1;
    }
    proof {
        assert(v@ =~= inputs_marked(v0));
    }
}

} // verus!
