use wallet_account::account::{
    Account, AccountInitialiser, ClientOptions, SignerType, SubmitOutcome, Transfer,
};
use wallet_account::address::Address;
use wallet_account::error::WalletError;
use wallet_account::message::{Message, MessageType};
use wallet_account::sync::{AddressRecord, NetworkSnapshot};

fn fresh_account(id: &str) -> Account {
    AccountInitialiser::new(String::from(id)).initialise().unwrap()
}

fn msg(id: u64, message_type: MessageType, value: u64, confirmed: bool) -> Message {
    Message { id, message_type, value, confirmed }
}

fn record(balance: u64, messages: Vec<Message>) -> AddressRecord {
    AddressRecord { balance, output_count: 1, dust_allowance_count: 0, messages }
}

fn values(n: usize) -> Vec<String> {
    let mut v = Vec::new();
    let mut i = 0;
    while i < n {
        v.push(format!("addr{}", i));
        i += 1;
    }
    v
}

#[test]
fn initialise_defaults() {
    let acc = fresh_account("acc1");
    assert_eq!(acc.id(), "acc1");
    assert_eq!(acc.alias(), "acc1");
    assert_eq!(acc.created_at(), 0);
    assert!(acc.last_synced_at().is_none());
    assert!(acc.client_options().nodes.is_empty());
}

#[test]
fn initialise_with_configuration() {
    let acc = AccountInitialiser::new(String::from("acc2"))
        .signer_type(SignerType::LedgerNano)
        .alias(String::from("savings"))
        .created_at(1_600_000_000)
        .skip_persistence()
        .initialise()
        .unwrap();
    assert_eq!(acc.alias(), "savings");
    assert_eq!(acc.created_at(), 1_600_000_000);
}

#[test]
fn initialise_rejects_duplicate_seed_message_ids() {
    let seeded = AccountInitialiser::new(String::from("acc3"))
        .messages(vec![
            msg(7, MessageType::Received, 10, true),
            msg(7, MessageType::Sent, 5, false),
        ])
        .initialise();
    match seeded {
        Err(WalletError::ConfigError(_)) => {}
        _ => panic!("duplicate seed message ids must be rejected with ConfigError"),
    }
}

#[test]
fn initialise_rejects_gapped_seed_addresses() {
    let a = Address {
        value: String::from("x"),
        index: 3,
        internal: false,
        balance: 0,
        used: false,
        output_count: 0,
        dust_allowance_count: 0,
    };
    let seeded = AccountInitialiser::new(String::from("acc4")).addresses(vec![a]).initialise();
    match seeded {
        Err(WalletError::ConfigError(_)) => {}
        _ => panic!("gapped seed address indexes must be rejected with ConfigError"),
    }
}

#[test]
fn unused_address_selection() {
    // After one generateAddress on an empty book, the latest address is
    // unused and latestAddress returns that same address.
    let mut acc = fresh_account("acc5");
    let a = acc.generate_address(Some(String::from("first"))).unwrap();
    assert_eq!(a.index, 0);
    assert!(!a.internal);
    assert!(!a.used);
    assert!(acc.is_latest_address_unused().unwrap());
    let latest = acc.latest_address(None).unwrap();
    assert_eq!(latest.value, a.value);
    assert_eq!(latest.index, a.index);
}

#[test]
fn generate_address_without_backend_fails() {
    let mut acc = fresh_account("acc6");
    match acc.generate_address(None) {
        Err(WalletError::SignerError(_)) => {}
        _ => panic!("a missing derived value must surface as SignerError"),
    }
}

#[test]
fn generate_addresses_in_index_order() {
    let mut acc = fresh_account("acc7");
    let vals = values(3);
    let out = acc.generate_addresses(3, &vals).unwrap();
    assert_eq!(out.len(), 3);
    for (i, a) in out.iter().enumerate() {
        assert_eq!(a.index, i as u64);
        assert_eq!(a.value, vals[i]);
    }
    // Too few derived values: SignerError, nothing changes.
    match acc.generate_addresses(9, &vals) {
        Err(WalletError::SignerError(_)) => {}
        _ => panic!("too few derived values must surface as SignerError"),
    }
    assert_eq!(acc.latest_address(None).unwrap().index, 2);
}

#[test]
fn get_unused_address_prefers_existing() {
    let mut acc = fresh_account("acc8");
    let a = acc.generate_address(Some(String::from("first"))).unwrap();
    let unused = acc.get_unused_address(None).unwrap();
    assert_eq!(unused.value, a.value);
    assert_eq!(unused.index, 0);
}

#[test]
fn sync_discovers_messages_and_marks_usage() {
    let mut acc = fresh_account("acc9");
    let snap = NetworkSnapshot {
        records: vec![
            record(50, vec![msg(1, MessageType::Received, 50, true)]),
            record(0, vec![]),
        ],
    };
    let needed = acc.sync_values_needed(&snap, 2);
    let new = acc.sync(&snap, &values(needed), 2, 1_700_000_000).unwrap();
    assert_eq!(new.len(), 1);
    assert_eq!(new[0].id, 1);
    assert_eq!(acc.last_synced_at(), Some(1_700_000_000));
    let spent = acc.list_spent_addresses().unwrap();
    assert_eq!(spent.len(), 1);
    assert_eq!(spent[0].index, 0);
    assert_eq!(spent[0].balance, 50);
}

#[test]
fn sync_is_idempotent() {
    // Running sync twice with no intervening network change yields the same
    // ledger contents and the same address usage flags, with no duplicates.
    let mut acc = fresh_account("acc10");
    let snap = NetworkSnapshot {
        records: vec![
            record(50, vec![msg(1, MessageType::Received, 50, true)]),
            record(7, vec![msg(2, MessageType::Received, 7, false)]),
        ],
    };
    let needed = acc.sync_values_needed(&snap, 3);
    acc.sync(&snap, &values(needed), 3, 100).unwrap();
    let messages_once = acc.list_messages(100, 0, None).unwrap();
    let spent_once = acc.list_spent_addresses().unwrap();
    let unspent_once = acc.list_unspent_addresses().unwrap();

    let needed2 = acc.sync_values_needed(&snap, 3);
    assert_eq!(needed2, 0);
    let new = acc.sync(&snap, &values(0), 3, 200).unwrap();
    assert!(new.is_empty());
    let messages_twice = acc.list_messages(100, 0, None).unwrap();
    assert_eq!(messages_once.len(), messages_twice.len());
    for (a, b) in messages_once.iter().zip(messages_twice.iter()) {
        assert_eq!(a, b);
    }
    let spent_twice = acc.list_spent_addresses().unwrap();
    let unspent_twice = acc.list_unspent_addresses().unwrap();
    assert_eq!(spent_once.len(), spent_twice.len());
    assert_eq!(unspent_once.len(), unspent_twice.len());
    for (a, b) in spent_once.iter().zip(spent_twice.iter()) {
        assert_eq!(a.index, b.index);
        assert_eq!(a.used, b.used);
        assert_eq!(a.balance, b.balance);
    }
}

#[test]
fn sync_gap_limit_discovery() {
    // The last used index is 2 and the gap limit is 5: at least 2 + 5
    // addresses must exist afterwards.
    let mut acc = fresh_account("acc11");
    let snap = NetworkSnapshot {
        records: vec![
            record(0, vec![]),
            record(0, vec![]),
            record(9, vec![msg(1, MessageType::Received, 9, true)]),
        ],
    };
    let needed = acc.sync_values_needed(&snap, 5);
    acc.sync(&snap, &values(needed), 5, 100).unwrap();
    let spent = acc.list_spent_addresses().unwrap();
    let unspent = acc.list_unspent_addresses().unwrap();
    let total_addresses = spent.len() + unspent.len();
    assert!(total_addresses >= 2 + 5);
    // Exactly one past the last active index plus the gap, here.
    assert_eq!(total_addresses, 3 + 5);
}

#[test]
fn sync_confirms_without_duplicating() {
    let mut acc = fresh_account("acc12");
    let unconfirmed = NetworkSnapshot {
        records: vec![record(5, vec![msg(1, MessageType::Received, 5, false)])],
    };
    let needed = acc.sync_values_needed(&unconfirmed, 1);
    acc.sync(&unconfirmed, &values(needed), 1, 100).unwrap();
    assert!(!acc.get_message(1).unwrap().confirmed);

    let confirmed = NetworkSnapshot {
        records: vec![record(5, vec![msg(1, MessageType::Received, 5, true)])],
    };
    let needed = acc.sync_values_needed(&confirmed, 1);
    let new = acc.sync(&confirmed, &values(needed), 1, 200).unwrap();
    assert!(new.is_empty());
    assert!(acc.get_message(1).unwrap().confirmed);
    assert_eq!(acc.list_messages(100, 0, None).unwrap().len(), 1);
}

#[test]
fn sync_with_too_few_values_changes_nothing() {
    let mut acc = fresh_account("acc13");
    let snap = NetworkSnapshot {
        records: vec![record(5, vec![msg(1, MessageType::Received, 5, true)])],
    };
    match acc.sync(&snap, &values(0), 4, 100) {
        Err(WalletError::SignerError(_)) => {}
        _ => panic!("too few fresh values must surface as SignerError"),
    }
    assert!(acc.last_synced_at().is_none());
    assert!(acc.get_message(1).is_none());
}

#[test]
fn balance_invariant_holds() {
    // total == available + outgoing after computeBalance.
    let mut acc = fresh_account("acc14");
    let snap = NetworkSnapshot {
        records: vec![record(100, vec![msg(1, MessageType::Received, 100, true)])],
    };
    let needed = acc.sync_values_needed(&snap, 1);
    acc.sync(&snap, &values(needed), 1, 100).unwrap();
    acc.transfer(
        Transfer::new(String::from("destination"), 30),
        SubmitOutcome::Accepted(2),
    )
    .unwrap();
    let b = acc.balance().unwrap();
    assert_eq!(b.get_total(), 100);
    assert_eq!(b.get_outgoing(), 30);
    assert_eq!(b.get_available(), 70);
    assert_eq!(b.get_incoming(), 0);
    assert_eq!(b.get_total(), b.get_available() + b.get_outgoing());
}

#[test]
fn balance_counts_unconfirmed_incoming() {
    let mut acc = fresh_account("acc15");
    let snap = NetworkSnapshot {
        records: vec![record(40, vec![msg(1, MessageType::Received, 40, false)])],
    };
    let needed = acc.sync_values_needed(&snap, 1);
    acc.sync(&snap, &values(needed), 1, 100).unwrap();
    let b = acc.balance().unwrap();
    assert_eq!(b.get_total(), 40);
    assert_eq!(b.get_incoming(), 40);
    assert_eq!(b.get_outgoing(), 0);
    assert_eq!(b.get_available(), 40);
}

fn funded_account(id: &str, balance: u64) -> Account {
    let mut acc = fresh_account(id);
    let snap = NetworkSnapshot {
        records: vec![record(balance, vec![msg(1, MessageType::Received, balance, true)])],
    };
    let needed = acc.sync_values_needed(&snap, 1);
    acc.sync(&snap, &values(needed), 1, 100).unwrap();
    acc
}

#[test]
fn transfer_atomic_on_insufficient_balance() {
    // A transfer that fails with InsufficientBalance leaves the ledger
    // length unchanged.
    let mut acc = funded_account("acc16", 50);
    let before = acc.list_messages(100, 0, None).unwrap().len();
    match acc.transfer(
        Transfer::new(String::from("destination"), 51),
        SubmitOutcome::Accepted(9),
    ) {
        Err(WalletError::InsufficientBalance(_)) => {}
        _ => panic!("overspending must surface as InsufficientBalance"),
    }
    assert_eq!(acc.list_messages(100, 0, None).unwrap().len(), before);
}

#[test]
fn transfer_rejects_zero_amount() {
    let mut acc = funded_account("acc17", 50);
    match acc.transfer(Transfer::new(String::from("destination"), 0), SubmitOutcome::Accepted(9)) {
        Err(WalletError::InsufficientBalance(_)) => {}
        _ => panic!("a zero amount must be rejected"),
    }
}

#[test]
fn transfer_rejects_empty_destination() {
    let mut acc = funded_account("acc18", 50);
    match acc.transfer(Transfer::new(String::new(), 10), SubmitOutcome::Accepted(9)) {
        Err(WalletError::InvalidDestination(_)) => {}
        _ => panic!("an empty destination must surface as InvalidDestination"),
    }
}

#[test]
fn transfer_surfaces_collaborator_failures() {
    let mut acc = funded_account("acc19", 50);
    match acc.transfer(
        Transfer::new(String::from("destination"), 10),
        SubmitOutcome::SignerRejected(String::from("locked")),
    ) {
        Err(WalletError::SignerError(_)) => {}
        _ => panic!("a signer rejection must surface as SignerError"),
    }
    match acc.transfer(
        Transfer::new(String::from("destination"), 10),
        SubmitOutcome::NetworkRejected(String::from("offline")),
    ) {
        Err(WalletError::NetworkError(_)) => {}
        _ => panic!("a network rejection must surface as NetworkError"),
    }
    assert_eq!(acc.list_messages(100, 0, None).unwrap().len(), 1);
}

#[test]
fn transfer_appends_unconfirmed_sent_message() {
    let mut acc = funded_account("acc20", 50);
    let m = acc
        .transfer(Transfer::new(String::from("destination"), 20), SubmitOutcome::Accepted(77))
        .unwrap();
    assert_eq!(m.id, 77);
    assert_eq!(m.message_type, MessageType::Sent);
    assert_eq!(m.value, 20);
    assert!(!m.confirmed);
    assert_eq!(acc.get_message(77).unwrap(), m);
    // The funded input was consumed under the all-unspent policy.
    let spent = acc.list_spent_addresses().unwrap();
    assert!(spent.iter().any(|a| a.balance == 50));
}

#[test]
fn pagination_newest_first() {
    // listMessages(count=2, from=0) on a ledger of 5 returns exactly the two
    // newest; listMessages(count=2, from=10) returns none.
    let mut acc = fresh_account("acc21");
    let snap = NetworkSnapshot {
        records: vec![record(
            10,
            vec![
                msg(1, MessageType::Received, 1, true),
                msg(2, MessageType::Received, 2, true),
                msg(3, MessageType::Received, 3, true),
                msg(4, MessageType::Received, 4, true),
                msg(5, MessageType::Received, 5, true),
            ],
        )],
    };
    let needed = acc.sync_values_needed(&snap, 1);
    acc.sync(&snap, &values(needed), 1, 100).unwrap();
    let page = acc.list_messages(2, 0, None).unwrap();
    assert_eq!(page.len(), 2);
    assert_eq!(page[0].id, 5);
    assert_eq!(page[1].id, 4);
    let beyond = acc.list_messages(2, 10, None).unwrap();
    assert_eq!(beyond.len(), 0);
}

#[test]
fn pagination_with_type_filter() {
    let mut acc = funded_account("acc22", 100);
    acc.transfer(Transfer::new(String::from("destination"), 10), SubmitOutcome::Accepted(50))
        .unwrap();
    let sent = acc.list_messages(10, 0, Some(MessageType::Sent)).unwrap();
    assert_eq!(sent.len(), 1);
    assert_eq!(sent[0].id, 50);
    let received = acc.list_messages(10, 0, Some(MessageType::Received)).unwrap();
    assert_eq!(received.len(), 1);
    assert_eq!(received[0].id, 1);
}

#[test]
fn get_message_point_lookup() {
    let acc = funded_account("acc23", 10);
    assert!(acc.get_message(1).is_some());
    assert!(acc.get_message(999).is_none());
}

#[test]
fn consolidation_noop_on_single_outputs() {
    // consolidateOutputs(false) on an account whose addresses hold a single
    // output each returns an empty message sequence.
    let mut acc = funded_account("acc24", 10);
    let out = acc.consolidate_outputs(false, &Vec::new()).unwrap();
    assert!(out.is_empty());
    assert_eq!(acc.list_messages(100, 0, None).unwrap().len(), 1);
}

#[test]
fn consolidation_merges_fragmented_outputs() {
    let a = Address {
        value: String::from("frag"),
        index: 0,
        internal: false,
        balance: 30,
        used: false,
        output_count: 4,
        dust_allowance_count: 1,
    };
    let mut acc =
        AccountInitialiser::new(String::from("acc25")).addresses(vec![a]).initialise().unwrap();
    let out = acc.consolidate_outputs(false, &vec![11]).unwrap();
    assert_eq!(out.len(), 1);
    assert_eq!(out[0].id, 11);
    assert_eq!(out[0].message_type, MessageType::Consolidation);
    assert_eq!(out[0].value, 30);
    assert!(!out[0].confirmed);
    // A second consolidation finds only the single merged output (the
    // dust-allowance output was not included) plus that one dust output.
    let again = acc.consolidate_outputs(false, &vec![12]).unwrap();
    assert!(again.is_empty());
    // Including dust-allowance outputs now qualifies the address again.
    let with_dust = acc.consolidate_outputs(true, &vec![13]).unwrap();
    assert_eq!(with_dust.len(), 1);
    let after = acc.consolidate_outputs(true, &vec![14]).unwrap();
    assert!(after.is_empty());
}

#[test]
fn consolidation_rejects_unusable_ids() {
    let a = Address {
        value: String::from("frag"),
        index: 0,
        internal: false,
        balance: 30,
        used: false,
        output_count: 4,
        dust_allowance_count: 0,
    };
    let mut acc =
        AccountInitialiser::new(String::from("acc26")).addresses(vec![a]).initialise().unwrap();
    match acc.consolidate_outputs(false, &Vec::new()) {
        Err(WalletError::NetworkError(_)) => {}
        _ => panic!("too few consolidation ids must surface as NetworkError"),
    }
    assert_eq!(acc.list_messages(100, 0, None).unwrap().len(), 0);
}

#[test]
fn set_alias_takes_effect() {
    let mut acc = fresh_account("acc27");
    acc.set_alias(String::from("spending")).unwrap();
    assert_eq!(acc.alias(), "spending");
    assert_eq!(acc.id(), "acc27");
}

#[test]
fn set_client_options_validates() {
    let mut acc = fresh_account("acc28");
    match acc.set_client_options(ClientOptions::new(Vec::new())) {
        Err(WalletError::ConfigError(e)) => assert!(!e.is_empty()),
        _ => panic!("empty client options must surface as ConfigError"),
    }
    acc.set_client_options(ClientOptions::new(vec![String::from("https://node.example")]))
        .unwrap();
    assert_eq!(acc.client_options().nodes, vec![String::from("https://node.example")]);
}

#[test]
fn balance_rendering_format() {
    let mut acc = funded_account("acc29", 100);
    acc.transfer(Transfer::new(String::from("destination"), 30), SubmitOutcome::Accepted(2))
        .unwrap();
    let b = acc.balance().unwrap();
    assert_eq!(b.to_string(), "total=100, available=70, incoming=0, outgoing=30");
}

#[test]
fn account_rendering_format() {
    let acc = fresh_account("acc30");
    assert_eq!(
        acc.to_string(),
        "id=acc30, alias=acc30, total=0, available=0, incoming=0, outgoing=0"
    );
}

#[test]
fn error_cause_is_readable() {
    let mut acc = fresh_account("acc31");
    match acc.generate_address(None) {
        Err(e) => assert!(!e.cause().is_empty()),
        Ok(_) => panic!("a missing derived value must fail"),
    }
}

#[test]
fn latest_address_derives_on_empty_book() {
    let mut acc = fresh_account("acc32");
    match acc.latest_address(None) {
        Err(WalletError::SignerError(_)) => {}
        _ => panic!("an empty book without a derived value must surface as SignerError"),
    }
    let a = acc.latest_address(Some(String::from("first"))).unwrap();
    assert_eq!(a.index, 0);
    assert!(acc.is_latest_address_unused().unwrap());
}

#[test]
fn seeded_roles_partition_in_index_order() {
    let mk = |value: &str, index: u64, internal: bool, used: bool| Address {
        value: String::from(value),
        index,
        internal,
        balance: 0,
        used,
        output_count: 1,
        dust_allowance_count: 0,
    };
    let acc = AccountInitialiser::new(String::from("acc33"))
        .addresses(vec![
            mk("e0", 0, false, true),
            mk("i0", 0, true, false),
            mk("e1", 1, false, false),
            mk("i1", 1, true, true),
        ])
        .initialise()
        .unwrap();
    let spent = acc.list_spent_addresses().unwrap();
    assert_eq!(spent.len(), 2);
    assert_eq!((spent[0].value.as_str(), spent[0].internal), ("e0", false));
    assert_eq!((spent[1].value.as_str(), spent[1].internal), ("i1", true));
    let unspent = acc.list_unspent_addresses().unwrap();
    assert_eq!(unspent.len(), 2);
    assert_eq!((unspent[0].value.as_str(), unspent[0].internal), ("e1", false));
    assert_eq!((unspent[1].value.as_str(), unspent[1].internal), ("i0", true));
}

#[test]
fn sync_extends_an_already_seeded_book() {
    // Discovery never shrinks the book and reuses known addresses in place.
    let mut acc = fresh_account("acc34");
    let vals = values(4);
    acc.generate_addresses(4, &vals).unwrap();
    let snap = NetworkSnapshot {
        records: vec![record(5, vec![msg(1, MessageType::Received, 5, true)])],
    };
    // Target is 1 + 2 = 3 addresses; the book already holds 4.
    assert_eq!(acc.sync_values_needed(&snap, 2), 0);
    acc.sync(&snap, &Vec::new(), 2, 100).unwrap();
    let all = acc.list_spent_addresses().unwrap().len() + acc.list_unspent_addresses().unwrap().len();
    assert_eq!(all, 4);
    let latest = acc.latest_address(None).unwrap();
    assert_eq!(latest.index, 3);
    assert_eq!(latest.value, vals[3]);
}
