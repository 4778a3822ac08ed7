use std::str::FromStr;

use mail_cli::store_accounts::{StoredAccountData, StoredAccounts};

#[test]
fn empty_entries_load_as_empty_mapping() {
    let store = StoredAccounts::from_entries(Vec::new());
    assert_eq!(store.len(), 0);
    assert!(store.map().is_empty());
}

#[test]
fn empty_document_loads_as_empty_mapping() {
    // An absent or empty credential document is an empty mapping, never an
    // error: an empty text parses to a table with no entries.
    let table = toml::Table::from_str("").expect("empty document must parse");
    let mut entries = Vec::new();
    for (account, value) in table.iter() {
        let access = value["access_token"].as_str().unwrap().to_string();
        let refresh = value["refresh_token"].as_str().unwrap().to_string();
        entries.push((account.clone(), StoredAccountData::new(access, refresh)));
    }
    let store = StoredAccounts::from_entries(entries);
    assert_eq!(store.len(), 0);
}

#[test]
fn upsert_then_lookup_returns_the_credential() {
    let mut store = StoredAccounts::new();
    store.insert(
        String::from("alice@example.com"),
        StoredAccountData::new(String::from("acc-1"), String::from("ref-1")),
    );
    let got = store.get(&String::from("alice@example.com")).unwrap();
    assert_eq!(got.access_token, "acc-1");
    assert_eq!(got.refresh_token, "ref-1");
    assert!(store.get(&String::from("bob@example.com")).is_none());
}

#[test]
fn upsert_replaces_existing_entry() {
    let mut store = StoredAccounts::new();
    store.insert(
        String::from("alice@example.com"),
        StoredAccountData::new(String::from("old"), String::from("ref-1")),
    );
    store.insert(
        String::from("alice@example.com"),
        StoredAccountData::new(String::from("new"), String::from("ref-1")),
    );
    assert_eq!(store.len(), 1);
    let got = store.get(&String::from("alice@example.com")).unwrap();
    assert_eq!(got.access_token, "new");
}

#[test]
fn store_then_load_roundtrip_through_toml() {
    // Freshly created empty store, one upsert, a full rewrite to the
    // document format, a load back: the mapping carries exactly that
    // account and credential.
    let mut store = StoredAccounts::new();
    store.insert(
        String::from("alice@example.com"),
        StoredAccountData::new(String::from("acc-1"), String::from("ref-1")),
    );

    let mut table = toml::Table::new();
    for (account, data) in store.snapshot() {
        let mut entry = toml::Table::new();
        entry.insert(
            String::from("access_token"),
            toml::Value::String(data.access_token),
        );
        entry.insert(
            String::from("refresh_token"),
            toml::Value::String(data.refresh_token),
        );
        table.insert(account, toml::Value::Table(entry));
    }
    let document = toml::to_string(&table).expect("the store must serialize");

    let read_back = toml::Table::from_str(&document).expect("the document must parse");
    let mut entries = Vec::new();
    for (account, value) in read_back.iter() {
        let access = value["access_token"].as_str().unwrap().to_string();
        let refresh = value["refresh_token"].as_str().unwrap().to_string();
        entries.push((account.clone(), StoredAccountData::new(access, refresh)));
    }
    let loaded = StoredAccounts::from_entries(entries);

    assert_eq!(loaded.len(), 1);
    let got = loaded.get(&String::from("alice@example.com")).unwrap();
    assert_eq!(got.access_token, "acc-1");
    assert_eq!(got.refresh_token, "ref-1");
}

#[test]
fn from_entries_keeps_the_later_duplicate() {
    let store = StoredAccounts::from_entries(vec![
        (
            String::from("a@x"),
            StoredAccountData::new(String::from("t1"), String::from("r1")),
        ),
        (
            String::from("a@x"),
            StoredAccountData::new(String::from("t2"), String::from("r2")),
        ),
    ]);
    assert_eq!(store.len(), 1);
    assert_eq!(store.get(&String::from("a@x")).unwrap().access_token, "t2");
}

#[test]
fn sole_entry_picks_the_single_account() {
    let mut store = StoredAccounts::new();
    assert!(store.sole_entry().is_none());
    store.insert(
        String::from("alice@example.com"),
        StoredAccountData::new(String::from("a"), String::from("r")),
    );
    let (account, data) = store.sole_entry().unwrap();
    assert_eq!(account, "alice@example.com");
    assert_eq!(data.access_token, "a");
    store.insert(
        String::from("bob@example.com"),
        StoredAccountData::new(String::from("b"), String::from("s")),
    );
    assert!(store.sole_entry().is_none());
}
