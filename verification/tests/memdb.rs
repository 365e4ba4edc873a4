use axum_api::json::Json;
use axum_api::memdb::{Account, DatabaseInterface, DummyTx, InMemoryDb, Transaction};

fn account(id: &str, tag: &str) -> Account {
    Account { id: id.to_string(), doc: Json::String(tag.to_string()) }
}

#[test]
fn created_user_is_found() {
    let mut db = InMemoryDb::new();
    assert!(db.get_user_by_id("u_a").is_none());
    db.create_user(account("u_a", "one"), None).unwrap();
    assert!(matches!(&db.get_user_by_id("u_a").unwrap().doc, Json::String(s) if s == "one"));
    db.modify_user(account("u_a", "two"), None).unwrap();
    assert!(matches!(&db.get_user_by_id("u_a").unwrap().doc, Json::String(s) if s == "two"));
    assert_eq!(db.get_users_list().len(), 1);
    assert!(db.get_group_by_id("u_a").is_none());
}

#[test]
fn groups_listed() {
    let mut db = InMemoryDb::new();
    db.create_group(account("g_a", "x"), None).unwrap();
    db.create_group(account("g_b", "y"), None).unwrap();
    let mut ids: Vec<String> = db.get_groups_list().iter().map(|a| a.id.clone()).collect();
    ids.sort();
    assert_eq!(ids, vec!["g_a".to_string(), "g_b".to_string()]);
}

#[test]
fn memberships_split_by_kind() {
    let mut db = InMemoryDb::new();
    db.add_principal_to_group("u:alice", "g_a", None).unwrap();
    db.add_principal_to_group("g:sub", "g_a", None).unwrap();
    db.add_principal_to_group("u:alice", "g_a", None).unwrap();
    assert_eq!(db.get_users_in_group("g_a").unwrap(), vec!["u:alice".to_string()]);
    assert_eq!(db.get_groups_in_group("g_a").unwrap(), vec!["g:sub".to_string()]);
    assert!(db.get_users_in_group("g_none").unwrap().is_empty());
}

#[test]
fn no_transactions_in_memory() {
    let db = InMemoryDb::new();
    assert!(db.begin_transaction().unwrap().is_none());
    let mut tx = DummyTx;
    assert!(tx.commit().is_ok());
    assert!(tx.abort().is_ok());
}
