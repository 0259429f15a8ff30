use openfi_proto::client_timer::{
    assure_auth_client_state, decrement_active_user, drop_vanished, keep_authenticated,
    unknown_authenticated_clients,
};
use openfi_proto::table::{ClientSeconds, MacTable};
use openfi_proto::types::{RawClientData, RawClientDataCollection};

fn client(mac: &str, ip: &str, state: &str, clientif: &str, start: &str, end: &str, last: &str) -> RawClientData {
    RawClientData {
        mac: mac.to_owned(),
        ip: ip.to_owned(),
        state: state.to_owned(),
        clientif: clientif.to_owned(),
        session_start: start.to_owned(),
        session_end: end.to_owned(),
        last_active: last.to_owned(),
        download_quota: Some("null".to_owned()),
        upload_quota: Some("null".to_owned()),
    }
}

fn gateway_report() -> RawClientDataCollection {
    let mut clients = MacTable::new();
    clients.insert(
        "20:16:d8:15:b1:26".to_owned(),
        client(
            "20:16:d8:15:b1:26",
            "192.168.1.131",
            "Authenticated",
            "enx7cc2c6480d3bend0",
            "1691112539",
            "1691198939",
            "1691113598",
        ),
    );
    clients.insert(
        "7e:c6:be:e4:b4:97".to_owned(),
        client(
            "7e:c6:be:e4:b4:97",
            "192.168.1.195",
            "Preauthenticated",
            "enx7cc2c6480d3b",
            "0",
            "null",
            "1691111942",
        ),
    );
    RawClientDataCollection::new("2".to_owned(), clients)
}

#[test]
fn test_auth_client_state() {
    let output = gateway_report();
    let mut users = ClientSeconds::new();
    users.insert("7e:c6:be:e4:b4:97".to_owned(), 123321);
    users.insert("6d:c6:hf:e4:24:88".to_owned(), 82731);
    users.insert("20:16:d8:15:b1:26".to_owned(), 28398);

    // Removes users in 'users' if the mac (AKA. key) is not found in 'output.clients'
    drop_vanished(&mut users, &output);

    assert!(users.contains_key("20:16:d8:15:b1:26") && *users.get("20:16:d8:15:b1:26").unwrap() == 28398);
    assert!(users.contains_key("7e:c6:be:e4:b4:97") && *users.get("7e:c6:be:e4:b4:97").unwrap() == 123321);
    assert!(!users.contains_key("6d:c6:hf:e4:24:88"));

    // Removes users in 'users' that are not 'state: Authenticated'
    keep_authenticated(&mut users, &output);

    assert!(users.contains_key("20:16:d8:15:b1:26") && *users.get("20:16:d8:15:b1:26").unwrap() == 28398);
    assert!(!users.contains_key("7e:c6:be:e4:b4:97"));
    assert!(!users.contains_key("6d:c6:hf:e4:24:88"));
}

#[test]
fn whole_reconciliation_of_the_same_report() {
    let output = gateway_report();
    let mut users = ClientSeconds::new();
    users.insert("7e:c6:be:e4:b4:97".to_owned(), 123321);
    users.insert("6d:c6:hf:e4:24:88".to_owned(), 82731);
    users.insert("20:16:d8:15:b1:26".to_owned(), 28398);

    let deauth = assure_auth_client_state(&mut users, &output);

    assert!(users.contains_key("20:16:d8:15:b1:26") && *users.get("20:16:d8:15:b1:26").unwrap() == 28398);
    assert!(!users.contains_key("7e:c6:be:e4:b4:97"));
    assert!(!users.contains_key("6d:c6:hf:e4:24:88"));
    assert_eq!(deauth, vec!["6d:c6:hf:e4:24:88".to_owned()]);
}

#[test]
fn unknown_authenticated_client_is_ended() {
    let output = gateway_report();
    let mut users = ClientSeconds::new();
    let deauth = assure_auth_client_state(&mut users, &output);
    assert_eq!(deauth, vec!["20:16:d8:15:b1:26".to_owned()]);
    assert!(users.macs().is_empty());
}

#[test]
fn second_reconciliation_keeps_table() {
    let output = gateway_report();
    let mut users = ClientSeconds::new();
    users.insert("20:16:d8:15:b1:26".to_owned(), 10);
    users.insert("aa:aa:aa:aa:aa:aa".to_owned(), 20);
    let first = assure_auth_client_state(&mut users, &output);
    assert_eq!(first, vec!["aa:aa:aa:aa:aa:aa".to_owned()]);
    let second = assure_auth_client_state(&mut users, &output);
    assert!(second.is_empty());
    assert_eq!(users.macs(), vec!["20:16:d8:15:b1:26".to_owned()]);
    assert_eq!(users.get("20:16:d8:15:b1:26"), Some(&10));
}

#[test]
fn tick_counts_down_and_ends_spent_connections() {
    let mut active = ClientSeconds::new();
    active.insert("a".to_owned(), 5);
    active.insert("b".to_owned(), 1);
    let mut stored = ClientSeconds::new();
    stored.insert("a".to_owned(), 10);
    stored.insert("b".to_owned(), 1);
    stored.insert("c".to_owned(), 7);

    let tick = decrement_active_user(&mut active, &stored);

    assert_eq!(active.get("a"), Some(&9));
    assert!(!active.contains_key("b"));
    assert!(!active.contains_key("c"));
    assert_eq!(tick.written.get("a"), Some(&9));
    assert_eq!(tick.written.get("b"), Some(&0));
    assert!(!tick.written.contains_key("c"));
    assert_eq!(tick.deauth, vec!["b".to_owned()]);
}

#[test]
fn tick_ends_connection_with_negative_store() {
    let mut active = ClientSeconds::new();
    active.insert("a".to_owned(), 100);
    let mut stored = ClientSeconds::new();
    stored.insert("a".to_owned(), -4);
    let tick = decrement_active_user(&mut active, &stored);
    assert!(active.macs().is_empty());
    assert_eq!(tick.written.get("a"), Some(&-5));
    assert_eq!(tick.deauth, vec!["a".to_owned()]);
}

#[test]
fn report_keeps_its_length_text() {
    let output = gateway_report();
    assert_eq!(output.client_list_length(), "2");
    assert_eq!(output.clients().get("7e:c6:be:e4:b4:97").unwrap().state, "Preauthenticated");
}

#[test]
fn reconciliation_steps_report_what_they_end() {
    let output = gateway_report();
    let mut users = ClientSeconds::new();
    users.insert("6d:c6:hf:e4:24:88".to_owned(), 1);
    assert_eq!(unknown_authenticated_clients(&users, &output), vec!["20:16:d8:15:b1:26".to_owned()]);
    assert_eq!(drop_vanished(&mut users, &output), vec!["6d:c6:hf:e4:24:88".to_owned()]);
    assert!(users.macs().is_empty());
}

#[test]
fn tick_wraps_like_i32() {
    let mut active = ClientSeconds::new();
    active.insert("a".to_owned(), 1);
    let mut stored = ClientSeconds::new();
    stored.insert("a".to_owned(), i32::MIN);
    let tick = decrement_active_user(&mut active, &stored);
    assert_eq!(active.get("a"), Some(&i32::MAX));
    assert_eq!(tick.written.get("a"), Some(&i32::MAX));
    assert!(tick.deauth.is_empty());
}

#[test]
fn unknown_clients_are_ended_before_vanished_ones() {
    let output = gateway_report();
    let mut users = ClientSeconds::new();
    users.insert("aa:aa:aa:aa:aa:aa".to_owned(), 20);
    let deauth = assure_auth_client_state(&mut users, &output);
    assert_eq!(deauth, vec!["20:16:d8:15:b1:26".to_owned(), "aa:aa:aa:aa:aa:aa".to_owned()]);
    assert!(users.macs().is_empty());
}
