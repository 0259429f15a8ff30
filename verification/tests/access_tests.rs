use openfi_proto::access::{admin_access, client_snapshot, data, index, pause, request_access, require_admin};
use openfi_proto::rejection::Rejection;
use openfi_proto::table::ClientSeconds;
use openfi_proto::types::ClientRecord;

fn record(mac: &str, credits: i32, seconds: i32) -> ClientRecord {
    ClientRecord { id: 7, mac: mac.to_owned(), credits, remaining_seconds: seconds }
}

#[test]
fn access_unknown_client_refused() {
    let mut active = ClientSeconds::new();
    assert_eq!(request_access(&mut active, None), Err(Rejection::UnknownClient));
    assert!(active.macs().is_empty());
}

#[test]
fn access_without_seconds_refused() {
    let mut active = ClientSeconds::new();
    assert_eq!(request_access(&mut active, Some(record("m", 0, 0))), Err(Rejection::NoRemainingSeconds));
    assert!(!active.contains_key("m"));
}

#[test]
fn access_granted_then_already_active() {
    let mut active = ClientSeconds::new();
    assert_eq!(request_access(&mut active, Some(record("m", 0, 600))), Ok(()));
    assert_eq!(active.get("m"), Some(&600));
    assert_eq!(request_access(&mut active, Some(record("m", 0, 300))), Err(Rejection::AlreadyActive));
    assert_eq!(active.get("m"), Some(&600));
}

#[test]
fn pause_undoes_access() {
    let mut active = ClientSeconds::new();
    active.insert("other".to_owned(), 5);
    assert_eq!(request_access(&mut active, Some(record("m", 0, 60))), Ok(()));
    assert_eq!(pause(&mut active, "m"), Ok(()));
    assert_eq!(active.macs(), vec!["other".to_owned()]);
    assert_eq!(active.get("other"), Some(&5));
}

#[test]
fn pause_of_closed_connection_refused() {
    let mut active = ClientSeconds::new();
    assert_eq!(pause(&mut active, "m"), Err(Rejection::NotActive));
}

#[test]
fn admin_mark_of_any_value_admits() {
    assert_eq!(require_admin(Some(false)), Ok(()));
    assert_eq!(require_admin(Some(true)), Ok(()));
    assert_eq!(require_admin(None), Err(Rejection::NotAdmin));
}

#[test]
fn admin_page_access() {
    assert_eq!(admin_access(None, true), Ok(()));
    assert_eq!(admin_access(Some(true), false), Ok(()));
    assert_eq!(admin_access(None, false), Err(Rejection::NotAdmin));
}

#[test]
fn account_data() {
    let mut active = ClientSeconds::new();
    active.insert("20:16:d8:15:b1:26".to_owned(), 50);
    let shown = data(Some("20:16:d8:15:b1:26"), Some(record("20:16:d8:15:b1:26", 3, 50)), &active).unwrap();
    assert_eq!(shown.id, 7);
    assert_eq!(shown.mac, "20:16:d8:15:b1:26");
    assert_eq!(shown.credits, 3);
    assert_eq!(shown.remaining_seconds, 50);
    assert!(shown.active);
    assert_eq!(data(None, None, &active), Err(Rejection::NotFound));
    assert_eq!(data(Some("x"), None, &active), Err(Rejection::NotFound));
    let idle = data(Some("x"), Some(record("x", 0, 0)), &active).unwrap();
    assert!(!idle.active);
}

#[test]
fn stream_item_uses_clients_own_mac() {
    let mut active = ClientSeconds::new();
    active.insert("m".to_owned(), 1);
    assert!(client_snapshot(record("m", 0, 1), &active).active);
    assert!(!client_snapshot(record("n", 0, 1), &active).active);
}

#[test]
fn landing_creates_unknown_client() {
    let plan = index("m".to_owned(), true, false);
    assert!(plan.mark_admin);
    let created = plan.create.unwrap();
    assert_eq!(created.mac, "m");
    assert_eq!(created.credits, 0);
    assert_eq!(created.remaining_seconds, 0);
    let known = index("m".to_owned(), false, true);
    assert!(!known.mark_admin);
    assert!(known.create.is_none());
}

#[test]
fn refusal_texts_and_statuses() {
    assert_eq!(Rejection::NotAdmin.message(), "You are not an admin, this incident will be reported");
    assert_eq!(Rejection::UnknownClient.message(), "Forbidden: Report sent to admin");
    assert_eq!(Rejection::NoRemainingSeconds.message(), "No Remaining Seconds: Purchase a plan");
    assert_eq!(Rejection::AlreadyActive.message(), "Already Active");
    assert_eq!(Rejection::NotActive.message(), "Connection Not Active");
    assert_eq!(Rejection::NotEnoughCredits.message(), "Not enough credits");
    assert_eq!(Rejection::NotFound.message(), "");
    assert_eq!(Rejection::NoRandomness.message(), "Server Error");
    assert_eq!(Rejection::NoRandomness.status(), 500);
    assert_eq!(Rejection::NotFound.status(), 404);
    assert_eq!(Rejection::AlreadyActive.status(), 403);
    assert_eq!(Rejection::NotAdmin.status(), 403);
}

#[test]
fn second_landing_creates_nothing() {
    let first = index("m".to_owned(), false, false);
    assert!(first.create.is_some());
    // The store now holds the client created by the first visit.
    let second = index("m".to_owned(), false, true);
    assert!(second.create.is_none());
}
