use openfi_proto::table::ClientSeconds;

#[test]
fn insert_then_get() {
    let mut t = ClientSeconds::new();
    assert_eq!(t.insert("m".to_owned(), 3), None);
    assert_eq!(t.get("m"), Some(&3));
    assert!(t.contains_key("m"));
    assert!(!t.contains_key("n"));
}

#[test]
fn insert_replaces_and_returns_old() {
    let mut t = ClientSeconds::new();
    t.insert("m".to_owned(), 3);
    assert_eq!(t.insert("m".to_owned(), 8), Some(3));
    assert_eq!(t.get("m"), Some(&8));
    assert_eq!(t.macs(), vec!["m".to_owned()]);
}

#[test]
fn remove_takes_key_out() {
    let mut t = ClientSeconds::new();
    t.insert("a".to_owned(), 1);
    t.insert("b".to_owned(), 2);
    assert_eq!(t.remove("a"), Some(1));
    assert_eq!(t.remove("a"), None);
    assert!(!t.contains_key("a"));
    assert_eq!(t.get("b"), Some(&2));
}
