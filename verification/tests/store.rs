use arg_parser::ValueStore;

#[test]
fn a_new_store_holds_nothing() {
    let store = ValueStore::new();
    assert!(store.is_empty());
    assert_eq!(store.len(), 0);
    assert_eq!(store.get("id"), None);
    assert!(!store.contains_key("id"));
}

#[test]
fn insert_then_get_returns_the_value() {
    let mut store = ValueStore::new();
    store.insert("id", "vm7");
    assert_eq!(store.get("id"), Some("vm7"));
    assert!(store.contains_key("id"));
    assert!(!store.is_empty());
    assert_eq!(store.len(), 1);
    assert_eq!(store.get("i"), None);
    assert_eq!(store.get("id "), None);
}

#[test]
fn insert_replaces_the_value_of_a_name_already_held() {
    let mut store = ValueStore::new();
    store.insert("id", "first");
    store.insert("api-sock", "/tmp/a");
    store.insert("id", "second");
    assert_eq!(store.get("id"), Some("second"));
    assert_eq!(store.get("api-sock"), Some("/tmp/a"));
    assert_eq!(store.len(), 2);
}

#[test]
fn insert_leaves_other_names_alone() {
    let mut store = ValueStore::new();
    store.insert("a", "1");
    store.insert("b", "2");
    store.insert("c", "3");
    store.insert("b", "two");
    assert_eq!(store.get("a"), Some("1"));
    assert_eq!(store.get("b"), Some("two"));
    assert_eq!(store.get("c"), Some("3"));
    assert_eq!(store.len(), 3);
}

#[test]
fn the_empty_string_is_a_value_like_any_other() {
    let mut store = ValueStore::new();
    store.insert("no-api", "");
    assert_eq!(store.get("no-api"), Some(""));
    assert!(store.contains_key("no-api"));
    store.insert("", "nameless");
    assert_eq!(store.get(""), Some("nameless"));
    assert_eq!(store.len(), 2);
}

#[test]
fn a_clone_holds_the_same_values() {
    let mut store = ValueStore::new();
    store.insert("id", "vm7");
    let mut copy = store.clone();
    assert_eq!(copy.get("id"), Some("vm7"));
    copy.insert("id", "other");
    assert_eq!(store.get("id"), Some("vm7"));
    assert_eq!(copy.get("id"), Some("other"));
}
