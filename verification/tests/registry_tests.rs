use broadcast_chat::registry::{same_text, Users};

#[test]
fn new_registry_is_empty() {
    let u = Users::new();
    assert!(u.names().is_empty());
    assert_eq!(u.lookup("127.0.0.1:1"), None);
}

#[test]
fn register_then_lookup() {
    let mut u = Users::new();
    u.register("127.0.0.1:1", "alice".to_string());
    assert_eq!(u.lookup("127.0.0.1:1"), Some("alice".to_string()));
    assert_eq!(u.lookup("127.0.0.1:2"), None);
}

#[test]
fn register_again_replaces_name_in_place() {
    let mut u = Users::new();
    u.register("a", "alice".to_string());
    u.register("b", "bob".to_string());
    u.register("a", "alicia".to_string());
    assert_eq!(u.names(), vec!["alicia".to_string(), "bob".to_string()]);
    assert_eq!(u.lookup("a"), Some("alicia".to_string()));
    assert_eq!(u.lookup("b"), Some("bob".to_string()));
}

#[test]
fn remove_reports_presence() {
    let mut u = Users::new();
    u.register("a", "alice".to_string());
    u.register("b", "bob".to_string());
    assert!(u.remove("a"));
    assert!(!u.remove("a"));
    assert_eq!(u.lookup("a"), None);
    assert_eq!(u.lookup("b"), Some("bob".to_string()));
    assert_eq!(u.names(), vec!["bob".to_string()]);
}

#[test]
fn two_addresses_may_share_a_name() {
    let mut u = Users::new();
    u.register("a", "sam".to_string());
    u.register("b", "sam".to_string());
    assert_eq!(u.names(), vec!["sam".to_string(), "sam".to_string()]);
    assert!(u.remove("a"));
    assert_eq!(u.names(), vec!["sam".to_string()]);
}

#[test]
fn same_text_compares_characters() {
    assert!(same_text("abc", "abc"));
    assert!(same_text("", ""));
    assert!(!same_text("abc", "abd"));
    assert!(!same_text("ab", "abc"));
    assert!(same_text("é", "é"));
}
