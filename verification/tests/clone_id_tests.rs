use kitsune_types::cell::{CloneId, CLONE_ID_DELIMITER};
use kitsune_types::decimal::parse_u32_decimal;

#[test]
fn clone_id_new_and_parts() {
    let id = CloneId::new(&"profiles".to_string(), 0);
    assert_eq!(id.as_app_role_id(), "profiles.0");
    assert_eq!(id.as_base_role_id(), "profiles");
    assert_eq!(id.as_clone_index(), 0);
    assert_eq!(id.to_string(), "profiles.0");
    assert_eq!(CLONE_ID_DELIMITER, ".");
}

#[test]
fn clone_id_round_trip_large_index() {
    let id = CloneId::new(&"chat".to_string(), u32::MAX);
    assert_eq!(id.as_app_role_id(), "chat.4294967295");
    assert_eq!(id.as_base_role_id(), "chat");
    assert_eq!(id.as_clone_index(), u32::MAX);
    assert_eq!(id.to_string(), "chat.4294967295");
    let id = CloneId::new(&"r".to_string(), 1203);
    assert_eq!(id.as_app_role_id(), "r.1203");
    assert_eq!(id.as_clone_index(), 1203);
}

#[test]
fn clone_id_splits_at_last_dot() {
    let id = CloneId("a.b.3".to_string());
    assert_eq!(id.as_base_role_id(), "a.b");
    assert_eq!(id.as_clone_index(), 3);
    let id = CloneId::new(&"a.b".to_string(), 3);
    assert_eq!(id.as_app_role_id(), "a.b.3");
    assert_eq!(id.as_base_role_id(), "a.b");
    assert_eq!(id.as_clone_index(), 3);
    assert_eq!(id.to_string(), "a.b.3");
    let id = CloneId("role.007".to_string());
    assert_eq!(id.as_base_role_id(), "role");
    assert_eq!(id.as_clone_index(), 7);
    assert_eq!(id.to_string(), "role.7");
    let id = CloneId("role.+12".to_string());
    assert_eq!(id.as_clone_index(), 12);
    assert_eq!(id.to_string(), "role.12");
}

#[test]
fn parse_u32_like_std() {
    for s in ["0", "12", "+5", "007", "4294967295", "4294967296", "", "+", "-1", "1a", " 1", "99999999999", "4294967300"] {
        assert_eq!(parse_u32_decimal(s), s.parse::<u32>().ok(), "{}", s);
    }
}

#[test]
fn clone_id_readability() {
    assert!(CloneId::new(&"p".to_string(), 3).is_readable());
    assert!(!CloneId("nodot".to_string()).is_readable());
    assert!(CloneId("a.b.3".to_string()).is_readable());
    assert!(!CloneId("a.3.b".to_string()).is_readable());
    assert!(!CloneId("a.".to_string()).is_readable());
    assert!(CloneId("a.+1".to_string()).is_readable());
}

#[test]
fn clone_id_derives() {
    let a = CloneId::new(&"x".to_string(), 1);
    let b = a.clone();
    assert_eq!(a, b);
    assert_ne!(a, CloneId::new(&"x".to_string(), 2));
    assert_eq!(format!("{:?}", a), "CloneId(\"x.1\")");
}
