use kitsune_types::error::{KitsuneError, KitsuneErrorKind};

#[test]
fn kind_equality() {
    assert!(KitsuneErrorKind::Closed == KitsuneErrorKind::Closed);
    assert!(KitsuneErrorKind::TimedOut("a".to_string()) == KitsuneErrorKind::TimedOut("a".to_string()));
    assert!(KitsuneErrorKind::TimedOut("a".to_string()) != KitsuneErrorKind::TimedOut("b".to_string()));
    assert!(KitsuneErrorKind::Unit != KitsuneErrorKind::Unit);
    assert!(KitsuneErrorKind::Unauthorized != KitsuneErrorKind::Unauthorized);
    assert!(KitsuneErrorKind::Other("x".to_string()) != KitsuneErrorKind::Other("x".to_string()));
    assert!(
        KitsuneErrorKind::BadInput("e".to_string(), "i".to_string())
            != KitsuneErrorKind::BadInput("e".to_string(), "i".to_string())
    );
    assert!(KitsuneErrorKind::Closed != KitsuneErrorKind::TimedOut("a".to_string()));
    assert!(KitsuneErrorKind::TimedOut("a".to_string()) != KitsuneErrorKind::Closed);
}

#[test]
fn kind_display_texts() {
    assert_eq!(KitsuneErrorKind::Unit.to_string(), "Unit");
    assert_eq!(KitsuneErrorKind::TimedOut("t".to_string()).to_string(), "Operation timed out");
    assert_eq!(
        KitsuneErrorKind::Closed.to_string(),
        "This object is closed, calls on it are invalid."
    );
    assert_eq!(KitsuneErrorKind::Unauthorized.to_string(), "Unauthorized");
    assert_eq!(
        KitsuneErrorKind::BadInput("oops".to_string(), "xyz".to_string()).to_string(),
        "Bad external input. Error: oops  Input: xyz"
    );
    assert_eq!(KitsuneErrorKind::Other("boom".to_string()).to_string(), "boom");
}

#[test]
fn error_constructors() {
    let e = KitsuneError::bad_input("bad".to_string(), "in".to_string());
    assert!(matches!(e.kind(), KitsuneErrorKind::BadInput(a, b) if a == "bad" && b == "in"));
    assert_eq!(e.to_string(), "Bad external input. Error: bad  Input: in");
    let o = KitsuneError::other("custom".to_string());
    assert!(matches!(o.kind(), KitsuneErrorKind::Other(a) if a == "custom"));
    assert_eq!(o.to_string(), "custom");
    let c = o.clone();
    assert_eq!(c.to_string(), "custom");
}

#[test]
fn error_conversions() {
    let e: KitsuneError = KitsuneErrorKind::Closed.into();
    assert!(*e.kind() == KitsuneErrorKind::Closed);
    let s: KitsuneError = "text".to_string().into();
    assert_eq!(s.to_string(), "text");
    assert!(matches!(s.kind(), KitsuneErrorKind::Other(_)));
    let r: KitsuneError = "ref text".into();
    assert_eq!(r.to_string(), "ref text");
    assert!(matches!(r.kind(), KitsuneErrorKind::Other(_)));
    let u: KitsuneError = ().into();
    assert!(matches!(u.kind(), KitsuneErrorKind::Unit));
    assert_eq!(u.to_string(), "Unit");
    let unit: () = u.into();
    assert_eq!(unit, ());
}
