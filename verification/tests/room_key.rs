use catena::room_key::{RoomKey, RoomKeyError, MAX_LEN};

#[test]
fn valid_key() {
    let key = RoomKey::try_new("catena:cantina/main").unwrap();
    assert_eq!(key.as_str(), "catena:cantina/main");
    assert_eq!(key.namespace(), "catena");
    assert_eq!(key.local_part(), "cantina/main");
}

#[test]
fn valid_minimal() {
    let key = RoomKey::try_new("a:b").unwrap();
    assert_eq!(key.namespace(), "a");
    assert_eq!(key.local_part(), "b");
}

#[test]
fn valid_with_multiple_colons() {
    let key = RoomKey::try_new("ns:room:sub").unwrap();
    assert_eq!(key.namespace(), "ns");
    assert_eq!(key.local_part(), "room:sub");
}

#[test]
fn room_key_reject_empty() {
    assert_eq!(RoomKey::try_new(""), Err(RoomKeyError::Empty));
}

#[test]
fn room_key_reject_too_long() {
    let long = format!("ns:{}", "a".repeat(MAX_LEN));
    let err = RoomKey::try_new(&long).unwrap_err();
    assert!(matches!(err, RoomKeyError::TooLong(n) if n == long.len()));
}

#[test]
fn room_key_reject_whitespace() {
    assert!(matches!(
        RoomKey::try_new("ns:room one"),
        Err(RoomKeyError::Whitespace { .. })
    ));
    assert!(matches!(
        RoomKey::try_new("ns:room\tone"),
        Err(RoomKeyError::Whitespace { .. })
    ));
    assert!(matches!(
        RoomKey::try_new("ns:room\none"),
        Err(RoomKeyError::Whitespace { .. })
    ));
}

#[test]
fn room_key_reject_non_ascii() {
    assert!(matches!(
        RoomKey::try_new("ns:r\u{00f6}om"),
        Err(RoomKeyError::InvalidChar { .. })
    ));
}

#[test]
fn room_key_reject_control_chars() {
    assert!(matches!(
        RoomKey::try_new("ns:room\x01"),
        Err(RoomKeyError::InvalidChar { .. })
    ));
}

#[test]
fn reject_no_namespace_separator() {
    assert_eq!(
        RoomKey::try_new("justaplainkey"),
        Err(RoomKeyError::NoNamespace)
    );
}

#[test]
fn reject_empty_namespace() {
    assert_eq!(
        RoomKey::try_new(":local"),
        Err(RoomKeyError::EmptyNamespace)
    );
}

#[test]
fn reject_empty_local_part() {
    assert_eq!(RoomKey::try_new("ns:"), Err(RoomKeyError::EmptyLocalPart));
}

#[test]
fn exactly_max_length_is_ok() {
    // 3 chars for "ns:" + 61 chars = 64 total
    let key_str = format!("ns:{}", "x".repeat(MAX_LEN - 3));
    assert_eq!(key_str.len(), MAX_LEN);
    assert!(RoomKey::try_new(&key_str).is_ok());
}

#[test]
fn one_over_max_length_rejected() {
    let key_str = format!("ns:{}", "x".repeat(MAX_LEN - 2));
    assert_eq!(key_str.len(), MAX_LEN + 1);
    assert!(matches!(
        RoomKey::try_new(&key_str),
        Err(RoomKeyError::TooLong(_))
    ));
}

#[test]
fn room_key_try_from_string() {
    let key: RoomKey = String::from("catena:void").try_into().unwrap();
    assert_eq!(key.as_str(), "catena:void");
}

#[test]
fn room_key_try_from_str_ref() {
    let key: RoomKey = "catena:void".try_into().unwrap();
    assert_eq!(key.as_str(), "catena:void");
}

#[test]
fn room_key_display() {
    let key = RoomKey::try_new("catena:cantina/main").unwrap();
    assert_eq!(key.to_string(), "catena:cantina/main");
}

#[test]
fn room_key_hash_and_eq() {
    let a = RoomKey::try_new("catena:a").unwrap();
    let b = RoomKey::try_new("catena:a").unwrap();
    let c = RoomKey::try_new("catena:b").unwrap();
    let mut set = std::collections::HashSet::new();
    set.insert(a.clone());
    assert!(set.contains(&b));
    assert!(!set.contains(&c));
}

// --- further cases ---

#[test]
fn room_key_error_positions_are_byte_offsets() {
    assert_eq!(
        RoomKey::try_new("ns:room one"),
        Err(RoomKeyError::Whitespace { offset: 7, ch: ' ' })
    );
    assert_eq!(
        RoomKey::try_new("ns:r\u{00f6}om"),
        Err(RoomKeyError::InvalidChar { offset: 4, ch: '\u{00f6}' })
    );
    assert_eq!(
        RoomKey::try_new("ns:room\x7f"),
        Err(RoomKeyError::InvalidChar { offset: 7, ch: '\x7f' })
    );
}

#[test]
fn room_key_non_ascii_whitespace_is_reported_as_whitespace() {
    assert_eq!(
        RoomKey::try_new("ns:a\u{00a0}b"),
        Err(RoomKeyError::Whitespace { offset: 4, ch: '\u{00a0}' })
    );
    assert_eq!(
        RoomKey::try_new("ns:a\x0bb"),
        Err(RoomKeyError::Whitespace { offset: 4, ch: '\x0b' })
    );
}

#[test]
fn room_key_first_fault_wins_over_separator_checks() {
    assert_eq!(
        RoomKey::try_new(" nokey"),
        Err(RoomKeyError::Whitespace { offset: 0, ch: ' ' })
    );
}

#[test]
fn room_key_too_long_counts_characters() {
    // 40 two-byte characters: within 64 characters, so the length check
    // passes and the first of them is reported.
    let s = "\u{00f6}".repeat(40);
    assert_eq!(
        RoomKey::try_new(&s),
        Err(RoomKeyError::InvalidChar { offset: 0, ch: '\u{00f6}' })
    );
    let s = "\u{00e9}".repeat(64);
    assert_eq!(
        RoomKey::try_new(&s),
        Err(RoomKeyError::InvalidChar { offset: 0, ch: '\u{00e9}' })
    );
    let s = format!("a{}", "\u{00e9}".repeat(64));
    assert_eq!(RoomKey::try_new(&s), Err(RoomKeyError::TooLong(65)));
}

#[test]
fn room_key_separator_at_both_ends() {
    assert_eq!(RoomKey::try_new(":"), Err(RoomKeyError::EmptyNamespace));
    assert_eq!(RoomKey::try_new("a::"), Ok(RoomKey::try_new("a::").unwrap()));
    let k = RoomKey::try_new("a::").unwrap();
    assert_eq!(k.namespace(), "a");
    assert_eq!(k.local_part(), ":");
}

#[test]
fn room_key_try_from_string_rejects() {
    let r: Result<RoomKey, RoomKeyError> = String::from("nocolon").try_into();
    assert_eq!(r, Err(RoomKeyError::NoNamespace));
}

#[test]
fn room_key_error_messages() {
    assert_eq!(RoomKeyError::Empty.message(), "room key must not be empty");
    assert_eq!(
        RoomKeyError::TooLong(70).message(),
        "room key is 70 chars, maximum is 64"
    );
    assert_eq!(
        RoomKeyError::InvalidChar { offset: 3, ch: '\x01' }.message(),
        "invalid character '\\u{1}' at byte offset 3 (must be printable ASCII)"
    );
    assert_eq!(
        RoomKeyError::Whitespace { offset: 5, ch: '\t' }.message(),
        "whitespace '\\t' at byte offset 5"
    );
    assert_eq!(
        RoomKeyError::NoNamespace.message(),
        "room key must contain a namespace separator (':')"
    );
    assert_eq!(
        RoomKeyError::EmptyNamespace.message(),
        "namespace portion must not be empty"
    );
    assert_eq!(
        RoomKeyError::EmptyLocalPart.message(),
        "local part (after ':') must not be empty"
    );
    assert_eq!(
        RoomKeyError::Whitespace { offset: 12, ch: ' ' }.message_with("X"),
        "whitespace X at byte offset 12"
    );
}
