use catena::direction::{Direction, DirectionError};

fn north() -> Direction {
    Direction::new("north").unwrap()
}

fn south() -> Direction {
    Direction::new("south").unwrap()
}

// --- construction ---

#[test]
fn new_standard_names() {
    for name in &["north", "south", "east", "west", "up", "down"] {
        let dir = Direction::new(*name).unwrap();
        assert_eq!(dir.name(), *name);
    }
}

#[test]
fn new_custom_name() {
    let dir = Direction::new("portal-in").unwrap();
    assert_eq!(dir.name(), "portal-in");
}

#[test]
fn new_accepts_string() {
    let dir = Direction::new(&String::from("cupboard")).unwrap();
    assert_eq!(dir.name(), "cupboard");
}

// --- validation ---

#[test]
fn direction_reject_empty() {
    assert_eq!(Direction::new(""), Err(DirectionError::Empty));
}

#[test]
fn direction_reject_too_long() {
    let long = "a".repeat(Direction::MAX_LEN + 1);
    assert!(matches!(
        Direction::new(&long),
        Err(DirectionError::TooLong(_))
    ));
}

#[test]
fn direction_reject_whitespace() {
    assert!(matches!(
        Direction::new("north west"),
        Err(DirectionError::Whitespace { .. })
    ));
}

#[test]
fn direction_reject_non_ascii() {
    assert!(matches!(
        Direction::new("n\u{00f6}rd"),
        Err(DirectionError::InvalidChar { .. })
    ));
}

#[test]
fn direction_reject_control_chars() {
    assert!(matches!(
        Direction::new("north\x01"),
        Err(DirectionError::InvalidChar { .. })
    ));
}

#[test]
fn exactly_max_length_ok() {
    let name = "a".repeat(Direction::MAX_LEN);
    assert!(Direction::new(&name).is_ok());
}

// --- trait impls ---

#[test]
fn direction_display() {
    let dir = Direction::new("east").unwrap();
    assert_eq!(dir.to_string(), "east");
}

#[test]
fn direction_hash_and_eq() {
    let mut set = std::collections::HashSet::new();
    set.insert(north());
    assert!(set.contains(&north()));
    assert!(!set.contains(&south()));
}

#[test]
fn derived_eq_is_structural() {
    assert_eq!(north(), north());
    assert_ne!(north(), south());
}

// --- TryFrom ---

#[test]
fn direction_try_from_string() {
    let dir: Direction = String::from("north").try_into().unwrap();
    assert_eq!(dir.name(), "north");
}

#[test]
fn direction_try_from_str_ref() {
    let dir: Direction = "north".try_into().unwrap();
    assert_eq!(dir.name(), "north");
}

// --- further cases ---

#[test]
fn direction_try_from_rejects_invalid() {
    let r: Result<Direction, DirectionError> = String::from("north west").try_into();
    assert_eq!(r, Err(DirectionError::Whitespace { offset: 5, ch: ' ' }));
    let r: Result<Direction, DirectionError> = "".try_into();
    assert_eq!(r, Err(DirectionError::Empty));
}

#[test]
fn direction_error_offsets() {
    assert_eq!(
        Direction::new("n\u{00f6}rd"),
        Err(DirectionError::InvalidChar { offset: 1, ch: '\u{00f6}' })
    );
    assert_eq!(
        Direction::new("north\x01"),
        Err(DirectionError::InvalidChar { offset: 5, ch: '\x01' })
    );
    assert_eq!(
        Direction::new("\u{3000}up"),
        Err(DirectionError::Whitespace { offset: 0, ch: '\u{3000}' })
    );
}

#[test]
fn direction_too_long_reports_length() {
    let long = "a".repeat(Direction::MAX_LEN + 1);
    assert_eq!(Direction::new(&long), Err(DirectionError::TooLong(65)));
    let wide = "\u{00f6}".repeat(40);
    assert_eq!(
        Direction::new(&wide),
        Err(DirectionError::InvalidChar { offset: 0, ch: '\u{00f6}' })
    );
    let wide = "\u{00f6}".repeat(70);
    assert_eq!(Direction::new(&wide), Err(DirectionError::TooLong(70)));
}

#[test]
fn valid_generated_names_round_trip() {
    for name in &["a", "z9", "north_east", "x-1", "q_-_"] {
        let dir = Direction::new(name).unwrap();
        assert_eq!(dir.name(), *name);
    }
}

#[test]
fn whitespace_between_letters_rejected() {
    for ws in &[" ", "\t", "\n", "\r"] {
        let raw = format!("ab{}cd", ws);
        assert!(matches!(
            Direction::new(&raw),
            Err(DirectionError::Whitespace { offset: 2, .. })
        ));
    }
}

#[test]
fn standard_directions_and_inverses() {
    let pairs = [
        ("north", "south"),
        ("south", "north"),
        ("east", "west"),
        ("west", "east"),
        ("up", "down"),
        ("down", "up"),
    ];
    for (a, b) in pairs.iter() {
        let d = Direction::standard(a).unwrap();
        assert_eq!(d.name(), *a);
        assert_eq!(d.inverse().name(), *b);
        assert_eq!(d.inverse().inverse(), d);
    }
    assert!(Direction::standard("portal-in").is_none());
    assert!(Direction::standard("North").is_none());
}

#[test]
fn custom_direction_is_its_own_inverse() {
    let d = Direction::new("portal-in").unwrap();
    assert_eq!(d.inverse(), d);
}

#[test]
fn direction_error_messages() {
    assert_eq!(DirectionError::Empty.message(), "direction must not be empty");
    assert_eq!(
        DirectionError::TooLong(65).message(),
        "direction is 65 chars, maximum is 64"
    );
    assert_eq!(
        DirectionError::InvalidChar { offset: 1, ch: '\u{f6}' }.message(),
        "invalid character '\u{f6}' at byte offset 1 (must be printable ASCII)"
    );
    assert_eq!(
        DirectionError::Whitespace { offset: 5, ch: ' ' }.message(),
        "whitespace ' ' at byte offset 5"
    );
}

#[test]
fn direction_into_string() {
    let s: String = Direction::new("west").unwrap().into();
    assert_eq!(s, "west");
}
