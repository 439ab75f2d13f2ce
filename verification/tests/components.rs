use catena::components::{
    CustomState, Description, DescriptionError, InRoom, PlayerSession, RoomName, RoomNameError,
    Ticker, Unique,
};

#[test]
fn room_name_valid() {
    let name = RoomName::new("The Cantina").unwrap();
    assert_eq!(name.as_str(), "The Cantina");
}

#[test]
fn room_name_reject_empty() {
    assert_eq!(RoomName::new(""), Err(RoomNameError::Empty));
}

#[test]
fn room_name_reject_too_long() {
    let long = "x".repeat(RoomName::MAX_LEN + 1);
    assert!(matches!(RoomName::new(&long), Err(RoomNameError::TooLong(_))));
}

#[test]
fn room_name_exactly_max_ok() {
    let name = "x".repeat(RoomName::MAX_LEN);
    assert!(RoomName::new(&name).is_ok());
}

#[test]
fn description_valid() {
    let desc = Description::new("A dimly lit room.").unwrap();
    assert_eq!(desc.as_str(), "A dimly lit room.");
}

#[test]
fn description_allows_empty() {
    assert!(Description::new("").is_ok());
}

#[test]
fn description_reject_too_long() {
    let long = "x".repeat(Description::MAX_LEN + 1);
    assert!(matches!(Description::new(&long), Err(DescriptionError::TooLong(_))));
}

// --- further cases ---

#[test]
fn room_name_too_long_counts_characters() {
    let ok = "\u{00e9}".repeat(150);
    assert_eq!(RoomName::new(&ok).unwrap().as_str(), ok);
    let ok = "\u{00e9}".repeat(200);
    assert_eq!(RoomName::new(&ok).unwrap().as_str(), ok);
    let long = "\u{00e9}".repeat(201);
    assert_eq!(RoomName::new(&long), Err(RoomNameError::TooLong(201)));
}

#[test]
fn description_limit_counts_characters() {
    let ok = "\u{00e9}".repeat(5000);
    assert_eq!(Description::new(&ok).unwrap().as_str(), ok);
    let long = "\u{00e9}".repeat(8001);
    assert_eq!(Description::new(&long), Err(DescriptionError::TooLong(8001)));
}

#[test]
fn room_name_conversions() {
    let name: RoomName = String::from("The Void").try_into().unwrap();
    assert_eq!(name.to_string(), "The Void");
    let back: String = name.clone().into();
    assert_eq!(back, "The Void");
    let r: Result<RoomName, RoomNameError> = String::new().try_into();
    assert_eq!(r, Err(RoomNameError::Empty));
}

#[test]
fn description_conversions() {
    let d: Description = String::from("Dust.").try_into().unwrap();
    assert_eq!(d.to_string(), "Dust.");
    let back: String = d.into();
    assert_eq!(back, "Dust.");
    let r: Result<Description, DescriptionError> =
        "y".repeat(Description::MAX_LEN + 2).try_into();
    assert_eq!(r, Err(DescriptionError::TooLong(8002)));
}

#[test]
fn component_error_messages() {
    assert_eq!(RoomNameError::Empty.message(), "room name must not be empty");
    assert_eq!(
        RoomNameError::TooLong(201).message(),
        "room name is 201 chars, maximum is 200"
    );
    assert_eq!(
        DescriptionError::TooLong(8001).message(),
        "description is 8001 chars, maximum is 8000"
    );
}

#[test]
fn plain_components() {
    let mut world = hecs::World::new();
    let room = world.spawn(());
    let located = InRoom(room);
    assert_eq!(located.0, room);
    let session = PlayerSession { session_id: 7 };
    assert_eq!(session.session_id, 7);
    let state = CustomState(vec![1, 2, 3]);
    assert_eq!(state.clone().0, vec![1, 2, 3]);
    let _ = (Unique, Ticker, Unique::default(), Ticker::default());
}
