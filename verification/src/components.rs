//! ECS components referenced by the engine invariants.

use vstd::prelude::*;

use hecs::Entity;

use crate::exits::Exits;
use crate::text::{char_count, decimal, usize_to_string};

verus! {

/// A handle to an entity of the ECS world; the library only carries it.
#[verifier::external_type_specification]
#[verifier::external_body]
pub struct ExEntity(hecs::Entity);

/// Locates an entity inside a room. The `Entity` value points to the room
/// entity (which must have `RoomName`, `Description`, and `Exits` components
/// and a corresponding entry in the room registry).
#[derive(Clone, Copy, Debug)]
pub struct InRoom(pub Entity);

/// Human-readable room name, displayed to players.
///
/// Construction is fallible: names must be non-empty and at most
/// [`RoomName::MAX_LEN`] characters long.
#[derive(Debug, PartialEq, Eq)]
pub struct RoomName(String);

/// Reasons a string cannot be a valid [`RoomName`].
#[derive(Clone, Debug, PartialEq, Eq)]
pub enum RoomNameError {
    Empty,
    TooLong(usize),
}

/// The error that [`RoomName::new`] reports for `s`, or `None` when `s` is a
/// valid room name.
pub open spec fn room_name_error(s: Seq<char>) -> Option<RoomNameError> {
    if s.len() == 0 {
        Some(RoomNameError::Empty)
    } else if s.len() > 200 {
        Some(RoomNameError::TooLong(s.len() as usize))
    } else {
        None
    }
}

/// The room names accepted are exactly the strings of 1 to 200 characters,
/// whatever characters they hold.
pub proof fn lemma_room_name_accepted_iff(s: Seq<char>)
    ensures
        room_name_error(s).is_none() <==> 0 < s.len() <= 200,
{
}

/// The message for `e`, as it is displayed.
pub open spec fn room_name_error_text(e: RoomNameError) -> Seq<char> {
    match e {
        RoomNameError::Empty => "room name must not be empty"@,
        RoomNameError::TooLong(len) => "room name is "@ + decimal(len as nat)
            + " chars, maximum is "@ + decimal(200),
    }
}

impl RoomNameError {
    /// The message for this error, as it is displayed.
    pub fn message(&self) -> (r: String)
        ensures
            r@ == room_name_error_text(*self),
    {
        match self {
            RoomNameError::Empty => String::from_str("room name must not be empty"),
            RoomNameError::TooLong(len) => {
                let mut m = String::from_str("room name is ");
                m.append(usize_to_string(*len).as_str());
                m.append(" chars, maximum is ");
                m.append(usize_to_string(RoomName::MAX_LEN).as_str());
                m
            },
        }
    }
}

impl View for RoomName {
    type V = Seq<char>;

    closed spec fn view(&self) -> Seq<char> {
        self.0@
    }
}

impl RoomName {
    #[verifier::type_invariant]
    spec fn inv(self) -> bool {
        room_name_error(self.0@).is_none()
    }

    /// Maximum length of a room name in characters.
    pub const MAX_LEN: usize = 200;

    /// Checks `name` and makes a room name of it.
    pub fn new(name: &str) -> (r: Result<Self, RoomNameError>)
        ensures
            match r {
                Ok(n) => room_name_error(name@).is_none() && n@ == name@,
                Err(e) => room_name_error(name@) == Some(e),
            },
    {
        if name.is_empty() {
            return Err(RoomNameError::Empty);
        }
        let n = char_count(name);
        if n > Self::MAX_LEN {
            return Err(RoomNameError::TooLong(n));
        }
        Ok(RoomName(name.to_owned()))
    }

    /// The name as a string slice.
    pub fn as_str(&self) -> (r: &str)
        ensures
            r@ == self@,
            room_name_error(self@).is_none(),
    {
        proof {
            use_type_invariant(self);
        }
        self.0.as_str()
    }

    /// The name as an owned string, as it is displayed.
    pub fn to_string(&self) -> (r: String)
        ensures
            r@ == self@,
    {
        self.0.clone()
    }
}

impl Clone for RoomName {
    fn clone(&self) -> (r: Self)
        ensures
            r@ == self@,
    {
        proof {
            use_type_invariant(self);
        }
        RoomName(self.0.clone())
    }
}

impl From<RoomName> for String {
    fn from(n: RoomName) -> (r: String)
        ensures
            r@ == n@,
    {
        n.0
    }
}

impl vstd::std_specs::convert::FromSpecImpl<RoomName> for String {
    open spec fn obeys_from_spec() -> bool {
        true
    }

    closed spec fn from_spec(n: RoomName) -> String {
        n.0
    }
}

impl TryFrom<String> for RoomName {
    type Error = RoomNameError;

    fn try_from(s: String) -> (r: Result<Self, Self::Error>)
        ensures
            match r {
                Ok(n) => room_name_error(s@).is_none() && n@ == s@,
                Err(e) => room_name_error(s@) == Some(e),
            },
    {
        if s.as_str().is_empty() {
            return Err(RoomNameError::Empty);
        }
        let n = char_count(s.as_str());
        if n > Self::MAX_LEN {
            return Err(RoomNameError::TooLong(n));
        }
        Ok(RoomName(s))
    }
}

impl vstd::std_specs::convert::TryFromSpecImpl<String> for RoomName {
    open spec fn obeys_try_from_spec() -> bool {
        true
    }

    closed spec fn try_from_spec(s: String) -> Result<Self, Self::Error> {
        match room_name_error(s@) {
            Some(e) => Err(e),
            None => Ok(RoomName(s)),
        }
    }
}

/// Room description text, displayed on `look`.
///
/// Construction is fallible: descriptions must be at most
/// [`Description::MAX_LEN`] characters long. Empty descriptions are allowed (a room
/// can be indescribable).
#[derive(Debug, PartialEq, Eq)]
pub struct Description(String);

/// Reasons a string cannot be a valid [`Description`].
#[derive(Clone, Debug, PartialEq, Eq)]
pub enum DescriptionError {
    TooLong(usize),
}

/// The error that [`Description::new`] reports for `s`, or `None` when `s` is
/// a valid description.
pub open spec fn description_error(s: Seq<char>) -> Option<DescriptionError> {
    if s.len() > 8000 {
        Some(DescriptionError::TooLong(s.len() as usize))
    } else {
        None
    }
}

/// The descriptions accepted are exactly the strings of at most 8000
/// characters, the empty one included, whatever characters they hold.
pub proof fn lemma_description_accepted_iff(s: Seq<char>)
    ensures
        description_error(s).is_none() <==> s.len() <= 8000,
{
}

/// The message for `e`, as it is displayed.
pub open spec fn description_error_text(e: DescriptionError) -> Seq<char> {
    match e {
        DescriptionError::TooLong(len) => "description is "@ + decimal(len as nat)
            + " chars, maximum is "@ + decimal(8000),
    }
}

impl DescriptionError {
    /// The message for this error, as it is displayed.
    pub fn message(&self) -> (r: String)
        ensures
            r@ == description_error_text(*self),
    {
        match self {
            DescriptionError::TooLong(len) => {
                let mut m = String::from_str("description is ");
                m.append(usize_to_string(*len).as_str());
                m.append(" chars, maximum is ");
                m.append(usize_to_string(Description::MAX_LEN).as_str());
                m
            },
        }
    }
}

impl View for Description {
    type V = Seq<char>;

    closed spec fn view(&self) -> Seq<char> {
        self.0@
    }
}

impl Description {
    #[verifier::type_invariant]
    spec fn inv(self) -> bool {
        description_error(self.0@).is_none()
    }

    /// Maximum length of a room description in characters.
    pub const MAX_LEN: usize = 8_000;

    /// Checks `text` and makes a description of it.
    pub fn new(text: &str) -> (r: Result<Self, DescriptionError>)
        ensures
            match r {
                Ok(d) => description_error(text@).is_none() && d@ == text@,
                Err(e) => description_error(text@) == Some(e),
            },
    {
        let n = char_count(text);
        if n > Self::MAX_LEN {
            return Err(DescriptionError::TooLong(n));
        }
        Ok(Description(text.to_owned()))
    }

    /// The description as a string slice.
    pub fn as_str(&self) -> (r: &str)
        ensures
            r@ == self@,
            description_error(self@).is_none(),
    {
        proof {
            use_type_invariant(self);
        }
        self.0.as_str()
    }

    /// The description as an owned string, as it is displayed.
    pub fn to_string(&self) -> (r: String)
        ensures
            r@ == self@,
    {
        self.0.clone()
    }
}

impl Clone for Description {
    fn clone(&self) -> (r: Self)
        ensures
            r@ == self@,
    {
        proof {
            use_type_invariant(self);
        }
        Description(self.0.clone())
    }
}

impl From<Description> for String {
    fn from(d: Description) -> (r: String)
        ensures
            r@ == d@,
    {
        d.0
    }
}

impl vstd::std_specs::convert::FromSpecImpl<Description> for String {
    open spec fn obeys_from_spec() -> bool {
        true
    }

    closed spec fn from_spec(d: Description) -> String {
        d.0
    }
}

impl TryFrom<String> for Description {
    type Error = DescriptionError;

    fn try_from(s: String) -> (r: Result<Self, Self::Error>)
        ensures
            match r {
                Ok(d) => description_error(s@).is_none() && d@ == s@,
                Err(e) => description_error(s@) == Some(e),
            },
    {
        let n = char_count(s.as_str());
        if n > Self::MAX_LEN {
            return Err(DescriptionError::TooLong(n));
        }
        Ok(Description(s))
    }
}

impl vstd::std_specs::convert::TryFromSpecImpl<String> for Description {
    open spec fn obeys_try_from_spec() -> bool {
        true
    }

    closed spec fn try_from_spec(s: String) -> Result<Self, Self::Error> {
        match description_error(s@) {
            Some(e) => Err(e),
            None => Ok(Description(s)),
        }
    }
}

/// Exits attached to a room entity. See [`Exits`] for the API.
pub type RoomExits = Exits;

/// Marker component: this entity is a unique singleton. No other live entity
/// may share its content identity key.
#[derive(Clone, Copy, Debug, Default)]
pub struct Unique;

/// Binds a player entity to its network session.
#[derive(Debug)]
pub struct PlayerSession {
    /// Unique session ID.
    pub session_id: u64,
}

/// Optional custom state blob attached to an entity. The engine persists the
/// bytes with round-trip fidelity; schema migration is the mudlib's
/// responsibility.
#[derive(Clone, Debug)]
pub struct CustomState(pub Vec<u8>);

/// Opt-in marker: this entity receives periodic tick callbacks. Entities
/// without this component incur zero scheduler overhead.
#[derive(Clone, Copy, Debug, Default)]
pub struct Ticker;

} // verus!
