//! Validated direction name.
//!
//! A direction is non-empty, printable ASCII only, free of whitespace and at
//! most 64 characters long. The six standard names (`north`, `south`, `east`,
//! `west`, `up`, `down`) pair up as each other's inverse; any other name is
//! its own inverse, so the reciprocal of a custom exit bears the same name.

use vstd::prelude::*;

use crate::text::{
    all_name_chars, char_count, char_debug, char_debug_text, char_is_whitespace, decimal,
    first_fault, is_first_fault, is_white_space, lemma_first_fault_exists,
    lemma_first_fault_unique, str_eq, usize_to_string, lemma_all_name_chars_range,
    lemma_name_char_range, is_name_char,
};

verus! {

/// A validated direction name.
#[derive(Debug, Hash)]
pub struct Direction {
    name: String,
}

/// Reasons a string cannot be a valid direction.
#[derive(Clone, Copy, Debug, PartialEq, Eq)]
pub enum DirectionError {
    /// The input was empty.
    Empty,
    /// The input exceeds the 64-character limit; carries its length in characters.
    TooLong(usize),
    /// The input contains a non-printable-ASCII character at the given byte offset.
    InvalidChar { offset: usize, ch: char },
    /// The input contains whitespace at the given byte offset.
    Whitespace { offset: usize, ch: char },
}

/// The error that direction validation reports for `s`, or `None` when `s` is
/// a valid direction name. Emptiness is checked first, then the length in
/// characters, then the first character that is whitespace (reported as such) or
/// not printable ASCII.
pub open spec fn direction_error(s: Seq<char>) -> Option<DirectionError> {
    if s.len() == 0 {
        Some(DirectionError::Empty)
    } else if s.len() > 64 {
        Some(DirectionError::TooLong(s.len() as usize))
    } else if exists|i: int| is_first_fault(s, i) {
        let i = choose|i: int| is_first_fault(s, i);
        if is_white_space(s[i]) {
            Some(DirectionError::Whitespace { offset: i as usize, ch: s[i] })
        } else {
            Some(DirectionError::InvalidChar { offset: i as usize, ch: s[i] })
        }
    } else {
        None
    }
}

/// The message for `e`, where `ch_text` stands for the offending character as
/// `Debug` writes it (used by the two variants that carry one).
pub open spec fn direction_error_text(e: DirectionError, ch_text: Seq<char>) -> Seq<char> {
    match e {
        DirectionError::Empty => "direction must not be empty"@,
        DirectionError::TooLong(len) => "direction is "@ + decimal(len as nat)
            + " chars, maximum is "@ + decimal(64),
        DirectionError::InvalidChar { offset, ch } => "invalid character "@ + ch_text
            + " at byte offset "@ + decimal(offset as nat) + " (must be printable ASCII)"@,
        DirectionError::Whitespace { offset, ch } => "whitespace "@ + ch_text
            + " at byte offset "@ + decimal(offset as nat),
    }
}

/// The `Debug` text of the character an error carries, empty for the others.
pub open spec fn direction_error_char_text(e: DirectionError) -> Seq<char> {
    match e {
        DirectionError::InvalidChar { offset, ch } => char_debug_text(ch),
        DirectionError::Whitespace { offset, ch } => char_debug_text(ch),
        _ => Seq::empty(),
    }
}

impl DirectionError {
    /// The message for this error, with `ch_text` written where the offending
    /// character goes.
    pub fn message_with(&self, ch_text: &str) -> (r: String)
        ensures
            r@ == direction_error_text(*self, ch_text@),
    {
        match self {
            DirectionError::Empty => String::from_str("direction must not be empty"),
            DirectionError::TooLong(len) => {
                let mut m = String::from_str("direction is ");
                m.append(usize_to_string(*len).as_str());
                m.append(" chars, maximum is ");
                m.append(usize_to_string(Direction::MAX_LEN).as_str());
                m
            },
            DirectionError::InvalidChar { offset, ch } => {
                let mut m = String::from_str("invalid character ");
                m.append(ch_text);
                m.append(" at byte offset ");
                m.append(usize_to_string(*offset).as_str());
                m.append(" (must be printable ASCII)");
                m
            },
            DirectionError::Whitespace { offset, ch } => {
                let mut m = String::from_str("whitespace ");
                m.append(ch_text);
                m.append(" at byte offset ");
                m.append(usize_to_string(*offset).as_str());
                m
            },
        }
    }

    /// The message for this error, as it is displayed.
    pub fn message(&self) -> (r: String)
        ensures
            r@ == direction_error_text(*self, direction_error_char_text(*self)),
    {
        match self {
            DirectionError::InvalidChar { offset, ch } => self.message_with(
                char_debug(*ch).as_str(),
            ),
            DirectionError::Whitespace { offset, ch } => self.message_with(
                char_debug(*ch).as_str(),
            ),
            _ => self.message_with(""),
        }
    }
}

/// The names of the standard directions.
pub open spec fn is_standard_name(n: Seq<char>) -> bool {
    ||| n == "north"@
    ||| n == "south"@
    ||| n == "east"@
    ||| n == "west"@
    ||| n == "up"@
    ||| n == "down"@
}

/// The name of the inverse of the direction named `n`: the opposite for a
/// standard direction, `n` itself for any other.
pub open spec fn inverse_name(n: Seq<char>) -> Seq<char> {
    if n == "north"@ {
        "south"@
    } else if n == "south"@ {
        "north"@
    } else if n == "east"@ {
        "west"@
    } else if n == "west"@ {
        "east"@
    } else if n == "up"@ {
        "down"@
    } else if n == "down"@ {
        "up"@
    } else {
        n
    }
}

/// `s` is a well-formed direction name.
pub open spec fn is_valid_direction(s: Seq<char>) -> bool {
    &&& 0 < s.len()
    &&& s.len() <= 64
    &&& all_name_chars(s)
}

/// A direction passes every check exactly when it is well formed.
pub proof fn lemma_direction_error_none_iff_valid(s: Seq<char>)
    ensures
        direction_error(s).is_none() <==> is_valid_direction(s),
{
    if !all_name_chars(s) {
        lemma_first_fault_exists(s);
    }
}

/// The direction names accepted are exactly the strings of 1 to 64
/// characters, each from `!` (U+0021) to `~` (U+007E).
pub proof fn lemma_direction_accepted_iff(s: Seq<char>)
    ensures
        direction_error(s).is_none() <==> {
            &&& 0 < s.len() <= 64
            &&& forall|i: int| 0 <= i < s.len() ==> '!' <= #[trigger] s[i] <= '~'
        },
{
    lemma_direction_error_none_iff_valid(s);
    lemma_all_name_chars_range(s);
}

/// A name of 1 to 64 characters is refused at its first character outside `!`
/// through `~`, with that position and character: as whitespace when the
/// character is Unicode whitespace (among ASCII: space, tab, line feed,
/// vertical tab, form feed, carriage return), as an invalid character
/// otherwise.
pub proof fn lemma_direction_first_bad_char(s: Seq<char>, i: int)
    requires
        0 < s.len() <= 64,
        0 <= i < s.len(),
        !('!' <= s[i] <= '~'),
        forall|j: int| 0 <= j < i ==> '!' <= #[trigger] s[j] <= '~',
    ensures
        is_white_space(s[i]) ==> direction_error(s) == Some(
            DirectionError::Whitespace { offset: i as usize, ch: s[i] },
        ),
        !is_white_space(s[i]) ==> direction_error(s) == Some(
            DirectionError::InvalidChar { offset: i as usize, ch: s[i] },
        ),
        (s[i] == ' ' || '\t' <= s[i] <= '\r') ==> direction_error(s) matches Some(
            DirectionError::Whitespace { .. },
        ),
        (s[i] < '\t' || '\u{0e}' <= s[i] <= '\u{1f}' || s[i] == '\u{7f}' || s[i] == '\u{f6}')
            ==> direction_error(s) matches Some(DirectionError::InvalidChar { .. }),
{
    assert(is_first_fault(s, i)) by {
        lemma_name_char_range(s[i]);
        assert forall|j: int| 0 <= j < i implies is_name_char(#[trigger] s[j]) by {
            lemma_name_char_range(s[j]);
        }
    }
    let k = choose|k: int| is_first_fault(s, k);
    lemma_first_fault_unique(s, i, k);
}

/// The inverse pairs north with south, east with west and up with down, and
/// leaves every other name as it is.
pub proof fn lemma_inverse_pairs(n: Seq<char>)
    ensures
        inverse_name("north"@) == "south"@,
        inverse_name("south"@) == "north"@,
        inverse_name("east"@) == "west"@,
        inverse_name("west"@) == "east"@,
        inverse_name("up"@) == "down"@,
        inverse_name("down"@) == "up"@,
        n != "north"@ && n != "south"@ && n != "east"@ && n != "west"@ && n != "up"@ && n
            != "down"@ ==> inverse_name(n) == n,
{
    lemma_standard_names_distinct();
}

/// The six standard names are pairwise different.
proof fn lemma_standard_names_distinct()
    ensures
        "north"@ != "south"@,
        "north"@ != "east"@,
        "north"@ != "west"@,
        "north"@ != "up"@,
        "north"@ != "down"@,
        "south"@ != "east"@,
        "south"@ != "west"@,
        "south"@ != "up"@,
        "south"@ != "down"@,
        "east"@ != "west"@,
        "east"@ != "up"@,
        "east"@ != "down"@,
        "west"@ != "up"@,
        "west"@ != "down"@,
        "up"@ != "down"@,
{
    reveal_strlit("north");
    reveal_strlit("south");
    reveal_strlit("east");
    reveal_strlit("west");
    reveal_strlit("up");
    reveal_strlit("down");
    assert("north"@[0] != "south"@[0]);
    assert("north"@[0] != "east"@[0]);
    assert("north"@[0] != "west"@[0]);
    assert("north"@[0] != "down"@[0]);
    assert("south"@[0] != "east"@[0]);
    assert("south"@[0] != "west"@[0]);
    assert("south"@[0] != "down"@[0]);
    assert("east"@[0] != "west"@[0]);
    assert("up"@[0] != "down"@[0]);
}

/// The standard names are valid direction names.
pub proof fn lemma_standard_names_valid()
    ensures
        is_valid_direction("north"@),
        is_valid_direction("south"@),
        is_valid_direction("east"@),
        is_valid_direction("west"@),
        is_valid_direction("up"@),
        is_valid_direction("down"@),
{
    reveal_strlit("north");
    reveal_strlit("south");
    reveal_strlit("east");
    reveal_strlit("west");
    reveal_strlit("up");
    reveal_strlit("down");
}

/// Taking the inverse twice gives back the direction one started from.
pub proof fn lemma_inverse_involution(n: Seq<char>)
    ensures
        inverse_name(inverse_name(n)) == n,
{
    lemma_standard_names_distinct();
}

/// Validate that a string is acceptable as a direction name.
pub fn validate_direction_str(s: &str) -> (r: Result<(), DirectionError>)
    ensures
        match r {
            Ok(()) => direction_error(s@).is_none(),
            Err(e) => direction_error(s@) == Some(e),
        },
{
    if s.is_empty() {
        return Err(DirectionError::Empty);
    }
    let n = char_count(s);
    if n > Direction::MAX_LEN {
        return Err(DirectionError::TooLong(n));
    }
    if let Some((i, c)) = first_fault(s) {
        proof {
            let j = choose|j: int| is_first_fault(s@, j);
            lemma_first_fault_unique(s@, i as int, j);
        }
        if char_is_whitespace(c) {
            return Err(DirectionError::Whitespace { offset: i, ch: c });
        } else {
            return Err(DirectionError::InvalidChar { offset: i, ch: c });
        }
    }
    Ok(())
}

impl View for Direction {
    type V = Seq<char>;

    closed spec fn view(&self) -> Seq<char> {
        self.name@
    }
}

impl Direction {
    #[verifier::type_invariant]
    spec fn inv(self) -> bool {
        is_valid_direction(self.name@)
    }

    /// Maximum length of a direction string in characters.
    pub const MAX_LEN: usize = 64;

    /// Create a direction from a validated string.
    ///
    /// Accepts any non-empty, printable-ASCII, whitespace-free string up to
    /// 64 characters. Standard names like `"north"` are valid like any other.
    pub fn new(name: &str) -> (r: Result<Direction, DirectionError>)
        ensures
            match r {
                Ok(d) => direction_error(name@).is_none() && d@ == name@,
                Err(e) => direction_error(name@) == Some(e),
            },
    {
        match validate_direction_str(name) {
            Err(e) => Err(e),
            Ok(()) => {
                proof {
                    lemma_direction_error_none_iff_valid(name@);
                }
                Ok(Direction { name: name.to_owned() })
            },
        }
    }

    /// A direction made from a name already known to be valid.
    fn from_valid(name: &str) -> (r: Direction)
        requires
            is_valid_direction(name@),
        ensures
            r@ == name@,
    {
        Direction { name: name.to_owned() }
    }

    /// The standard direction with the given name, if `name` is one of
    /// `north`, `south`, `east`, `west`, `up` or `down`.
    pub fn standard(name: &str) -> (r: Option<Direction>)
        ensures
            match r {
                Some(d) => is_standard_name(name@) && d@ == name@,
                None => !is_standard_name(name@),
            },
    {
        proof {
            lemma_standard_names_valid();
        }
        if str_eq(name, "north") || str_eq(name, "south") || str_eq(name, "east")
            || str_eq(name, "west") || str_eq(name, "up") || str_eq(name, "down") {
            Some(Direction::from_valid(name))
        } else {
            None
        }
    }

    /// The inverse direction: the opposite of a standard direction, or the
    /// same name for any other direction.
    pub fn inverse(&self) -> (r: Direction)
        ensures
            r@ == inverse_name(self@),
    {
        proof {
            use_type_invariant(self);
            lemma_standard_names_valid();
        }
        let n = self.name.as_str();
        if str_eq(n, "north") {
            Direction::from_valid("south")
        } else if str_eq(n, "south") {
            Direction::from_valid("north")
        } else if str_eq(n, "east") {
            Direction::from_valid("west")
        } else if str_eq(n, "west") {
            Direction::from_valid("east")
        } else if str_eq(n, "up") {
            Direction::from_valid("down")
        } else if str_eq(n, "down") {
            Direction::from_valid("up")
        } else {
            self.clone()
        }
    }

    /// The direction name.
    pub fn name(&self) -> (r: &str)
        ensures
            r@ == self@,
            is_valid_direction(self@),
    {
        proof {
            use_type_invariant(self);
        }
        self.name.as_str()
    }

    /// The name as an owned string, as it is displayed.
    pub fn to_string(&self) -> (r: String)
        ensures
            r@ == self@,
    {
        self.name.clone()
    }
}

impl Clone for Direction {
    fn clone(&self) -> (r: Self)
        ensures
            r@ == self@,
    {
        proof {
            use_type_invariant(self);
        }
        Direction { name: self.name.clone() }
    }
}

impl PartialEq for Direction {
    fn eq(&self, other: &Self) -> (r: bool) {
        self.name == other.name
    }
}

impl Eq for Direction {}

impl vstd::std_specs::cmp::PartialEqSpecImpl for Direction {
    open spec fn obeys_eq_spec() -> bool {
        true
    }

    open spec fn eq_spec(&self, other: &Self) -> bool {
        self@ == other@
    }
}

impl From<Direction> for String {
    fn from(d: Direction) -> (r: String)
        ensures
            r@ == d@,
    {
        d.name
    }
}

impl vstd::std_specs::convert::FromSpecImpl<Direction> for String {
    open spec fn obeys_from_spec() -> bool {
        true
    }

    closed spec fn from_spec(d: Direction) -> String {
        d.name
    }
}

impl TryFrom<String> for Direction {
    type Error = DirectionError;

    fn try_from(s: String) -> (r: Result<Self, Self::Error>)
        ensures
            match r {
                Ok(d) => direction_error(s@).is_none() && d@ == s@,
                Err(e) => direction_error(s@) == Some(e),
            },
    {
        match validate_direction_str(s.as_str()) {
            Err(e) => Err(e),
            Ok(()) => {
                proof {
                    lemma_direction_error_none_iff_valid(s@);
                }
                Ok(Direction { name: s })
            },
        }
    }
}

impl vstd::std_specs::convert::TryFromSpecImpl<String> for Direction {
    open spec fn obeys_try_from_spec() -> bool {
        true
    }

    closed spec fn try_from_spec(s: String) -> Result<Self, Self::Error> {
        match direction_error(s@) {
            Some(e) => Err(e),
            None => Ok(Direction { name: s }),
        }
    }
}

impl<'a> TryFrom<&'a str> for Direction {
    type Error = DirectionError;

    fn try_from(s: &'a str) -> (r: Result<Self, Self::Error>)
        ensures
            match r {
                Ok(d) => direction_error(s@).is_none() && d@ == s@,
                Err(e) => direction_error(s@) == Some(e),
            },
    {
        Self::new(s)
    }
}

/// The direction that a borrowed string converts to is not determined as a
/// value (only its view is: an owned copy is made), so the generic contract is
/// not claimed; the impl's own `ensures` states the result.
impl<'a> vstd::std_specs::convert::TryFromSpecImpl<&'a str> for Direction {
    open spec fn obeys_try_from_spec() -> bool {
        false
    }

    closed spec fn try_from_spec(s: &'a str) -> Result<Self, Self::Error> {
        match direction_error(s@) {
            Some(e) => Err(e),
            None => Ok(choose|d: Direction| d@ == s@),
        }
    }
}

} // verus!
