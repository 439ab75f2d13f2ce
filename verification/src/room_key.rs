//! Validated room identifier with namespace.
//!
//! A `RoomKey` is non-empty, contains a namespace separator (`:`), holds only
//! printable ASCII and no whitespace, and is at most 64 characters long. Invalid
//! keys are rejected at creation and never stored in the registry.

use vstd::prelude::*;

use crate::text::{
    all_name_chars, char_count, char_debug, char_debug_text, char_is_whitespace, decimal,
    find_char, first_fault, is_first_fault, is_first_index_of, is_white_space,
    lemma_first_fault_exists, lemma_first_fault_unique, lemma_first_index_exists,
    lemma_first_index_unique, lemma_name_chars_utf8_len, usize_to_string,
    lemma_all_name_chars_range, lemma_name_char_range, is_name_char,
};

verus! {

/// The namespace separator character used in room keys.
pub const NAMESPACE_SEP: char = ':';

/// Maximum length of a room key in characters.
pub const MAX_LEN: usize = 64;

/// A validated, namespaced room identifier (e.g. `"catena:cantina/main"`).
///
/// Only [`RoomKey::try_new`] and the `TryFrom` conversions produce values.
/// The inner string is not publicly accessible.
#[derive(Debug, Hash)]
pub struct RoomKey(String);

/// Reasons a string cannot be a valid [`RoomKey`].
#[derive(Clone, Copy, Debug, PartialEq, Eq)]
pub enum RoomKeyError {
    /// The input was empty.
    Empty,
    /// The input exceeds the 64-character limit; carries its length in characters.
    TooLong(usize),
    /// The input contains a non-printable-ASCII character at the given byte offset.
    InvalidChar { offset: usize, ch: char },
    /// The input contains whitespace at the given byte offset.
    Whitespace { offset: usize, ch: char },
    /// The input does not contain a namespace separator (`:`).
    NoNamespace,
    /// The namespace (portion before `:`) is empty.
    EmptyNamespace,
    /// The local part (portion after `:`) is empty.
    EmptyLocalPart,
}

/// The error that [`RoomKey::try_new`] reports for `s`, or `None` when `s` is a
/// valid key. The checks come in this order: emptiness, length in characters, the
/// first character that is whitespace (reported as such) or not printable
/// ASCII, presence of `:`, then the two sides of the first `:`.
pub open spec fn room_key_error(s: Seq<char>) -> Option<RoomKeyError> {
    if s.len() == 0 {
        Some(RoomKeyError::Empty)
    } else if s.len() > MAX_LEN {
        Some(RoomKeyError::TooLong(s.len() as usize))
    } else if exists|i: int| is_first_fault(s, i) {
        let i = choose|i: int| is_first_fault(s, i);
        if is_white_space(s[i]) {
            Some(RoomKeyError::Whitespace { offset: i as usize, ch: s[i] })
        } else {
            Some(RoomKeyError::InvalidChar { offset: i as usize, ch: s[i] })
        }
    } else if !s.contains(NAMESPACE_SEP) {
        Some(RoomKeyError::NoNamespace)
    } else if s[0] == NAMESPACE_SEP {
        Some(RoomKeyError::EmptyNamespace)
    } else if is_first_index_of(s, NAMESPACE_SEP, s.len() - 1) {
        Some(RoomKeyError::EmptyLocalPart)
    } else {
        None
    }
}

/// `s` is a well-formed room key.
pub open spec fn is_valid_room_key(s: Seq<char>) -> bool {
    &&& 0 < s.len()
    &&& s.len() <= MAX_LEN
    &&& all_name_chars(s)
    &&& s.contains(NAMESPACE_SEP)
    &&& s[0] != NAMESPACE_SEP
    &&& !is_first_index_of(s, NAMESPACE_SEP, s.len() - 1)
}

/// Position of the first `:` in `s`.
pub open spec fn sep_position(s: Seq<char>) -> int {
    choose|i: int| is_first_index_of(s, NAMESPACE_SEP, i)
}

/// The portion of a key before its first `:`.
pub open spec fn namespace_of(s: Seq<char>) -> Seq<char> {
    s.take(sep_position(s))
}

/// The portion of a key after its first `:`.
pub open spec fn local_part_of(s: Seq<char>) -> Seq<char> {
    s.skip(sep_position(s) + 1)
}

/// Checks `s` against the room-key rules; `None` when it is a valid key.
fn validate_room_key_str(s: &str) -> (r: Option<RoomKeyError>)
    ensures
        r == room_key_error(s@),
{
    if s.is_empty() {
        return Some(RoomKeyError::Empty);
    }
    let n = char_count(s);
    if n > MAX_LEN {
        return Some(RoomKeyError::TooLong(n));
    }
    if let Some((i, c)) = first_fault(s) {
        proof {
            let j = choose|j: int| is_first_fault(s@, j);
            lemma_first_fault_unique(s@, i as int, j);
        }
        if char_is_whitespace(c) {
            return Some(RoomKeyError::Whitespace { offset: i, ch: c });
        } else {
            return Some(RoomKeyError::InvalidChar { offset: i, ch: c });
        }
    }
    let sep_pos = match find_char(s, NAMESPACE_SEP) {
        Some(p) => p,
        None => {
            return Some(RoomKeyError::NoNamespace);
        },
    };
    if sep_pos == 0 {
        return Some(RoomKeyError::EmptyNamespace);
    }
    if sep_pos == n - 1 {
        return Some(RoomKeyError::EmptyLocalPart);
    }
    assert(!is_first_index_of(s@, NAMESPACE_SEP, s@.len() - 1));
    None
}

/// A string passes every room-key check exactly when it is well formed.
pub proof fn lemma_room_key_error_none_iff_valid(s: Seq<char>)
    ensures
        room_key_error(s).is_none() <==> is_valid_room_key(s),
{
    if !all_name_chars(s) {
        lemma_first_fault_exists(s);
    }
}

/// The keys accepted are exactly the strings of 1 to 64 characters, each from
/// `!` (U+0021) to `~` (U+007E), whose first `:` is neither the first nor the
/// last character.
pub proof fn lemma_room_key_accepted_iff(s: Seq<char>)
    ensures
        room_key_error(s).is_none() <==> {
            &&& 0 < s.len() <= 64
            &&& forall|i: int| 0 <= i < s.len() ==> '!' <= #[trigger] s[i] <= '~'
            &&& exists|p: int|
                0 < p < s.len() - 1 && s[p] == ':' && forall|j: int|
                    0 <= j < p ==> #[trigger] s[j] != ':'
        },
{
    lemma_room_key_error_none_iff_valid(s);
    lemma_all_name_chars_range(s);
    if is_valid_room_key(s) {
        let k = choose|k: int| 0 <= k < s.len() && s[k] == NAMESPACE_SEP;
        lemma_first_index_exists(s, NAMESPACE_SEP, k);
        let p = choose|p: int| is_first_index_of(s, NAMESPACE_SEP, p);
        assert(0 < p < s.len() - 1);
    }
    if 0 < s.len() <= 64 && (forall|i: int| 0 <= i < s.len() ==> '!' <= #[trigger] s[i] <= '~')
        && exists|p: int|
        0 < p < s.len() - 1 && s[p] == ':' && forall|j: int| 0 <= j < p ==> #[trigger] s[j] != ':' {
        let p = choose|p: int|
            0 < p < s.len() - 1 && s[p] == ':' && forall|j: int|
                0 <= j < p ==> #[trigger] s[j] != ':';
        assert(s.contains(NAMESPACE_SEP)) by {
            assert(s[p] == NAMESPACE_SEP);
        }
        assert(!is_first_index_of(s, NAMESPACE_SEP, s.len() - 1)) by {
            assert(s[p] == NAMESPACE_SEP);
        }
    }
}

/// A key of 1 to 64 characters is refused at its first character outside `!`
/// through `~`, with that position and character: as whitespace when the
/// character is Unicode whitespace (among ASCII: space, tab, line feed,
/// vertical tab, form feed, carriage return), as an invalid character
/// otherwise (other ASCII controls, DEL, and non-ASCII characters that are not
/// whitespace, such as `ö`).
pub proof fn lemma_room_key_first_bad_char(s: Seq<char>, i: int)
    requires
        0 < s.len() <= 64,
        0 <= i < s.len(),
        !('!' <= s[i] <= '~'),
        forall|j: int| 0 <= j < i ==> '!' <= #[trigger] s[j] <= '~',
    ensures
        is_white_space(s[i]) ==> room_key_error(s) == Some(
            RoomKeyError::Whitespace { offset: i as usize, ch: s[i] },
        ),
        !is_white_space(s[i]) ==> room_key_error(s) == Some(
            RoomKeyError::InvalidChar { offset: i as usize, ch: s[i] },
        ),
        (s[i] == ' ' || '\t' <= s[i] <= '\r') ==> room_key_error(s) matches Some(
            RoomKeyError::Whitespace { .. },
        ),
        (s[i] < '\t' || '\u{0e}' <= s[i] <= '\u{1f}' || s[i] == '\u{7f}' || s[i] == '\u{f6}')
            ==> room_key_error(s) matches Some(RoomKeyError::InvalidChar { .. }),
{
    assert(is_first_fault(s, i)) by {
        lemma_name_char_range(s[i]);
        assert forall|j: int| 0 <= j < i implies is_name_char(#[trigger] s[j]) by {
            lemma_name_char_range(s[j]);
        }
    }
    let k = choose|k: int| is_first_fault(s, k);
    lemma_first_fault_unique(s, i, k);
}

/// A key of 1 to 64 characters, all from `!` through `~`, is refused for its
/// separator alone: for having no `:`, for starting with `:`, or for having
/// its first `:` as its last character.
pub proof fn lemma_room_key_separator_errors(s: Seq<char>)
    requires
        0 < s.len() <= 64,
        forall|i: int| 0 <= i < s.len() ==> '!' <= #[trigger] s[i] <= '~',
    ensures
        (forall|i: int| 0 <= i < s.len() ==> #[trigger] s[i] != ':') ==> room_key_error(s) == Some(
            RoomKeyError::NoNamespace,
        ),
        s[0] == ':' ==> room_key_error(s) == Some(RoomKeyError::EmptyNamespace),
        (s.len() > 1 && s[s.len() - 1] == ':' && forall|i: int|
            0 <= i < s.len() - 1 ==> #[trigger] s[i] != ':') ==> room_key_error(s) == Some(
            RoomKeyError::EmptyLocalPart,
        ),
{
    lemma_all_name_chars_range(s);
    if exists|i: int| is_first_fault(s, i) {
        let i = choose|i: int| is_first_fault(s, i);
        assert(all_name_chars(s));
        assert(is_name_char(s[i]));
    }
    if forall|i: int| 0 <= i < s.len() ==> #[trigger] s[i] != ':' {
        assert(!s.contains(NAMESPACE_SEP));
    }
    if s[0] == ':' {
        assert(s.contains(NAMESPACE_SEP));
    }
    if s.len() > 1 && s[s.len() - 1] == ':' && forall|i: int|
        0 <= i < s.len() - 1 ==> #[trigger] s[i] != ':' {
        assert(s.contains(NAMESPACE_SEP));
        assert(is_first_index_of(s, NAMESPACE_SEP, s.len() - 1));
    }
}

/// A valid key is its namespace, the separator and its local part; the
/// namespace is non-empty and holds no separator, and the local part is
/// non-empty.
pub proof fn lemma_key_splits_at_separator(s: Seq<char>)
    requires
        is_valid_room_key(s),
    ensures
        namespace_of(s) + seq![NAMESPACE_SEP] + local_part_of(s) == s,
        namespace_of(s).len() > 0,
        !namespace_of(s).contains(NAMESPACE_SEP),
        local_part_of(s).len() > 0,
{
    let p = choose|i: int| 0 <= i < s.len() && s[i] == NAMESPACE_SEP;
    lemma_first_index_exists(s, NAMESPACE_SEP, p);
    let q = sep_position(s);
    assert(is_first_index_of(s, NAMESPACE_SEP, q));
    assert(q != 0);
    assert(q != s.len() - 1);
    assert(namespace_of(s) + seq![NAMESPACE_SEP] + local_part_of(s) =~= s);
}

/// The message for `e`, where `ch_text` stands for the offending character as
/// `Debug` writes it (used by the two variants that carry one).
pub open spec fn room_key_error_text(e: RoomKeyError, ch_text: Seq<char>) -> Seq<char> {
    match e {
        RoomKeyError::Empty => "room key must not be empty"@,
        RoomKeyError::TooLong(len) => "room key is "@ + decimal(len as nat) + " chars, maximum is "@
            + decimal(MAX_LEN as nat),
        RoomKeyError::InvalidChar { offset, ch } => "invalid character "@ + ch_text
            + " at byte offset "@ + decimal(offset as nat) + " (must be printable ASCII)"@,
        RoomKeyError::Whitespace { offset, ch } => "whitespace "@ + ch_text + " at byte offset "@
            + decimal(offset as nat),
        RoomKeyError::NoNamespace => "room key must contain a namespace separator (':')"@,
        RoomKeyError::EmptyNamespace => "namespace portion must not be empty"@,
        RoomKeyError::EmptyLocalPart => "local part (after ':') must not be empty"@,
    }
}

/// The `Debug` text of the character an error carries, empty for the others.
pub open spec fn room_key_error_char_text(e: RoomKeyError) -> Seq<char> {
    match e {
        RoomKeyError::InvalidChar { offset, ch } => char_debug_text(ch),
        RoomKeyError::Whitespace { offset, ch } => char_debug_text(ch),
        _ => Seq::empty(),
    }
}

impl RoomKeyError {
    /// The message for this error, with `ch_text` written where the offending
    /// character goes.
    pub fn message_with(&self, ch_text: &str) -> (r: String)
        ensures
            r@ == room_key_error_text(*self, ch_text@),
    {
        match self {
            RoomKeyError::Empty => String::from_str("room key must not be empty"),
            RoomKeyError::TooLong(len) => {
                let mut m = String::from_str("room key is ");
                m.append(usize_to_string(*len).as_str());
                m.append(" chars, maximum is ");
                m.append(usize_to_string(MAX_LEN).as_str());
                m
            },
            RoomKeyError::InvalidChar { offset, ch } => {
                let mut m = String::from_str("invalid character ");
                m.append(ch_text);
                m.append(" at byte offset ");
                m.append(usize_to_string(*offset).as_str());
                m.append(" (must be printable ASCII)");
                m
            },
            RoomKeyError::Whitespace { offset, ch } => {
                let mut m = String::from_str("whitespace ");
                m.append(ch_text);
                m.append(" at byte offset ");
                m.append(usize_to_string(*offset).as_str());
                m
            },
            RoomKeyError::NoNamespace => String::from_str(
                "room key must contain a namespace separator (':')",
            ),
            RoomKeyError::EmptyNamespace => String::from_str("namespace portion must not be empty"),
            RoomKeyError::EmptyLocalPart => String::from_str(
                "local part (after ':') must not be empty",
            ),
        }
    }

    /// The message for this error, as it is displayed.
    pub fn message(&self) -> (r: String)
        ensures
            r@ == room_key_error_text(*self, room_key_error_char_text(*self)),
    {
        match self {
            RoomKeyError::InvalidChar { offset, ch } => self.message_with(char_debug(*ch).as_str()),
            RoomKeyError::Whitespace { offset, ch } => self.message_with(char_debug(*ch).as_str()),
            _ => self.message_with(""),
        }
    }
}

impl View for RoomKey {
    type V = Seq<char>;

    closed spec fn view(&self) -> Seq<char> {
        self.0@
    }
}

impl RoomKey {
    #[verifier::type_invariant]
    spec fn inv(self) -> bool {
        is_valid_room_key(self.0@)
    }

    /// Attempt to construct a `RoomKey` from a string, validating all invariants.
    pub fn try_new(s: &str) -> (r: Result<RoomKey, RoomKeyError>)
        ensures
            match r {
                Ok(k) => room_key_error(s@).is_none() && k@ == s@,
                Err(e) => room_key_error(s@) == Some(e),
            },
    {
        match validate_room_key_str(s) {
            Some(e) => Err(e),
            None => {
                proof {
                    lemma_room_key_error_none_iff_valid(s@);
                }
                Ok(RoomKey(s.to_owned()))
            },
        }
    }

    /// Returns the full key as a string slice.
    pub fn as_str(&self) -> (r: &str)
        ensures
            r@ == self@,
            is_valid_room_key(self@),
    {
        proof {
            use_type_invariant(self);
        }
        self.0.as_str()
    }

    /// Returns the namespace portion (before the first `:`).
    pub fn namespace(&self) -> (r: &str)
        ensures
            r@ == namespace_of(self@),
    {
        proof {
            use_type_invariant(self);
            lemma_name_chars_utf8_len(self@);
        }
        let s = self.0.as_str();
        let p = find_char(s, NAMESPACE_SEP).unwrap();
        proof {
            lemma_first_index_unique(self@, NAMESPACE_SEP, p as int, sep_position(self@));
        }
        s.substring_ascii(0, p)
    }

    /// Returns the local portion (after the first `:`).
    pub fn local_part(&self) -> (r: &str)
        ensures
            r@ == local_part_of(self@),
    {
        proof {
            use_type_invariant(self);
            lemma_name_chars_utf8_len(self@);
        }
        let s = self.0.as_str();
        let p = find_char(s, NAMESPACE_SEP).unwrap();
        proof {
            lemma_first_index_unique(self@, NAMESPACE_SEP, p as int, sep_position(self@));
        }
        s.substring_ascii(p + 1, char_count(s))
    }

    /// The key as an owned string, as it is displayed.
    pub fn to_string(&self) -> (r: String)
        ensures
            r@ == self@,
    {
        self.0.clone()
    }
}

impl Clone for RoomKey {
    fn clone(&self) -> (r: Self)
        ensures
            r@ == self@,
    {
        proof {
            use_type_invariant(self);
        }
        RoomKey(self.0.clone())
    }
}

impl PartialEq for RoomKey {
    fn eq(&self, other: &Self) -> (r: bool) {
        self.0 == other.0
    }
}

impl Eq for RoomKey {}

impl vstd::std_specs::cmp::PartialEqSpecImpl for RoomKey {
    open spec fn obeys_eq_spec() -> bool {
        true
    }

    open spec fn eq_spec(&self, other: &Self) -> bool {
        self@ == other@
    }
}

impl TryFrom<String> for RoomKey {
    type Error = RoomKeyError;

    fn try_from(s: String) -> (r: Result<Self, Self::Error>)
        ensures
            match r {
                Ok(k) => room_key_error(s@).is_none() && k@ == s@,
                Err(e) => room_key_error(s@) == Some(e),
            },
    {
        match validate_room_key_str(s.as_str()) {
            Some(e) => Err(e),
            None => {
                proof {
                    lemma_room_key_error_none_iff_valid(s@);
                }
                Ok(RoomKey(s))
            },
        }
    }
}

impl vstd::std_specs::convert::TryFromSpecImpl<String> for RoomKey {
    open spec fn obeys_try_from_spec() -> bool {
        true
    }

    closed spec fn try_from_spec(s: String) -> Result<Self, Self::Error> {
        match room_key_error(s@) {
            Some(e) => Err(e),
            None => Ok(RoomKey(s)),
        }
    }
}

impl<'a> TryFrom<&'a str> for RoomKey {
    type Error = RoomKeyError;

    fn try_from(s: &'a str) -> (r: Result<Self, Self::Error>)
        ensures
            match r {
                Ok(k) => room_key_error(s@).is_none() && k@ == s@,
                Err(e) => room_key_error(s@) == Some(e),
            },
    {
        Self::try_new(s)
    }
}

/// The key that a borrowed string converts to is not determined as a value
/// (only its view is: an owned copy is made), so the generic contract is not
/// claimed; the impl's own `ensures` states the result.
impl<'a> vstd::std_specs::convert::TryFromSpecImpl<&'a str> for RoomKey {
    open spec fn obeys_try_from_spec() -> bool {
        false
    }

    closed spec fn try_from_spec(s: &'a str) -> Result<Self, Self::Error> {
        match room_key_error(s@) {
            Some(e) => Err(e),
            None => Ok(choose|k: RoomKey| k@ == s@),
        }
    }
}

} // verus!
