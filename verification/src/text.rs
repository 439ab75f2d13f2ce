//! Character classes and length measures shared by the validated names.

use vstd::prelude::*;
use vstd::std_specs::iter::IteratorSpec;

verus! {

/// Number of bytes that the UTF-8 encoding of `s` takes.
pub open spec fn utf8_len(s: Seq<char>) -> nat {
    vstd::utf8::encode_utf8(s).len()
}

/// A string has at least as many UTF-8 bytes as characters.
pub proof fn lemma_chars_le_utf8_len(s: Seq<char>)
    ensures
        s.len() <= utf8_len(s),
    decreases s.len(),
{
    if s.len() > 0 {
        lemma_chars_le_utf8_len(s.drop_first());
    }
}

/// The Unicode `White_Space` property (PropList.txt).
pub open spec fn is_white_space(c: char) -> bool {
    ||| '\u{09}' <= c <= '\u{0D}'
    ||| c == '\u{20}'
    ||| c == '\u{85}'
    ||| c == '\u{A0}'
    ||| c == '\u{1680}'
    ||| '\u{2000}' <= c <= '\u{200A}'
    ||| c == '\u{2028}'
    ||| c == '\u{2029}'
    ||| c == '\u{202F}'
    ||| c == '\u{205F}'
    ||| c == '\u{3000}'
}

/// ASCII and not an ASCII control character: U+0020 through U+007E.
pub open spec fn is_printable_ascii(c: char) -> bool {
    '\u{20}' <= c <= '\u{7E}'
}

/// A character allowed in identifiers: printable ASCII and not whitespace.
pub open spec fn is_name_char(c: char) -> bool {
    !is_white_space(c) && is_printable_ascii(c)
}

/// The name characters are exactly `!` (U+0021) through `~` (U+007E): every
/// visible ASCII character, upper and lower case letters, digits and
/// punctuation alike.
pub proof fn lemma_name_char_range(c: char)
    ensures
        is_name_char(c) <==> '!' <= c <= '~',
{
}

/// A sequence consists of name characters exactly when every character lies
/// in `!` through `~`.
pub proof fn lemma_all_name_chars_range(s: Seq<char>)
    ensures
        all_name_chars(s) <==> forall|i: int| 0 <= i < s.len() ==> '!' <= #[trigger] s[i] <= '~',
{
    if all_name_chars(s) {
        assert forall|i: int| 0 <= i < s.len() implies '!' <= #[trigger] s[i] <= '~' by {
            lemma_name_char_range(s[i]);
        }
    }
    if forall|i: int| 0 <= i < s.len() ==> '!' <= #[trigger] s[i] <= '~' {
        assert forall|i: int| 0 <= i < s.len() implies is_name_char(#[trigger] s[i]) by {
            lemma_name_char_range(s[i]);
        }
    }
}

/// Position `i` holds the first character of `s` that is not a name character.
pub open spec fn is_first_fault(s: Seq<char>, i: int) -> bool {
    &&& 0 <= i < s.len()
    &&& !is_name_char(s[i])
    &&& forall|j: int| 0 <= j < i ==> is_name_char(#[trigger] s[j])
}

/// Every character of `s` is a name character.
pub open spec fn all_name_chars(s: Seq<char>) -> bool {
    forall|i: int| 0 <= i < s.len() ==> is_name_char(#[trigger] s[i])
}

/// `char::is_whitespace`, which returns whether `c` has the Unicode
/// `White_Space` property. The contract claims that this property holds of
/// exactly the code points that [`is_white_space`] lists (the `White_Space`
/// entries of PropList.txt).
#[verifier::external_body]
pub(crate) fn char_is_whitespace(c: char) -> (r: bool)
    ensures
        r == is_white_space(c),
{
    c.is_whitespace()
}

/// Whether `c` lies in U+0020 through U+007E (`is_ascii() && !is_ascii_control()`).
pub fn printable_ascii(c: char) -> (r: bool)
    ensures
        r == is_printable_ascii(c),
{
    '\u{20}' <= c && c <= '\u{7E}'
}

/// Number of characters in `s`.
pub fn char_count(s: &str) -> (r: usize)
    ensures
        r == s@.len(),
{
    let bytes = s.as_bytes().len();
    proof {
        lemma_chars_le_utf8_len(s@);
    }
    let mut n: usize = 0;
    for c in it: s.chars()
        invariant
            n == it.index(),
            it.seq() == s@,
            s@.len() <= bytes,
    {
        n = n + 1;
    }
    n
}

/// Finds the first character of `s` that is whitespace or not printable ASCII,
/// with its position; `None` when every character is allowed.
pub fn first_fault(s: &str) -> (r: Option<(usize, char)>)
    requires
        s@.len() <= usize::MAX,
    ensures
        match r {
            Some((i, c)) => is_first_fault(s@, i as int) && c == s@[i as int],
            None => all_name_chars(s@),
        },
{
    let mut idx: usize = 0;
    for c in it: s.chars()
        invariant
            idx == it.index(),
            it.seq() == s@,
            s@.len() <= usize::MAX,
            forall|j: int| 0 <= j < idx ==> is_name_char(#[trigger] s@[j]),
    {
        if char_is_whitespace(c) || !printable_ascii(c) {
            return Some((idx, c));
        }
        idx = idx + 1;
    }
    None
}

/// The decimal digit for `d` (below ten).
pub open spec fn digit_char(d: nat) -> char {
    seq!['0', '1', '2', '3', '4', '5', '6', '7', '8', '9'][d as int]
}

/// The decimal representation of `n`, without leading zeros.
pub open spec fn decimal(n: nat) -> Seq<char>
    decreases n,
{
    if n < 10 {
        seq![digit_char(n)]
    } else {
        decimal(n / 10).push(digit_char(n % 10))
    }
}

/// `usize::to_string`, through `Display`; the contract claims that it writes
/// the decimal representation of `n` with no sign, padding or leading zeros.
#[verifier::external_body]
pub(crate) fn usize_to_string(n: usize) -> (r: String)
    ensures
        r@ == decimal(n as nat),
{
    n.to_string()
}

/// What `char`'s `Debug` formatting writes for `c`: the character quoted with
/// single quotes, with escapes.
pub uninterp spec fn char_debug_text(c: char) -> Seq<char>;

/// `<char as Debug>::fmt`, through `format!("{:?}", c)`. The contract only
/// names the text (it depends on `c` alone); what the escapes look like is
/// not stated.
#[verifier::external_body]
pub(crate) fn char_debug(c: char) -> (r: String)
    ensures
        r@ == char_debug_text(c),
{
    format!("{:?}", c)
}

/// Whether two string slices hold the same characters.
pub fn str_eq(a: &str, b: &str) -> (r: bool)
    ensures
        r == (a@ == b@),
{
    a.to_owned() == b.to_owned()
}

/// Position `i` holds the first occurrence of `c` in `s`.
pub open spec fn is_first_index_of(s: Seq<char>, c: char, i: int) -> bool {
    &&& 0 <= i < s.len()
    &&& s[i] == c
    &&& forall|j: int| 0 <= j < i ==> #[trigger] s[j] != c
}

/// Finds the position of the first occurrence of `c` in `s`.
pub fn find_char(s: &str, c: char) -> (r: Option<usize>)
    requires
        s@.len() <= usize::MAX,
    ensures
        match r {
            Some(i) => is_first_index_of(s@, c, i as int),
            None => !s@.contains(c),
        },
{
    let mut idx: usize = 0;
    for d in it: s.chars()
        invariant
            idx == it.index(),
            it.seq() == s@,
            s@.len() <= usize::MAX,
            forall|j: int| 0 <= j < idx ==> #[trigger] s@[j] != c,
    {
        if d == c {
            return Some(idx);
        }
        idx = idx + 1;
    }
    None
}

/// A string that holds some character outside the name characters has a
/// first such position.
pub proof fn lemma_first_fault_exists(s: Seq<char>)
    requires
        !all_name_chars(s),
    ensures
        exists|i: int| is_first_fault(s, i),
    decreases s.len(),
{
    if is_name_char(s[0]) {
        let t = s.drop_first();
        assert(!all_name_chars(t)) by {
            let k = choose|k: int| 0 <= k < s.len() && !is_name_char(#[trigger] s[k]);
            assert(k != 0);
            assert(t[k - 1] == s[k]);
        }
        lemma_first_fault_exists(t);
        let i = choose|i: int| is_first_fault(t, i);
        assert forall|j: int| 0 <= j < i + 1 implies is_name_char(#[trigger] s[j]) by {
            if j > 0 {
                assert(s[j] == t[j - 1]);
            }
        }
        assert(is_first_fault(s, i + 1));
    } else {
        assert(is_first_fault(s, 0));
    }
}

/// A character that occurs in `s` has a first occurrence.
pub proof fn lemma_first_index_exists(s: Seq<char>, c: char, k: int)
    requires
        0 <= k < s.len(),
        s[k] == c,
    ensures
        exists|i: int| is_first_index_of(s, c, i),
    decreases k,
{
    if exists|j: int| 0 <= j < k && s[j] == c {
        let j = choose|j: int| 0 <= j < k && s[j] == c;
        lemma_first_index_exists(s, c, j);
    } else {
        assert(is_first_index_of(s, c, k));
    }
}

/// Only one position can hold the first occurrence of a character.
pub proof fn lemma_first_index_unique(s: Seq<char>, c: char, i: int, j: int)
    requires
        is_first_index_of(s, c, i),
        is_first_index_of(s, c, j),
    ensures
        i == j,
{
}

/// Only one position can be the first fault of a string.
pub proof fn lemma_first_fault_unique(s: Seq<char>, i: int, j: int)
    requires
        is_first_fault(s, i),
        is_first_fault(s, j),
    ensures
        i == j,
{
}

/// A string of name characters is ASCII, so its UTF-8 encoding has one byte per character.
pub proof fn lemma_name_chars_utf8_len(s: Seq<char>)
    requires
        all_name_chars(s),
    ensures
        utf8_len(s) == s.len(),
        vstd::utf8::is_ascii_chars(s),
{
    assert(vstd::utf8::is_ascii_chars(s)) by {
        assert forall|i: int| 0 <= i < s.len() implies '\0' <= #[trigger] s[i] <= '\u{7f}' by {
            assert(is_name_char(s[i]));
        }
    }
    vstd::utf8::is_ascii_chars_encode_utf8(s);
}

/// The position reported for the first fault is also its byte offset: every
/// character before it is ASCII.
pub proof fn lemma_fault_position_is_byte_offset(s: Seq<char>, i: int)
    requires
        is_first_fault(s, i),
    ensures
        utf8_len(s.take(i)) == i,
{
    assert forall|j: int| 0 <= j < s.take(i).len() implies is_name_char(#[trigger] s.take(i)[j]) by {
        assert(s.take(i)[j] == s[j]);
    }
    lemma_name_chars_utf8_len(s.take(i));
}

} // verus!
