//! Character classes of the instruction grammar.
//!
//! Every class is ASCII: keywords are ASCII letters, blanks are the space
//! and the tab, and a line ends at a carriage return or a line feed.

use vstd::prelude::*;
use vstd::string::*;

verus! {

/// A horizontal blank: the space or the tab.
pub open spec fn is_space(c: char) -> bool {
    c == ' ' || c == '\t'
}

/// A line terminator: the carriage return or the line feed.
pub open spec fn is_newline(c: char) -> bool {
    c == '\r' || c == '\n'
}

/// A blank or a line terminator.
pub open spec fn is_whitespace(c: char) -> bool {
    is_space(c) || is_newline(c)
}

/// An ASCII letter, of either case.
pub open spec fn is_alpha(c: char) -> bool {
    ('a' <= c && c <= 'z') || ('A' <= c && c <= 'Z')
}

/// The lower-case form of an ASCII capital; every other character is left alone.
pub open spec fn ascii_lower(c: char) -> char {
    if 'A' <= c && c <= 'Z' {
        ((c as u8) + 32) as char
    } else {
        c
    }
}

/// `s` with every character mapped through [`ascii_lower`].
pub open spec fn lowercase(s: Seq<char>) -> Seq<char> {
    Seq::new(s.len(), |i: int| ascii_lower(s[i]))
}

/// The set of horizontal blanks.
pub open spec fn spaces() -> Set<char> {
    Set::new(|c: char| is_space(c))
}

/// The set of blanks and line terminators.
pub open spec fn whitespace() -> Set<char> {
    Set::new(|c: char| is_whitespace(c))
}

/// The set of ASCII letters.
pub open spec fn letters() -> Set<char> {
    Set::new(|c: char| is_alpha(c))
}

/// The set of characters that may stand inside a line: all but the line terminators.
pub open spec fn line_text() -> Set<char> {
    Set::new(|c: char| !is_newline(c))
}

/// The set of characters that do not occur in `excluded`.
pub open spec fn none_of(excluded: Seq<char>) -> Set<char> {
    Set::new(|c: char| !excluded.contains(c))
}

/// Tests whether `c` is a blank or a line terminator.
pub fn is_whitespace_char(c: char) -> (b: bool)
    ensures
        b == is_whitespace(c),
{
    c == ' ' || c == '\t' || c == '\r' || c == '\n'
}

/// Maps an ASCII capital to its lower-case form and leaves every other character alone.
pub fn to_ascii_lower(c: char) -> (r: char)
    ensures
        r == ascii_lower(c),
{
    if 'A' <= c && c <= 'Z' {
        let code: u8 = c as u8;
        (code + 32) as char
    } else {
        c
    }
}

/// Tests whether `text`, put in lower case, reads `name`.
pub fn lowercase_eq(text: &str, name: &str) -> (b: bool)
    ensures
        b == (lowercase(text@) == name@),
{
    let len: usize = name.unicode_len();
    if text.unicode_len() != len {
        return false;
    }
    let mut i: usize = 0;
    while i < len
        invariant
            i <= len,
            len == name@.len(),
            len == text@.len(),
            forall|j: int| 0 <= j < i ==> ascii_lower(text@[j]) == name@[j],
        decreases len - i,
    {
        if to_ascii_lower(text.get_char(i)) != name.get_char(i) {
            assert(lowercase(text@)[i as int] != name@[i as int]);
            return false;
        }
        i = i + 1;
    }
    assert(lowercase(text@) =~= name@);
    true
}

/// The characters whose lower-case form is a lower-case letter are the letters.
pub proof fn lemma_ascii_lower_alpha(c: char)
    ensures
        is_alpha(c) <==> ('a' <= ascii_lower(c) && ascii_lower(c) <= 'z'),
{
}

} // verus!
