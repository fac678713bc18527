//! Comparison and rendering of text.

use vstd::prelude::*;
use vstd::string::StringExecFns;
use vstd::utf8::{decode_utf8, valid_utf8};

verus! {

/// The letter itself, or its lower case where it is one of `A` to `Z`.
pub open spec fn ascii_lower(c: char) -> char {
    if 'A' <= c <= 'Z' {
        (c as u32 + 32) as char
    } else {
        c
    }
}

/// The two texts differ at most in the case of the letters `A` to `Z`.
pub open spec fn same_ignoring_ascii_case(a: Seq<char>, b: Seq<char>) -> bool {
    a.map_values(|c: char| ascii_lower(c)) == b.map_values(|c: char| ascii_lower(c))
}

/// Equality of `str`. Claimed: two slices are equal when they hold the same characters.
pub assume_specification[ <str as PartialEq>::eq ](s: &str, other: &str) -> (equal: bool)
    ensures
        equal == (s@ == other@),
;

/// `str::eq_ignore_ascii_case`. Claimed: it compares the two slices after each of the letters `A`
/// to `Z` has been turned into lower case.
pub assume_specification[ str::eq_ignore_ascii_case ](s: &str, other: &str) -> (equal: bool)
    ensures
        equal == same_ignoring_ascii_case(s@, other@),
;

/// The text that `{:?}` gives for a string: quoted, with escapes.
pub uninterp spec fn quoted(text: Seq<char>) -> Seq<char>;

/// Renders a string with `{:?}`, the `Debug` format of `str`. Claimed: the result depends on the
/// characters of the string alone.
#[verifier::external_body]
pub(crate) fn quote(text: &str) -> (rendered: String)
    ensures
        rendered@ == quoted(text@),
{
    format!("{:?}", text)
}

/// The text that `String::from_utf8_lossy` reads from bytes.
pub uninterp spec fn lossy_text(bytes: Seq<u8>) -> Seq<char>;

/// Calls `String::from_utf8_lossy`. Claimed: the result depends on the bytes alone, and where
/// they are valid UTF-8 it is the text that they encode.
#[verifier::external_body]
pub(crate) fn decode_lossy(bytes: &[u8]) -> (text: String)
    ensures
        text@ == lossy_text(bytes@),
        valid_utf8(bytes@) ==> text@ == decode_utf8(bytes@),
{
    String::from_utf8_lossy(bytes).into_owned()
}

/// An optional value in `{:?}` format, given the format of the value.
pub open spec fn optional_text(text: Option<Seq<char>>) -> Seq<char> {
    match text {
        None => "None"@,
        Some(text) => "Some("@ + text + ")"@,
    }
}

/// Appends an optional value in `{:?}` format.
pub(crate) fn append_optional(message: &mut String, text: Option<&str>)
    ensures
        final(message)@ == old(message)@ + optional_text(
            match text {
                None => None,
                Some(text) => Some(text@),
            },
        ),
{
    match text {
        None => message.append("None"),
        Some(text) => {
            message.append("Some(");
            message.append(text);
            message.append(")");
            assert(message@ == old(message)@ + ("Some("@ + text@ + ")"@));
        },
    }
}

} // verus!
