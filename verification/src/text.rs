//! Text found in raw records: fixed-size fields holding a NUL-terminated
//! string.

use vstd::prelude::*;
use vstd::utf8::{decode_utf8, valid_utf8};
use crate::error::SectionError;

verus! {

/// Position of the first NUL byte of `b` at or after `from`, or the length
/// of `b` if there is none.
pub open spec fn nul_at(b: Seq<u8>, from: int) -> int
    decreases b.len() - from,
{
    if from < 0 || from >= b.len() {
        b.len() as int
    } else if b[from] == 0 {
        from
    } else {
        nul_at(b, from + 1)
    }
}

/// The string that a NUL-terminated field holds: what stands before the
/// first NUL byte, read as UTF-8.
pub open spec fn c_string_of(b: Seq<u8>) -> Result<Seq<char>, SectionError> {
    let n = nul_at(b, 0);
    if n >= b.len() {
        Err(SectionError::MissingNul)
    } else if !valid_utf8(b.take(n)) {
        Err(SectionError::InvalidUtf8)
    } else {
        Ok(decode_utf8(b.take(n)))
    }
}

/// `String::from_utf8` of the standard library: the bytes are accepted if and
/// only if they are valid UTF-8, and the string then holds the characters
/// they encode.
#[verifier::external_body]
pub(crate) fn string_from_utf8(bytes: Vec<u8>) -> (r: Option<String>)
    ensures
        r is Some <==> valid_utf8(bytes@),
        r matches Some(s) ==> s@ == decode_utf8(bytes@),
{
    String::from_utf8(bytes).ok()
}

/// Equality of string slices, as the standard library decides it: the two
/// hold the same characters.
#[verifier::external_body]
pub(crate) fn str_eq(a: &str, b: &str) -> (r: bool)
    ensures
        r == (a@ == b@),
{
    a == b
}

/// `str::ends_with` of the standard library, for a string pattern: whether
/// the last characters of `s` are those of `suffix`.
#[verifier::external_body]
pub(crate) fn str_ends_with(s: &str, suffix: &str) -> (r: bool)
    ensures
        r == is_suffix(suffix@, s@),
{
    s.ends_with(suffix)
}

/// `str::contains` of the standard library, for a string pattern: whether
/// the characters of `pattern` stand somewhere in `s`, one after the other.
#[verifier::external_body]
pub(crate) fn str_contains(s: &str, pattern: &str) -> (r: bool)
    ensures
        r == has_part(s@, pattern@),
{
    s.contains(pattern)
}

/// Whether the elements of `part` stand somewhere in `s`, one after the
/// other.
pub open spec fn has_part(s: Seq<char>, part: Seq<char>) -> bool {
    exists|i: int| 0 <= i && i + part.len() <= s.len() && #[trigger] s.subrange(
        i,
        i + part.len(),
    ) == part
}

/// Whether the last elements of `s` are those of `suffix`.
pub open spec fn is_suffix(suffix: Seq<char>, s: Seq<char>) -> bool {
    suffix.len() <= s.len() && s.subrange(s.len() - suffix.len(), s.len() as int) == suffix
}

/// Whether a string of `list` holds the characters `name`.
pub open spec fn lists(list: Seq<String>, name: Seq<char>) -> bool {
    exists|i: int| 0 <= i < list.len() && (#[trigger] list[i])@ == name
}

/// Whether no text occurs twice in `texts`.
pub open spec fn each_once(texts: Seq<Seq<char>>) -> bool {
    forall|i: int, j: int| 0 <= i < j < texts.len() ==> texts[i] != texts[j]
}

/// Whether a string of `list` is `name`.
pub fn list_contains(list: &Vec<String>, name: &str) -> (r: bool)
    ensures
        r == lists(list@, name@),
{
    let mut i: usize = 0;
    while i < list.len()
        invariant
            i <= list@.len(),
            forall|j: int| 0 <= j < i ==> (#[trigger] list@[j])@ != name@,
        decreases list@.len() - i,
    {
        if str_eq(list[i].as_str(), name) {
            return true;
        }
        i += 1;
    }
    false
}

/// Reads the NUL-terminated string held by the field `data[at..at + len]`.
///
/// A field without a NUL byte is an error, and so is one whose bytes before
/// the first NUL are not valid UTF-8. A field that starts with a NUL byte
/// holds the empty string.
pub fn read_c_string(data: &[u8], at: usize, len: usize) -> (r: Result<String, SectionError>)
    requires
        at + len <= data.len(),
    ensures
        match c_string_of(data@.subrange(at as int, at + len)) {
            Ok(s) => r matches Ok(v) && v@ == s,
            Err(e) => r == Err::<String, SectionError>(e),
        },
{
    let ghost field = data@.subrange(at as int, at + len);
    let mut bytes: Vec<u8> = Vec::new();
    let mut i: usize = 0;
    let mut found: bool = false;
    while i < len && !found
        invariant
            i <= len,
            at + len <= data.len(),
            field == data@.subrange(at as int, at + len),
            nul_at(field, 0) == nul_at(field, i as int),
            !found ==> bytes@ == field.take(i as int),
            found ==> i < len && field[i as int] == 0 && bytes@ == field.take(i as int),
        decreases len - i + if found { 0int } else { 1int },
    {
        let b: u8 = data[at + i];
        assert(b == field[i as int]);
        if b == 0 {
            found = true;
        } else {
            bytes.push(b);
            assert(bytes@ =~= field.take(i + 1));
            i += 1;
        }
    }
    if !found {
        return Err(SectionError::MissingNul);
    }
    match string_from_utf8(bytes) {
        Some(s) => Ok(s),
        None => Err(SectionError::InvalidUtf8),
    }
}

} // verus!
