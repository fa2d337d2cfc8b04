//! The two uses this library makes of `serde_json`: reading a JSON array of
//! strings and writing a string as a JSON string literal. Nothing in this
//! file is proved; the contracts say what is taken on trust.

use vstd::prelude::*;

verus! {

/// The error type of `serde_json`, carried through unread.
#[verifier::external_type_specification]
#[verifier::external_body]
pub struct ExJsonError(serde_json::Error);

/// The list of strings that `serde_json` reads from `data`, or `None` where
/// it does not accept `data` as a JSON array of strings.
pub uninterp spec fn json_string_array(data: Seq<char>) -> Option<Seq<Seq<char>>>;

/// The JSON string literal that `serde_json` writes for `s`, quotes included.
pub uninterp spec fn json_string_literal(s: Seq<char>) -> Seq<char>;

/// Calls `serde_json::from_str` for a `Vec<String>`. What it returns depends
/// on `data` alone: the strings of the array, or an error where `data` is not
/// a JSON array of strings.
#[verifier::external_body]
pub(crate) fn parse_string_array(data: &str) -> (r: Result<Vec<String>, serde_json::Error>)
    ensures
        match r {
            Ok(list) => json_string_array(data@) == Some(list.deep_view()),
            Err(_) => json_string_array(data@) is None,
        },
{
    serde_json::from_str::<Vec<String>>(data)
}

/// Calls `serde_json::to_string` on a string slice. What it returns depends
/// on `s` alone. It does not fail: a string is written by escaping its
/// characters into a byte vector, and neither step can report an error. The
/// literal holds no control character, because every character below U+0020
/// is written as an escape sequence of printable characters.
#[verifier::external_body]
pub(crate) fn quote_string(s: &str) -> (r: Result<String, serde_json::Error>)
    ensures
        r is Ok,
        r matches Ok(literal) ==> literal@ == json_string_literal(s@),
        r matches Ok(literal) ==> forall|i: int|
            0 <= i < literal@.len() ==> literal@[i] as u32 >= 0x20,
{
    serde_json::to_string(s)
}

} // verus!
