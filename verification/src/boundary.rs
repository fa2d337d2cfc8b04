//! The boundary to the host application: messages come in as bytes, and the
//! encoded verdict goes out twice, once to a callback and once as a buffer
//! that the caller owns until it hands it back.

use crate::blacklist::BlacklistStore;
use crate::matcher::{check, verdict_for};
use crate::text::to_chars;
use crate::verdict::{clean_verdict, verdict_json, Verdict, VerdictView};
use vstd::prelude::*;
use vstd::string::StringSliceAdditionalSpecFns;
use vstd::utf8::{decode_utf8, encode_utf8_decode_utf8, valid_utf8};

verus! {

/// Calls `core::str::from_utf8`: the bytes as a string slice where they are
/// valid UTF-8, and `None` where they are not. The slice holds the same
/// bytes.
#[verifier::external_body]
fn str_from_utf8(bytes: &[u8]) -> (r: Option<&str>)
    ensures
        r is Some <==> valid_utf8(bytes@),
        r matches Some(text) ==> text.spec_bytes() == bytes@,
{
    core::str::from_utf8(bytes).ok()
}

/// Reads `bytes` as text. Bytes that are not valid UTF-8 are no text.
pub fn decode_text(bytes: &[u8]) -> (r: Option<&str>)
    ensures
        r is Some <==> valid_utf8(bytes@),
        r matches Some(text) ==> text@ == decode_utf8(bytes@),
{
    let r = str_from_utf8(bytes);
    proof {
        if let Some(text) = r {
            encode_utf8_decode_utf8(text@);
        }
    }
    r
}

/// The verdict on a message given as bytes: that on its text where the bytes
/// are valid UTF-8, and the clean verdict where they are not.
pub open spec fn message_verdict(installed: Option<Set<Seq<char>>>, message: Seq<u8>) -> VerdictView {
    if valid_utf8(message) {
        verdict_for(installed, decode_utf8(message))
    } else {
        clean_verdict()
    }
}

/// An encoded verdict that `check_message` has handed to its caller. The
/// caller owns it and hands it back through `free_string` when done. The text
/// holds no NUL character, so it can cross the boundary as a NUL-terminated
/// buffer.
pub struct OwnedBuffer {
    text: String,
}

impl View for OwnedBuffer {
    type V = Seq<char>;

    closed spec fn view(&self) -> Seq<char> {
        self.text@
    }
}

impl OwnedBuffer {
    #[verifier::type_invariant]
    spec fn nul_free(&self) -> bool {
        !self.text@.contains('\0')
    }

    /// Puts `text` in a buffer. A text that holds a NUL character cannot be
    /// handed on as a NUL-terminated buffer and gives `None`.
    pub fn from_text(text: String) -> (r: Option<OwnedBuffer>)
        ensures
            match r {
                Some(buffer) => buffer@ == text@ && !text@.contains('\0'),
                None => text@.contains('\0'),
            },
    {
        let chars = to_chars(text.as_str());
        let mut i: usize = 0;
        while i < chars.len()
            invariant
                chars@ == text@,
                i <= chars.len(),
                forall|j: int| 0 <= j < i ==> chars@[j] != '\0',
            decreases chars.len() - i,
        {
            if chars[i] == '\0' {
                return None;
            }
            i += 1;
        }
        Some(OwnedBuffer { text })
    }

    /// The text in the buffer.
    pub fn as_str(&self) -> (text: &str)
        ensures
            text@ == self@,
            !text@.contains('\0'),
    {
        proof {
            use_type_invariant(self);
        }
        self.text.as_str()
    }

    /// Takes the text out of the buffer.
    pub fn into_string(self) -> (text: String)
        ensures
            text@ == self@,
            !text@.contains('\0'),
    {
        proof {
            use_type_invariant(&self);
        }
        self.text
    }
}

/// Checks a message against the blacklist in force in `store`, encodes the
/// verdict as JSON, passes the encoding to `callback`, and then returns it in
/// a buffer of its own. A message that is not valid UTF-8 and a store with no
/// blacklist both give the clean verdict. The callback is called once, before
/// the function returns, and sees the text that the buffer holds.
pub fn check_message<F: Fn(&str)>(message: &[u8], store: &BlacklistStore, callback: F) -> (buffer:
    OwnedBuffer)
    requires
        forall|payload: &str| call_requires(callback, (payload,)),
    ensures
        buffer@ == verdict_json(message_verdict(store@, message@)),
        exists|payload: &str| payload@ == buffer@ && call_ensures(callback, (payload,), ()),
{
    let verdict = match decode_text(message) {
        Some(text) => check(text, store),
        None => Verdict::clean(),
    };
    let json = verdict.to_json();
    callback(json.as_str());
    OwnedBuffer { text: json }
}

/// Takes back a buffer that `check_message` returned and releases it. `None`
/// stands for the null buffer: releasing it does nothing.
pub fn free_string(buffer: Option<OwnedBuffer>) {
}

} // verus!
