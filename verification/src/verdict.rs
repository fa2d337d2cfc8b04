//! The verdict of one check and its JSON encoding.

use crate::json::{json_string_literal, quote_string};
use vstd::prelude::*;
use vstd::string::StringExecFns;

verus! {

/// The result of checking one message.
#[derive(Debug, Clone, PartialEq, Eq)]
pub struct Verdict {
    /// Whether the message holds a URL that contains a blacklisted domain.
    pub phishing: bool,
    /// The URL that was matched, as it stands in the message; `None` when
    /// nothing was matched.
    pub domain: Option<String>,
}

/// What a `Verdict` says.
pub ghost struct VerdictView {
    pub phishing: bool,
    pub domain: Option<Seq<char>>,
}

impl View for Verdict {
    type V = VerdictView;

    open spec fn view(&self) -> VerdictView {
        VerdictView {
            phishing: self.phishing,
            domain: match self.domain {
                Some(url) => Some(url@),
                None => None,
            },
        }
    }
}

/// The verdict on a message in which nothing was matched.
pub open spec fn clean_verdict() -> VerdictView {
    VerdictView { phishing: false, domain: None }
}

/// The verdict on a message in which `url` was matched.
pub open spec fn phishing_verdict(url: Seq<char>) -> VerdictView {
    VerdictView { phishing: true, domain: Some(url) }
}

/// The JSON text for `v`. It is an object with two members, in this order
/// and without any space: `phishing`, a boolean, and `domain`, a string
/// literal or `null`.
pub open spec fn verdict_json(v: VerdictView) -> Seq<char> {
    "{\"phishing\":"@ + (if v.phishing {
        "true"@
    } else {
        "false"@
    }) + ",\"domain\":"@ + (match v.domain {
        Some(url) => json_string_literal(url),
        None => "null"@,
    }) + "}"@
}

impl Verdict {
    /// The verdict on a message in which nothing was matched.
    pub fn clean() -> (v: Verdict)
        ensures
            v@ == clean_verdict(),
    {
        Verdict { phishing: false, domain: None }
    }

    /// The verdict on a message in which `url` was matched.
    pub fn phishing(url: String) -> (v: Verdict)
        ensures
            v@ == phishing_verdict(url@),
    {
        Verdict { phishing: true, domain: Some(url) }
    }

    /// Encodes the verdict as JSON. The text holds no NUL character, so it
    /// can be handed on as a NUL-terminated buffer.
    pub fn to_json(&self) -> (json: String)
        ensures
            json@ == verdict_json(self@),
            !json@.contains('\0'),
    {
        proof {
            reveal_strlit("{\"phishing\":");
            reveal_strlit("true");
            reveal_strlit("false");
            reveal_strlit(",\"domain\":");
            reveal_strlit("null");
            reveal_strlit("}");
        }
        let mut json = String::from_str("{\"phishing\":");
        json.append(if self.phishing { "true" } else { "false" });
        json.append(",\"domain\":");
        match &self.domain {
            Some(url) => {
                let literal = quote_string(url.as_str()).unwrap();
                json.append(literal.as_str());
            },
            None => {
                json.append("null");
            },
        }
        json.append("}");
        json
    }
}

} // verus!
