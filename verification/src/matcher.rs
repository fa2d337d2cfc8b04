//! The matcher: it walks the URLs of a message from left to right and stops
//! at the first one that contains a blacklisted domain.

use crate::blacklist::{hits, BlacklistStore};
use crate::extractor::{
    http_prefix, https_prefix, lemma_first_url_from, lemma_no_scheme_no_urls, next_url, urls,
    urls_from,
};
use crate::text::{occurs_in, to_chars};
use crate::verdict::{clean_verdict, phishing_verdict, verdict_json, Verdict, VerdictView};
use vstd::prelude::*;
use vstd::slice::slice_subrange;
use vstd::string::StrSliceExecFns;

verus! {

/// The first of `candidates`, from the left, that contains a domain of
/// `domains`, or `None` if none of them does.
pub open spec fn first_hit(domains: Set<Seq<char>>, candidates: Seq<Seq<char>>) -> Option<
    Seq<char>,
>
    decreases candidates.len(),
{
    if candidates.len() == 0 {
        None
    } else if hits(domains, candidates[0]) {
        Some(candidates[0])
    } else {
        first_hit(domains, candidates.drop_first())
    }
}

/// The verdict on `text` when `installed` is the blacklist in force, or
/// `None` if no blacklist was installed: phishing, with the first URL of the
/// text that contains a blacklisted domain, or clean if there is no such URL
/// or no blacklist.
pub open spec fn verdict_for(installed: Option<Set<Seq<char>>>, text: Seq<char>) -> VerdictView {
    match installed {
        None => clean_verdict(),
        Some(domains) => match first_hit(domains, urls(text)) {
            Some(url) => phishing_verdict(url),
            None => clean_verdict(),
        },
    }
}

/// Checks `text` against the blacklist in force in `store`. Without a
/// blacklist nothing is matched.
pub fn check(text: &str, store: &BlacklistStore) -> (verdict: Verdict)
    ensures
        verdict@ == verdict_for(store@, text@),
{
    let blacklist = match store.current() {
        Some(blacklist) => blacklist,
        None => {
            return Verdict::clean();
        },
    };
    let chars = to_chars(text);
    let mut pos: usize = 0;
    loop
        invariant
            chars@ == text@,
            store@ == Some(blacklist@),
            first_hit(blacklist@, urls(text@)) == first_hit(
                blacklist@,
                urls_from(text@, pos as int),
            ),
        decreases chars@.len() - pos,
    {
        proof {
            lemma_first_url_from(text@, pos as int);
        }
        match next_url(chars.as_slice(), pos) {
            None => {
                return Verdict::clean();
            },
            Some((start, end)) => {
                let candidate = slice_subrange(chars.as_slice(), start, end);
                if blacklist.matches(candidate) {
                    let url = text.substring_char(start, end).to_owned();
                    return Verdict::phishing(url);
                }
                proof {
                    let rest = urls_from(text@, end as int);
                    assert((seq![candidate@] + rest).drop_first() =~= rest);
                }
                pos = end;
            },
        }
    }
}

/// `first_hit` finds the leftmost candidate that contains a blacklisted
/// domain.
pub proof fn lemma_first_hit(domains: Set<Seq<char>>, candidates: Seq<Seq<char>>)
    ensures
        match first_hit(domains, candidates) {
            Some(url) => exists|k: int|
                {
                    &&& 0 <= k < candidates.len()
                    &&& #[trigger] candidates[k] == url
                    &&& hits(domains, url)
                    &&& forall|j: int| 0 <= j < k ==> !hits(domains, #[trigger] candidates[j])
                },
            None => forall|k: int|
                0 <= k < candidates.len() ==> !hits(domains, #[trigger] candidates[k]),
        },
    decreases candidates.len(),
{
    if candidates.len() == 0 {
    } else if hits(domains, candidates[0]) {
    } else {
        let rest = candidates.drop_first();
        lemma_first_hit(domains, rest);
        match first_hit(domains, rest) {
            Some(url) => {
                let k = choose|k: int|
                    {
                        &&& 0 <= k < rest.len()
                        &&& #[trigger] rest[k] == url
                        &&& hits(domains, url)
                        &&& forall|j: int| 0 <= j < k ==> !hits(domains, #[trigger] rest[j])
                    };
                assert forall|j: int| 0 <= j < k + 1 implies !hits(
                    domains,
                    #[trigger] candidates[j],
                ) by {
                    if j > 0 {
                        assert(candidates[j] == rest[j - 1]);
                    }
                }
            },
            None => {
                assert forall|k: int| 0 <= k < candidates.len() implies !hits(
                    domains,
                    #[trigger] candidates[k],
                ) by {
                    if k > 0 {
                        assert(candidates[k] == rest[k - 1]);
                    }
                }
            },
        }
    }
}

/// A text in which neither `http://` nor `https://` occurs gets the clean
/// verdict, whatever the blacklist holds and whether or not one is installed.
pub proof fn lemma_no_scheme_is_clean(installed: Option<Set<Seq<char>>>, text: Seq<char>)
    requires
        !occurs_in(http_prefix(), text),
        !occurs_in(https_prefix(), text),
    ensures
        verdict_for(installed, text) == clean_verdict(),
{
    lemma_no_scheme_no_urls(text);
}

/// First match wins: if the URL number `k` of the text contains a
/// blacklisted domain and no URL to its left does, the verdict is phishing
/// and names that URL, whatever follows it.
pub proof fn lemma_first_matching_url_wins(domains: Set<Seq<char>>, text: Seq<char>, k: int)
    requires
        0 <= k < urls(text).len(),
        hits(domains, urls(text)[k]),
        forall|j: int| 0 <= j < k ==> !hits(domains, #[trigger] urls(text)[j]),
    ensures
        verdict_for(Some(domains), text) == phishing_verdict(urls(text)[k]),
{
    lemma_first_hit(domains, urls(text));
}

/// If no URL of the text contains a blacklisted domain, the verdict is
/// clean.
pub proof fn lemma_no_matching_url_is_clean(domains: Set<Seq<char>>, text: Seq<char>)
    requires
        forall|k: int| 0 <= k < urls(text).len() ==> !hits(domains, #[trigger] urls(text)[k]),
    ensures
        verdict_for(Some(domains), text) == clean_verdict(),
{
    lemma_first_hit(domains, urls(text));
}

/// Checking is repeatable: two checks of the same text against the same
/// store contents give the same verdict and the same encoding of it.
pub proof fn lemma_check_is_repeatable(
    installed: Option<Set<Seq<char>>>,
    text: Seq<char>,
    first: Verdict,
    second: Verdict,
)
    requires
        first@ == verdict_for(installed, text),
        second@ == verdict_for(installed, text),
    ensures
        first@ == second@,
        verdict_json(first@) == verdict_json(second@),
{
}

} // verus!
