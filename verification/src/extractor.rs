//! The URL extractor: a lexical scan that finds the parts of a text that
//! begin with `http://` or `https://` and run up to the next whitespace
//! character or the end of the text.

use crate::text::{is_space, is_whitespace, occurs_at, occurs_in, starts_at, to_chars};
use vstd::prelude::*;
use vstd::string::StrSliceExecFns;

verus! {

/// The characters of `http://`.
pub open spec fn http_prefix() -> Seq<char> {
    seq!['h', 't', 't', 'p', ':', '/', '/']
}

/// The characters of `https://`.
pub open spec fn https_prefix() -> Seq<char> {
    seq!['h', 't', 't', 'p', 's', ':', '/', '/']
}

/// The length of the scheme prefix that stands in `s` at index `i`: 7 for
/// `http://`, 8 for `https://`, and 0 where neither stands there.
pub open spec fn scheme_len(s: Seq<char>, i: int) -> int {
    if occurs_at(http_prefix(), s, i) {
        7
    } else if occurs_at(https_prefix(), s, i) {
        8
    } else {
        0
    }
}

/// The first index at or after `from` that holds a whitespace character, or
/// the length of `s` if there is none.
pub open spec fn token_end(s: Seq<char>, from: int) -> int
    decreases s.len() - from,
{
    if from < 0 || from >= s.len() || is_whitespace(s[from]) {
        from
    } else {
        token_end(s, from + 1)
    }
}

/// A URL begins at index `i` of `s`: a scheme prefix stands there and at
/// least one character that is not whitespace follows it.
pub open spec fn url_starts_at(s: Seq<char>, i: int) -> bool {
    let k = scheme_len(s, i);
    k > 0 && i + k < s.len() && !is_whitespace(s[i + k])
}

/// Where the URL that begins at index `i` of `s` ends (exclusive).
pub open spec fn url_end(s: Seq<char>, i: int) -> int {
    token_end(s, i + scheme_len(s, i))
}

/// The bounds of the first URL of `s` that begins at or after index `from`.
pub open spec fn first_url_from(s: Seq<char>, from: int) -> Option<(int, int)>
    decreases s.len() - from,
{
    if from >= s.len() {
        None
    } else if url_starts_at(s, from) {
        Some((from, url_end(s, from)))
    } else {
        first_url_from(s, from + 1)
    }
}

/// The URLs of `s` from index `from` on, from left to right. The search for
/// the next URL resumes where the previous one ended, so URLs never overlap.
pub open spec fn urls_from(s: Seq<char>, from: int) -> Seq<Seq<char>>
    decreases s.len() - from,
{
    match first_url_from(s, from) {
        None => Seq::empty(),
        Some((start, end)) => {
            proof {
                lemma_first_url_from(s, from);
            }
            seq![s.subrange(start, end)] + urls_from(s, end)
        },
    }
}

/// The URLs of `s`, from left to right.
pub open spec fn urls(s: Seq<char>) -> Seq<Seq<char>> {
    urls_from(s, 0)
}

/// `token_end` stops at the first whitespace character and not before.
pub proof fn lemma_token_end(s: Seq<char>, from: int)
    requires
        0 <= from <= s.len(),
    ensures
        from <= token_end(s, from) <= s.len(),
        forall|j: int| from <= j < token_end(s, from) ==> !is_whitespace(#[trigger] s[j]),
        token_end(s, from) < s.len() ==> is_whitespace(s[token_end(s, from)]),
    decreases s.len() - from,
{
    if from < s.len() && !is_whitespace(s[from]) {
        lemma_token_end(s, from + 1);
    }
}

/// What `first_url_from` finds is the leftmost URL start at or after `from`,
/// and it is not empty.
pub proof fn lemma_first_url_from(s: Seq<char>, from: int)
    ensures
        match first_url_from(s, from) {
            Some((start, end)) => {
                &&& from <= start < end <= s.len()
                &&& url_starts_at(s, start)
                &&& end == url_end(s, start)
                &&& forall|j: int| from <= j < start ==> !url_starts_at(s, j)
            },
            None => forall|j: int| from <= j ==> !url_starts_at(s, j),
        },
    decreases s.len() - from,
{
    if from >= s.len() {
    } else if url_starts_at(s, from) {
        lemma_token_end(s, from + scheme_len(s, from));
    } else {
        lemma_first_url_from(s, from + 1);
    }
}

/// `u` has the shape of a URL: it begins with a scheme prefix, goes on for at
/// least one more character, and holds no whitespace.
pub open spec fn is_url(u: Seq<char>) -> bool {
    &&& scheme_len(u, 0) > 0
    &&& u.len() > scheme_len(u, 0)
    &&& forall|j: int| 0 <= j < u.len() ==> !is_whitespace(#[trigger] u[j])
}

/// `u` is a URL that stands in `s` at index `start`: it has the shape of a
/// URL and runs up to the next whitespace character or the end of `s`.
pub open spec fn is_url_at(u: Seq<char>, s: Seq<char>, start: int) -> bool {
    &&& occurs_at(u, s, start)
    &&& is_url(u)
    &&& (start + u.len() == s.len() || is_whitespace(s[start + u.len()]))
}

/// The part of `s` between the bounds that `first_url_from` gives is a URL
/// that stands there.
proof fn lemma_first_url_shape(s: Seq<char>, from: int)
    requires
        first_url_from(s, from) is Some,
    ensures
        ({
            let (start, end) = first_url_from(s, from)->0;
            is_url_at(s.subrange(start, end), s, start)
        }),
{
    lemma_first_url_from(s, from);
    let (start, end) = first_url_from(s, from)->0;
    let k = scheme_len(s, start);
    let u = s.subrange(start, end);
    lemma_token_end(s, start + k);
    assert(u.subrange(0, k) =~= s.subrange(start, start + k));
}

/// `u` is a URL that stands in `s` at or after index `from`.
pub open spec fn is_url_of(u: Seq<char>, s: Seq<char>, from: int) -> bool {
    exists|start: int| from <= start && is_url_at(u, s, start)
}

proof fn lemma_urls_from_shape(s: Seq<char>, from: int)
    ensures
        forall|k: int|
            0 <= k < urls_from(s, from).len() ==> is_url_of(
                #[trigger] urls_from(s, from)[k],
                s,
                from,
            ),
    decreases s.len() - from,
{
    if let Some((start, end)) = first_url_from(s, from) {
        lemma_first_url_from(s, from);
        lemma_first_url_shape(s, from);
        lemma_urls_from_shape(s, end);
        let rest = urls_from(s, end);
        assert forall|k: int| 0 <= k < urls_from(s, from).len() implies is_url_of(
            #[trigger] urls_from(s, from)[k],
            s,
            from,
        ) by {
            if k > 0 {
                assert(is_url_of(rest[k - 1], s, end));
            }
        }
    }
}

/// Every URL that the extractor finds stands in the text, begins with
/// `http://` or `https://`, goes on for at least one more character, holds no
/// whitespace, and runs up to the next whitespace character or the end of the
/// text.
pub proof fn lemma_urls_have_url_shape(s: Seq<char>, k: int)
    requires
        0 <= k < urls(s).len(),
    ensures
        is_url_of(urls(s)[k], s, 0),
{
    lemma_urls_from_shape(s, 0);
}

/// A text in which neither `http://` nor `https://` occurs holds no URL. In
/// particular the empty text holds none.
pub proof fn lemma_no_scheme_no_urls(s: Seq<char>)
    requires
        !occurs_in(http_prefix(), s),
        !occurs_in(https_prefix(), s),
    ensures
        urls(s) == Seq::<Seq<char>>::empty(),
{
    lemma_first_url_from(s, 0);
}

/// The length of the scheme prefix that stands in `chars` at index `i`, or 0.
pub fn scheme_at(chars: &[char], i: usize) -> (k: usize)
    ensures
        k == scheme_len(chars@, i as int),
{
    let http = ['h', 't', 't', 'p', ':', '/', '/'];
    let https = ['h', 't', 't', 'p', 's', ':', '/', '/'];
    assert(http@ =~= http_prefix());
    assert(https@ =~= https_prefix());
    if starts_at(chars, i, http.as_slice()) {
        7
    } else if starts_at(chars, i, https.as_slice()) {
        8
    } else {
        0
    }
}

/// The first index at or after `from` that holds a whitespace character, or
/// the length of `chars` if there is none.
pub fn find_token_end(chars: &[char], from: usize) -> (end: usize)
    requires
        from <= chars@.len(),
    ensures
        end == token_end(chars@, from as int),
{
    let n = chars.len();
    let mut j = from;
    while j < n && !is_space(chars[j])
        invariant
            n == chars@.len(),
            from <= j <= n,
            token_end(chars@, from as int) == token_end(chars@, j as int),
        decreases n - j,
    {
        j += 1;
    }
    j
}

/// Finds the first URL of `chars` that begins at or after index `from`, and
/// returns the index where it begins and the index where it ends (exclusive).
/// A caller walks the URLs of a text one by one by passing the end of the
/// last URL found as the next `from`.
pub fn next_url(chars: &[char], from: usize) -> (r: Option<(usize, usize)>)
    ensures
        match r {
            Some((start, end)) => first_url_from(chars@, from as int) == Some(
                (start as int, end as int),
            ),
            None => first_url_from(chars@, from as int) is None,
        },
{
    let n = chars.len();
    let mut i = from;
    while i < n
        invariant
            n == chars@.len(),
            from <= i,
            first_url_from(chars@, from as int) == first_url_from(chars@, i as int),
        decreases n - i,
    {
        let k = scheme_at(chars, i);
        if k > 0 && n - i > k && !is_space(chars[i + k]) {
            let end = find_token_end(chars, i + k);
            return Some((i, end));
        }
        i += 1;
    }
    None
}

/// Extracts the URLs of `text`, from left to right.
pub fn extract(text: &str) -> (found: Vec<String>)
    ensures
        found.deep_view() == urls(text@),
{
    let chars = to_chars(text);
    let mut found: Vec<String> = Vec::new();
    let mut pos: usize = 0;
    loop
        invariant
            chars@ == text@,
            urls(text@) == found.deep_view() + urls_from(text@, pos as int),
        ensures
            found.deep_view() == urls(text@),
        decreases chars@.len() - pos,
    {
        proof {
            lemma_first_url_from(text@, pos as int);
        }
        match next_url(chars.as_slice(), pos) {
            None => {
                break ;
            },
            Some((start, end)) => {
                let url = text.substring_char(start, end).to_owned();
                found.push(url);
                pos = end;
            },
        }
    }
    found
}

} // verus!
