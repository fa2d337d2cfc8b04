//! The blacklist store: the set of blacklisted domains, how it is loaded from
//! the contents of a blacklist file, and the slot that holds the blacklist
//! currently in force.

use crate::json::{json_string_array, parse_string_array};
use crate::text::{contains, occurs_in, to_chars};
use vstd::hash_set::StringHashSet;
use vstd::prelude::*;

verus! {

/// Why a blacklist could not be loaded.
#[derive(Debug, Clone, Copy, PartialEq, Eq, Structural)]
pub enum LoadError {
    /// The blacklist file could not be read.
    Io,
    /// The contents of the file are not a JSON array of strings.
    Parse,
}

/// Some domain of `domains` is a contiguous part of `url`.
pub open spec fn hits(domains: Set<Seq<char>>, url: Seq<char>) -> bool {
    exists|d: Seq<char>| domains.contains(d) && occurs_in(d, url)
}

/// The outcome of loading a blacklist. `contents` is the text of the
/// blacklist file, or `None` when the file could not be read.
pub open spec fn load_outcome(contents: Option<Seq<char>>) -> Result<Set<Seq<char>>, LoadError> {
    match contents {
        None => Err(LoadError::Io),
        Some(data) => match json_string_array(data) {
            None => Err(LoadError::Parse),
            Some(list) => Ok(list.to_set()),
        },
    }
}

/// The character sequences that the rows of `v` hold.
spec fn rows(v: Seq<Vec<char>>) -> Seq<Seq<char>> {
    Seq::new(v.len(), |i: int| v[i]@)
}

/// A set of blacklisted domains. Each domain is kept once, as it was given.
pub struct Blacklist {
    domains: Vec<Vec<char>>,
}

impl View for Blacklist {
    type V = Set<Seq<char>>;

    closed spec fn view(&self) -> Set<Seq<char>> {
        rows(self.domains@).to_set()
    }
}

impl Blacklist {
    #[verifier::type_invariant]
    spec fn distinct(&self) -> bool {
        rows(self.domains@).no_duplicates()
    }

    /// Collects `list` into a blacklist. A domain that occurs more than once
    /// in `list` is kept once.
    pub fn from_domains(list: Vec<String>) -> (blacklist: Blacklist)
        ensures
            blacklist@ == list.deep_view().to_set(),
    {
        let mut seen = StringHashSet::new();
        let mut domains: Vec<Vec<char>> = Vec::new();
        let mut i: usize = 0;
        while i < list.len()
            invariant
                i <= list.len(),
                rows(domains@).no_duplicates(),
                rows(domains@).to_set() == seen@,
                seen@ == list.deep_view().take(i as int).to_set(),
            decreases list.len() - i,
        {
            let domain = list[i].clone();
            let chars = to_chars(domain.as_str());
            let ghost before = rows(domains@);
            proof {
                let done = list.deep_view().take(i as int);
                let next = list.deep_view().take(i + 1);
                assert(next =~= done.push(domain@));
                done.lemma_push_to_set_commute(domain@);
                before.lemma_push_to_set_commute(domain@);
            }
            if seen.insert(domain) {
                domains.push(chars);
                assert(rows(domains@) =~= before.push(chars@));
            }
            i += 1;
        }
        assert(list.deep_view().take(i as int) =~= list.deep_view());
        Blacklist { domains }
    }

    /// The number of domains in the blacklist.
    pub fn len(&self) -> (n: usize)
        ensures
            n == self@.len(),
    {
        proof {
            use_type_invariant(self);
            rows(self.domains@).unique_seq_to_set();
        }
        self.domains.len()
    }

    /// Tells whether `domain` is in the blacklist.
    pub fn contains(&self, domain: &str) -> (r: bool)
        ensures
            r == self@.contains(domain@),
    {
        let chars = to_chars(domain);
        let mut i: usize = 0;
        while i < self.domains.len()
            invariant
                i <= self.domains.len(),
                chars@ == domain@,
                forall|j: int| 0 <= j < i ==> rows(self.domains@)[j] != domain@,
            decreases self.domains.len() - i,
        {
            if same_chars(self.domains[i].as_slice(), chars.as_slice()) {
                assert(rows(self.domains@)[i as int] == domain@);
                return true;
            }
            i += 1;
        }
        false
    }

    /// Tells whether some domain of the blacklist is a contiguous part of
    /// `url`. The comparison is by characters, case included, and a domain may
    /// stand anywhere in `url`.
    pub fn matches(&self, url: &[char]) -> (r: bool)
        ensures
            r == hits(self@, url@),
    {
        let mut i: usize = 0;
        while i < self.domains.len()
            invariant
                i <= self.domains.len(),
                forall|j: int| 0 <= j < i ==> !occurs_in(rows(self.domains@)[j], url@),
            decreases self.domains.len() - i,
        {
            if contains(url, self.domains[i].as_slice()) {
                assert(self@.contains(rows(self.domains@)[i as int]));
                return true;
            }
            i += 1;
        }
        false
    }
}

/// The characters of the contents of a blacklist file, if it was read.
pub open spec fn text_of(contents: Option<&str>) -> Option<Seq<char>> {
    match contents {
        Some(data) => Some(data@),
        None => None,
    }
}

/// Loads a blacklist from the contents of a blacklist file, which must be a
/// JSON array of strings: each string is one domain, taken as it stands.
/// `contents` is `None` when the file could not be read.
pub fn load_domains(contents: Option<&str>) -> (r: Result<Blacklist, LoadError>)
    ensures
        match (r, load_outcome(text_of(contents))) {
            (Ok(blacklist), Ok(domains)) => blacklist@ == domains,
            (Err(e), Err(expected)) => e == expected,
            _ => false,
        },
{
    match contents {
        None => Err(LoadError::Io),
        Some(data) => match parse_string_array(data) {
            Ok(list) => Ok(Blacklist::from_domains(list)),
            Err(_) => Err(LoadError::Parse),
        },
    }
}

/// The slot that holds the blacklist in force. It is empty until a blacklist
/// is installed; installing another replaces the one before as a whole.
pub struct BlacklistStore {
    current: Option<Blacklist>,
}

impl View for BlacklistStore {
    type V = Option<Set<Seq<char>>>;

    closed spec fn view(&self) -> Option<Set<Seq<char>>> {
        match self.current {
            Some(blacklist) => Some(blacklist@),
            None => None,
        }
    }
}

impl BlacklistStore {
    /// A store with no blacklist installed.
    pub fn new() -> (store: BlacklistStore)
        ensures
            store@ is None,
    {
        BlacklistStore { current: None }
    }

    /// Puts `blacklist` in force in place of whatever was installed before.
    pub fn install(&mut self, blacklist: Blacklist)
        ensures
            final(self)@ == Some(blacklist@),
    {
        self.current = Some(blacklist);
    }

    /// The blacklist in force, or `None` if none was ever installed.
    pub fn current(&self) -> (r: Option<&Blacklist>)
        ensures
            match r {
                Some(blacklist) => self@ == Some(blacklist@),
                None => self@ is None,
            },
    {
        self.current.as_ref()
    }
}

/// Loads a blacklist from the contents of a blacklist file and, if that
/// succeeds, installs it in `store`. Returns whether it did. On failure the
/// store is left as it was.
pub fn init_domains(store: &mut BlacklistStore, contents: Option<&str>) -> (ok: bool)
    ensures
        ok == load_outcome(text_of(contents)) is Ok,
        ok ==> final(store)@ == Some(load_outcome(text_of(contents))->Ok_0),
        !ok ==> *final(store) == *old(store),
{
    match load_domains(contents) {
        Ok(blacklist) => {
            store.install(blacklist);
            true
        },
        Err(_) => false,
    }
}

/// Tells whether two slices hold the same characters.
fn same_chars(a: &[char], b: &[char]) -> (r: bool)
    ensures
        r == (a@ == b@),
{
    if a.len() != b.len() {
        return false;
    }
    let n = a.len();
    let mut i: usize = 0;
    while i < n
        invariant
            n == a@.len(),
            n == b@.len(),
            i <= n,
            forall|j: int| 0 <= j < i ==> a@[j] == b@[j],
        decreases n - i,
    {
        if a[i] != b[i] {
            return false;
        }
        i += 1;
    }
    assert(a@ =~= b@);
    true
}

} // verus!
