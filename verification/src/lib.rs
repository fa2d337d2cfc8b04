//! A phishing-domain detector: it holds a set of blacklisted domains, scans a
//! text message for URL-shaped substrings, and reports the first one that
//! contains a blacklisted domain.

pub mod text;
pub mod extractor;
pub mod json;
pub mod blacklist;
pub mod verdict;
pub mod matcher;
pub mod boundary;
