//! Names taken from the URLs of upstream sources.

use vstd::prelude::*;
use crate::vfs::{after_last_slash, last_segment};

verus! {

/// The path of the URL that a text parses into; none where it does not parse.
pub uninterp spec fn url_path(text: Seq<char>) -> Option<Seq<char>>;

/// `url::Url::parse`, then `Url::path` of the URL: the contract names the outcome
/// `url_path`; none where the text does not parse.
#[verifier::external_body]
pub(crate) fn parsed_url_path(text: &str) -> (r: Option<String>)
    ensures
        match r {
            Some(p) => url_path(text@) == Some(p@),
            None => url_path(text@) is None,
        },
{
    match url::Url::parse(text) {
        Ok(u) => Some(u.path().to_owned()),
        Err(_) => None,
    }
}

/// The host of the URL that a text parses into; none where it does not parse or has no
/// host.
pub uninterp spec fn url_host(text: Seq<char>) -> Option<Seq<char>>;

/// `url::Url::parse`, then `Url::host_str` of the URL: the contract names the outcome
/// `url_host`; none where the text does not parse or the URL has no host.
#[verifier::external_body]
pub(crate) fn parsed_url_host(text: &str) -> (r: Option<String>)
    ensures
        match r {
            Some(h) => url_host(text@) == Some(h@),
            None => url_host(text@) is None,
        },
{
    match url::Url::parse(text) {
        Ok(u) => u.host_str().map(str::to_owned),
        Err(_) => None,
    }
}

/// The file name of a URL: what follows the last `/` of its path.
pub open spec fn spec_uri_file_name(uri: Seq<char>) -> Seq<char> {
    match url_path(uri) {
        Some(p) => after_last_slash(p),
        None => Seq::empty(),
    }
}

/// The file name of a URL: what follows the last `/` of its path; empty where the text is
/// no URL.
pub fn uri_file_name(uri: &str) -> (r: String)
    ensures
        r@ == spec_uri_file_name(uri@),
{
    match parsed_url_path(uri) {
        Some(p) => last_segment(p.as_str()),
        None => String::new(),
    }
}

/// A URL path without its leading `/`; empty where it has none.
pub open spec fn spec_relative(p: Seq<char>) -> Seq<char> {
    if p.len() > 0 && p[0] == '/' {
        p.subrange(1, p.len() as int)
    } else {
        Seq::empty()
    }
}

/// A URL path without its leading `/`: `path.strip_prefix('/')`, empty where it has none.
pub fn relative_path(p: &str) -> (r: String)
    ensures
        r@ == spec_relative(p@),
{
    let cs = crate::text::chars_of(p);
    if cs.len() > 0 && cs[0] == '/' {
        let s = crate::text::string_of_range(&cs, 1, cs.len());
        assert(s@ =~= spec_relative(p@));
        s
    } else {
        let s = String::new();
        assert(s@ =~= spec_relative(p@));
        s
    }
}

/// The path of a URL relative to its root: its path without the leading `/`.
pub open spec fn spec_uri_relative_path(uri: Seq<char>) -> Seq<char> {
    match url_path(uri) {
        Some(p) => spec_relative(p),
        None => Seq::empty(),
    }
}

/// The path of a URL relative to its root: its path without the leading `/`; empty where
/// the text is no URL.
pub fn uri_relative_path(uri: &str) -> (r: String)
    ensures
        r@ == spec_uri_relative_path(uri@),
{
    match parsed_url_path(uri) {
        Some(p) => relative_path(p.as_str()),
        None => String::new(),
    }
}

} // verus!
