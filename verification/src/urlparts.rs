//! The parts of a URL that the navigation and sign-in rules read.
use vstd::prelude::*;

use crate::text::opt_view;

verus! {

/// A parsed absolute URL, reduced to the components the library reads.
pub struct UrlParts {
    pub scheme: String,
    pub host: Option<String>,
    pub path: String,
    pub query: Option<String>,
    pub fragment: Option<String>,
}

/// The components of a parsed URL as plain values: host, path, query and
/// fragment.
pub open spec fn parts_view(u: UrlParts) -> (Option<Seq<char>>, Seq<char>, Option<Seq<char>>, Option<Seq<char>>) {
    (opt_view(u.host), u.path@, opt_view(u.query), opt_view(u.fragment))
}

/// What `url::Url::parse` makes of `input`: on success its scheme, then its
/// host, path, query and fragment (as `scheme`, `host_str`, `path`, `query`
/// and `fragment` give them), on failure the text of the parse error.
pub uninterp spec fn url_parsed(input: Seq<char>) -> Result<
    (Seq<char>, (Option<Seq<char>>, Seq<char>, Option<Seq<char>>, Option<Seq<char>>)),
    Seq<char>,
>;

/// Calls `url::Url::parse` and reads back `scheme`, `host_str`, `path`,
/// `query` and `fragment`.  Trusted: the result is the one `url_parsed` names for this
/// input; nothing more is stated of the WHATWG parsing rules.  In url 2.5.8
/// (`src/lib.rs`) `Url::parse` parses the text alone, with no base URL, and
/// returns the URL or a `ParseError`; the four accessors read the parsed
/// serialization.
#[verifier::external_body]
pub(crate) fn parse_url(input: &str) -> (r: Result<UrlParts, String>)
    ensures
        url_parsed(input@) == match r {
            Ok(u) => Ok((u.scheme@, parts_view(u))),
            Err(e) => Err(e@),
        },
{
    match url::Url::parse(input) {
        Ok(u) => Ok(
            UrlParts {
                scheme: u.scheme().to_string(),
                host: u.host_str().map(|h| h.to_string()),
                path: u.path().to_string(),
                query: u.query().map(|q| q.to_string()),
                fragment: u.fragment().map(|f| f.to_string()),
            },
        ),
        Err(e) => Err(e.to_string()),
    }
}

} // verus!
