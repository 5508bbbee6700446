//! The parts of a parsed URL that a request is built from.
use vstd::prelude::*;

use crate::error::HttpError;
use crate::text::push_text;

verus! {

/// What `url::Url::parse` makes of a text: its scheme, its host if it has
/// one, and its path; nothing where the text is not a URL.
pub uninterp spec fn url_parts(s: Seq<char>) -> Option<(Seq<char>, Option<Seq<char>>, Seq<char>)>;

/// The characters of an optional text.
pub open spec fn opt_view(o: Option<String>) -> Option<Seq<char>> {
    match o {
        Some(s) => Some(s@),
        None => None,
    }
}

/// Relies on url::Url::parse, read back through Url::scheme, Url::host_str
/// and Url::path: the parts depend on the text alone.
#[verifier::external_body]
fn parse_url_parts(s: &str) -> (r: Option<(String, Option<String>, String)>)
    ensures
        match r {
            Some(p) => url_parts(s@) == Some((p.0@, opt_view(p.1), p.2@)),
            None => url_parts(s@) is None,
        },
{
    match url::Url::parse(s) {
        Ok(u) => Some((u.scheme().to_string(), u.host_str().map(|h| h.to_string()), u.path().to_string())),
        Err(_) => None,
    }
}

/// A URL, held as the parts that a request line and a Host header need.
#[derive(Debug, PartialEq, Eq)]
pub struct Url {
    pub scheme: String,
    pub host: Option<String>,
    pub path: String,
}

impl Url {
    /// A URL of the given parts.
    pub fn new(scheme: &str, host: Option<&str>, path: &str) -> (r: Url)
        ensures
            r.scheme@ == scheme@,
            r.path@ == path@,
            match host {
                Some(h) => r.host is Some && r.host->0@ == h@,
                None => r.host is None,
            },
    {
        let mut sc = String::new();
        push_text(&mut sc, scheme);
        let mut p = String::new();
        push_text(&mut p, path);
        let h = match host {
            Some(h) => {
                let mut t = String::new();
                push_text(&mut t, h);
                Some(t)
            },
            None => None,
        };
        Url { scheme: sc, host: h, path: p }
    }

    /// Parses a URL text.
    pub fn parse(s: &str) -> (r: Result<Url, HttpError>)
        ensures
            match r {
                Ok(u) => url_parts(s@) == Some((u.scheme@, opt_view(u.host), u.path@)),
                Err(e) => e == HttpError::UrlParse && url_parts(s@) is None,
            },
    {
        match parse_url_parts(s) {
            Some(p) => Ok(Url { scheme: p.0, host: p.1, path: p.2 }),
            None => Err(HttpError::UrlParse),
        }
    }
}

} // verus!
