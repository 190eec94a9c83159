//! Absolute URLs, as the `url` crate parses them.
//!
//! The logic of this crate only ever reads two things from a parsed URL: its
//! normalized serialization (used for exact link equality) and its host (used
//! to recognize identity providers). [`SiteUrl`] holds exactly those two as
//! plain strings; the `url` crate does the parsing behind a trusted wrapper.

use vstd::prelude::*;

verus! {

/// What `url::Url::parse` yields for a given input string: `None` when the
/// input does not parse as an absolute URL, otherwise the normalized
/// serialization together with the host (empty for host-less schemes).
pub uninterp spec fn url_parse_of(s: Seq<char>) -> Option<(Seq<char>, Seq<char>)>;

/// Relies on `url::Url::parse`: whether a string parses, its normalized
/// serialization (`as_str`) and its host (`host_str`) are functions of the
/// input string alone.
#[verifier::external_body]
fn parse_url_parts(s: &str) -> (r: Option<(String, String)>)
    ensures
        r.deep_view() == url_parse_of(s@),
{
    match url::Url::parse(s) {
        Ok(u) => {
            let host = match u.host_str() {
                Some(h) => h.to_string(),
                None => String::new(),
            };
            Some((u.as_str().to_string(), host))
        },
        Err(_) => None,
    }
}

/// An absolute URL: the normalized serialization and its host part.
#[derive(Clone, Debug, PartialEq, Eq)]
pub struct SiteUrl {
    text: String,
    host: String,
}

impl View for SiteUrl {
    type V = (Seq<char>, Seq<char>);

    closed spec fn view(&self) -> (Seq<char>, Seq<char>) {
        (self.text@, self.host@)
    }
}

impl DeepView for SiteUrl {
    type V = (Seq<char>, Seq<char>);

    open spec fn deep_view(&self) -> (Seq<char>, Seq<char>) {
        self.view()
    }
}

impl SiteUrl {
    /// The normalized serialization, e.g. `"https://example.com/a"`.
    pub open spec fn text_spec(&self) -> Seq<char> {
        self@.0
    }

    /// The host part, e.g. `"example.com"`.
    pub open spec fn host_spec(&self) -> Seq<char> {
        self@.1
    }

    /// Parses an absolute URL; `None` exactly when the `url` crate rejects
    /// the input.
    pub fn parse(s: &str) -> (r: Option<SiteUrl>)
        ensures
            r is Some <==> url_parse_of(s@) is Some,
            r is Some ==> r->0@ == url_parse_of(s@)->0,
    {
        match parse_url_parts(s) {
            Some(p) => Some(SiteUrl { text: p.0, host: p.1 }),
            None => None,
        }
    }

    pub fn as_str(&self) -> (r: &str)
        ensures
            r@ == self.text_spec(),
    {
        self.text.as_str()
    }

    pub fn host_str(&self) -> (r: &str)
        ensures
            r@ == self.host_spec(),
    {
        self.host.as_str()
    }

    /// Exact serialization equality: scheme, host, path and query all count,
    /// with no normalization beyond what parsing itself did.
    pub fn same_url(&self, other: &SiteUrl) -> (r: bool)
        ensures
            r == (self.text_spec() == other.text_spec()),
    {
        self.text == other.text
    }

    /// An owned copy with the same view.
    pub fn duplicate(&self) -> (r: SiteUrl)
        ensures
            r@ == self@,
    {
        SiteUrl { text: self.text.clone(), host: self.host.clone() }
    }
}

} // verus!
