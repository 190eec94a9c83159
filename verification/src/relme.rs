//! `rel="me"` link extraction, authorization-endpoint discovery, and
//! backlink verification over fetched HTML.

use vstd::prelude::*;

use crate::html::{rel_href_pairs, rel_href_pairs_of};
use crate::site_url::{url_parse_of, SiteUrl};
use crate::text::str_eq;

verus! {

/// A `(rel, href)` attribute pair of one element; `None` where the element
/// lacks the attribute.
pub type RelHref = (Option<Seq<char>>, Option<Seq<char>>);

/// The ASCII whitespace characters that separate tokens of a `rel`
/// attribute value.
pub open spec fn is_space(c: char) -> bool {
    c == ' ' || c == '\t' || c == '\n' || c == '\r' || c == '\x0c'
}

/// The two characters `me` stand at position `i` of `s` as a whole
/// whitespace-delimited token: a space (or the start of `s`) before, a space
/// (or the end of `s`) after.
pub open spec fn me_token_at(s: Seq<char>, i: int) -> bool {
    &&& 0 <= i
    &&& i + 2 <= s.len()
    &&& s[i] == 'm'
    &&& s[i + 1] == 'e'
    &&& (i == 0 || is_space(s[i - 1]))
    &&& (i + 2 == s.len() || is_space(s[i + 2]))
}

/// The whitespace-split tokens of `s` include the exact token `me`.
/// `me` as a mere substring of another token (as in `homepage`) does not
/// count.
pub open spec fn rel_has_me_token(s: Seq<char>) -> bool {
    exists|i: int| me_token_at(s, i)
}

/// Whether one character is token-separating whitespace.
pub fn is_space_char(c: char) -> (b: bool)
    ensures
        b == is_space(c),
{
    c == ' ' || c == '\t' || c == '\n' || c == '\r' || c == '\x0c'
}

/// Whether a `rel` attribute value contains the token `me`.
pub fn rel_contains_me(rel: &str) -> (b: bool)
    ensures
        b == rel_has_me_token(rel@),
{
    let n = rel.unicode_len();
    if n < 2 {
        return false;
    }
    let mut i: usize = 0;
    while i < n - 1
        invariant
            n == rel@.len(),
            2 <= n,
            i <= n - 1,
            forall|k: int| 0 <= k < i ==> !me_token_at(rel@, k),
        decreases n - i,
    {
        let c0 = rel.get_char(i);
        let c1 = rel.get_char(i + 1);
        let mut is_tok = c0 == 'm' && c1 == 'e';
        if is_tok && i > 0 {
            is_tok = is_space_char(rel.get_char(i - 1));
        }
        if is_tok && i + 2 < n {
            is_tok = is_space_char(rel.get_char(i + 2));
        }
        if is_tok {
            proof {
                assert(me_token_at(rel@, i as int));
            }
            return true;
        }
        proof {
            assert(!me_token_at(rel@, i as int));
        }
        i += 1;
    }
    proof {
        assert forall|k: int| !me_token_at(rel@, k) by {
            if 0 <= k < n - 1 {
                assert(!me_token_at(rel@, k));
            }
        }
    }
    false
}

/// The element's `rel` attribute exists and its tokens include `me`.
pub open spec fn is_me_anchor(p: RelHref) -> bool {
    p.0 is Some && rel_has_me_token(p.0->0)
}

/// The element's `href` attribute, or the empty string where it is absent.
pub open spec fn href_or_empty(p: RelHref) -> Seq<char> {
    match p.1 {
        Some(h) => h,
        None => Seq::empty(),
    }
}

/// The URLs extracted from a sequence of anchor attribute pairs, in document
/// order: for every anchor whose `rel` tokens include `me`, the parse of its
/// `href` — kept only when the parse succeeds, with duplicates kept.
pub open spec fn rel_me_urls(attrs: Seq<RelHref>) -> Seq<(Seq<char>, Seq<char>)>
    decreases attrs.len(),
{
    if attrs.len() == 0 {
        Seq::empty()
    } else {
        let prefix = rel_me_urls(attrs.drop_last());
        let p = attrs.last();
        if is_me_anchor(p) {
            match url_parse_of(href_or_empty(p)) {
                Some(u) => prefix.push(u),
                None => prefix,
            }
        } else {
            prefix
        }
    }
}

/// Parses the document and returns the absolute URLs of all `<a>` elements
/// whose `rel` attribute — split on whitespace — contains the token `me`,
/// in document order, neither sorted nor de-duplicated. An `href` that does
/// not parse as an absolute URL is skipped, never fatal.
pub fn extract_rel_me_links(html: String) -> (r: Vec<SiteUrl>)
    ensures
        r.deep_view() == rel_me_urls(rel_href_pairs_of(html@, "a"@)),
{
    let pairs = rel_href_pairs(html.as_str(), "a");
    let ghost s = pairs.deep_view();
    let mut out: Vec<SiteUrl> = Vec::new();
    let mut i: usize = 0;
    while i < pairs.len()
        invariant
            s == pairs.deep_view(),
            s.len() == pairs@.len(),
            i <= pairs@.len(),
            out.deep_view() == rel_me_urls(s.take(i as int)),
        decreases pairs@.len() - i,
    {
        let ghost prev = out.deep_view();
        let pair = &pairs[i];
        proof {
            assert(s[i as int] == pairs@[i as int].deep_view());
        }
        let matched = match &pair.0 {
            Some(rel) => rel_contains_me(rel.as_str()),
            None => false,
        };
        proof {
            assert(matched == is_me_anchor(s[i as int]));
        }
        if matched {
            let href: &str = match &pair.1 {
                Some(h) => h.as_str(),
                None => "",
            };
            proof {
                reveal_strlit("");
                assert(""@ =~= Seq::<char>::empty());
                assert(href@ == href_or_empty(s[i as int]));
            }
            match SiteUrl::parse(href) {
                Some(u) => {
                    out.push(u);
                    proof {
                        assert(out.deep_view() =~= prev.push(u@));
                    }
                },
                None => {},
            }
        }
        i += 1;
        proof {
            assert(s.take(i as int).drop_last() =~= s.take(i as int - 1));
            assert(s.take(i as int).last() == s[i as int - 1]);
            assert(out.deep_view() == rel_me_urls(s.take(i as int)));
        }
    }
    proof {
        assert(s.take(s.len() as int) =~= s);
    }
    out
}

/// The element's `rel` attribute equals exactly `authorization_endpoint`
/// (single-token exact match, unlike the multi-token `rel=me` case).
pub open spec fn is_auth_link(p: RelHref) -> bool {
    p.0 == Some("authorization_endpoint"@)
}

/// The `href` of the last `<link rel="authorization_endpoint">` in a
/// sequence of link attribute pairs, or the empty string if there is none.
pub open spec fn auth_endpoint_of(attrs: Seq<RelHref>) -> Seq<char>
    decreases attrs.len(),
{
    if attrs.len() == 0 {
        Seq::empty()
    } else if is_auth_link(attrs.last()) {
        href_or_empty(attrs.last())
    } else {
        auth_endpoint_of(attrs.drop_last())
    }
}

/// Parses the document and returns the `href` of the last `<link>` element
/// whose `rel` attribute equals exactly `authorization_endpoint`, in
/// document order (later links overwrite earlier ones); the empty string
/// when no such element exists. Performs no network I/O.
pub fn extract_auth_endpoint(html: String) -> (r: String)
    ensures
        r@ == auth_endpoint_of(rel_href_pairs_of(html@, "link"@)),
{
    let pairs = rel_href_pairs(html.as_str(), "link");
    let ghost s = pairs.deep_view();
    let mut result = String::new();
    let mut i: usize = 0;
    while i < pairs.len()
        invariant
            s == pairs.deep_view(),
            s.len() == pairs@.len(),
            i <= pairs@.len(),
            result@ == auth_endpoint_of(s.take(i as int)),
        decreases pairs@.len() - i,
    {
        let pair = &pairs[i];
        proof {
            assert(s[i as int] == pairs@[i as int].deep_view());
        }
        let matched = match &pair.0 {
            Some(rel) => str_eq(rel.as_str(), "authorization_endpoint"),
            None => false,
        };
        proof {
            assert(matched == is_auth_link(s[i as int]));
        }
        if matched {
            result = match &pair.1 {
                Some(h) => h.clone(),
                None => String::new(),
            };
            proof {
                assert(result@ == href_or_empty(s[i as int]));
            }
        }
        i += 1;
        proof {
            assert(s.take(i as int).drop_last() =~= s.take(i as int - 1));
            assert(s.take(i as int).last() == s[i as int - 1]);
            assert(result@ == auth_endpoint_of(s.take(i as int)));
        }
    }
    proof {
        assert(s.take(s.len() as int) =~= s);
    }
    result
}

/// Failure to retrieve a page: network error, connection refusal, timeout,
/// or a body that could not be decoded as text.
#[derive(Clone, Debug)]
pub enum FetchError {
    /// Carries a description of the underlying cause.
    Unreachable(String),
}

impl FetchError {
    /// A description of the underlying cause.
    pub fn cause(&self) -> (r: &str)
        ensures
            r@ == self->0@,
    {
        match self {
            FetchError::Unreachable(c) => c.as_str(),
        }
    }
}

/// Some extracted URL has exactly the given serialization.
pub open spec fn contains_link(urls: Seq<(Seq<char>, Seq<char>)>, target: Seq<char>) -> bool {
    exists|i: int| 0 <= i < urls.len() && urls[i].0 == target
}

/// The fetch succeeded and the fetched document has a `rel=me` anchor whose
/// URL serializes exactly to `target`.
pub open spec fn fetched_links_back(fetched: Result<String, FetchError>, target: Seq<char>) -> bool {
    fetched is Ok && contains_link(
        rel_me_urls(rel_href_pairs_of(fetched->Ok_0@, "a"@)),
        target,
    )
}

/// Whether the page fetched from a candidate URL links back to `check_for`
/// via a `rel=me` anchor whose URL is exactly equal (scheme, host, path and
/// query all count, with no normalization). A fetch failure means "does not
/// link back" — `false`, never an error — so a network hiccup on one
/// candidate cannot abort an overall verification.
pub fn links_back(fetched: &Result<String, FetchError>, check_for: &SiteUrl) -> (b: bool)
    ensures
        b == fetched_links_back(*fetched, check_for.text_spec()),
{
    match fetched {
        Err(_) => false,
        Ok(html) => {
            let links = extract_rel_me_links(html.clone());
            let ghost urls = rel_me_urls(rel_href_pairs_of(html@, "a"@));
            let mut i: usize = 0;
            while i < links.len()
                invariant
                    fetched is Ok,
                    urls == rel_me_urls(rel_href_pairs_of(fetched->Ok_0@, "a"@)),
                    links.deep_view() == urls,
                    urls.len() == links@.len(),
                    i <= links@.len(),
                    forall|k: int| 0 <= k < i ==> urls[k].0 != check_for.text_spec(),
                decreases links@.len() - i,
            {
                proof {
                    assert(urls[i as int] == links@[i as int].deep_view());
                }
                if links[i].same_url(check_for) {
                    proof {
                        assert(urls[i as int].0 == check_for.text_spec());
                        assert(contains_link(urls, check_for.text_spec()));
                    }
                    return true;
                }
                i += 1;
            }
            false
        },
    }
}

/// For every sequence of anchor attribute pairs and every parsed URL: the
/// extracted `rel=me` sequence contains that URL iff some anchor has a
/// `rel` attribute whose whitespace-split tokens include `me` and an `href`
/// that parses to exactly that URL.
pub proof fn lemma_rel_me_membership(attrs: Seq<RelHref>, target: (Seq<char>, Seq<char>))
    ensures
        rel_me_urls(attrs).contains(target) <==> exists|i: int|
            0 <= i < attrs.len() && is_me_anchor(#[trigger] attrs[i]) && url_parse_of(
                href_or_empty(attrs[i]),
            ) == Some(target),
    decreases attrs.len(),
{
    if attrs.len() == 0 {
    } else {
        let prefix = attrs.drop_last();
        let p = attrs.last();
        lemma_rel_me_membership(prefix, target);
        assert(forall|i: int|
            0 <= i < prefix.len() ==> prefix[i] == #[trigger] attrs[i]);
        if is_me_anchor(p) && url_parse_of(href_or_empty(p)) is Some {
            let u = url_parse_of(href_or_empty(p))->0;
            lemma_push_contains(rel_me_urls(prefix), u, target);
            if u == target {
                assert(is_me_anchor(attrs[attrs.len() - 1]));
            }
            if rel_me_urls(attrs).contains(target) && u != target {
                assert(rel_me_urls(prefix).contains(target));
            }
        }
        if exists|i: int|
            0 <= i < attrs.len() && is_me_anchor(#[trigger] attrs[i]) && url_parse_of(
                href_or_empty(attrs[i]),
            ) == Some(target) {
            let i = choose|i: int|
                0 <= i < attrs.len() && is_me_anchor(#[trigger] attrs[i]) && url_parse_of(
                    href_or_empty(attrs[i]),
                ) == Some(target);
            if i < attrs.len() - 1 {
                assert(is_me_anchor(prefix[i]));
                assert(rel_me_urls(prefix).contains(target));
                if is_me_anchor(p) && url_parse_of(href_or_empty(p)) is Some {
                    lemma_push_contains(
                        rel_me_urls(prefix),
                        url_parse_of(href_or_empty(p))->0,
                        target,
                    );
                }
            }
        }
    }
}

/// A sequence extended by one element contains a value iff the original
/// does or the value is the new element.
proof fn lemma_push_contains<A>(s: Seq<A>, x: A, t: A)
    ensures
        s.push(x).contains(t) <==> (s.contains(t) || t == x),
{
    if s.contains(t) {
        let i = choose|i: int| 0 <= i < s.len() && s[i] == t;
        assert(s.push(x)[i] == t);
    }
    if t == x {
        assert(s.push(x)[s.len() as int] == t);
    }
    if s.push(x).contains(t) {
        let i = choose|i: int| 0 <= i < s.push(x).len() && s.push(x)[i] == t;
        if i < s.len() {
            assert(s[i] == t);
        }
    }
}

/// A document with no `<link rel="authorization_endpoint">` yields the
/// empty string.
pub proof fn lemma_auth_endpoint_absent(attrs: Seq<RelHref>)
    requires
        forall|i: int| 0 <= i < attrs.len() ==> !is_auth_link(#[trigger] attrs[i]),
    ensures
        auth_endpoint_of(attrs) == Seq::<char>::empty(),
    decreases attrs.len(),
{
    if attrs.len() > 0 {
        assert(!is_auth_link(attrs[attrs.len() - 1]));
        assert(forall|i: int|
            0 <= i < attrs.len() - 1 ==> attrs.drop_last()[i] == #[trigger] attrs[i]);
        lemma_auth_endpoint_absent(attrs.drop_last());
    }
}

/// With several `<link rel="authorization_endpoint">` elements, the later
/// one in document order wins: the result is the `href` of the last match.
pub proof fn lemma_auth_endpoint_last_wins(attrs: Seq<RelHref>, j: int)
    requires
        0 <= j < attrs.len(),
        is_auth_link(attrs[j]),
        forall|k: int| j < k < attrs.len() ==> !is_auth_link(#[trigger] attrs[k]),
    ensures
        auth_endpoint_of(attrs) == href_or_empty(attrs[j]),
    decreases attrs.len(),
{
    if j == attrs.len() - 1 {
    } else {
        assert(!is_auth_link(attrs[attrs.len() - 1]));
        assert(forall|i: int|
            0 <= i < attrs.len() - 1 ==> attrs.drop_last()[i] == #[trigger] attrs[i]);
        lemma_auth_endpoint_last_wins(attrs.drop_last(), j);
    }
}

} // verus!
