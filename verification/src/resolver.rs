//! The RelMeAuth resolution state machine.
//!
//! One resolution walks the states *profile received* → *profile fetched* →
//! *candidates extracted* → per-candidate *verified or rejected* → *resolved
//! or failed*. The decisions all live here, verified; the caller performs
//! the network fetches between steps and hands their results back.

use vstd::prelude::*;

use crate::relme::{extract_rel_me_links, fetched_links_back, links_back, rel_me_urls, FetchError};
use crate::html::rel_href_pairs_of;
use crate::site_url::{url_parse_of, SiteUrl};
use crate::text::str_eq;

verus! {

/// Why a resolution did not end at a provider redirect.
#[derive(PartialEq, Eq, Structural, Clone, Copy, Debug)]
pub enum FailReason {
    /// The supplied profile URI does not parse as an absolute URL.
    InvalidInput,
    /// The profile page itself could not be fetched.
    ProfileUnreachable,
    /// The profile page has no `rel=me` links at all.
    NoRelMeLinks,
    /// A recognized provider was among the candidates, but no candidate
    /// page linked back to the profile.
    NotAdmin,
    /// No candidate pointed at a recognized provider.
    NoSuitableEndpoint,
}

/// The reason code for each failure, as it appears in an error redirect.
pub open spec fn reason_code_of(r: FailReason) -> Seq<char> {
    match r {
        FailReason::InvalidInput => "invalid-input"@,
        FailReason::ProfileUnreachable => "profile-unreachable"@,
        FailReason::NoRelMeLinks => "no-relme-links"@,
        FailReason::NotAdmin => "not-admin"@,
        FailReason::NoSuitableEndpoint => "no-suitable-endpoint"@,
    }
}

impl FailReason {
    /// The reason code carried by an error redirect.
    pub fn code(self) -> (s: &'static str)
        ensures
            s@ == reason_code_of(self),
    {
        match self {
            FailReason::InvalidInput => "invalid-input",
            FailReason::ProfileUnreachable => "profile-unreachable",
            FailReason::NoRelMeLinks => "no-relme-links",
            FailReason::NotAdmin => "not-admin",
            FailReason::NoSuitableEndpoint => "no-suitable-endpoint",
        }
    }
}

/// A recognized identity provider. The trust policy is this enumerable set
/// of provider domains, not a comparison buried in the resolver's control
/// flow; adding a provider means adding a variant.
#[derive(PartialEq, Eq, Structural, Clone, Copy, Debug)]
pub enum Provider {
    Github,
}

/// The domain a provider is recognized by.
pub open spec fn provider_domain(p: Provider) -> Seq<char> {
    match p {
        Provider::Github => "github.com"@,
    }
}

/// The provider recognized at a given host, if any.
pub open spec fn provider_of(host: Seq<char>) -> Option<Provider> {
    if host == provider_domain(Provider::Github) {
        Some(Provider::Github)
    } else {
        None
    }
}

/// Which recognized identity provider, if any, a candidate URL points at.
pub fn recognize_provider(u: &SiteUrl) -> (r: Option<Provider>)
    ensures
        r == provider_of(u.host_spec()),
{
    if str_eq(u.host_str(), "github.com") {
        Some(Provider::Github)
    } else {
        None
    }
}

/// Parses the claimed profile URI; the first step of a resolution.
/// Resolution never proceeds with a syntactically invalid profile URI.
pub fn start_resolution(profile_uri: &str) -> (r: Result<SiteUrl, FailReason>)
    ensures
        r is Ok <==> url_parse_of(profile_uri@) is Some,
        r is Ok ==> r->Ok_0@ == url_parse_of(profile_uri@)->0,
        r is Err ==> r->Err_0 == FailReason::InvalidInput,
{
    match SiteUrl::parse(profile_uri) {
        Some(u) => Ok(u),
        None => Err(FailReason::InvalidInput),
    }
}

/// What the caller must do next to advance a resolution.
pub enum Step {
    /// Fetch this candidate's page and report the result through
    /// [`Resolution::candidate_checked`].
    Fetch(SiteUrl),
    /// The candidate sequence is exhausted; the resolution failed.
    Done(FailReason),
}

/// An in-progress resolution: the profile, its `rel=me` candidates in
/// document order, and how far the strictly sequential, first-match-wins
/// scan has come.
#[derive(Debug)]
pub struct Resolution {
    profile: SiteUrl,
    candidates: Vec<SiteUrl>,
    idx: usize,
    saw_provider: bool,
}

impl Resolution {
    #[verifier::type_invariant]
    spec fn inv(self) -> bool {
        self.idx <= self.candidates@.len()
    }

    /// The profile URI being verified.
    pub closed spec fn profile_view(&self) -> (Seq<char>, Seq<char>) {
        self.profile@
    }

    /// The extracted `rel=me` candidates, in document order.
    pub closed spec fn candidates_view(&self) -> Seq<(Seq<char>, Seq<char>)> {
        self.candidates.deep_view()
    }

    /// The index of the next candidate to consider.
    pub closed spec fn position(&self) -> int {
        self.idx as int
    }

    /// Whether some already-rejected candidate pointed at a recognized
    /// provider (decides `NotAdmin` against `NoSuitableEndpoint`).
    pub closed spec fn provider_seen(&self) -> bool {
        self.saw_provider
    }

    /// Builds the candidate list from the fetched profile page. A fetch
    /// failure of the profile itself aborts the resolution; a page without
    /// `rel=me` links is valid but fails it with `NoRelMeLinks`.
    pub fn on_profile_fetched(profile: SiteUrl, fetched: &Result<String, FetchError>) -> (r:
        Result<Resolution, FailReason>)
        ensures
            fetched is Err ==> r is Err && r->Err_0 == FailReason::ProfileUnreachable,
            fetched is Ok && rel_me_urls(rel_href_pairs_of(fetched->Ok_0@, "a"@)).len() == 0
                ==> r is Err && r->Err_0 == FailReason::NoRelMeLinks,
            fetched is Ok && rel_me_urls(rel_href_pairs_of(fetched->Ok_0@, "a"@)).len() > 0 ==> {
                &&& r is Ok
                &&& r->Ok_0.profile_view() == profile@
                &&& r->Ok_0.candidates_view() == rel_me_urls(
                    rel_href_pairs_of(fetched->Ok_0@, "a"@),
                )
                &&& r->Ok_0.position() == 0
                &&& !r->Ok_0.provider_seen()
            },
    {
        match fetched {
            Err(_) => Err(FailReason::ProfileUnreachable),
            Ok(html) => {
                let candidates = extract_rel_me_links(html.clone());
                if candidates.len() == 0 {
                    Err(FailReason::NoRelMeLinks)
                } else {
                    Ok(Resolution { profile, candidates, idx: 0, saw_provider: false })
                }
            },
        }
    }

    /// Advances past candidates that point at no recognized provider and
    /// says what to do next: fetch the first provider candidate not yet
    /// checked, or fail — `NotAdmin` when a provider candidate was seen and
    /// rejected, `NoSuitableEndpoint` when none ever appeared.
    pub fn step(&mut self) -> (r: Step)
        ensures
            final(self).profile_view() == old(self).profile_view(),
            final(self).candidates_view() == old(self).candidates_view(),
            final(self).provider_seen() == old(self).provider_seen(),
            old(self).position() <= final(self).position(),
            final(self).position() <= final(self).candidates_view().len(),
            forall|k: int|
                old(self).position() <= k < final(self).position() ==> provider_of(
                    #[trigger] final(self).candidates_view()[k].1,
                ) is None,
            final(self).position() < final(self).candidates_view().len() ==> provider_of(
                final(self).candidates_view()[final(self).position()].1,
            ) is Some,
            r is Fetch <==> final(self).position() < final(self).candidates_view().len(),
            r is Fetch ==> r->Fetch_0@ == final(self).candidates_view()[final(self).position()],
            r is Done ==> r->Done_0 == (if old(self).provider_seen() {
                FailReason::NotAdmin
            } else {
                FailReason::NoSuitableEndpoint
            }),
    {
        proof {
            use_type_invariant(&*self);
        }
        let ghost init = *self;
        let n = self.candidates.len();
        while self.idx < n && recognize_provider(&self.candidates[self.idx]).is_none()
            invariant
                n == self.candidates@.len(),
                self.idx <= n,
                self.profile == init.profile,
                self.candidates == init.candidates,
                self.saw_provider == init.saw_provider,
                init.idx <= self.idx,
                forall|k: int|
                    init.idx <= k < self.idx ==> provider_of(
                        #[trigger] self.candidates.deep_view()[k].1,
                    ) is None,
            decreases n - self.idx,
        {
            proof {
                assert(self.candidates.deep_view()[self.idx as int]
                    == self.candidates@[self.idx as int]@);
            }
            self.idx = self.idx + 1;
        }
        if self.idx < n {
            proof {
                assert(self.candidates.deep_view()[self.idx as int]
                    == self.candidates@[self.idx as int]@);
            }
            Step::Fetch(self.candidates[self.idx].duplicate())
        } else if self.saw_provider {
            Step::Done(FailReason::NotAdmin)
        } else {
            Step::Done(FailReason::NoSuitableEndpoint)
        }
    }

    /// Consumes the fetch result for the candidate at the current position.
    /// If that page links back to the profile, the resolution succeeds with
    /// that candidate and iteration short-circuits; otherwise the candidate
    /// is rejected and the scan moves on. Called with no candidate pending,
    /// it changes nothing.
    pub fn candidate_checked(&mut self, fetched: &Result<String, FetchError>) -> (r: Option<
        SiteUrl,
    >)
        ensures
            final(self).profile_view() == old(self).profile_view(),
            final(self).candidates_view() == old(self).candidates_view(),
            old(self).position() >= old(self).candidates_view().len() ==> {
                &&& r is None
                &&& final(self).position() == old(self).position()
                &&& final(self).provider_seen() == old(self).provider_seen()
            },
            old(self).position() < old(self).candidates_view().len() && fetched_links_back(
                *fetched,
                old(self).profile_view().0,
            ) ==> {
                &&& r is Some
                &&& r->0@ == old(self).candidates_view()[old(self).position()]
                &&& final(self).position() == old(self).position()
                &&& final(self).provider_seen() == old(self).provider_seen()
            },
            old(self).position() < old(self).candidates_view().len() && !fetched_links_back(
                *fetched,
                old(self).profile_view().0,
            ) ==> {
                &&& r is None
                &&& final(self).position() == old(self).position() + 1
                &&& final(self).provider_seen() == (old(self).provider_seen() || provider_of(
                    old(self).candidates_view()[old(self).position()].1,
                ) is Some)
            },
    {
        proof {
            use_type_invariant(&*self);
        }
        if self.idx >= self.candidates.len() {
            return None;
        }
        proof {
            assert(self.candidates.deep_view()[self.idx as int]
                == self.candidates@[self.idx as int]@);
        }
        let cand = &self.candidates[self.idx];
        if links_back(fetched, &self.profile) {
            Some(cand.duplicate())
        } else {
            let found = recognize_provider(cand).is_some();
            self.saw_provider = self.saw_provider || found;
            self.idx = self.idx + 1;
            None
        }
    }

    /// The profile URI being verified.
    pub fn profile(&self) -> (r: &SiteUrl)
        ensures
            r@ == self.profile_view(),
    {
        &self.profile
    }
}

/// The outcome of scanning candidates in document order, given the fetch
/// result for each provider candidate in the order they are reached:
/// the first provider candidate whose page links back to the profile wins;
/// candidates at no recognized provider are passed over without a fetch; a
/// missing fetch result counts as a failed fetch. With the sequence
/// exhausted, the scan fails — `NotAdmin` if some provider candidate was
/// rejected (`saw`), `NoSuitableEndpoint` otherwise.
pub open spec fn scan_outcome(
    cands: Seq<(Seq<char>, Seq<char>)>,
    pages: Seq<Result<String, FetchError>>,
    profile: Seq<char>,
    saw: bool,
) -> Result<(Seq<char>, Seq<char>), FailReason>
    decreases cands.len(),
{
    if cands.len() == 0 {
        Err(
            if saw {
                FailReason::NotAdmin
            } else {
                FailReason::NoSuitableEndpoint
            },
        )
    } else if provider_of(cands.first().1) is Some {
        if pages.len() > 0 && fetched_links_back(pages.first(), profile) {
            Ok(cands.first())
        } else {
            scan_outcome(
                cands.drop_first(),
                if pages.len() > 0 {
                    pages.drop_first()
                } else {
                    pages
                },
                profile,
                true,
            )
        }
    } else {
        scan_outcome(cands.drop_first(), pages, profile, saw)
    }
}

/// The outcome of one whole resolution, as a function of the profile URI
/// and the fetched pages: `InvalidInput` for an unparseable URI,
/// `ProfileUnreachable` for a failed profile fetch, `NoRelMeLinks` for a
/// profile page without `rel=me` anchors, and otherwise the candidate scan.
pub open spec fn resolve_outcome(
    profile_uri: Seq<char>,
    profile_page: Result<String, FetchError>,
    pages: Seq<Result<String, FetchError>>,
) -> Result<(Seq<char>, Seq<char>), FailReason> {
    match url_parse_of(profile_uri) {
        None => Err(FailReason::InvalidInput),
        Some(profile) => {
            if profile_page is Err {
                Err(FailReason::ProfileUnreachable)
            } else {
                let cands = rel_me_urls(rel_href_pairs_of(profile_page->Ok_0@, "a"@));
                if cands.len() == 0 {
                    Err(FailReason::NoRelMeLinks)
                } else {
                    scan_outcome(cands, pages, profile.0, false)
                }
            }
        },
    }
}

/// Passing over candidates at no recognized provider leaves the scan's
/// outcome unchanged.
proof fn lemma_scan_skip(
    cands: Seq<(Seq<char>, Seq<char>)>,
    pages: Seq<Result<String, FetchError>>,
    profile: Seq<char>,
    saw: bool,
    i: int,
    j: int,
)
    requires
        0 <= i <= j <= cands.len(),
        forall|k: int| i <= k < j ==> provider_of(#[trigger] cands[k].1) is None,
    ensures
        scan_outcome(cands.skip(i), pages, profile, saw) == scan_outcome(
            cands.skip(j),
            pages,
            profile,
            saw,
        ),
    decreases j - i,
{
    if i < j {
        assert(cands.skip(i).first() == cands[i]);
        assert(cands.skip(i).drop_first() =~= cands.skip(i + 1));
        lemma_scan_skip(cands, pages, profile, saw, i + 1, j);
    }
}

/// One whole resolution as a pure function of the fetched documents: the
/// profile URI, the profile page's fetch result, and the fetch result for
/// each provider candidate in the order the scan reaches them (a missing
/// entry counts as a failed fetch). Walks
/// the same strictly sequential, first-match-wins scan the step interface
/// exposes, and returns the winning candidate or the failure's reason.
pub fn resolve(
    profile_uri: &str,
    profile_page: &Result<String, FetchError>,
    candidate_pages: &Vec<Result<String, FetchError>>,
) -> (r: Result<SiteUrl, FailReason>)
    ensures
        r is Ok <==> resolve_outcome(profile_uri@, *profile_page, candidate_pages@) is Ok,
        r is Ok ==> r->Ok_0@ == resolve_outcome(
            profile_uri@,
            *profile_page,
            candidate_pages@,
        )->Ok_0,
        r is Err ==> r->Err_0 == resolve_outcome(
            profile_uri@,
            *profile_page,
            candidate_pages@,
        )->Err_0,
{
    let ghost goal = resolve_outcome(profile_uri@, *profile_page, candidate_pages@);
    let profile = match start_resolution(profile_uri) {
        Ok(profile) => profile,
        Err(reason) => {
            return Err(reason);
        },
    };
    let mut resolution = match Resolution::on_profile_fetched(profile, profile_page) {
        Ok(resolution) => resolution,
        Err(reason) => {
            return Err(reason);
        },
    };
    let ghost cands = resolution.candidates_view();
    let ghost profile_text = resolution.profile_view().0;
    let missing: Result<String, FetchError> = Err(FetchError::Unreachable(String::new()));
    let mut used: usize = 0;
    proof {
        assert(cands.skip(0) =~= cands);
        assert(candidate_pages@.skip(0) =~= candidate_pages@);
        assert(goal == scan_outcome(cands, candidate_pages@, profile_text, false));
    }
    loop
        invariant
            used <= candidate_pages@.len(),
            resolution.candidates_view() == cands,
            resolution.profile_view().0 == profile_text,
            0 <= resolution.position() <= cands.len(),
            goal == resolve_outcome(profile_uri@, *profile_page, candidate_pages@),
            goal == scan_outcome(
                cands.skip(resolution.position()),
                candidate_pages@.skip(used as int),
                profile_text,
                resolution.provider_seen(),
            ),
            missing is Err,
        decreases cands.len() - resolution.position(),
    {
        let ghost before = resolution.position();
        match resolution.step() {
            Step::Done(reason) => {
                proof {
                    lemma_scan_skip(
                        cands,
                        candidate_pages@.skip(used as int),
                        profile_text,
                        resolution.provider_seen(),
                        before,
                        resolution.position(),
                    );
                    assert(cands.skip(cands.len() as int) =~= Seq::empty());
                }
                return Err(reason);
            },
            Step::Fetch(_candidate) => {
                proof {
                    lemma_scan_skip(
                        cands,
                        candidate_pages@.skip(used as int),
                        profile_text,
                        resolution.provider_seen(),
                        before,
                        resolution.position(),
                    );
                }
                let ghost pos = resolution.position();
                let has_page = used < candidate_pages.len();
                let page: &Result<String, FetchError> = if has_page {
                    &candidate_pages[used]
                } else {
                    &missing
                };
                proof {
                    assert(cands.skip(pos).first() == cands[pos]);
                    assert(cands.skip(pos).drop_first() =~= cands.skip(pos + 1));
                    if has_page {
                        assert(candidate_pages@.skip(used as int).first()
                            == candidate_pages@[used as int]);
                        assert(candidate_pages@.skip(used as int).drop_first()
                            =~= candidate_pages@.skip(used as int + 1));
                    }
                }
                match resolution.candidate_checked(page) {
                    Some(winner) => {
                        return Ok(winner);
                    },
                    None => {
                        if has_page {
                            used = used + 1;
                        }
                    },
                }
            },
        }
    }
}

} // verus!
