//! The GitHub identity-provider collaborator: the data it returns and the
//! decisions taken on it. The HTTP exchanges themselves happen outside this
//! crate; these functions compute the redirect targets and checks from
//! plain values.

use vstd::prelude::*;

use crate::resolver::Provider;
use crate::text::str_eq;

verus! {

/// The fields read from GitHub's user-info lookup.
#[derive(Clone, Debug)]
pub struct GithubUser {
    pub id: u64,
    pub blog: String,
}

/// The fields read from GitHub's token exchange.
#[derive(Clone, Debug)]
pub struct GithubCredentials {
    /// example: "90sd098w0e98f0w9e8g90a8ed098"
    pub access_token: String,
    /// example: "read:user"
    pub scope: String,
    /// example: "bearer"
    pub token_type: String,
}

/// The blog URL that identifies the recognized admin user.
pub open spec fn admin_blog() -> Seq<char> {
    "https://drn.ie"@
}

/// Whether this GitHub user is the recognized admin user: their declared
/// blog equals the admin's site exactly.
pub fn is_admin_user(user: &GithubUser) -> (b: bool)
    ensures
        b == (user.blog@ == admin_blog()),
{
    str_eq(user.blog.as_str(), "https://drn.ie")
}

/// GitHub's OAuth authorize URL for a client id.
pub open spec fn github_authorize_url_of(client_id: Seq<char>) -> Seq<char> {
    "https://github.com/login/oauth/authorize?client_id="@ + client_id
}

/// Builds the GitHub OAuth authorize URL.
pub fn github_authorize_url(client_id: &str) -> (r: String)
    ensures
        r@ == github_authorize_url_of(client_id@),
{
    let mut r = String::from_str("https://github.com/login/oauth/authorize?client_id=");
    r.append(client_id);
    r
}

/// The authorize redirect for a recognized provider.
pub open spec fn provider_authorize_of(p: Provider, client_id: Seq<char>) -> Seq<char> {
    match p {
        Provider::Github => github_authorize_url_of(client_id),
    }
}

/// Builds the authorize redirect for the provider a resolution ended at.
pub fn provider_authorize_url(p: Provider, client_id: &str) -> (r: String)
    ensures
        r@ == provider_authorize_of(p, client_id@),
{
    match p {
        Provider::Github => github_authorize_url(client_id),
    }
}

/// The value of an HTTP `authorization` header carrying this access token.
pub open spec fn bearer_of(token: Seq<char>) -> Seq<char> {
    "bearer "@ + token
}

/// Formats the `authorization` header value for a user-info lookup.
pub fn bearer_header(credentials: &GithubCredentials) -> (r: String)
    ensures
        r@ == bearer_of(credentials.access_token@),
{
    let mut r = String::from_str("bearer ");
    r.append(credentials.access_token.as_str());
    r
}

/// Where the OAuth callback redirects, from the outcome of the user-info
/// lookup: the success page (carrying the original code) for the recognized
/// admin user, the `not-admin` error page for any other user, and the
/// `github-error` error page when the exchange with GitHub failed.
pub open spec fn callback_redirect_of(user: Option<GithubUser>, code: Seq<char>) -> Seq<char> {
    match user {
        Some(u) => if u.blog@ == admin_blog() {
            "/success?message=Authorizing&code="@ + code
        } else {
            "/error?reason=not-admin"@
        },
        None => "/error?reason=github-error"@,
    }
}

/// Decides the callback redirect. Works on every outcome, including a
/// failed exchange (`None`); no outcome aborts the caller.
pub fn callback_redirect(user: &Option<GithubUser>, code: &str) -> (r: String)
    ensures
        r@ == callback_redirect_of(*user, code@),
{
    match user {
        Some(u) => {
            if is_admin_user(u) {
                let mut r = String::from_str("/success?message=Authorizing&code=");
                r.append(code);
                r
            } else {
                String::from_str("/error?reason=not-admin")
            }
        },
        None => String::from_str("/error?reason=github-error"),
    }
}

} // verus!
