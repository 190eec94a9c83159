//! Authorization-request construction for IndieAuth-style endpoints.
//!
//! The query string is assembled as an ordered sequence of fixed keys —
//! never from an unordered map — so the output is deterministic, and every
//! value is percent-encoded. `state` and `code_challenge` are supplied by
//! the caller, freshly generated per request.

use vstd::prelude::*;

use vstd::string::StringSliceAdditionalSpecFns;
use vstd::utf8::encode_utf8;

verus! {

/// RFC 3986 unreserved bytes: ASCII letters, digits, `-`, `.`, `_`, `~`.
pub open spec fn is_unreserved_byte(b: u8) -> bool {
    (0x41 <= b && b <= 0x5a) || (0x61 <= b && b <= 0x7a) || (0x30 <= b && b <= 0x39) || b == 0x2d
        || b == 0x2e || b == 0x5f || b == 0x7e
}

/// The uppercase hexadecimal digit for a value below 16, as an ASCII byte.
pub open spec fn hex_digit_byte(n: u8) -> u8 {
    if n < 10 {
        (0x30 + n) as u8
    } else {
        (0x37 + n) as u8
    }
}

/// One byte's percent-encoding: itself if unreserved, else `%XX`.
pub open spec fn pct_byte(b: u8) -> Seq<u8> {
    if is_unreserved_byte(b) {
        seq![b]
    } else {
        seq![0x25u8, hex_digit_byte(b / 16), hex_digit_byte(b % 16)]
    }
}

/// The percent-encoding of a byte sequence.
pub open spec fn pct_bytes(bytes: Seq<u8>) -> Seq<u8>
    decreases bytes.len(),
{
    if bytes.len() == 0 {
        Seq::empty()
    } else {
        pct_bytes(bytes.drop_last()) + pct_byte(bytes.last())
    }
}

/// The percent-encoding of a string: its UTF-8 bytes encoded, read back as
/// characters (every encoded byte is ASCII).
pub open spec fn pct_str(s: Seq<char>) -> Seq<char> {
    pct_bytes(encode_utf8(s)).map_values(|b: u8| b as char)
}

/// Every byte a percent-encoding produces is ASCII.
proof fn lemma_pct_bytes_ascii(bytes: Seq<u8>)
    ensures
        forall|i: int| 0 <= i < pct_bytes(bytes).len() ==> pct_bytes(bytes)[i] < 0x80,
    decreases bytes.len(),
{
    if bytes.len() > 0 {
        let prefix = pct_bytes(bytes.drop_last());
        let chunk = pct_byte(bytes.last());
        lemma_pct_bytes_ascii(bytes.drop_last());
        assert forall|i: int| 0 <= i < pct_bytes(bytes).len() implies pct_bytes(bytes)[i]
            < 0x80 by {
            assert(pct_bytes(bytes) == prefix + chunk);
            if i < prefix.len() {
                assert((prefix + chunk)[i] == prefix[i]);
            } else {
                assert((prefix + chunk)[i] == chunk[i - prefix.len()]);
            }
        }
    }
}

/// Relies on `String::from_utf8`: bytes below 0x80 are valid UTF-8 and
/// decode to the characters of the same code points.
#[verifier::external_body]
fn ascii_to_string(v: Vec<u8>) -> (r: String)
    requires
        forall|i: int| 0 <= i < v@.len() ==> v@[i] < 0x80,
    ensures
        r@ == v@.map_values(|b: u8| b as char),
{
    match String::from_utf8(v) {
        Ok(s) => s,
        Err(_) => String::new(),
    }
}

/// Whether a byte needs no escaping.
fn is_unreserved(b: u8) -> (r: bool)
    ensures
        r == is_unreserved_byte(b),
{
    (0x41 <= b && b <= 0x5a) || (0x61 <= b && b <= 0x7a) || (0x30 <= b && b <= 0x39) || b == 0x2d
        || b == 0x2e || b == 0x5f || b == 0x7e
}

/// The uppercase hexadecimal digit of a value below 16.
fn hex_digit(n: u8) -> (r: u8)
    requires
        n < 16,
    ensures
        r == hex_digit_byte(n),
{
    if n < 10 {
        0x30 + n
    } else {
        0x37 + n
    }
}

/// Percent-encodes a string: unreserved ASCII passes through, every other
/// UTF-8 byte becomes `%XX` with uppercase hexadecimal digits.
pub fn percent_encode(s: &str) -> (r: String)
    ensures
        r@ == pct_str(s@),
{
    let bytes: &[u8] = s.as_bytes();
    let mut out: Vec<u8> = Vec::new();
    let mut i: usize = 0;
    while i < bytes.len()
        invariant
            bytes@ == encode_utf8(s@),
            i <= bytes@.len(),
            out@ == pct_bytes(bytes@.take(i as int)),
        decreases bytes@.len() - i,
    {
        let b = bytes[i];
        if is_unreserved(b) {
            out.push(b);
        } else {
            out.push(0x25);
            out.push(hex_digit(b / 16));
            out.push(hex_digit(b % 16));
        }
        i += 1;
        proof {
            assert(bytes@.take(i as int).drop_last() =~= bytes@.take(i as int - 1));
            assert(bytes@.take(i as int).last() == bytes@[i as int - 1]);
            assert(out@ =~= pct_bytes(bytes@.take(i as int)));
        }
    }
    proof {
        assert(bytes@.take(bytes@.len() as int) =~= bytes@);
        lemma_pct_bytes_ascii(bytes@);
    }
    let r = ascii_to_string(out);
    proof {
        assert(r@ =~= pct_str(s@));
    }
    r
}

/// The values of one authorization request. `response_type` is always
/// `code` and `code_challenge_method` always `S256`, so they are not fields.
pub struct AuthRequestParams {
    /// This service's own root URI.
    pub client_uri: String,
    /// This service's callback endpoint.
    pub redirect_uri: String,
    /// Anti-CSRF token; the caller generates a fresh unguessable one per
    /// request.
    pub state: String,
    /// PKCE challenge; the caller derives it from a fresh code verifier per
    /// request.
    pub code_challenge: String,
    /// The profile URI being authenticated.
    pub me: String,
}

/// The query string of an authorization request: the fixed keys in a fixed,
/// stable order, every value percent-encoded.
pub open spec fn auth_query_of(p: AuthRequestParams) -> Seq<char> {
    "response_type=code&client_uri="@ + pct_str(p.client_uri@) + "&redirect_uri="@ + pct_str(
        p.redirect_uri@,
    ) + "&state="@ + pct_str(p.state@) + "&code_challenge="@ + pct_str(p.code_challenge@)
        + "&code_challenge_method=S256&me="@ + pct_str(p.me@)
}

/// Builds the authorization request URL: the endpoint, `?`, and the query
/// string with its deterministic key order.
pub fn build_auth_request(auth_endpoint: &str, params: &AuthRequestParams) -> (r: String)
    ensures
        r@ == auth_endpoint@ + "?"@ + auth_query_of(*params),
{
    let mut r = String::from_str(auth_endpoint);
    r.append("?");
    r.append("response_type=code&client_uri=");
    r.append(percent_encode(params.client_uri.as_str()).as_str());
    r.append("&redirect_uri=");
    r.append(percent_encode(params.redirect_uri.as_str()).as_str());
    r.append("&state=");
    r.append(percent_encode(params.state.as_str()).as_str());
    r.append("&code_challenge=");
    r.append(percent_encode(params.code_challenge.as_str()).as_str());
    r.append("&code_challenge_method=S256&me=");
    r.append(percent_encode(params.me.as_str()).as_str());
    proof {
        assert(r@ =~= auth_endpoint@ + "?"@ + auth_query_of(*params));
    }
    r
}

} // verus!
