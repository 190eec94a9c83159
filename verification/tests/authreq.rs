use scones::authreq::{build_auth_request, percent_encode, AuthRequestParams};

#[test]
fn unreserved_characters_pass_through() {
    assert_eq!(
        percent_encode("ABCxyz019-._~"),
        "ABCxyz019-._~"
    );
}

#[test]
fn reserved_characters_are_escaped() {
    assert_eq!(percent_encode("a b/c"), "a%20b%2Fc");
    assert_eq!(percent_encode("https://x.example/"), "https%3A%2F%2Fx.example%2F");
    assert_eq!(percent_encode("k=v&k2=v2"), "k%3Dv%26k2%3Dv2");
    assert_eq!(percent_encode(""), "");
}

#[test]
fn multibyte_characters_escape_every_byte() {
    assert_eq!(percent_encode("\u{e9}"), "%C3%A9");
    assert_eq!(percent_encode("a\u{e9}b"), "a%C3%A9b");
}

#[test]
fn auth_request_has_stable_key_order_and_encoded_values() {
    let params = AuthRequestParams {
        client_uri: "https://scones.fly.dev/".to_string(),
        redirect_uri: "https://scones.fly.dev/client".to_string(),
        state: "st4te".to_string(),
        code_challenge: "ch4llenge".to_string(),
        me: "https://alice.example/".to_string(),
    };
    let request = build_auth_request("https://scones.fly.dev/auth", &params);
    assert_eq!(
        request,
        "https://scones.fly.dev/auth?response_type=code&client_uri=https%3A%2F%2Fscones.fly.dev%2F&redirect_uri=https%3A%2F%2Fscones.fly.dev%2Fclient&state=st4te&code_challenge=ch4llenge&code_challenge_method=S256&me=https%3A%2F%2Falice.example%2F"
    );
}

#[test]
fn auth_request_is_deterministic() {
    let params = AuthRequestParams {
        client_uri: "https://scones.fly.dev/".to_string(),
        redirect_uri: "https://scones.fly.dev/client".to_string(),
        state: "s".to_string(),
        code_challenge: "c".to_string(),
        me: "https://alice.example/".to_string(),
    };
    let first = build_auth_request("https://scones.fly.dev/auth", &params);
    let second = build_auth_request("https://scones.fly.dev/auth", &params);
    assert_eq!(first, second);
}
