use scones::relme::{
    extract_auth_endpoint, extract_rel_me_links, links_back, rel_contains_me, FetchError,
};
use scones::site_url::SiteUrl;

#[test]
fn extract_auth_endpoint_works() {
    let html = r#"
        <html>
            <head>
                <link rel="authorization_endpoint" href="https://scones.fly.dev/auth">
            </head>
            <body>
            <h1>Test</h1>
            </body>
        </html>
        "#
    .to_string();
    let actual_result = extract_auth_endpoint(html);
    let expected_result = "https://scones.fly.dev/auth".to_string();
    assert_eq!(expected_result, actual_result)
}

#[test]
fn extract_rel_me_links_one_link() {
    let html = r#"
        <html>
        <a rel="me" href="https://scones.fly.dev/auth">
            <body>
            <h1>Test</h1>
            </body>
        </html>
        "#
    .to_string();

    let actual_result = extract_rel_me_links(html);
    let mut expected_result = Vec::new();
    expected_result.push(SiteUrl::parse("https://scones.fly.dev/auth").unwrap());
    assert_eq!(expected_result, actual_result)
}

#[test]
fn extract_rel_me_links_two_links() {
    let html = r#"
        <html>
        <a rel="me" href="https://scones.fly.dev/1">
        <a rel="nofollow me" href="https://scones.fly.dev/2">
            <body>
            <h1>Test</h1>
            </body>
        </html>
        "#
    .to_string();

    let actual_result = extract_rel_me_links(html);
    let mut expected_result = Vec::new();
    expected_result.push(SiteUrl::parse("https://scones.fly.dev/1").unwrap());
    expected_result.push(SiteUrl::parse("https://scones.fly.dev/2").unwrap());
    assert_eq!(expected_result, actual_result)
}

#[test]
fn extract_rel_me_links_no_links() {
    let html = r#"
        <html>
        <a rel="you" href="https://scones.fly.dev/">
            <body>
            <h1>Test</h1>
            </body>
        </html>
        "#
    .to_string();

    let actual_result: Vec<SiteUrl> = extract_rel_me_links(html);
    let expected_result: Vec<SiteUrl> = Vec::new();
    assert_eq!(expected_result, actual_result)
}

#[test]
fn rel_me_links_literal_pair_in_document_order() {
    let html = r#"<a rel="me" href="https://scones.fly.dev/1"><a rel="nofollow me" href="https://scones.fly.dev/2">"#
        .to_string();
    let links = extract_rel_me_links(html);
    let texts: Vec<&str> = links.iter().map(|u| u.as_str()).collect();
    assert_eq!(texts, vec!["https://scones.fly.dev/1", "https://scones.fly.dev/2"]);
}

#[test]
fn rel_substring_is_not_a_token() {
    // "homepage" contains "me" as a substring but not as a token.
    let html = r#"<a rel="homepage" href="https://scones.fly.dev/1">"#.to_string();
    assert!(extract_rel_me_links(html).is_empty());
    assert!(!rel_contains_me("homepage"));
    assert!(!rel_contains_me("meme"));
    assert!(!rel_contains_me("some"));
    assert!(rel_contains_me("me"));
    assert!(rel_contains_me("nofollow me"));
    assert!(rel_contains_me("me nofollow"));
    assert!(rel_contains_me("a me b"));
}

#[test]
fn anchor_without_rel_is_skipped() {
    let html = r#"<a href="https://scones.fly.dev/1">"#.to_string();
    assert!(extract_rel_me_links(html).is_empty());
}

#[test]
fn unparseable_href_is_skipped_not_fatal() {
    let html = r#"<a rel="me" href="not an absolute url"><a rel="me" href="https://scones.fly.dev/2">"#
        .to_string();
    let links = extract_rel_me_links(html);
    assert_eq!(links.len(), 1);
    assert_eq!(links[0].as_str(), "https://scones.fly.dev/2");
}

#[test]
fn auth_endpoint_literal_link() {
    let html = r#"<link rel="authorization_endpoint" href="https://scones.fly.dev/auth">"#
        .to_string();
    assert_eq!(extract_auth_endpoint(html), "https://scones.fly.dev/auth");
}

#[test]
fn auth_endpoint_absent_yields_empty_string() {
    let html = r#"<html><link rel="stylesheet" href="/style.css"><body></body></html>"#
        .to_string();
    assert_eq!(extract_auth_endpoint(html), "");
}

#[test]
fn auth_endpoint_later_link_wins() {
    let html = r#"<link rel="authorization_endpoint" href="https://scones.fly.dev/first"><link rel="authorization_endpoint" href="https://scones.fly.dev/second">"#
        .to_string();
    assert_eq!(extract_auth_endpoint(html), "https://scones.fly.dev/second");
}

#[test]
fn auth_endpoint_requires_exact_rel_match() {
    // The single-token exact match, unlike the multi-token rel=me case.
    let html = r#"<link rel="authorization_endpoint extra" href="https://scones.fly.dev/auth">"#
        .to_string();
    assert_eq!(extract_auth_endpoint(html), "");
}

#[test]
fn extraction_is_idempotent() {
    let html = r#"<link rel="authorization_endpoint" href="https://scones.fly.dev/auth"><a rel="me" href="https://scones.fly.dev/1">"#;
    let first_links = extract_rel_me_links(html.to_string());
    let second_links = extract_rel_me_links(html.to_string());
    assert_eq!(first_links, second_links);
    let first_endpoint = extract_auth_endpoint(html.to_string());
    let second_endpoint = extract_auth_endpoint(html.to_string());
    assert_eq!(first_endpoint, second_endpoint);
}

#[test]
fn links_back_false_on_fetch_failure() {
    let target = SiteUrl::parse("https://alice.example/").unwrap();
    let fetched: Result<String, FetchError> =
        Err(FetchError::Unreachable("connection refused".to_string()));
    assert!(!links_back(&fetched, &target));
}

#[test]
fn links_back_true_on_exact_backlink() {
    let target = SiteUrl::parse("https://alice.example/").unwrap();
    let fetched: Result<String, FetchError> =
        Ok(r#"<a rel="me" href="https://alice.example/">"#.to_string());
    assert!(links_back(&fetched, &target));
}

#[test]
fn links_back_false_without_matching_link() {
    let target = SiteUrl::parse("https://alice.example/").unwrap();
    // Linked, but not with rel=me; and rel=me, but to someone else.
    let fetched: Result<String, FetchError> = Ok(
        r#"<a href="https://alice.example/"><a rel="me" href="https://bob.example/">"#.to_string(),
    );
    assert!(!links_back(&fetched, &target));
}

#[test]
fn links_back_needs_exact_url_equality() {
    // No trailing-slash normalization: /a and /a/ differ.
    let target = SiteUrl::parse("https://alice.example/a").unwrap();
    let fetched: Result<String, FetchError> =
        Ok(r#"<a rel="me" href="https://alice.example/a/">"#.to_string());
    assert!(!links_back(&fetched, &target));
}

#[test]
fn fetch_error_carries_its_cause() {
    let error = FetchError::Unreachable("timed out".to_string());
    assert_eq!(error.cause(), "timed out");
}

#[test]
fn me_anchor_without_href_is_skipped() {
    // The missing href counts as the empty string, which parses as no URL.
    let html = r#"<a rel="me">me without a target</a>"#.to_string();
    assert!(extract_rel_me_links(html).is_empty());
}

#[test]
fn later_auth_link_without_href_overwrites_with_empty() {
    // Last-wins accumulation: the later matching link counts even when its
    // missing href leaves the empty string.
    let html = r#"<link rel="authorization_endpoint" href="https://scones.fly.dev/auth"><link rel="authorization_endpoint">"#
        .to_string();
    assert_eq!(extract_auth_endpoint(html), "");
}
