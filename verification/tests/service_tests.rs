use shortlink::errors::LinkError;
use shortlink::http::{AppError, PongResponse};
use shortlink::service::{create_link, get_stats, redirect};
use shortlink::store::LinkStore;

fn is_alphanumeric(s: &str) -> bool {
    s.chars().all(|c| c.is_ascii_alphanumeric())
}

/// The short key and token a creation wove into its response URLs.
fn parse_response(short_url: &str, stats_url: &str, hostname: &str, scheme: &str) -> (String, String) {
    let prefix = format!("{}://{}/", scheme, hostname);
    assert!(short_url.starts_with(&prefix), "short url misses its prefix");
    let key = short_url[prefix.len()..].to_string();
    let stats_prefix = format!("{}/info?token=", short_url);
    assert!(stats_url.starts_with(&stats_prefix), "stats url misses its prefix");
    let token = stats_url[stats_prefix.len()..].to_string();
    (key, token)
}

#[test]
fn create_returns_wellformed_urls() {
    let mut store = LinkStore::new();
    let url = String::from("https://example.com");
    let resp = create_link(&mut store, &url, &String::from("example.org"), &String::from("http"))
        .expect("creation against an empty store succeeds");
    let (key, token) = parse_response(&resp.short_url, &resp.stats_url, "example.org", "http");
    assert_eq!(key.len(), 6);
    assert!(is_alphanumeric(&key));
    assert_eq!(token.len(), 24);
    assert!(is_alphanumeric(&token));
}

#[test]
fn created_short_url_redirects_to_submitted_url() {
    let mut store = LinkStore::new();
    let url = String::from("https://example.com");
    let resp = create_link(&mut store, &url, &String::from("example.org"), &String::from("http"))
        .expect("creation against an empty store succeeds");
    let (key, _token) = parse_response(&resp.short_url, &resp.stats_url, "example.org", "http");
    let destination = redirect(&mut store, &key).expect("a created key redirects");
    assert_eq!(destination, "https://example.com");
}

#[test]
fn unknown_key_fails_with_not_found() {
    let mut store = LinkStore::new();
    assert_eq!(redirect(&mut store, &String::from("abc123")), Err(LinkError::NotFound));
    assert_eq!(
        get_stats(&store, &String::from("abc123"), &Some(String::from("whatever"))).unwrap_err(),
        LinkError::NotFound
    );
    assert_eq!(
        get_stats(&store, &String::from("abc123"), &None).unwrap_err(),
        LinkError::NotFound
    );
}

#[test]
fn stats_without_token_fail_with_not_found() {
    let mut store = LinkStore::new();
    let url = String::from("https://example.com");
    let resp = create_link(&mut store, &url, &String::from("example.org"), &String::from("http"))
        .expect("creation against an empty store succeeds");
    let (key, _token) = parse_response(&resp.short_url, &resp.stats_url, "example.org", "http");
    assert_eq!(get_stats(&store, &key, &None).unwrap_err(), LinkError::NotFound);
}

#[test]
fn stats_with_wrong_token_fail_with_unauthorized() {
    let mut store = LinkStore::new();
    let url = String::from("https://example.com");
    let resp = create_link(&mut store, &url, &String::from("example.org"), &String::from("http"))
        .expect("creation against an empty store succeeds");
    let (key, token) = parse_response(&resp.short_url, &resp.stats_url, "example.org", "http");
    let mut wrong = token.clone();
    wrong.push('x');
    assert_eq!(get_stats(&store, &key, &Some(wrong)).unwrap_err(), LinkError::Unauthorized);
    assert_eq!(
        get_stats(&store, &key, &Some(String::new())).unwrap_err(),
        LinkError::Unauthorized
    );
}

#[test]
fn stats_with_exact_token_count_successful_redirects() {
    let mut store = LinkStore::new();
    let url = String::from("https://example.com");
    let resp = create_link(&mut store, &url, &String::from("example.org"), &String::from("http"))
        .expect("creation against an empty store succeeds");
    let (key, token) = parse_response(&resp.short_url, &resp.stats_url, "example.org", "http");

    let fresh = get_stats(&store, &key, &Some(token.clone())).expect("the exact token authorizes");
    assert_eq!(fresh.clicks, 0);
    assert_eq!(fresh.short_key, key);
    assert_eq!(fresh.url, "https://example.com");
    assert_eq!(fresh.token, token);

    redirect(&mut store, &key).expect("a created key redirects");
    redirect(&mut store, &key).expect("a created key redirects");
    let seen = get_stats(&store, &key, &Some(token)).expect("the exact token authorizes");
    assert_eq!(seen.clicks, 2);
}

#[test]
fn same_candidate_key_is_claimed_at_most_once() {
    // Three creations that drew the same candidate, serialized at the store:
    // only the first insertion claims the key.
    let mut store = LinkStore::new();
    let key = String::from("abc123");
    let first = store.insert(&key, &String::from("https://one.example"), &String::from("t1"));
    let second = store.insert(&key, &String::from("https://two.example"), &String::from("t2"));
    let third = store.insert(&key, &String::from("https://three.example"), &String::from("t3"));
    assert!(first.is_ok());
    assert_eq!(second.unwrap_err(), LinkError::StoreError);
    assert_eq!(third.unwrap_err(), LinkError::StoreError);
    let rec = store.get(&key).expect("the first insertion stands");
    assert_eq!(rec.url, "https://one.example");
    assert_eq!(rec.token, "t1");
}

#[test]
fn store_probes_report_existing_keys() {
    let mut store = LinkStore::new();
    let key = String::from("abc123");
    assert_eq!(store.check_key_exists(&key), Ok(false));
    store.insert(&key, &String::from("https://example.com"), &String::from("t")).unwrap();
    assert_eq!(store.check_key_exists(&key), Ok(true));
}

#[test]
fn increment_counts_only_existing_keys() {
    let mut store = LinkStore::new();
    let key = String::from("abc123");
    assert_eq!(store.increment_clicks(&key), Err(LinkError::NotFound));
    store.insert(&key, &String::from("https://example.com"), &String::from("t")).unwrap();
    assert_eq!(store.increment_clicks(&key), Ok(()));
    assert_eq!(store.get(&key).unwrap().clicks, 1);
}

#[test]
fn error_status_codes_match_the_http_surface() {
    assert_eq!(LinkError::GenerationExhausted.status_code(), 500);
    assert_eq!(LinkError::StoreError.status_code(), 500);
    assert_eq!(LinkError::NotFound.status_code(), 404);
    assert_eq!(LinkError::Unauthorized.status_code(), 401);
}

#[test]
fn ping_answers_pong_and_app_error_is_internal() {
    assert_eq!(PongResponse::pong().message, "pong");
    assert_eq!(AppError::InternalServerError.status_code(), 500);
    assert_eq!(AppError::InternalServerError.message(), "Internal server error");
}
