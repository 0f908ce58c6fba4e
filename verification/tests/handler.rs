use hls_relay::handler::build_response;
use hls_relay::handler::cors_headers;
use hls_relay::handler::fetch_headers;
use hls_relay::handler::invalid_request_response;
use hls_relay::handler::is_manifest_url;
use hls_relay::handler::parse_request;
use hls_relay::handler::respond;
use hls_relay::handler::upstream_response;
use hls_relay::handler::RelayError;

fn some(s: &str) -> Option<String> {
    Some(s.to_string())
}

#[test]
fn missing_url_is_rejected_whatever_else_is_given() {
    let r = parse_request(None, some("https://r"), some("https://o"), some("yes"));
    assert!(matches!(r, Err(RelayError::MissingTarget)));
    let r = parse_request(None, None, None, None);
    let e = r.err().unwrap();
    let resp = invalid_request_response(&e);
    assert_eq!(resp.status, 400);
    assert_eq!(resp.body, "Invalid URL");
}

#[test]
fn overrides_are_carried_byte_for_byte() {
    let req = parse_request(
        some("https://cdn/x.m3u8"),
        some("https://site.example/page?a=1"),
        some(""),
        None,
    )
    .ok()
    .unwrap();
    assert_eq!(req.target_url, "https://cdn/x.m3u8");
    assert_eq!(req.referer, "https://site.example/page?a=1");
    assert_eq!(req.origin, "");
    assert!(!req.proxy_all);

    let headers = fetch_headers(&req);
    assert_eq!(headers.len(), 2);
    assert_eq!(headers[0].0, "Referer");
    assert_eq!(headers[0].1, "https://site.example/page?a=1");
    assert_eq!(headers[1].0, "Origin");
    assert_eq!(headers[1].1, "");
}

#[test]
fn defaults_are_empty_strings() {
    let req = parse_request(some("https://cdn/x"), None, None, None).ok().unwrap();
    assert_eq!(req.referer, "");
    assert_eq!(req.origin, "");
    assert!(!req.proxy_all);
}

#[test]
fn proxy_all_needs_the_literal_yes() {
    let req = parse_request(some("u"), None, None, some("yes")).ok().unwrap();
    assert!(req.proxy_all);
    let req = parse_request(some("u"), None, None, some("no")).ok().unwrap();
    assert!(!req.proxy_all);
    let req = parse_request(some("u"), None, None, some("YES")).ok().unwrap();
    assert!(!req.proxy_all);
}

#[test]
fn content_type_defaults_when_absent() {
    let up = upstream_response(200, None, "body".to_string());
    assert_eq!(up.content_type, "application/vnd.apple.mpegurl");
    let up = upstream_response(200, some("text/html"), "body".to_string());
    assert_eq!(up.content_type, "text/html");
}

#[test]
fn manifest_detection_looks_for_m3u8() {
    assert!(is_manifest_url("https://h/a.m3u8"));
    assert!(is_manifest_url("https://h/a.m3u8?tok=1"));
    assert!(!is_manifest_url("https://h/a.ts"));
    assert!(!is_manifest_url(""));
    assert!(!is_manifest_url("m3u8"));
}

#[test]
fn non_manifest_body_passes_through_untouched() {
    let req = parse_request(some("https://cdn/video.ts"), some("R"), None, None).ok().unwrap();
    let up = upstream_response(206, some("video/mp2t"), "rawseg bytes\nmore".to_string());
    let resp = build_response(&req, up);
    assert_eq!(resp.status, 206);
    assert_eq!(resp.content_type, "video/mp2t");
    assert_eq!(resp.body, "rawseg bytes\nmore");
}

#[test]
fn manifest_body_is_rewritten() {
    let req = parse_request(
        some("https://cdn.example/live/index.m3u8"),
        some("https://site.example"),
        None,
        None,
    )
    .ok()
    .unwrap();
    let up = upstream_response(200, None, "#EXTINF:10,\nseg0.ts\n".to_string());
    let resp = build_response(&req, up);
    assert_eq!(resp.status, 200);
    assert_eq!(
        resp.body,
        "#EXTINF:10,\n?url=https%3A%2F%2Fcdn.example%2Flive%2Fseg0.ts&referer=https%3A%2F%2Fsite.example\n"
    );
}

#[test]
fn upstream_status_is_mirrored_even_when_not_2xx() {
    let req = parse_request(some("https://cdn/e.m3u8"), None, None, None).ok().unwrap();
    let up = upstream_response(404, some("text/plain"), "#gone".to_string());
    let resp = build_response(&req, up);
    assert_eq!(resp.status, 404);
    assert_eq!(resp.body, "#gone");
}

#[test]
fn transport_failure_becomes_500_with_error_text() {
    let req = parse_request(some("https://cdn/x.m3u8"), None, None, None).ok().unwrap();
    let resp = respond(&req, Err("connect timed out".to_string()));
    assert_eq!(resp.status, 500);
    assert_eq!(resp.body, "connect timed out");
    assert_eq!(resp.content_type, "text/plain");
}

#[test]
fn every_response_carries_the_cors_headers() {
    let h = cors_headers();
    assert_eq!(h.len(), 3);
    assert_eq!(h[0], ("Access-Control-Allow-Origin".to_string(), "*".to_string()));
    assert_eq!(h[1], ("Access-Control-Allow-Headers".to_string(), "*".to_string()));
    assert_eq!(h[2], ("Access-Control-Allow-Methods".to_string(), "*".to_string()));
}
