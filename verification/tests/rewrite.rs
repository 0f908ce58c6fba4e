use hls_relay::rewrite::rewrite;
use hls_relay::rewrite::rewrite_key_line;
use hls_relay::rewrite::rewrite_line;
use hls_relay::rewrite::rewrite_uri_line;

#[test]
fn relative_line_resolves_against_manifest_dir() {
    let out = rewrite("seg1.ts", "https://h/a/b/c.m3u8", "", "", false);
    assert_eq!(out, "?url=https%3A%2F%2Fh%2Fa%2Fb%2Fseg1.ts&referer=");
}

#[test]
fn relative_line_with_referer_and_origin() {
    let out = rewrite(
        "seg1.ts",
        "https://h/a/b/c.m3u8",
        "https://site.example",
        "https://page.example",
        false,
    );
    assert_eq!(
        out,
        "?url=https%3A%2F%2Fh%2Fa%2Fb%2Fseg1.ts&referer=https%3A%2F%2Fsite.example&origin=https%3A%2F%2Fpage.example"
    );
}

#[test]
fn empty_origin_is_left_out() {
    let out = rewrite("seg1.ts", "https://h/a/b/c.m3u8", "R", "", false);
    assert_eq!(out, "?url=https%3A%2F%2Fh%2Fa%2Fb%2Fseg1.ts&referer=R");
    assert!(!out.contains("&origin="));
}

#[test]
fn absolute_line_under_proxy_all_is_appended_verbatim() {
    let out = rewrite("http://cdn/seg1.ts", "https://x/y.m3u8", "R", "", true);
    assert_eq!(out, "https://x/y.m3u8?url=http://cdn/seg1.ts");
}

#[test]
fn relative_line_under_proxy_all_still_resolves() {
    let out = rewrite("seg1.ts", "https://h/a/b/c.m3u8", "", "", true);
    assert_eq!(out, "?url=https%3A%2F%2Fh%2Fa%2Fb%2Fseg1.ts&referer=");
}

#[test]
fn absolute_line_without_proxy_all_is_normalized_and_encoded() {
    let out = rewrite("http://cdn", "https://h/x.m3u8", "", "", false);
    assert_eq!(out, "?url=http%3A%2F%2Fcdn%2F&referer=");
}

#[test]
fn key_tag_uri_is_rewritten_in_place() {
    let line = "#EXT-X-KEY:METHOD=AES-128,URI=\"https://k/key1\"";
    let out = rewrite(line, "https://h/x.m3u8", "R", "", false);
    assert_eq!(
        out,
        "#EXT-X-KEY:METHOD=AES-128,URI=\"?url=https%3A%2F%2Fk%2Fkey1&referer=R\""
    );
}

#[test]
fn key_tag_without_uri_is_unchanged() {
    let line = "#EXT-X-KEY:METHOD=NONE";
    let out = rewrite_key_line(line, "R");
    assert_eq!(out, line);
}

#[test]
fn key_tag_with_two_uris_rewrites_both() {
    let line = "#EXT-X-KEY:URI=\"https://k/a\",IV=0x1,BACKUP=\"http://k2/b\"";
    let out = rewrite_key_line(line, "");
    assert_eq!(
        out,
        "#EXT-X-KEY:URI=\"?url=https%3A%2F%2Fk%2Fa&referer=\",IV=0x1,BACKUP=\"?url=http%3A%2F%2Fk2%2Fb&referer=\""
    );
}

#[test]
fn comment_lines_and_blank_lines_pass_through() {
    let body = "#EXTM3U\n\n   \n#EXT-X-VERSION:3";
    let out = rewrite(body, "https://h/x.m3u8", "R", "O", false);
    assert_eq!(out, body);
}

#[test]
fn line_count_is_kept() {
    let body = "#EXTM3U\n#EXTINF:10,\nseg0.ts\n\nbad url line\n#EXT-X-ENDLIST\n";
    let out = rewrite(body, "https://cdn/live/index.m3u8", "R", "", false);
    let count = |s: &str| s.split('\n').count();
    assert_eq!(count(&out), count(body));
}

#[test]
fn unresolvable_line_is_passed_through() {
    let out = rewrite("seg.ts", "notaurl", "R", "", false);
    assert_eq!(out, "seg.ts");
}

#[test]
fn whole_manifest_scenario() {
    let body = "#EXTINF:10,\nseg0.ts\n";
    let out = rewrite(
        body,
        "https://cdn.example/live/index.m3u8",
        "https://site.example",
        "",
        false,
    );
    assert_eq!(
        out,
        "#EXTINF:10,\n?url=https%3A%2F%2Fcdn.example%2Flive%2Fseg0.ts&referer=https%3A%2F%2Fsite.example\n"
    );
}

#[test]
fn single_line_helpers_agree_with_whole_body_rewrite() {
    let murl = "https://h/a/b/c.m3u8";
    assert_eq!(
        rewrite_line("seg1.ts", murl, "R", "", false),
        rewrite_uri_line("seg1.ts", murl, "R", "", false)
    );
    assert_eq!(rewrite_line("#x", murl, "R", "", false), "#x");
    assert_eq!(rewrite_line("", murl, "R", "", false), "");
}

#[test]
fn crlf_line_endings_keep_the_carriage_return_on_passthrough_lines() {
    let body = "#EXTM3U\r\n#EXT-X-VERSION:3\r";
    let out = rewrite(body, "https://h/x.m3u8", "", "", false);
    assert_eq!(out, body);
}
