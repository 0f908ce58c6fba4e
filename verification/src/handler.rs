//! The relay handler's decisions: validating the inbound query, defaulting
//! the upstream content type, choosing whether to rewrite, and assembling
//! the outbound response. The network itself stays outside the library; the
//! caller hands in what was fetched.

use vstd::prelude::*;

use crate::rewrite::rewrite;
use crate::rewrite::rewrite_spec;
use crate::text::line_count;
use crate::text::nl_free;

verus! {

/// A validated inbound request: the target to fetch, the override headers
/// to force onto the outbound request, and the full-proxy flag.
pub struct ProxyRequest {
    pub target_url: String,
    pub referer: String,
    pub origin: String,
    pub proxy_all: bool,
}

/// Why an inbound request was turned away.
#[derive(Clone, Copy, Debug, PartialEq, Eq, Structural)]
pub enum RelayError {
    /// The `url` query parameter was missing.
    MissingTarget,
}

impl RelayError {
    /// The HTTP status the error maps to.
    pub fn status(&self) -> (s: u16)
        ensures
            s == 400,
    {
        400
    }

    /// The body text of the mapped response.
    pub fn message(&self) -> (m: String)
        ensures
            m@ == "Invalid URL"@,
    {
        "Invalid URL".to_owned()
    }
}

/// What the upstream answered: its status, its content type (already
/// defaulted), and its body text.
pub struct UpstreamResponse {
    pub status: u16,
    pub content_type: String,
    pub body: String,
}

/// The response handed back to the client.
pub struct RelayResponse {
    pub status: u16,
    pub content_type: String,
    pub body: String,
}

/// The content type assumed when the upstream names none.
pub open spec fn default_content_type() -> Seq<char> {
    "application/vnd.apple.mpegurl"@
}

/// `.m3u8` occurs somewhere in `s` starting at `i`.
pub open spec fn m3u8_at(s: Seq<char>, i: int) -> bool {
    0 <= i && i + 5 <= s.len() && s[i] == '.' && s[i + 1] == 'm' && s[i + 2] == '3' && s[i + 3]
        == 'u' && s[i + 4] == '8'
}

/// The URL names a manifest: it contains `.m3u8`.
pub open spec fn is_manifest_target(s: Seq<char>) -> bool {
    exists|i: int| m3u8_at(s, i)
}

/// Validates the raw query parameters. A request without `url` is turned
/// away; `referer` and `origin` default to the empty string and are carried
/// byte for byte; `all=yes` (and nothing else) switches full-proxy mode on.
pub fn parse_request(
    url: Option<String>,
    referer: Option<String>,
    origin: Option<String>,
    all: Option<String>,
) -> (r: Result<ProxyRequest, RelayError>)
    ensures
        url is None <==> r is Err,
        match r {
            Err(e) => e == RelayError::MissingTarget,
            Ok(req) => {
                &&& req.target_url@ == url.unwrap()@
                &&& req.referer@ == (match referer {
                    Some(s) => s@,
                    None => Seq::<char>::empty(),
                })
                &&& req.origin@ == (match origin {
                    Some(s) => s@,
                    None => Seq::<char>::empty(),
                })
                &&& req.proxy_all == (match all {
                    Some(s) => s@ == "yes"@,
                    None => false,
                })
            },
        },
{
    match url {
        None => Err(RelayError::MissingTarget),
        Some(u) => {
            let referer_v = match referer {
                Some(s) => s,
                None => String::new(),
            };
            let origin_v = match origin {
                Some(s) => s,
                None => String::new(),
            };
            let proxy_all = match &all {
                Some(s) => {
                    let yes = "yes".to_owned();
                    *s == yes
                },
                None => false,
            };
            Ok(
                ProxyRequest {
                    target_url: u,
                    referer: referer_v,
                    origin: origin_v,
                    proxy_all,
                },
            )
        },
    }
}

/// Shapes what the upstream answered, defaulting the content type when the
/// upstream named none.
pub fn upstream_response(status: u16, content_type: Option<String>, body: String) -> (r:
    UpstreamResponse)
    ensures
        r.status == status,
        match content_type {
            Some(ct) => r.content_type@ == ct@,
            None => r.content_type@ == default_content_type(),
        },
        r.body@ == body@,
{
    let ct = match content_type {
        Some(c) => c,
        None => "application/vnd.apple.mpegurl".to_owned(),
    };
    UpstreamResponse { status, content_type: ct, body }
}

/// Decides whether the target names a manifest.
pub fn is_manifest_url(url: &str) -> (b: bool)
    ensures
        b == is_manifest_target(url@),
{
    let n = url.unicode_len();
    if n < 5 {
        proof {
            assert forall|i: int| !m3u8_at(url@, i) by {}
        }
        return false;
    }
    let mut i: usize = 0;
    while i <= n - 5
        invariant
            n == url@.len(),
            5 <= n,
            i <= n - 4,
            forall|j: int| 0 <= j < i ==> !m3u8_at(url@, j),
        decreases n - i,
    {
        if url.get_char(i) == '.' && url.get_char(i + 1) == 'm' && url.get_char(i + 2) == '3'
            && url.get_char(i + 3) == 'u' && url.get_char(i + 4) == '8' {
            assert(m3u8_at(url@, i as int));
            return true;
        }
        i = i + 1;
    }
    proof {
        assert forall|j: int| !m3u8_at(url@, j) by {
            if 0 <= j < i {
            }
        }
    }
    false
}

/// Assembles the outbound response from a successful fetch: the status and
/// content type are mirrored, and the body is rewritten exactly when the
/// target URL names a manifest — otherwise it passes through untouched.
pub fn build_response(req: &ProxyRequest, upstream: UpstreamResponse) -> (r: RelayResponse)
    ensures
        r.status == upstream.status,
        r.content_type@ == upstream.content_type@,
        is_manifest_target(req.target_url@) ==> r.body@ == rewrite_spec(
            upstream.body@,
            req.target_url@,
            req.referer@,
            req.origin@,
            req.proxy_all,
        ),
        !is_manifest_target(req.target_url@) ==> r.body@ == upstream.body@,
        is_manifest_target(req.target_url@) && nl_free(req.target_url@) ==> line_count(r.body@)
            == line_count(upstream.body@),
{
    let body = if is_manifest_url(req.target_url.as_str()) {
        rewrite(
            upstream.body.as_str(),
            req.target_url.as_str(),
            req.referer.as_str(),
            req.origin.as_str(),
            req.proxy_all,
        )
    } else {
        upstream.body
    };
    RelayResponse { status: upstream.status, content_type: upstream.content_type, body }
}

/// The response for a request whose fetch failed in transport: a 500 with
/// the error text as body.
pub fn fetch_error_response(message: String) -> (r: RelayResponse)
    ensures
        r.status == 500,
        r.content_type@ == "text/plain"@,
        r.body@ == message@,
{
    RelayResponse { status: 500, content_type: "text/plain".to_owned(), body: message }
}

/// The response for a request that was turned away at validation.
pub fn invalid_request_response(e: &RelayError) -> (r: RelayResponse)
    ensures
        r.status == 400,
        r.content_type@ == "text/plain"@,
        r.body@ == "Invalid URL"@,
{
    RelayResponse { status: e.status(), content_type: "text/plain".to_owned(), body: e.message() }
}

/// The final handler step: turns the fetch outcome into the outbound
/// response. A transport failure becomes a 500 carrying the error text; a
/// fetched body is rewritten exactly when the target names a manifest.
pub fn respond(req: &ProxyRequest, fetched: Result<UpstreamResponse, String>) -> (r: RelayResponse)
    ensures
        match fetched {
            Err(msg) => r.status == 500 && r.content_type@ == "text/plain"@ && r.body@ == msg@,
            Ok(up) => {
                &&& r.status == up.status
                &&& r.content_type@ == up.content_type@
                &&& is_manifest_target(req.target_url@) ==> r.body@ == rewrite_spec(
                    up.body@,
                    req.target_url@,
                    req.referer@,
                    req.origin@,
                    req.proxy_all,
                )
                &&& !is_manifest_target(req.target_url@) ==> r.body@ == up.body@
            },
        },
{
    match fetched {
        Err(msg) => fetch_error_response(msg),
        Ok(up) => build_response(req, up),
    }
}

/// The headers the outbound fetch must carry: the caller's `Referer` and
/// `Origin` overrides, byte for byte — an empty override is still sent.
pub fn fetch_headers(req: &ProxyRequest) -> (r: Vec<(String, String)>)
    ensures
        r@.len() == 2,
        r@[0].0@ == "Referer"@ && r@[0].1@ == req.referer@,
        r@[1].0@ == "Origin"@ && r@[1].1@ == req.origin@,
{
    let mut r: Vec<(String, String)> = Vec::new();
    r.push(("Referer".to_owned(), req.referer.clone()));
    r.push(("Origin".to_owned(), req.origin.clone()));
    r
}

/// The CORS headers that every relay response carries.
pub fn cors_headers() -> (r: Vec<(String, String)>)
    ensures
        r@.len() == 3,
        r@[0].0@ == "Access-Control-Allow-Origin"@ && r@[0].1@ == "*"@,
        r@[1].0@ == "Access-Control-Allow-Headers"@ && r@[1].1@ == "*"@,
        r@[2].0@ == "Access-Control-Allow-Methods"@ && r@[2].1@ == "*"@,
{
    let mut r: Vec<(String, String)> = Vec::new();
    r.push(("Access-Control-Allow-Origin".to_owned(), "*".to_owned()));
    r.push(("Access-Control-Allow-Headers".to_owned(), "*".to_owned()));
    r.push(("Access-Control-Allow-Methods".to_owned(), "*".to_owned()));
    r
}

} // verus!
