//! The manifest rewriter: classifies each line of an HLS playlist and
//! re-emits every sub-resource reference as a self-referential proxied URL
//! that carries the caller's override parameters forward.

use vstd::prelude::*;

use crate::encode::enc_of;
use crate::encode::percent_encode;
use crate::resolve::resolve_of;
use crate::resolve::resolve_reference;
use crate::text::nl_free;

verus! {

/// Whitespace, over the ASCII range.
pub open spec fn is_space(c: char) -> bool {
    c == ' ' || c == '\t' || c == '\n' || c == '\r' || c == '\u{b}' || c == '\u{c}'
}

/// A line whose characters are all whitespace (the empty line among them).
pub open spec fn is_blank(line: Seq<char>) -> bool {
    forall|j: int| 0 <= j < line.len() ==> is_space(#[trigger] line[j])
}

/// A line that starts a tag or comment.
pub open spec fn is_comment(line: Seq<char>) -> bool {
    line.len() > 0 && line[0] == '#'
}

/// A line that carries an encryption-key tag.
pub open spec fn is_key_tag(line: Seq<char>) -> bool {
    line.len() >= 11 && line[0] == '#' && line[1] == 'E' && line[2] == 'X' && line[3] == 'T'
        && line[4] == '-' && line[5] == 'X' && line[6] == '-' && line[7] == 'K' && line[8] == 'E'
        && line[9] == 'Y' && line[10] == ':'
}

/// A line that already begins with `http`.
pub open spec fn starts_with_http(line: Seq<char>) -> bool {
    line.len() >= 4 && line[0] == 'h' && line[1] == 't' && line[2] == 't' && line[3] == 'p'
}

/// A character that can stand inside an embedded URI: anything but
/// whitespace and quotes.
pub open spec fn is_uri_char(c: char) -> bool {
    !is_space(c) && c != '"' && c != '\''
}

/// Length of the scheme prefix (`http://` or `https://`) at `i`; 0 when
/// there is none.
pub open spec fn scheme_len_at(s: Seq<char>, i: int) -> int {
    if i >= 0 && i + 8 <= s.len() && s[i] == 'h' && s[i + 1] == 't' && s[i + 2] == 't' && s[i + 3]
        == 'p' && s[i + 4] == 's' && s[i + 5] == ':' && s[i + 6] == '/' && s[i + 7] == '/' {
        8
    } else if i >= 0 && i + 7 <= s.len() && s[i] == 'h' && s[i + 1] == 't' && s[i + 2] == 't' && s[i
        + 3] == 'p' && s[i + 4] == ':' && s[i + 5] == '/' && s[i + 6] == '/' {
        7
    } else {
        0
    }
}

/// Length of the run of URI characters starting at `i`.
pub open spec fn run_len(s: Seq<char>, i: int) -> nat
    decreases s.len() - i,
{
    if 0 <= i < s.len() && is_uri_char(s[i]) {
        1 + run_len(s, i + 1)
    } else {
        0
    }
}

/// An embedded absolute URI begins at `i`: a scheme prefix followed by at
/// least one URI character.
pub open spec fn match_at(s: Seq<char>, i: int) -> bool {
    scheme_len_at(s, i) > 0 && run_len(s, i + scheme_len_at(s, i)) > 0
}

/// Length of the embedded URI that begins at `i`.
pub open spec fn match_len(s: Seq<char>, i: int) -> int {
    scheme_len_at(s, i) + run_len(s, i + scheme_len_at(s, i))
}

/// The proxied replacement of one embedded key URI.
pub open spec fn key_repl(uri: Seq<char>, referer: Seq<char>) -> Seq<char> {
    "?url="@ + enc_of(uri) + "&referer="@ + enc_of(referer)
}

/// The tail of a key-tag line from position `i` on, with every embedded
/// absolute URI replaced by its proxied form: the scan takes the leftmost
/// URI first and extends each one as far as URI characters reach.
pub open spec fn key_scan(s: Seq<char>, i: int, referer: Seq<char>) -> Seq<char>
    decreases s.len() - i,
{
    if !(0 <= i < s.len()) {
        Seq::empty()
    } else if match_at(s, i) && i + match_len(s, i) <= s.len() {
        key_repl(s.subrange(i, i + match_len(s, i)), referer) + key_scan(
            s,
            i + match_len(s, i),
            referer,
        )
    } else {
        seq![s[i]] + key_scan(s, i + 1, referer)
    }
}

/// A whole key-tag line after rewriting.
pub open spec fn key_line_spec(line: Seq<char>, referer: Seq<char>) -> Seq<char> {
    key_scan(line, 0, referer)
}

/// The proxied reference for a resolved absolute URI; the `origin` override
/// rides along only when it is non-empty.
pub open spec fn proxied_ref(abs: Seq<char>, referer: Seq<char>, origin: Seq<char>) -> Seq<char> {
    "?url="@ + enc_of(abs) + "&referer="@ + enc_of(referer) + if origin.len() > 0 {
        "&origin="@ + enc_of(origin)
    } else {
        Seq::<char>::empty()
    }
}

/// What becomes of a URI line. Under `proxy_all`, a line that is already
/// absolute is appended verbatim to the manifest's own URL; otherwise the
/// line is resolved against the manifest's URL and re-emitted proxied, or
/// kept as it stands when it cannot be resolved.
pub open spec fn uri_line_spec(
    line: Seq<char>,
    manifest_url: Seq<char>,
    referer: Seq<char>,
    origin: Seq<char>,
    proxy_all: bool,
) -> Seq<char> {
    if proxy_all && starts_with_http(line) {
        manifest_url + "?url="@ + line
    } else {
        match resolve_of(manifest_url, line) {
            Some(abs) => proxied_ref(abs, referer, origin),
            None => line,
        }
    }
}

/// What becomes of any one line of the manifest.
pub open spec fn rewrite_line_spec(
    line: Seq<char>,
    manifest_url: Seq<char>,
    referer: Seq<char>,
    origin: Seq<char>,
    proxy_all: bool,
) -> Seq<char> {
    if is_key_tag(line) {
        key_line_spec(line, referer)
    } else if is_blank(line) || is_comment(line) {
        line
    } else {
        uri_line_spec(line, manifest_url, referer, origin, proxy_all)
    }
}

/// The whole rewritten manifest: each line rewritten on its own, order and
/// count kept.
pub open spec fn rewrite_spec(
    body: Seq<char>,
    manifest_url: Seq<char>,
    referer: Seq<char>,
    origin: Seq<char>,
    proxy_all: bool,
) -> Seq<char> {
    crate::text::join_lines_spec(
        crate::text::split_lines_spec(body).map_values(
            |l: Seq<char>| rewrite_line_spec(l, manifest_url, referer, origin, proxy_all),
        ),
    )
}

/// Law: a blank line, or an ordinary comment line (one that starts with
/// `#` and is not an encryption-key tag), is rewritten to itself, byte for
/// byte, whatever the other parameters are.
pub proof fn lemma_comment_blank_unchanged(
    line: Seq<char>,
    manifest_url: Seq<char>,
    referer: Seq<char>,
    origin: Seq<char>,
    proxy_all: bool,
)
    requires
        is_blank(line) || (is_comment(line) && !is_key_tag(line)),
    ensures
        rewrite_line_spec(line, manifest_url, referer, origin, proxy_all) == line,
{
    if is_key_tag(line) {
        assert(is_space(line[0]) && line[0] == '#');
    }
}

fn line_is_blank(line: &str) -> (b: bool)
    ensures
        b == is_blank(line@),
{
    let n = line.unicode_len();
    let mut i: usize = 0;
    while i < n
        invariant
            i <= n,
            n == line@.len(),
            forall|j: int| 0 <= j < i ==> is_space(#[trigger] line@[j]),
        decreases n - i,
    {
        let c = line.get_char(i);
        if !(c == ' ' || c == '\t' || c == '\n' || c == '\r' || c == '\u{b}' || c == '\u{c}') {
            assert(!is_space(line@[i as int]));
            return false;
        }
        i = i + 1;
    }
    true
}

fn line_is_comment(line: &str) -> (b: bool)
    ensures
        b == is_comment(line@),
{
    line.unicode_len() > 0 && line.get_char(0) == '#'
}

fn line_is_key_tag(line: &str) -> (b: bool)
    ensures
        b == is_key_tag(line@),
{
    if line.unicode_len() < 11 {
        return false;
    }
    line.get_char(0) == '#' && line.get_char(1) == 'E' && line.get_char(2) == 'X' && line.get_char(
        3,
    ) == 'T' && line.get_char(4) == '-' && line.get_char(5) == 'X' && line.get_char(6) == '-'
        && line.get_char(7) == 'K' && line.get_char(8) == 'E' && line.get_char(9) == 'Y'
        && line.get_char(10) == ':'
}

fn line_starts_with_http(line: &str) -> (b: bool)
    ensures
        b == starts_with_http(line@),
{
    if line.unicode_len() < 4 {
        return false;
    }
    line.get_char(0) == 'h' && line.get_char(1) == 't' && line.get_char(2) == 't' && line.get_char(
        3,
    ) == 'p'
}

fn uri_char(c: char) -> (b: bool)
    ensures
        b == is_uri_char(c),
{
    !(c == ' ' || c == '\t' || c == '\n' || c == '\r' || c == '\u{b}' || c == '\u{c}' || c == '"'
        || c == '\'')
}

fn scheme_at(line: &str, i: usize) -> (k: usize)
    requires
        i <= line@.len(),
    ensures
        k as int == scheme_len_at(line@, i as int),
{
    let n = line.unicode_len();
    if n >= 8 && i <= n - 8 && line.get_char(i) == 'h' && line.get_char(i + 1) == 't'
        && line.get_char(i + 2) == 't' && line.get_char(i + 3) == 'p' && line.get_char(i + 4) == 's'
        && line.get_char(i + 5) == ':' && line.get_char(i + 6) == '/' && line.get_char(i + 7)
        == '/' {
        8
    } else if n >= 7 && i <= n - 7 && line.get_char(i) == 'h' && line.get_char(i + 1) == 't'
        && line.get_char(i + 2) == 't' && line.get_char(i + 3) == 'p' && line.get_char(i + 4) == ':'
        && line.get_char(i + 5) == '/' && line.get_char(i + 6) == '/' {
        7
    } else {
        0
    }
}

proof fn lemma_run_len_span(s: Seq<char>, i: int, j: int)
    requires
        0 <= i <= j <= s.len(),
        forall|k: int| i <= k < j ==> is_uri_char(#[trigger] s[k]),
        j == s.len() || !is_uri_char(s[j]),
    ensures
        run_len(s, i) == j - i,
    decreases j - i,
{
    if i < j {
        lemma_run_len_span(s, i + 1, j);
    }
}

fn run_end(line: &str, start: usize) -> (j: usize)
    requires
        start <= line@.len(),
    ensures
        start <= j <= line@.len(),
        run_len(line@, start as int) == j - start,
{
    let n = line.unicode_len();
    let mut j: usize = start;
    while j < n
        invariant
            start <= j <= n,
            n == line@.len(),
            forall|t: int| start <= t < j ==> is_uri_char(#[trigger] line@[t]),
        decreases n - j,
    {
        if !uri_char(line.get_char(j)) {
            proof {
                lemma_run_len_span(line@, start as int, j as int);
            }
            return j;
        }
        j = j + 1;
    }
    proof {
        lemma_run_len_span(line@, start as int, j as int);
    }
    j
}

/// Rewrites one encryption-key tag line: every embedded absolute URI is
/// replaced in place by its proxied form; everything else on the line is
/// kept as it stands.
pub fn rewrite_key_line(line: &str, referer: &str) -> (r: String)
    ensures
        r@ == key_line_spec(line@, referer@),
        nl_free(line@) ==> nl_free(r@),
{
    let n = line.unicode_len();
    let mut out = String::new();
    let mut i: usize = 0;
    proof {
        assert(out@ + key_scan(line@, 0, referer@) =~= key_scan(line@, 0, referer@));
    }
    while i < n
        invariant
            i <= n,
            n == line@.len(),
            key_line_spec(line@, referer@) == out@ + key_scan(line@, i as int, referer@),
            nl_free(line@) ==> nl_free(out@),
        decreases n - i,
    {
        let ghost prev = out@;
        let k = scheme_at(line, i);
        let mut advanced = false;
        if k > 0 {
            let run_start = i + k;
            assert(run_start <= n);
            let j = run_end(line, run_start);
            if j > run_start {
                let uri = line.substring_char(i, j);
                let e_uri = percent_encode(uri);
                let e_ref = percent_encode(referer);
                out.append("?url=");
                out.append(e_uri.as_str());
                out.append("&referer=");
                out.append(e_ref.as_str());
                proof {
                    reveal_strlit("?url=");
                    reveal_strlit("&referer=");
                    assert(match_at(line@, i as int));
                    assert(match_len(line@, i as int) == j - i);
                    assert(key_scan(line@, i as int, referer@) == key_repl(
                        line@.subrange(i as int, j as int),
                        referer@,
                    ) + key_scan(line@, j as int, referer@));
                    assert(out@ =~= prev + key_repl(line@.subrange(i as int, j as int), referer@));
                    assert(out@ + key_scan(line@, j as int, referer@) =~= prev + key_scan(
                        line@,
                        i as int,
                        referer@,
                    ));
                    assert(nl_free("?url="@));
                    assert(nl_free("&referer="@));
                    if nl_free(line@) {
                        assert forall|p: int| 0 <= p < out@.len() implies out@[p] != '\n' by {}
                    }
                }
                i = j;
                advanced = true;
            }
        }
        if !advanced {
            let piece = line.substring_char(i, i + 1);
            out.append(piece);
            proof {
                assert(!match_at(line@, i as int));
                assert(key_scan(line@, i as int, referer@) == seq![line@[i as int]] + key_scan(
                    line@,
                    i + 1,
                    referer@,
                ));
                assert(piece@ =~= seq![line@[i as int]]);
                assert(out@ + key_scan(line@, i + 1, referer@) =~= prev + key_scan(
                    line@,
                    i as int,
                    referer@,
                ));
                if nl_free(line@) {
                    assert(line@[i as int] != '\n');
                    assert forall|p: int| 0 <= p < out@.len() implies out@[p] != '\n' by {}
                }
            }
            i = i + 1;
        }
    }
    proof {
        assert(key_scan(line@, n as int, referer@) =~= Seq::<char>::empty());
        assert(out@ =~= out@ + Seq::<char>::empty());
    }
    out
}

/// Rewrites one URI line (a segment or variant-playlist reference).
pub fn rewrite_uri_line(
    line: &str,
    manifest_url: &str,
    referer: &str,
    origin: &str,
    proxy_all: bool,
) -> (r: String)
    ensures
        r@ == uri_line_spec(line@, manifest_url@, referer@, origin@, proxy_all),
        nl_free(line@) && nl_free(manifest_url@) ==> nl_free(r@),
{
    if proxy_all && line_starts_with_http(line) {
        let mut out = manifest_url.to_owned();
        out.append("?url=");
        out.append(line);
        proof {
            reveal_strlit("?url=");
            assert(out@ =~= manifest_url@ + "?url="@ + line@);
            assert(nl_free("?url="@));
            if nl_free(line@) && nl_free(manifest_url@) {
                assert forall|p: int| 0 <= p < out@.len() implies out@[p] != '\n' by {}
            }
        }
        return out;
    }
    match resolve_reference(manifest_url, line) {
        None => line.to_owned(),
        Some(abs) => {
            let e_url = percent_encode(abs.as_str());
            let e_ref = percent_encode(referer);
            let mut out = "?url=".to_owned();
            out.append(e_url.as_str());
            out.append("&referer=");
            out.append(e_ref.as_str());
            if !origin.is_empty() {
                let e_org = percent_encode(origin);
                out.append("&origin=");
                out.append(e_org.as_str());
                proof {
                    reveal_strlit("&origin=");
                    assert(nl_free("&origin="@));
                }
            }
            proof {
                reveal_strlit("?url=");
                reveal_strlit("&referer=");
                assert(out@ =~= proxied_ref(abs@, referer@, origin@));
                assert(nl_free("?url="@));
                assert(nl_free("&referer="@));
                assert forall|p: int| 0 <= p < out@.len() implies out@[p] != '\n' by {}
            }
            out
        },
    }
}

/// Rewrites any one line of the manifest, per its classification.
pub fn rewrite_line(
    line: &str,
    manifest_url: &str,
    referer: &str,
    origin: &str,
    proxy_all: bool,
) -> (r: String)
    ensures
        r@ == rewrite_line_spec(line@, manifest_url@, referer@, origin@, proxy_all),
        nl_free(line@) && nl_free(manifest_url@) ==> nl_free(r@),
{
    if line_is_key_tag(line) {
        rewrite_key_line(line, referer)
    } else if line_is_blank(line) || line_is_comment(line) {
        line.to_owned()
    } else {
        rewrite_uri_line(line, manifest_url, referer, origin, proxy_all)
    }
}

/// Rewrites a whole manifest body: splits it on `'\n'`, rewrites each line
/// on its own, and rejoins them. No line is dropped or merged: as long as
/// the manifest's URL holds no line feed, the result has exactly as many
/// lines as the body.
pub fn rewrite(
    body: &str,
    manifest_url: &str,
    referer: &str,
    origin: &str,
    proxy_all: bool,
) -> (r: String)
    ensures
        r@ == rewrite_spec(body@, manifest_url@, referer@, origin@, proxy_all),
        nl_free(manifest_url@) ==> crate::text::line_count(r@) == crate::text::line_count(body@),
        nl_free(manifest_url@) ==> forall|k: int|
            0 <= k < crate::text::line_count(body@) ==> #[trigger] crate::text::split_lines_spec(
                r@,
            )[k] == rewrite_line_spec(
                crate::text::split_lines_spec(body@)[k],
                manifest_url@,
                referer@,
                origin@,
                proxy_all,
            ),
{
    let ghost per_line = |l: Seq<char>|
        rewrite_line_spec(l, manifest_url@, referer@, origin@, proxy_all);
    let lines = crate::text::split_lines(body);
    let ghost in_views = lines@.map_values(|l: String| l@);
    proof {
        crate::text::lemma_split_lines_no_nl(body@);
    }
    let mut out_lines: Vec<String> = Vec::new();
    let mut i: usize = 0;
    while i < lines.len()
        invariant
            i <= lines@.len(),
            in_views == lines@.map_values(|l: String| l@),
            in_views == crate::text::split_lines_spec(body@),
            per_line == (|l: Seq<char>|
                rewrite_line_spec(l, manifest_url@, referer@, origin@, proxy_all)),
            forall|k: int| 0 <= k < in_views.len() ==> nl_free(#[trigger] in_views[k]),
            out_lines@.len() == i,
            forall|k: int|
                0 <= k < i ==> (#[trigger] out_lines@[k])@ == per_line(in_views[k]),
            nl_free(manifest_url@) ==> forall|k: int|
                0 <= k < i ==> nl_free((#[trigger] out_lines@[k])@),
        decreases lines@.len() - i,
    {
        assert(lines@[i as int]@ == in_views[i as int]);
        let rl = rewrite_line(lines[i].as_str(), manifest_url, referer, origin, proxy_all);
        out_lines.push(rl);
        i = i + 1;
    }
    let ghost out_views = out_lines@.map_values(|l: String| l@);
    proof {
        assert(out_views =~= in_views.map_values(per_line));
    }
    let joined = crate::text::join_lines(&out_lines);
    proof {
        if nl_free(manifest_url@) {
            assert forall|k: int| 0 <= k < out_views.len() implies nl_free(
                #[trigger] out_views[k],
            ) by {
                assert(out_views[k] == out_lines@[k]@);
            }
            crate::text::lemma_split_of_join(out_views);
            assert forall|k: int| 0 <= k < crate::text::line_count(body@) implies #[trigger] crate::text::split_lines_spec(
                joined@,
            )[k] == rewrite_line_spec(
                crate::text::split_lines_spec(body@)[k],
                manifest_url@,
                referer@,
                origin@,
                proxy_all,
            ) by {
                assert(crate::text::split_lines_spec(joined@)[k] == out_views[k]);
                assert(out_views[k] == in_views.map_values(per_line)[k]);
            }
        }
    }
    joined
}

} // verus!
