//! Turning raw request lines into a structured `Request`. Parsing never
//! fails: a malformed piece of input leaves its field unset or is dropped,
//! field by field.

use vstd::prelude::*;
use vstd::string::StrSliceExecFns;
use vstd::string::StringExecFns;
use crate::strmap::{StringMap, map_insert};
use crate::text::{
    contains_seq, contains_at, split_seq, split_str, split_first, before_first, after_first,
    trim_seq, trim_str, has_prefix_ci, starts_with_ci, str_eq, contains_str,
};
use crate::urlcodec::{url_decoded_chars, url_decode};

verus! {

/// The request method, as the first token of the request line names it.
#[allow(non_camel_case_types)]
#[derive(PartialEq, Eq, Structural, Clone, Copy, Debug)]
pub enum Method {
    GET,
    POST,
    NOT_SUPPORTED,
}

/// The protocol version, as the third token of the request line names it.
#[allow(non_camel_case_types)]
#[derive(PartialEq, Eq, Structural, Clone, Copy, Debug)]
pub enum HttpVersion {
    HTTP_1_0,
    HTTP_1_1,
    HTTP_2_0,
    NOT_SUPPORTED,
}

/// Exact method names; anything else is unsupported.
pub open spec fn spec_method_classify(s: Seq<char>) -> Method {
    if s == "GET"@ {
        Method::GET
    } else if s == "POST"@ {
        Method::POST
    } else {
        Method::NOT_SUPPORTED
    }
}

/// Classifies the method token.
pub fn method_classify(input: &str) -> (r: Method)
    ensures
        r == spec_method_classify(input@),
{
    if str_eq(input, "GET") {
        Method::GET
    } else if str_eq(input, "POST") {
        Method::POST
    } else {
        Method::NOT_SUPPORTED
    }
}

/// Exact version names; anything else is unsupported.
pub open spec fn spec_version_classify(s: Seq<char>) -> HttpVersion {
    if s == "HTTP/1.0"@ {
        HttpVersion::HTTP_1_0
    } else if s == "HTTP/1.1"@ {
        HttpVersion::HTTP_1_1
    } else if s == "HTTP/2"@ {
        HttpVersion::HTTP_2_0
    } else {
        HttpVersion::NOT_SUPPORTED
    }
}

/// Classifies the version token.
pub fn http_version_classify(input: &str) -> (r: HttpVersion)
    ensures
        r == spec_version_classify(input@),
{
    if str_eq(input, "HTTP/1.0") {
        HttpVersion::HTTP_1_0
    } else if str_eq(input, "HTTP/1.1") {
        HttpVersion::HTTP_1_1
    } else if str_eq(input, "HTTP/2") {
        HttpVersion::HTTP_2_0
    } else {
        HttpVersion::NOT_SUPPORTED
    }
}

/// The wire text of a version; the unsupported case falls back to 1.1.
pub open spec fn spec_version_text(v: HttpVersion) -> Seq<char> {
    match v {
        HttpVersion::HTTP_1_0 => "HTTP/1.0"@,
        HttpVersion::HTTP_1_1 => "HTTP/1.1"@,
        HttpVersion::HTTP_2_0 => "HTTP/2.0"@,
        HttpVersion::NOT_SUPPORTED => "HTTP/1.1"@,
    }
}

/// Writes a version back to its wire text.
pub fn http_version_classify_original(input: &HttpVersion) -> (r: String)
    ensures
        r@ == spec_version_text(*input),
{
    match input {
        HttpVersion::HTTP_1_0 => String::from_str("HTTP/1.0"),
        HttpVersion::HTTP_1_1 => String::from_str("HTTP/1.1"),
        HttpVersion::HTTP_2_0 => String::from_str("HTTP/2.0"),
        HttpVersion::NOT_SUPPORTED => String::from_str("HTTP/1.1"),
    }
}

/// A parsed request. Every field is optional: a piece of input that does
/// not parse simply leaves its field unset.
pub struct Request {
    pub method: Option<Method>,
    pub target: Option<String>,
    pub host: Option<String>,
    pub http_version: Option<HttpVersion>,
    pub http_header: Option<StringMap>,
    pub cookies: Option<StringMap>,
    pub params: Option<StringMap>,
    pub body: Option<String>,
}

/// The space-separated tokens of the request line.
pub open spec fn req_tokens(line: Seq<char>) -> Seq<Seq<char>> {
    split_seq(line, " "@)
}

/// The request line carries at least method, target and version.
pub open spec fn first_line_ok(line: Seq<char>) -> bool {
    contains_seq(line, " "@) && req_tokens(line).len() >= 3
}

/// The parsed method: set only by a well-formed request line.
pub open spec fn spec_req_method(lines: Seq<Seq<char>>) -> Option<Method> {
    if lines.len() >= 1 && first_line_ok(lines[0]) {
        Some(spec_method_classify(req_tokens(lines[0])[0]))
    } else {
        None
    }
}

/// The parsed raw target, query string included.
pub open spec fn spec_req_target(lines: Seq<Seq<char>>) -> Option<Seq<char>> {
    if lines.len() >= 1 && first_line_ok(lines[0]) {
        Some(req_tokens(lines[0])[1])
    } else {
        None
    }
}

/// The parsed version.
pub open spec fn spec_req_version(lines: Seq<Seq<char>>) -> Option<HttpVersion> {
    if lines.len() >= 1 && first_line_ok(lines[0]) {
        Some(spec_version_classify(req_tokens(lines[0])[2]))
    } else {
        None
    }
}

/// The state of the line scan: headers, cookies and host gathered so far,
/// and the body once the blank separator line has passed.
pub struct HeadState {
    pub host: Option<Seq<char>>,
    pub headers: Seq<(Seq<char>, Seq<char>)>,
    pub cookies: Seq<(Seq<char>, Seq<char>)>,
    pub in_body: bool,
    pub wrote_body: bool,
    pub body: Seq<char>,
}

/// The scan state before any line.
pub open spec fn head_init() -> HeadState {
    HeadState {
        host: None,
        headers: Seq::empty(),
        cookies: Seq::empty(),
        in_body: false,
        wrote_body: false,
        body: Seq::empty(),
    }
}

/// A line of spaces only (or empty): the header/body separator.
pub open spec fn is_blank_line(line: Seq<char>) -> bool {
    forall|i: int| 0 <= i < line.len() ==> line[i] == ' '
}

/// One cookie `name=value` piece: split at the first `=`; a piece without
/// `=` is dropped.
pub open spec fn cookie_pair_insert(
    m: Seq<(Seq<char>, Seq<char>)>,
    piece: Seq<char>,
) -> Seq<(Seq<char>, Seq<char>)> {
    if contains_seq(piece, "="@) {
        map_insert(m, before_first(piece, "="@), after_first(piece, "="@))
    } else {
        m
    }
}

/// The first `i` cookie pieces folded into `m`.
pub open spec fn cookie_fold(
    m: Seq<(Seq<char>, Seq<char>)>,
    pieces: Seq<Seq<char>>,
    i: int,
) -> Seq<(Seq<char>, Seq<char>)>
    decreases i,
{
    if i <= 0 {
        m
    } else {
        cookie_pair_insert(cookie_fold(m, pieces, i - 1), pieces[i - 1])
    }
}

/// A whole `Cookie:` line folded into `m`: the text after the prefix,
/// trimmed, is split on commas.
pub open spec fn spec_cookie_line(
    m: Seq<(Seq<char>, Seq<char>)>,
    line: Seq<char>,
) -> Seq<(Seq<char>, Seq<char>)> {
    let raw = trim_seq(line.skip("cookie: "@.len() as int));
    cookie_fold(m, split_seq(raw, ","@), split_seq(raw, ","@).len() as int)
}

/// One line of the scan. Body lines are appended verbatim with `\r\n`; the
/// first blank line switches to the body; `Cookie:` and `Host:` prefixes
/// (without regard to ASCII case) are special-cased; any other line with
/// `": "` is a header, split at the first `": "`; the rest is ignored.
pub open spec fn head_step(st: HeadState, line: Seq<char>) -> HeadState {
    if st.in_body {
        HeadState { wrote_body: true, body: st.body + line + "\r\n"@, ..st }
    } else if is_blank_line(line) {
        HeadState { in_body: true, ..st }
    } else if has_prefix_ci(line, "cookie: "@) {
        HeadState { cookies: spec_cookie_line(st.cookies, line), ..st }
    } else if has_prefix_ci(line, "host: "@) {
        HeadState { host: Some(trim_seq(line.skip("host: "@.len() as int))), ..st }
    } else if contains_seq(line, ": "@) {
        HeadState {
            headers: map_insert(st.headers, before_first(line, ": "@), after_first(line, ": "@)),
            ..st
        }
    } else {
        st
    }
}

/// The scan state after the first `i` lines.
pub open spec fn head_fold(lines: Seq<Seq<char>>, i: int) -> HeadState
    decreases i,
{
    if i <= 0 {
        head_init()
    } else {
        head_step(head_fold(lines, i - 1), lines[i - 1])
    }
}

/// The scan state after all lines.
pub open spec fn head_state(lines: Seq<Seq<char>>) -> HeadState {
    head_fold(lines, lines.len() as int)
}

/// The parsed host header value.
pub open spec fn spec_req_host(lines: Seq<Seq<char>>) -> Option<Seq<char>> {
    if lines.len() == 0 {
        None
    } else {
        head_state(lines).host
    }
}

/// The parsed header map.
pub open spec fn spec_req_headers(lines: Seq<Seq<char>>) -> Option<Seq<(Seq<char>, Seq<char>)>> {
    if lines.len() == 0 {
        None
    } else {
        Some(head_state(lines).headers)
    }
}

/// The parsed cookie map.
pub open spec fn spec_req_cookies(lines: Seq<Seq<char>>) -> Option<Seq<(Seq<char>, Seq<char>)>> {
    if lines.len() == 0 {
        None
    } else {
        Some(head_state(lines).cookies)
    }
}

/// The parsed body: unset when no line followed the separator.
pub open spec fn spec_req_body(lines: Seq<Seq<char>>) -> Option<Seq<char>> {
    if lines.len() == 0 {
        None
    } else if head_state(lines).wrote_body {
        Some(head_state(lines).body)
    } else {
        None
    }
}

/// One query `key=value` piece: kept only when splitting on `=` gives
/// exactly two parts and the value percent-decodes.
pub open spec fn param_insert(
    m: Seq<(Seq<char>, Seq<char>)>,
    piece: Seq<char>,
) -> Seq<(Seq<char>, Seq<char>)> {
    let kv = split_seq(piece, "="@);
    if kv.len() == 2 {
        match url_decoded_chars(kv[1]) {
            Some(v) => map_insert(m, kv[0], v),
            None => m,
        }
    } else {
        m
    }
}

/// The first `i` query pieces folded into `m`.
pub open spec fn param_fold(
    m: Seq<(Seq<char>, Seq<char>)>,
    pieces: Seq<Seq<char>>,
    i: int,
) -> Seq<(Seq<char>, Seq<char>)>
    decreases i,
{
    if i <= 0 {
        m
    } else {
        param_insert(param_fold(m, pieces, i - 1), pieces[i - 1])
    }
}

/// The query parameters of a raw target: the text after the first `?`,
/// split on `&` when one occurs.
pub open spec fn spec_params_of_target(url: Seq<char>) -> Seq<(Seq<char>, Seq<char>)> {
    if contains_seq(url, "?"@) && contains_seq(url, "="@) {
        let rest = after_first(url, "?"@);
        if contains_seq(rest, "&"@) {
            param_fold(Seq::empty(), split_seq(rest, "&"@), split_seq(rest, "&"@).len() as int)
        } else {
            param_insert(Seq::empty(), rest)
        }
    } else {
        Seq::empty()
    }
}

/// The parsed query-parameter map.
pub open spec fn spec_req_params(lines: Seq<Seq<char>>) -> Option<Seq<(Seq<char>, Seq<char>)>> {
    if lines.len() == 0 {
        None
    } else if first_line_ok(lines[0]) {
        Some(spec_params_of_target(req_tokens(lines[0])[1]))
    } else {
        Some(Seq::empty())
    }
}

/// Whether every character of `s` is a space.
fn all_spaces(s: &str) -> (r: bool)
    ensures
        r == is_blank_line(s@),
{
    let len = s.unicode_len();
    let mut i: usize = 0;
    while i < len
        invariant
            len == s@.len(),
            0 <= i <= len,
            forall|j: int| 0 <= j < i ==> s@[j] == ' ',
        decreases len - i,
    {
        if s.get_char(i) != ' ' {
            return false;
        }
        i += 1;
    }
    true
}

/// Parses the already-split lines of one request. Everything before the
/// first blank line is scanned for the request line, headers, host and
/// cookies; everything after it is the body, re-joined with `\r\n`. The
/// parse never fails: what does not match is left unset or dropped.
pub fn request_parser(packet: &Vec<&str>) -> (r: Request)
    ensures
        r.method == spec_req_method(packet.deep_view()),
        r.target.deep_view() == spec_req_target(packet.deep_view()),
        r.http_version == spec_req_version(packet.deep_view()),
        r.host.deep_view() == spec_req_host(packet.deep_view()),
        r.http_header.deep_view() == spec_req_headers(packet.deep_view()),
        r.cookies.deep_view() == spec_req_cookies(packet.deep_view()),
        r.params.deep_view() == spec_req_params(packet.deep_view()),
        r.body.deep_view() == spec_req_body(packet.deep_view()),
        r.http_header matches Some(h) ==> h.wf(),
        r.cookies matches Some(c) ==> c.wf(),
        r.params matches Some(p) ==> p.wf(),
{
    proof {
        reveal_strlit(" ");
        reveal_strlit(",");
        reveal_strlit("=");
        reveal_strlit("&");
        reveal_strlit("?");
        reveal_strlit(": ");
        reveal_strlit("cookie: ");
        reveal_strlit("host: ");
    }
    let ghost lines = packet.deep_view();
    let mut request = Request {
        method: None,
        target: None,
        host: None,
        http_version: None,
        http_header: None,
        cookies: None,
        params: None,
        body: None,
    };
    if packet.len() == 0 {
        return request;
    }
    // The request line: method, target, version.
    let line0: &str = packet[0];
    assert(line0@ == lines[0]);
    let mut url: Option<String> = None;
    if contains_str(line0, " ") {
        let toks = split_str(line0, " ");
        assert(toks.deep_view() == req_tokens(lines[0]));
        if toks.len() >= 3 {
            assert(toks[0]@ == req_tokens(lines[0])[0]);
            assert(toks[1]@ == req_tokens(lines[0])[1]);
            assert(toks[2]@ == req_tokens(lines[0])[2]);
            request.method = Some(method_classify(toks[0].as_str()));
            url = Some(toks[1].clone());
            request.target = Some(toks[1].clone());
            request.http_version = Some(http_version_classify(toks[2].as_str()));
        }
    }
    assert(request.method == spec_req_method(lines));
    assert(request.target.deep_view() == spec_req_target(lines));
    assert(request.http_version == spec_req_version(lines));
    // The line scan: headers, host, cookies, body.
    let mut headers = StringMap::new();
    let mut cookies = StringMap::new();
    let mut host: Option<String> = None;
    let mut body_data = String::new();
    let mut is_check_body_line = false;
    let mut is_write_body = false;
    let n = packet.len();
    let mut i: usize = 0;
    while i < n
        invariant
            n == packet@.len(),
            lines == packet.deep_view(),
            0 <= i <= n,
            headers.wf(),
            cookies.wf(),
            head_fold(lines, i as int) == (HeadState {
                host: host.deep_view(),
                headers: headers@,
                cookies: cookies@,
                in_body: is_check_body_line,
                wrote_body: is_write_body,
                body: body_data@,
            }),
        decreases n - i,
    {
        proof {
            reveal_strlit(",");
            reveal_strlit("=");
            reveal_strlit("cookie: ");
            reveal_strlit("host: ");
            reveal_strlit(": ");
        }
        let line: &str = packet[i];
        assert(line@ == lines[i as int]);
        let ghost st = head_fold(lines, i as int);
        if is_check_body_line {
            is_write_body = true;
            body_data.append(line);
            body_data.append("\r\n");
        } else {
            if all_spaces(line) {
                is_check_body_line = true;
            } else {
                if starts_with_ci(line, "cookie: ") {
                    let tag_len = "cookie: ".unicode_len();
                    let line_len = line.unicode_len();
                    let raw = trim_str(line.substring_char(tag_len, line_len));
                    assert(line@.subrange("cookie: "@.len() as int, line@.len() as int) =~= line@.skip("cookie: "@.len() as int));
                    let pieces = split_str(raw.as_str(), ",");
                    let ghost pieces_spec = pieces.deep_view();
                    let m = pieces.len();
                    let mut j: usize = 0;
                    while j < m
                        invariant
                            m == pieces@.len(),
                            pieces_spec == pieces.deep_view(),
                            0 <= j <= m,
                            cookies.wf(),
                            cookies@ == cookie_fold(st.cookies, pieces_spec, j as int),
                        decreases m - j,
                    {
                        assert(pieces[j as int]@ == pieces_spec[j as int]);
                        match split_first(pieces[j].as_str(), "=") {
                            Some((ck, cv)) => {
                                cookies.insert(ck, cv);
                            },
                            None => {},
                        }
                        j += 1;
                    }
                    assert(cookies@ == spec_cookie_line(st.cookies, line@));
                } else if starts_with_ci(line, "host: ") {
                    let tag_len = "host: ".unicode_len();
                    let line_len = line.unicode_len();
                    host = Some(trim_str(line.substring_char(tag_len, line_len)));
                    assert(line@.subrange("host: "@.len() as int, line@.len() as int) =~= line@.skip("host: "@.len() as int));
                } else {
                    match split_first(line, ": ") {
                        Some((hk, hv)) => {
                            headers.insert(hk, hv);
                        },
                        None => {},
                    }
                }
            }
        }
        proof {
            assert(head_fold(lines, i + 1) == head_step(st, lines[i as int]));
        }
        i += 1;
    }
    assert(head_fold(lines, n as int) == head_state(lines));
    // The query parameters of the target.
    let mut params = StringMap::new();
    match &url {
        Some(u) => {
            assert(u@ == req_tokens(lines[0])[1]);
            if contains_str(u.as_str(), "?") && contains_str(u.as_str(), "=") {
                match split_first(u.as_str(), "?") {
                    Some((_head, rest)) => {
                        assert(rest@ == after_first(u@, "?"@));
                        if contains_str(rest.as_str(), "&") {
                            let pieces = split_str(rest.as_str(), "&");
                            let ghost pieces_spec = pieces.deep_view();
                            let m = pieces.len();
                            let mut j: usize = 0;
                            while j < m
                                invariant
                                    m == pieces@.len(),
                                    pieces_spec == pieces.deep_view(),
                                    0 <= j <= m,
                                    params.wf(),
                                    params@ == param_fold(Seq::empty(), pieces_spec, j as int),
                                decreases m - j,
                            {
                                assert(pieces[j as int]@ == pieces_spec[j as int]);
                                param_piece(&mut params, pieces[j].as_str());
                                j += 1;
                            }
                        } else {
                            param_piece(&mut params, rest.as_str());
                        }
                    },
                    None => {},
                }
            }
            assert(params@ == spec_params_of_target(u@));
        },
        None => {},
    }
    // The gathered data.
    if is_write_body {
        request.body = Some(body_data);
    }
    request.host = host;
    request.http_header = Some(headers);
    request.cookies = Some(cookies);
    request.params = Some(params);
    request
}

/// A request line of exactly three space-free tokens parses to exactly
/// those tokens: the first classified as the method, the second kept raw
/// as the target, the third classified as the version.
pub proof fn lemma_request_line_well_formed(
    lines: Seq<Seq<char>>,
    m: Seq<char>,
    t: Seq<char>,
    v: Seq<char>,
)
    requires
        lines.len() >= 1,
        lines[0] == m + " "@ + t + " "@ + v,
        forall|i: int| 0 <= i < m.len() ==> m[i] != ' ',
        forall|i: int| 0 <= i < t.len() ==> t[i] != ' ',
        forall|i: int| 0 <= i < v.len() ==> v[i] != ' ',
    ensures
        spec_req_method(lines) == Some(spec_method_classify(m)),
        spec_req_target(lines) == Some(t),
        spec_req_version(lines) == Some(spec_version_classify(v)),
{
    reveal_strlit(" ");
    let sp = " "@;
    let tail = t + sp + v;
    assert(lines[0] =~= m + sp + tail);
    crate::text::lemma_split_prepend(m, sp, tail);
    crate::text::lemma_split_prepend(t, sp, v);
    crate::text::lemma_split_absent(v, sp);
    assert(req_tokens(lines[0]) =~= seq![m, t, v]);
    assert(contains_seq(lines[0], sp)) by {
        assert(contains_at(lines[0], m.len() as int, sp)) by {
            assert(lines[0].subrange(m.len() as int, m.len() as int + 1) =~= sp);
        }
    }
    assert(first_line_ok(lines[0]));
}

/// A first line of fewer than three space-separated tokens leaves method,
/// target and version all unset, without an error.
pub proof fn lemma_request_line_malformed(lines: Seq<Seq<char>>)
    requires
        lines.len() >= 1,
        !contains_seq(lines[0], " "@) || req_tokens(lines[0]).len() < 3,
    ensures
        spec_req_method(lines) is None,
        spec_req_target(lines) is None,
        spec_req_version(lines) is None,
{
}

/// A query value holding no `%` decodes to itself: such a `key=value`
/// piece lands in the parameter map exactly as written.
pub proof fn lemma_param_plain_value(m: Seq<(Seq<char>, Seq<char>)>, piece: Seq<char>)
    requires
        split_seq(piece, "="@).len() == 2,
        forall|i: int|
            0 <= i < split_seq(piece, "="@)[1].len() ==> #[trigger] split_seq(piece, "="@)[1][i]
                != '%',
    ensures
        param_insert(m, piece) == map_insert(
            m,
            split_seq(piece, "="@)[0],
            split_seq(piece, "="@)[1],
        ),
{
    crate::urlcodec::lemma_decode_plain(split_seq(piece, "="@)[1]);
}

/// Folds one query piece into the parameter map.
fn param_piece(params: &mut StringMap, piece: &str)
    requires
        old(params).wf(),
    ensures
        final(params).wf(),
        final(params)@ == param_insert(old(params)@, piece@),
{
    proof {
        reveal_strlit("=");
    }
    let kv = split_str(piece, "=");
    assert(kv.deep_view() == split_seq(piece@, "="@));
    if kv.len() == 2 {
        assert(kv[1]@ == split_seq(piece@, "="@)[1]);
        assert(kv[0]@ == split_seq(piece@, "="@)[0]);
        match url_decode(kv[1].as_str()) {
            Some(v) => {
                params.insert(kv[0].clone(), v);
            },
            None => {},
        }
    }
}

} // verus!
