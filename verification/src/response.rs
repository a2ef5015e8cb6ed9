//! Building the default response for a request and serializing a response
//! to wire text. A response that could not be built completely is never
//! written out field by field: the serializer falls back to one fixed,
//! hard-coded page, a deliberate safety net that callers cannot
//! distinguish from a real success.

use vstd::prelude::*;
use vstd::string::StrSliceExecFns;
use vstd::string::StringExecFns;
use vstd::utf8::encode_utf8;
use crate::strmap::{StringMap, map_insert, map_insert_all, lemma_map_insert_fresh};
use crate::pages::PageSource;
use crate::request::{Request, Method, HttpVersion, spec_version_text, http_version_classify_original};
use crate::pages::{PageFileReadInfo, PageReadV, IsPageFileReadSuccess};
use crate::httpdate::{HttpDate, now_utc, spec_date_line, format_http_date};
use crate::text::dec_str;
use crate::text::u64_to_dec;

verus! {

/// Whether the default response could be built for the request.
#[allow(non_camel_case_types)]
#[derive(PartialEq, Eq, Structural, Clone, Copy, Debug)]
pub enum IsResponseDataCreateSuccess {
    SUCCESS,
    FAIL,
}

/// The status codes this engine can write.
#[allow(non_camel_case_types)]
#[derive(PartialEq, Eq, Structural, Clone, Copy, Debug)]
pub enum HttpStateCode {
    HTTP_110,
    HTTP_111,
    HTTP_200,
    HTTP_300,
    HTTP_301,
    HTTP_302,
    HTTP_303,
    HTTP_304,
    HTTP_307,
    HTTP_308,
    HTTP_310,
    HTTP_400,
    HTTP_401,
    HTTP_402,
    HTTP_403,
    HTTP_404,
    HTTP_405,
    HTTP_406,
    HTTP_407,
    HTTP_408,
    HTTP_409,
    HTTP_410,
    HTTP_411,
    HTTP_412,
    HTTP_413,
    HTTP_414,
    HTTP_415,
    HTTP_416,
    HTTP_417,
    HTTP_418,
    HTTP_420,
    HTTP_422,
    HTTP_423,
    HTTP_424,
    HTTP_425,
    HTTP_426,
    HTTP_428,
    HTTP_429,
    HTTP_431,
    HTTP_500,
}

/// One `Set-Cookie` line to be: name, value and path.
pub struct ResponseCookies {
    pub name: String,
    pub value: String,
    pub path: String,
}

/// The mathematical value of a `ResponseCookies`.
pub struct ResponseCookieV {
    pub name: Seq<char>,
    pub value: Seq<char>,
    pub path: Seq<char>,
}

impl DeepView for ResponseCookies {
    type V = ResponseCookieV;

    open spec fn deep_view(&self) -> ResponseCookieV {
        ResponseCookieV { name: self.name@, value: self.value@, path: self.path@ }
    }
}

/// The response body, when one was produced.
pub struct ResponseBody {
    pub body_str: Option<String>,
}

/// A response to be serialized: status line data, headers, cookies and
/// body. Built by `default_response_writer`, possibly reworked by the
/// embedder's hook, then written out once.
pub struct Response {
    pub is_success: IsResponseDataCreateSuccess,
    pub response_code: Option<HttpStateCode>,
    pub http_version: Option<HttpVersion>,
    pub headers: Option<StringMap>,
    pub cookies: Option<Vec<ResponseCookies>>,
    pub body: Option<ResponseBody>,
}

/// The status line text of each code.
pub open spec fn spec_status_text(c: HttpStateCode) -> Seq<char> {
    match c {
        HttpStateCode::HTTP_110 => "110 Connection Timed Out"@,
        HttpStateCode::HTTP_111 => "111 Connection refused"@,
        HttpStateCode::HTTP_200 => "200 OK"@,
        HttpStateCode::HTTP_300 => "300 Multiple Choice"@,
        HttpStateCode::HTTP_301 => "301 Moved Permanently"@,
        HttpStateCode::HTTP_302 => "302 Found"@,
        HttpStateCode::HTTP_303 => "303 See Other"@,
        HttpStateCode::HTTP_304 => "304 Not Modified"@,
        HttpStateCode::HTTP_307 => "307 Temporary Redirect"@,
        HttpStateCode::HTTP_308 => "308 Permanent Redirect"@,
        HttpStateCode::HTTP_310 => "310 Too many redirects"@,
        HttpStateCode::HTTP_400 => "400 Bad Request"@,
        HttpStateCode::HTTP_401 => "401 Unauthorized"@,
        HttpStateCode::HTTP_402 => "402 Payment Required"@,
        HttpStateCode::HTTP_403 => "403 Forbidden"@,
        HttpStateCode::HTTP_404 => "404 Not Found"@,
        HttpStateCode::HTTP_405 => "405 Method Not Allowed"@,
        HttpStateCode::HTTP_406 => "406 Not Acceptable"@,
        HttpStateCode::HTTP_407 => "407 Proxy Authentication Required"@,
        HttpStateCode::HTTP_408 => "408 Request Timeout"@,
        HttpStateCode::HTTP_409 => "409 Conflict"@,
        HttpStateCode::HTTP_410 => "410 Gone"@,
        HttpStateCode::HTTP_411 => "411 Length Required"@,
        HttpStateCode::HTTP_412 => "412 Precondition Failed"@,
        HttpStateCode::HTTP_413 => "413 Request Entity Too Large"@,
        HttpStateCode::HTTP_414 => "414 Request-URI Too Long"@,
        HttpStateCode::HTTP_415 => "415 Unsupported Media Type"@,
        HttpStateCode::HTTP_416 => "Requested Range Not Satisfiable"@,
        HttpStateCode::HTTP_417 => "Expectation Failed"@,
        HttpStateCode::HTTP_418 => "I'm a teapot (RFC 2324)"@,
        HttpStateCode::HTTP_420 => "Enhance Your Calm (Twitter)"@,
        HttpStateCode::HTTP_422 => "422 Unprocessable Entity (WebDAV)"@,
        HttpStateCode::HTTP_423 => "423 Locked (WebDAV)"@,
        HttpStateCode::HTTP_424 => "424 Failed Dependency (WebDAV)"@,
        HttpStateCode::HTTP_425 => "425 Reserved for WebDAV"@,
        HttpStateCode::HTTP_426 => "426 Upgrade Required"@,
        HttpStateCode::HTTP_428 => "428 Precondition Required"@,
        HttpStateCode::HTTP_429 => "429 Too Many Requests"@,
        HttpStateCode::HTTP_431 => "431 Request Header Fields Too Large"@,
        HttpStateCode::HTTP_500 => "500 Internal Server Error"@,
    }
}

/// Writes the status line text of a code.
pub fn default_http_state_writer(http_code: &HttpStateCode) -> (r: &'static str)
    ensures
        r@ == spec_status_text(*http_code),
{
    match http_code {
        HttpStateCode::HTTP_110 => "110 Connection Timed Out",
        HttpStateCode::HTTP_111 => "111 Connection refused",
        HttpStateCode::HTTP_200 => "200 OK",
        HttpStateCode::HTTP_300 => "300 Multiple Choice",
        HttpStateCode::HTTP_301 => "301 Moved Permanently",
        HttpStateCode::HTTP_302 => "302 Found",
        HttpStateCode::HTTP_303 => "303 See Other",
        HttpStateCode::HTTP_304 => "304 Not Modified",
        HttpStateCode::HTTP_307 => "307 Temporary Redirect",
        HttpStateCode::HTTP_308 => "308 Permanent Redirect",
        HttpStateCode::HTTP_310 => "310 Too many redirects",
        HttpStateCode::HTTP_400 => "400 Bad Request",
        HttpStateCode::HTTP_401 => "401 Unauthorized",
        HttpStateCode::HTTP_402 => "402 Payment Required",
        HttpStateCode::HTTP_403 => "403 Forbidden",
        HttpStateCode::HTTP_404 => "404 Not Found",
        HttpStateCode::HTTP_405 => "405 Method Not Allowed",
        HttpStateCode::HTTP_406 => "406 Not Acceptable",
        HttpStateCode::HTTP_407 => "407 Proxy Authentication Required",
        HttpStateCode::HTTP_408 => "408 Request Timeout",
        HttpStateCode::HTTP_409 => "409 Conflict",
        HttpStateCode::HTTP_410 => "410 Gone",
        HttpStateCode::HTTP_411 => "411 Length Required",
        HttpStateCode::HTTP_412 => "412 Precondition Failed",
        HttpStateCode::HTTP_413 => "413 Request Entity Too Large",
        HttpStateCode::HTTP_414 => "414 Request-URI Too Long",
        HttpStateCode::HTTP_415 => "415 Unsupported Media Type",
        HttpStateCode::HTTP_416 => "Requested Range Not Satisfiable",
        HttpStateCode::HTTP_417 => "Expectation Failed",
        HttpStateCode::HTTP_418 => "I'm a teapot (RFC 2324)",
        HttpStateCode::HTTP_420 => "Enhance Your Calm (Twitter)",
        HttpStateCode::HTTP_422 => "422 Unprocessable Entity (WebDAV)",
        HttpStateCode::HTTP_423 => "423 Locked (WebDAV)",
        HttpStateCode::HTTP_424 => "424 Failed Dependency (WebDAV)",
        HttpStateCode::HTTP_425 => "425 Reserved for WebDAV",
        HttpStateCode::HTTP_426 => "426 Upgrade Required",
        HttpStateCode::HTTP_428 => "428 Precondition Required",
        HttpStateCode::HTTP_429 => "429 Too Many Requests",
        HttpStateCode::HTTP_431 => "431 Request Header Fields Too Large",
        HttpStateCode::HTTP_500 => "500 Internal Server Error",
    }
}

/// The stock error page for a status: its text as title and body.
pub open spec fn spec_default_body(c: HttpStateCode) -> Seq<char> {
    "<head><title>"@ + spec_status_text(c) + "</title><body>"@ + spec_status_text(c)
        + "</body></head>"@
}

/// Writes the stock error page for a status.
pub fn default_body_writer(http_code: &HttpStateCode) -> (r: String)
    ensures
        r@ == spec_default_body(*http_code),
{
    let mut s = String::new();
    s.append("<head><title>");
    s.append(default_http_state_writer(http_code));
    s.append("</title><body>");
    s.append(default_http_state_writer(http_code));
    s.append("</body></head>");
    assert(s@ =~= spec_default_body(*http_code));
    s
}

/// The product name written in the `Server` header.
pub fn get_server_name() -> (r: String)
    ensures
        r@ == "Athena-Engine"@,
{
    String::from_str("Athena-Engine")
}

/// The baseline headers of every response, in the order they are written:
/// the date, the product name, and fixed connection and content headers.
pub open spec fn spec_base_headers(d: HttpDate) -> Seq<(Seq<char>, Seq<char>)> {
    seq![
        ("Date"@, spec_date_line(d)),
        ("Server"@, "Athena-Engine"@),
        ("Connection"@, "close"@),
        ("Pragma"@, "no-cache"@),
        ("Content-Type"@, "text/html; charset=UTF-8"@),
        ("Content-Language"@, "ko-KR"@),
        ("Access-Control-Allow-Origin"@, "*"@),
    ]
}

/// Builds the baseline headers for a given timestamp.
pub fn base_headers_for(d: &HttpDate) -> (r: StringMap)
    ensures
        r.wf(),
        r@ == spec_base_headers(*d),
{
    proof {
        reveal_strlit("Date");
        reveal_strlit("Server");
        reveal_strlit("Connection");
        reveal_strlit("Pragma");
        reveal_strlit("Content-Type");
        reveal_strlit("Content-Language");
        reveal_strlit("Access-Control-Allow-Origin");
        assert("Date"@.len() == 4);
        assert("Server"@.len() == 6);
        assert("Connection"@.len() == 10);
        assert("Pragma"@.len() == 6);
        assert("Content-Type"@.len() == 12);
        assert("Content-Language"@.len() == 16);
        assert("Access-Control-Allow-Origin"@.len() == 27);
        assert("Server"@ != "Pragma"@) by {
            assert("Server"@[0] != "Pragma"@[0]);
        }
    }
    let mut header = StringMap::new();
    let ghost m0 = header@;
    header.insert(String::from_str("Date"), format_http_date(d));
    proof {
        lemma_map_insert_fresh(m0, "Date"@, spec_date_line(*d));
        assert(header@ =~= spec_base_headers(*d).take(1));
    }
    let ghost m1 = header@;
    header.insert(String::from_str("Server"), get_server_name());
    proof {
        lemma_map_insert_fresh(m1, "Server"@, "Athena-Engine"@);
        assert(header@ =~= spec_base_headers(*d).take(2));
    }
    let ghost m2 = header@;
    header.insert(String::from_str("Connection"), String::from_str("close"));
    proof {
        lemma_map_insert_fresh(m2, "Connection"@, "close"@);
        assert(header@ =~= spec_base_headers(*d).take(3));
    }
    let ghost m3 = header@;
    header.insert(String::from_str("Pragma"), String::from_str("no-cache"));
    proof {
        lemma_map_insert_fresh(m3, "Pragma"@, "no-cache"@);
        assert(header@ =~= spec_base_headers(*d).take(4));
    }
    let ghost m4 = header@;
    header.insert(String::from_str("Content-Type"), String::from_str("text/html; charset=UTF-8"));
    proof {
        lemma_map_insert_fresh(m4, "Content-Type"@, "text/html; charset=UTF-8"@);
        assert(header@ =~= spec_base_headers(*d).take(5));
    }
    let ghost m5 = header@;
    header.insert(String::from_str("Content-Language"), String::from_str("ko-KR"));
    proof {
        lemma_map_insert_fresh(m5, "Content-Language"@, "ko-KR"@);
        assert(header@ =~= spec_base_headers(*d).take(6));
    }
    let ghost m6 = header@;
    header.insert(String::from_str("Access-Control-Allow-Origin"), String::from_str("*"));
    proof {
        lemma_map_insert_fresh(m6, "Access-Control-Allow-Origin"@, "*"@);
        assert(header@ =~= spec_base_headers(*d));
    }
    header
}

/// Builds the baseline headers at the current time. The timestamp is the
/// clock's; everything else is fixed.
pub fn default_response_header_writer() -> (r: StringMap)
    ensures
        r.wf(),
        exists|d: HttpDate| d.wf() && r@ == spec_base_headers(d),
{
    let d = now_utc();
    let r = base_headers_for(&d);
    assert(d.wf() && r@ == spec_base_headers(d));
    r
}

/// Both the method and the version are present and supported.
pub open spec fn spec_request_ok(method: Option<Method>, version: Option<HttpVersion>) -> bool {
    &&& method matches Some(m) && m != Method::NOT_SUPPORTED
    &&& version matches Some(v) && v != HttpVersion::NOT_SUPPORTED
}

/// The status for a supported request: what the page read decided, or 404
/// without a target.
pub open spec fn spec_response_code(target: Option<Seq<char>>, page: PageReadV) -> HttpStateCode {
    match target {
        None => HttpStateCode::HTTP_404,
        Some(_) => match page.is_success {
            IsPageFileReadSuccess::SUCCESS => HttpStateCode::HTTP_200,
            IsPageFileReadSuccess::FAIL => HttpStateCode::HTTP_400,
            IsPageFileReadSuccess::NO_DATA => HttpStateCode::HTTP_404,
        },
    }
}

/// The body for a supported request: the page's text on success, the stock
/// error page otherwise.
pub open spec fn spec_response_body(target: Option<Seq<char>>, page: PageReadV) -> Option<
    Seq<char>,
> {
    match target {
        None => Some(spec_default_body(HttpStateCode::HTTP_404)),
        Some(_) => match page.is_success {
            IsPageFileReadSuccess::SUCCESS => page.value,
            IsPageFileReadSuccess::FAIL => Some(spec_default_body(HttpStateCode::HTTP_400)),
            IsPageFileReadSuccess::NO_DATA => Some(spec_default_body(HttpStateCode::HTTP_404)),
        },
    }
}

/// The full header map of a built response: the baseline, the fixed
/// content headers, the caller's extra headers in their order (later keys
/// win), and a `Content-Length` computed from the body's UTF-8 byte
/// length — `0` without a body, with `Accept-Ranges` only beside a body.
/// The byte length of a body, as the machine measures a string: its
/// UTF-8 encoding's length.
pub open spec fn spec_body_len(b: Seq<char>) -> nat {
    (encode_utf8(b).len() as usize) as nat
}

pub open spec fn spec_response_headers(
    d: HttpDate,
    input_header: Option<Seq<(Seq<char>, Seq<char>)>>,
    body: Option<Seq<char>>,
) -> Seq<(Seq<char>, Seq<char>)> {
    let h1 = map_insert(
        map_insert(spec_base_headers(d), "Content-Disposition"@, "inline"@),
        "Cache-Control"@,
        "no-cache"@,
    );
    let h2 = match input_header {
        Some(ps) => map_insert_all(h1, ps, ps.len() as int),
        None => h1,
    };
    match body {
        Some(b) => map_insert(
            map_insert(h2, "Content-Length"@, dec_str(spec_body_len(b))),
            "Accept-Ranges"@,
            "bytes"@,
        ),
        None => map_insert(h2, "Content-Length"@, "0"@),
    }
}

/// What `build_response` makes of its inputs, field by field. On a
/// supported request the decision table runs on the page read; otherwise
/// the response is marked failed and left with the defaults — no status
/// is assigned to the rejection itself, so the serializer's fixed
/// fallback page is what such a request is answered with.
pub open spec fn response_built(
    r: Response,
    method: Option<Method>,
    version: Option<HttpVersion>,
    target: Option<Seq<char>>,
    cookies: Option<Seq<ResponseCookieV>>,
    input_header: Option<Seq<(Seq<char>, Seq<char>)>>,
    page: PageReadV,
    d: HttpDate,
) -> bool {
    let ok = spec_request_ok(method, version);
    let body = if ok {
        spec_response_body(target, page)
    } else {
        None
    };
    &&& r.is_success == (if ok {
        IsResponseDataCreateSuccess::SUCCESS
    } else {
        IsResponseDataCreateSuccess::FAIL
    })
    &&& r.response_code == Some(
        if ok {
            spec_response_code(target, page)
        } else {
            HttpStateCode::HTTP_200
        },
    )
    &&& r.http_version == Some(
        if ok {
            version->Some_0
        } else {
            HttpVersion::HTTP_1_1
        },
    )
    &&& r.cookies.deep_view() == (if ok {
        cookies
    } else {
        None
    })
    &&& r.body matches Some(b) && b.body_str.deep_view() == body
    &&& r.headers matches Some(h) && h@ == spec_response_headers(d, input_header, body) && h.wf()
}

/// Builds the default response deterministically, from the request, the
/// already-made page read and a timestamp.
pub fn build_response(
    request: &Request,
    cookies: Option<Vec<ResponseCookies>>,
    input_header: Option<StringMap>,
    page: &PageFileReadInfo,
    date: &HttpDate,
) -> (r: Response)
    ensures
        response_built(
            r,
            request.method,
            request.http_version,
            request.target.deep_view(),
            cookies.deep_view(),
            input_header.deep_view(),
            page.deep_view(),
            *date,
        ),
{
    let mut response = Response {
        is_success: IsResponseDataCreateSuccess::SUCCESS,
        response_code: None,
        http_version: None,
        headers: None,
        cookies: None,
        body: None,
    };
    let mut response_http_version = HttpVersion::HTTP_1_1;
    let mut response_code = HttpStateCode::HTTP_200;
    let mut body_str: Option<String> = None;
    let method_ok = match &request.method {
        Some(m) => *m != Method::NOT_SUPPORTED,
        None => false,
    };
    let version_ok = match &request.http_version {
        Some(v) => *v != HttpVersion::NOT_SUPPORTED,
        None => false,
    };
    if method_ok && version_ok {
        match &request.http_version {
            Some(version) => {
                response_http_version = match version {
                    HttpVersion::HTTP_1_0 => HttpVersion::HTTP_1_0,
                    HttpVersion::HTTP_1_1 => HttpVersion::HTTP_1_1,
                    HttpVersion::HTTP_2_0 => HttpVersion::HTTP_2_0,
                    HttpVersion::NOT_SUPPORTED => HttpVersion::HTTP_1_1,
                };
            },
            None => {},
        }
        response.cookies = cookies;
        match &request.target {
            Some(_) => {
                match page.is_success {
                    IsPageFileReadSuccess::SUCCESS => {
                        response_code = HttpStateCode::HTTP_200;
                        body_str = match &page.value {
                            Some(v) => Some(v.clone()),
                            None => None,
                        };
                    },
                    IsPageFileReadSuccess::FAIL => {
                        response_code = HttpStateCode::HTTP_400;
                        body_str = Some(default_body_writer(&response_code));
                    },
                    IsPageFileReadSuccess::NO_DATA => {
                        response_code = HttpStateCode::HTTP_404;
                        body_str = Some(default_body_writer(&response_code));
                    },
                }
            },
            None => {
                response_code = HttpStateCode::HTTP_404;
                body_str = Some(default_body_writer(&response_code));
            },
        }
    } else {
        response.is_success = IsResponseDataCreateSuccess::FAIL;
    }
    // The headers: baseline, fixed content headers, the caller's extras,
    // and the computed length.
    let ghost input_view = input_header.deep_view();
    let mut header = base_headers_for(date);
    header.insert(String::from_str("Content-Disposition"), String::from_str("inline"));
    header.insert(String::from_str("Cache-Control"), String::from_str("no-cache"));
    let ghost h1 = header@;
    match input_header {
        Some(input) => {
            let n = input.len();
            let mut j: usize = 0;
            while j < n
                invariant
                    n == input@.len(),
                    0 <= j <= n,
                    header.wf(),
                    header@ == map_insert_all(h1, input@, j as int),
                decreases n - j,
            {
                header.insert(input.key_at(j).clone(), input.value_at(j).clone());
                j += 1;
            }
        },
        None => {},
    }
    assert(header@ == (match input_view {
        Some(ps) => map_insert_all(h1, ps, ps.len() as int),
        None => h1,
    }));
    match &body_str {
        Some(body) => {
            header.insert(
                String::from_str("Content-Length"),
                u64_to_dec(body.as_str().len() as u64),
            );
            header.insert(String::from_str("Accept-Ranges"), String::from_str("bytes"));
        },
        None => {
            header.insert(String::from_str("Content-Length"), String::from_str("0"));
        },
    }
    response.body = Some(ResponseBody { body_str });
    response.response_code = Some(response_code);
    response.http_version = Some(response_http_version);
    response.headers = Some(header);
    response
}

/// Builds the default response for a request: on a supported method and
/// version the target is read through the page source and the decision
/// table applied to whatever came back; the timestamp is the clock's.
pub fn default_response_writer<P: PageSource>(
    request: &Request,
    cookies: Option<Vec<ResponseCookies>>,
    input_header: Option<StringMap>,
    pages: &P,
) -> (r: Response)
    ensures
        r.is_success == (if spec_request_ok(request.method, request.http_version) {
            IsResponseDataCreateSuccess::SUCCESS
        } else {
            IsResponseDataCreateSuccess::FAIL
        }),
        exists|d: HttpDate, p: PageReadV|
            d.wf() && #[trigger] response_built(
                r,
                request.method,
                request.http_version,
                request.target.deep_view(),
                cookies.deep_view(),
                input_header.deep_view(),
                p,
                d,
            ),
{
    let ghost cookies_view = cookies.deep_view();
    let ghost input_view = input_header.deep_view();
    let date = now_utc();
    let method_ok = match &request.method {
        Some(m) => *m != Method::NOT_SUPPORTED,
        None => false,
    };
    let version_ok = match &request.http_version {
        Some(v) => *v != HttpVersion::NOT_SUPPORTED,
        None => false,
    };
    let page = if method_ok && version_ok {
        match &request.target {
            Some(t) => pages.lookup(t.as_str()),
            None => PageFileReadInfo { value: None, is_success: IsPageFileReadSuccess::NO_DATA },
        }
    } else {
        PageFileReadInfo { value: None, is_success: IsPageFileReadSuccess::NO_DATA }
    };
    let r = build_response(request, cookies, input_header, &page, &date);
    proof {
        assert(response_built(
            r,
            request.method,
            request.http_version,
            request.target.deep_view(),
            cookies_view,
            input_view,
            page.deep_view(),
            date,
        ));
    }
    r
}

/// One `key: value` line per header entry, in map order.
pub open spec fn header_lines(h: Seq<(Seq<char>, Seq<char>)>, i: int) -> Seq<char>
    decreases i,
{
    if i <= 0 {
        Seq::empty()
    } else {
        header_lines(h, i - 1) + h[i - 1].0 + ": "@ + h[i - 1].1 + "\r\n"@
    }
}

/// One `Set-Cookie` line per cookie, in list order.
pub open spec fn cookie_lines(cs: Seq<ResponseCookieV>, i: int) -> Seq<char>
    decreases i,
{
    if i <= 0 {
        Seq::empty()
    } else {
        cookie_lines(cs, i - 1) + "Set-Cookie: "@ + cs[i - 1].name + "="@ + cs[i - 1].value
            + "; Path="@ + cs[i - 1].path + "\r\n"@
    }
}

/// The status line, the header block, and the blank line that closes the
/// block; the body, when there is one, follows the blank line.
pub open spec fn spec_response_format(
    v: HttpVersion,
    c: HttpStateCode,
    header_str: Seq<char>,
    body: Option<ResponseBody>,
) -> Seq<char> {
    let head = spec_version_text(v) + " "@ + spec_status_text(c) + "\r\n"@ + header_str + "\r\n"@;
    match body {
        Some(b) => match b.body_str {
            Some(t) => head + t@,
            None => head,
        },
        None => head,
    }
}

/// The fixed page served whenever a response is marked failed or arrives
/// with version, status or headers unset.
pub open spec fn spec_fallback_response() -> Seq<char> {
    "HTTP/1.1 200 OK\r\nContent-Type: text/html; charset=UTF-8\r\nDate: Wed, 14 Dec 2022 00:25:57 GMT\r\nAccess-Control-Allow-Origin: *\r\nContent-Disposition: inline\r\nContent-Language: ko-KR"@
}

/// The wire text of a response: its status line, headers and cookies in
/// their stored order, then the body — or the fixed fallback page when
/// the response is failed or incomplete.
pub open spec fn spec_response_string(r: Response) -> Seq<char> {
    if r.is_success == IsResponseDataCreateSuccess::SUCCESS && r.http_version is Some
        && r.response_code is Some && r.headers is Some {
        let hs = header_lines(r.headers->Some_0@, r.headers->Some_0@.len() as int);
        let block = match r.cookies {
            Some(cs) => hs + cookie_lines(cs.deep_view(), cs.deep_view().len() as int),
            None => hs,
        };
        spec_response_format(r.http_version->Some_0, r.response_code->Some_0, block, r.body)
    } else {
        spec_fallback_response()
    }
}

/// Writes the status line, header block and body in wire form.
pub fn response_format(
    http_version: &HttpVersion,
    response_code: &HttpStateCode,
    header_str: String,
    body: Option<ResponseBody>,
) -> (r: String)
    ensures
        r@ == spec_response_format(*http_version, *response_code, header_str@, body),
{
    let mut s = http_version_classify_original(http_version);
    s.append(" ");
    s.append(default_http_state_writer(response_code));
    s.append("\r\n");
    s.append(header_str.as_str());
    s.append("\r\n");
    match body {
        Some(b) => {
            match b.body_str {
                Some(t) => {
                    s.append(t.as_str());
                    assert(s@ =~= spec_response_format(
                        *http_version,
                        *response_code,
                        header_str@,
                        Some(ResponseBody { body_str: Some(t) }),
                    ));
                    s
                },
                None => {
                    assert(s@ =~= spec_response_format(
                        *http_version,
                        *response_code,
                        header_str@,
                        Some(ResponseBody { body_str: None }),
                    ));
                    s
                },
            }
        },
        None => {
            assert(s@ =~= spec_response_format(*http_version, *response_code, header_str@, None));
            s
        },
    }
}

/// Serializes a response to wire text. A response marked failed, or one
/// with version, status or headers unset, is written as the fixed
/// fallback page instead: a deliberate safety net against half-built
/// responses reaching a client.
pub fn response_parser(response: Response) -> (r: String)
    ensures
        r@ == spec_response_string(response),
{
    let ok = response.is_success == IsResponseDataCreateSuccess::SUCCESS;
    if !ok {
        return String::from_str(
            "HTTP/1.1 200 OK\r\nContent-Type: text/html; charset=UTF-8\r\nDate: Wed, 14 Dec 2022 00:25:57 GMT\r\nAccess-Control-Allow-Origin: *\r\nContent-Disposition: inline\r\nContent-Language: ko-KR",
        );
    }
    if response.http_version.is_none() || response.response_code.is_none()
        || response.headers.is_none() {
        return String::from_str(
            "HTTP/1.1 200 OK\r\nContent-Type: text/html; charset=UTF-8\r\nDate: Wed, 14 Dec 2022 00:25:57 GMT\r\nAccess-Control-Allow-Origin: *\r\nContent-Disposition: inline\r\nContent-Language: ko-KR",
        );
    }
    let mut header = String::new();
    match &response.headers {
        Some(response_header) => {
            let n = response_header.len();
            let mut i: usize = 0;
            while i < n
                invariant
                    n == response_header@.len(),
                    0 <= i <= n,
                    header@ == header_lines(response_header@, i as int),
                decreases n - i,
            {
                header.append(response_header.key_at(i).as_str());
                header.append(": ");
                header.append(response_header.value_at(i).as_str());
                header.append("\r\n");
                assert(header@ =~= header_lines(response_header@, i + 1));
                i += 1;
            }
        },
        None => {},
    }
    match &response.cookies {
        Some(cookies) => {
            let ghost pre = header@;
            let ghost cs = cookies.deep_view();
            let n = cookies.len();
            let mut i: usize = 0;
            while i < n
                invariant
                    n == cookies@.len(),
                    cs == cookies.deep_view(),
                    0 <= i <= n,
                    header@ == pre + cookie_lines(cs, i as int),
                decreases n - i,
            {
                assert(cookies[i as int].deep_view() == cs[i as int]);
                header.append("Set-Cookie: ");
                header.append(cookies[i].name.as_str());
                header.append("=");
                header.append(cookies[i].value.as_str());
                header.append("; Path=");
                header.append(cookies[i].path.as_str());
                header.append("\r\n");
                assert(header@ =~= pre + cookie_lines(cs, i + 1));
                i += 1;
            }
        },
        None => {},
    }
    match (&response.http_version, &response.response_code) {
        (Some(http_version), Some(response_code)) => {
            let v = *http_version;
            let c = *response_code;
            response_format(&v, &c, header, response.body)
        },
        _ => {
            String::from_str(
                "HTTP/1.1 200 OK\r\nContent-Type: text/html; charset=UTF-8\r\nDate: Wed, 14 Dec 2022 00:25:57 GMT\r\nAccess-Control-Allow-Origin: *\r\nContent-Disposition: inline\r\nContent-Language: ko-KR",
            )
        },
    }
}

} // verus!
