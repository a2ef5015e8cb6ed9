use athena_engine::request::{request_parser, method_classify, http_version_classify,
    http_version_classify_original, Method, HttpVersion};
use athena_engine::text::{ascii_lower, trim_str, u64_to_dec, parse_usize_dec, split_str,
    replace_str, contains_str};

#[test]
fn well_formed_request_line_recovers_all_three_fields() {
    let packet = vec!["GET /path?k=v HTTP/1.1"];
    let request = request_parser(&packet);
    assert_eq!(request.method, Some(Method::GET));
    assert_eq!(request.target.as_deref(), Some("/path?k=v"));
    assert_eq!(request.http_version, Some(HttpVersion::HTTP_1_1));
}

#[test]
fn malformed_request_line_leaves_fields_unset() {
    let packet = vec!["GET /path"];
    let request = request_parser(&packet);
    assert_eq!(request.method, None);
    assert!(request.target.is_none());
    assert_eq!(request.http_version, None);
}

#[test]
fn empty_packet_parses_to_nothing() {
    let packet: Vec<&str> = vec![];
    let request = request_parser(&packet);
    assert_eq!(request.method, None);
    assert!(request.http_header.is_none());
    assert!(request.cookies.is_none());
    assert!(request.params.is_none());
    assert!(request.body.is_none());
}

#[test]
fn method_classify_exact_names() {
    assert_eq!(method_classify("GET"), Method::GET);
    assert_eq!(method_classify("POST"), Method::POST);
    assert_eq!(method_classify("PUT"), Method::NOT_SUPPORTED);
    assert_eq!(method_classify("get"), Method::NOT_SUPPORTED);
}

#[test]
fn version_classify_exact_names() {
    assert_eq!(http_version_classify("HTTP/1.0"), HttpVersion::HTTP_1_0);
    assert_eq!(http_version_classify("HTTP/1.1"), HttpVersion::HTTP_1_1);
    assert_eq!(http_version_classify("HTTP/2"), HttpVersion::HTTP_2_0);
    assert_eq!(http_version_classify("HTTP/3"), HttpVersion::NOT_SUPPORTED);
}

#[test]
fn version_written_back_to_wire_text() {
    assert_eq!(http_version_classify_original(&HttpVersion::HTTP_1_0), "HTTP/1.0");
    assert_eq!(http_version_classify_original(&HttpVersion::HTTP_2_0), "HTTP/2.0");
    assert_eq!(http_version_classify_original(&HttpVersion::NOT_SUPPORTED), "HTTP/1.1");
}

#[test]
fn cookie_pairs_split_on_commas() {
    let packet = vec!["GET / HTTP/1.1", "Cookie: a=1,b=2", ""];
    let request = request_parser(&packet);
    let cookies = request.cookies.expect("cookie map");
    assert_eq!(cookies.len(), 2);
    assert_eq!(cookies.get("a").as_deref(), Some("1"));
    assert_eq!(cookies.get("b").as_deref(), Some("2"));
}

#[test]
fn cookie_without_equals_is_dropped_silently() {
    let packet = vec!["GET / HTTP/1.1", "Cookie: bad", ""];
    let request = request_parser(&packet);
    let cookies = request.cookies.expect("cookie map");
    assert_eq!(cookies.len(), 0);
}

#[test]
fn single_cookie_without_comma_is_kept() {
    let packet = vec!["GET / HTTP/1.1", "Cookie: a=1", ""];
    let request = request_parser(&packet);
    let cookies = request.cookies.expect("cookie map");
    assert_eq!(cookies.len(), 1);
    assert_eq!(cookies.get("a").as_deref(), Some("1"));
}

#[test]
fn cookie_splits_at_the_first_equals_only() {
    let packet = vec!["GET / HTTP/1.1", "Cookie: a=b=c", ""];
    let request = request_parser(&packet);
    let cookies = request.cookies.expect("cookie map");
    assert_eq!(cookies.get("a").as_deref(), Some("b=c"));
}

#[test]
fn cookie_prefix_matches_without_case() {
    let packet = vec!["GET / HTTP/1.1", "cOOkie: k=v", ""];
    let request = request_parser(&packet);
    let cookies = request.cookies.expect("cookie map");
    assert_eq!(cookies.get("k").as_deref(), Some("v"));
}

#[test]
fn host_header_is_trimmed_into_its_own_field() {
    let packet = vec!["GET / HTTP/1.1", "Host: example.test  ", ""];
    let request = request_parser(&packet);
    assert_eq!(request.host.as_deref(), Some("example.test"));
}

#[test]
fn other_headers_land_in_the_header_map() {
    let packet = vec!["GET / HTTP/1.1", "Accept: text/html", "User-Agent: probe", ""];
    let request = request_parser(&packet);
    let headers = request.http_header.expect("header map");
    assert_eq!(headers.get("Accept").as_deref(), Some("text/html"));
    assert_eq!(headers.get("User-Agent").as_deref(), Some("probe"));
}

#[test]
fn duplicate_header_keys_overwrite_earlier_values() {
    let packet = vec!["GET / HTTP/1.1", "X-K: one", "X-K: two", ""];
    let request = request_parser(&packet);
    let headers = request.http_header.expect("header map");
    assert_eq!(headers.len(), 1);
    assert_eq!(headers.get("X-K").as_deref(), Some("two"));
}

#[test]
fn query_value_is_percent_decoded() {
    let packet = vec!["GET /p?name=a%20b HTTP/1.1"];
    let request = request_parser(&packet);
    let params = request.params.expect("param map");
    assert_eq!(params.get("name").as_deref(), Some("a b"));
}

#[test]
fn ampersand_list_yields_every_pair() {
    let packet = vec!["GET /p?x=1&y=2 HTTP/1.1"];
    let request = request_parser(&packet);
    let params = request.params.expect("param map");
    assert_eq!(params.len(), 2);
    assert_eq!(params.get("x").as_deref(), Some("1"));
    assert_eq!(params.get("y").as_deref(), Some("2"));
}

#[test]
fn hex_escape_decodes_to_named_byte() {
    let packet = vec!["GET /p?x=%41 HTTP/1.1"];
    let request = request_parser(&packet);
    let params = request.params.expect("param map");
    assert_eq!(params.get("x").as_deref(), Some("A"));
}

#[test]
fn target_without_query_yields_no_params() {
    let packet = vec!["GET /plain HTTP/1.1"];
    let request = request_parser(&packet);
    let params = request.params.expect("param map");
    assert_eq!(params.len(), 0);
}

#[test]
fn query_pair_with_extra_equals_is_dropped() {
    let packet = vec!["GET /p?a=b=c&x=1 HTTP/1.1"];
    let request = request_parser(&packet);
    let params = request.params.expect("param map");
    assert_eq!(params.len(), 1);
    assert_eq!(params.get("x").as_deref(), Some("1"));
}

#[test]
fn body_lines_rejoin_with_crlf() {
    let packet = vec!["POST /p HTTP/1.1", "Accept: */*", "", "line one", "line two"];
    let request = request_parser(&packet);
    assert_eq!(request.body.as_deref(), Some("line one\r\nline two\r\n"));
}

#[test]
fn no_body_lines_leave_body_unset() {
    let packet = vec!["GET / HTTP/1.1", "Accept: */*"];
    let request = request_parser(&packet);
    assert!(request.body.is_none());
}

#[test]
fn ascii_lower_folds_capitals_only() {
    assert_eq!(ascii_lower("/HELLO.HTML"), "/hello.html");
    assert_eq!(ascii_lower("MiXeD-09"), "mixed-09");
}

#[test]
fn trim_strips_both_ends() {
    assert_eq!(trim_str("  x \t"), "x");
    assert_eq!(trim_str("x"), "x");
    assert_eq!(trim_str("   "), "");
}

#[test]
fn decimal_writer_writes_exact_digits() {
    assert_eq!(u64_to_dec(0), "0");
    assert_eq!(u64_to_dec(404), "404");
    assert_eq!(u64_to_dec(18446744073709551615), "18446744073709551615");
}

#[test]
fn decimal_parser_accepts_digits_only() {
    assert_eq!(parse_usize_dec("42"), Some(42));
    assert_eq!(parse_usize_dec(""), None);
    assert_eq!(parse_usize_dec("4x"), None);
    assert_eq!(parse_usize_dec("99999999999999999999999999"), None);
}

#[test]
fn split_keeps_empty_pieces() {
    let pieces = split_str("a,,b", ",");
    assert_eq!(pieces, vec!["a".to_string(), "".to_string(), "b".to_string()]);
    let pieces = split_str("", ",");
    assert_eq!(pieces, vec!["".to_string()]);
}

#[test]
fn replace_rewrites_every_occurrence() {
    assert_eq!(replace_str("xaxa", "a", "b"), "xbxb");
    assert_eq!(replace_str("aaa", "aa", "b"), "ba");
    assert_eq!(contains_str("abc", "bc"), true);
    assert_eq!(contains_str("abc", "cb"), false);
}
