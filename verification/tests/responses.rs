use athena_engine::connection::{ClientEvent, RequestObserver, Responder, handle_request_lines};
use athena_engine::httpdate::{HttpDate, format_http_date, month_str};
use athena_engine::logging::LogTypeTag;
use athena_engine::pages::{AllPages, IsPageFileReadSuccess, PageFileReadInfo, PageInfo,
    PageLookup, PageMap, PageSource, resolve_page};
use athena_engine::pool::{PoolMessage, PoolPlan, WorkerStep, worker_dispatch};
use athena_engine::request::{Request, request_parser};
use athena_engine::response::{HttpStateCode, IsResponseDataCreateSuccess, Response, ResponseBody,
    ResponseCookies, build_response, default_body_writer, default_http_state_writer,
    default_response_writer, get_server_name, response_parser};
use athena_engine::strmap::StringMap;

const FALLBACK: &str = "HTTP/1.1 200 OK\r\nContent-Type: text/html; charset=UTF-8\r\nDate: Wed, 14 Dec 2022 00:25:57 GMT\r\nAccess-Control-Allow-Origin: *\r\nContent-Disposition: inline\r\nContent-Language: ko-KR";

fn a_date() -> HttpDate {
    HttpDate { weekday: 2, day: 14, month: 12, year: 2022, hour: 0, minute: 25, second: 57 }
}

/// Serves `hi` for the one registered page, through the registry decision.
struct HelloPages {
    all: AllPages,
}

impl PageSource for HelloPages {
    fn lookup(&self, path: &str) -> PageFileReadInfo {
        match resolve_page(&self.all, path) {
            PageLookup::Read(file_path) => {
                if file_path == "hello.html" {
                    PageFileReadInfo {
                        value: Some("hi".to_string()),
                        is_success: IsPageFileReadSuccess::SUCCESS,
                    }
                } else {
                    PageFileReadInfo { value: None, is_success: IsPageFileReadSuccess::FAIL }
                }
            },
            PageLookup::Denied => {
                PageFileReadInfo { value: None, is_success: IsPageFileReadSuccess::FAIL }
            },
            PageLookup::NoData => {
                PageFileReadInfo { value: None, is_success: IsPageFileReadSuccess::NO_DATA }
            },
        }
    }
}

fn hello_registry(accessible: bool) -> AllPages {
    let mut pages = PageMap::new();
    pages.insert(
        "/hello.html".to_string(),
        PageInfo { file_path: "hello.html".to_string(), is_access: accessible },
    );
    AllPages { pages: Some(pages) }
}

#[test]
fn mixed_case_request_resolves_to_registered_page() {
    let all = hello_registry(true);
    match resolve_page(&all, "/HELLO.HTML") {
        PageLookup::Read(file_path) => assert_eq!(file_path, "hello.html"),
        _ => panic!("expected a readable page"),
    }
}

#[test]
fn empty_registry_reports_no_data() {
    let all = AllPages { pages: None };
    assert!(matches!(resolve_page(&all, "/hello.html"), PageLookup::NoData));
}

#[test]
fn inaccessible_entry_is_denied_not_read() {
    let all = hello_registry(false);
    assert!(matches!(resolve_page(&all, "/hello.html"), PageLookup::Denied));
}

#[test]
fn registered_page_round_trips_to_200_with_its_contents() {
    let source = HelloPages { all: hello_registry(true) };
    let packet = vec!["GET /HELLO.HTML HTTP/1.1"];
    let request = request_parser(&packet);
    let response = default_response_writer(&request, None, None, &source);
    assert_eq!(response.is_success, IsResponseDataCreateSuccess::SUCCESS);
    assert_eq!(response.response_code, Some(HttpStateCode::HTTP_200));
    let body = response.body.expect("body").body_str.expect("body text");
    assert_eq!(body, "hi");
}

#[test]
fn inaccessible_page_answers_400() {
    let source = HelloPages { all: hello_registry(false) };
    let packet = vec!["GET /hello.html HTTP/1.1"];
    let request = request_parser(&packet);
    let response = default_response_writer(&request, None, None, &source);
    assert_eq!(response.response_code, Some(HttpStateCode::HTTP_400));
    let body = response.body.expect("body").body_str.expect("body text");
    assert_eq!(body, default_body_writer(&HttpStateCode::HTTP_400));
}

#[test]
fn unknown_page_answers_404() {
    let source = HelloPages { all: hello_registry(true) };
    let packet = vec!["GET /missing.html HTTP/1.1"];
    let request = request_parser(&packet);
    let response = default_response_writer(&request, None, None, &source);
    assert_eq!(response.response_code, Some(HttpStateCode::HTTP_404));
}

#[test]
fn unsupported_method_marks_the_response_failed() {
    let source = HelloPages { all: hello_registry(true) };
    let packet = vec!["PUT /hello.html HTTP/1.1"];
    let request = request_parser(&packet);
    let response = default_response_writer(&request, None, None, &source);
    assert_eq!(response.is_success, IsResponseDataCreateSuccess::FAIL);
    assert_eq!(response_parser(response), FALLBACK);
}

#[test]
fn unsupported_version_marks_the_response_failed() {
    let source = HelloPages { all: hello_registry(true) };
    let packet = vec!["GET /hello.html HTTP/9"];
    let request = request_parser(&packet);
    let response = default_response_writer(&request, None, None, &source);
    assert_eq!(response.is_success, IsResponseDataCreateSuccess::FAIL);
}

#[test]
fn content_length_counts_body_bytes() {
    let page = PageFileReadInfo {
        value: Some("hi".to_string()),
        is_success: IsPageFileReadSuccess::SUCCESS,
    };
    let packet = vec!["GET /hello.html HTTP/1.1"];
    let request = request_parser(&packet);
    let response = build_response(&request, None, None, &page, &a_date());
    let headers = response.headers.expect("headers");
    assert_eq!(headers.get("Content-Length").as_deref(), Some("2"));
    assert_eq!(headers.get("Accept-Ranges").as_deref(), Some("bytes"));
    assert_eq!(headers.get("Server").as_deref(), Some("Athena-Engine"));
    assert_eq!(headers.get("Date").as_deref(), Some("Wed, 14 Dec 2022 00:25:57 GMT"));
}

#[test]
fn missing_body_reports_zero_length() {
    let page = PageFileReadInfo { value: None, is_success: IsPageFileReadSuccess::NO_DATA };
    let packet = vec!["PUT /x HTTP/1.1"];
    let request = request_parser(&packet);
    let response = build_response(&request, None, None, &page, &a_date());
    let headers = response.headers.expect("headers");
    assert_eq!(headers.get("Content-Length").as_deref(), Some("0"));
    assert!(headers.get("Accept-Ranges").is_none());
}

#[test]
fn caller_headers_win_on_conflicts() {
    let page = PageFileReadInfo { value: None, is_success: IsPageFileReadSuccess::NO_DATA };
    let packet = vec!["GET /x HTTP/1.1"];
    let request = request_parser(&packet);
    let mut extra = StringMap::new();
    extra.insert("Pragma".to_string(), "cache".to_string());
    extra.insert("X-Extra".to_string(), "1".to_string());
    let response = build_response(&request, None, Some(extra), &page, &a_date());
    let headers = response.headers.expect("headers");
    assert_eq!(headers.get("Pragma").as_deref(), Some("cache"));
    assert_eq!(headers.get("X-Extra").as_deref(), Some("1"));
}

#[test]
fn serializer_writes_status_headers_cookies_then_body() {
    let mut headers = StringMap::new();
    headers.insert("A".to_string(), "B".to_string());
    let response = Response {
        is_success: IsResponseDataCreateSuccess::SUCCESS,
        response_code: Some(HttpStateCode::HTTP_200),
        http_version: Some(athena_engine::request::HttpVersion::HTTP_1_1),
        headers: Some(headers),
        cookies: Some(vec![ResponseCookies {
            name: "n".to_string(),
            value: "v".to_string(),
            path: "/".to_string(),
        }]),
        body: Some(ResponseBody { body_str: Some("hi".to_string()) }),
    };
    let wire = response_parser(response);
    assert_eq!(wire, "HTTP/1.1 200 OK\r\nA: B\r\nSet-Cookie: n=v; Path=/\r\n\r\nhi");
}

#[test]
fn serializer_without_body_still_closes_the_header_block() {
    let mut headers = StringMap::new();
    headers.insert("A".to_string(), "B".to_string());
    let response = Response {
        is_success: IsResponseDataCreateSuccess::SUCCESS,
        response_code: Some(HttpStateCode::HTTP_404),
        http_version: Some(athena_engine::request::HttpVersion::HTTP_1_0),
        headers: Some(headers),
        cookies: None,
        body: Some(ResponseBody { body_str: None }),
    };
    let wire = response_parser(response);
    assert_eq!(wire, "HTTP/1.0 404 Not Found\r\nA: B\r\n\r\n");
}

#[test]
fn failed_response_serializes_to_the_fixed_fallback() {
    let response = Response {
        is_success: IsResponseDataCreateSuccess::FAIL,
        response_code: None,
        http_version: None,
        headers: None,
        cookies: None,
        body: None,
    };
    assert_eq!(response_parser(response), FALLBACK);
}

#[test]
fn incomplete_response_serializes_to_the_fixed_fallback() {
    let response = Response {
        is_success: IsResponseDataCreateSuccess::SUCCESS,
        response_code: Some(HttpStateCode::HTTP_200),
        http_version: None,
        headers: None,
        cookies: None,
        body: None,
    };
    assert_eq!(response_parser(response), FALLBACK);
}

#[test]
fn status_texts_are_exact() {
    assert_eq!(default_http_state_writer(&HttpStateCode::HTTP_200), "200 OK");
    assert_eq!(default_http_state_writer(&HttpStateCode::HTTP_404), "404 Not Found");
    assert_eq!(default_http_state_writer(&HttpStateCode::HTTP_426), "426 Upgrade Required");
    assert_eq!(
        default_http_state_writer(&HttpStateCode::HTTP_416),
        "Requested Range Not Satisfiable"
    );
}

#[test]
fn default_body_wraps_the_status_text() {
    assert_eq!(
        default_body_writer(&HttpStateCode::HTTP_404),
        "<head><title>404 Not Found</title><body>404 Not Found</body></head>"
    );
}

#[test]
fn server_name_is_fixed() {
    assert_eq!(get_server_name(), "Athena-Engine");
}

#[test]
fn date_line_is_padded_and_marked_gmt() {
    assert_eq!(format_http_date(&a_date()), "Wed, 14 Dec 2022 00:25:57 GMT");
    let d = HttpDate { weekday: 0, day: 3, month: 1, year: 2026, hour: 9, minute: 5, second: 7 };
    assert_eq!(format_http_date(&d), "Mon, 03 Jan 2026 09:05:07 GMT");
}

#[test]
fn month_tags_are_exact() {
    assert_eq!(month_str(1), "Jan");
    assert_eq!(month_str(2), "Feb");
    assert_eq!(month_str(6), "Jun");
    assert_eq!(month_str(12), "Dec");
}

#[test]
fn string_map_keeps_insertion_order_and_overwrites_in_place() {
    let mut map = StringMap::new();
    map.insert("a".to_string(), "1".to_string());
    map.insert("b".to_string(), "2".to_string());
    map.insert("a".to_string(), "3".to_string());
    assert_eq!(map.len(), 2);
    assert_eq!(map.key_at(0), "a");
    assert_eq!(map.value_at(0), "3");
    assert_eq!(map.key_at(1), "b");
    assert_eq!(map.get("a").as_deref(), Some("3"));
    assert_eq!(map.get("missing"), None);
}

#[test]
fn log_labels_are_exact() {
    assert_eq!(LogTypeTag::INFO.label(), "INFO");
    assert_eq!(LogTypeTag::WARNING.label(), "WARNING");
    assert_eq!(LogTypeTag::FATAL.label(), "FATAL");
}

#[test]
fn pool_plan_carries_its_size() {
    let plan = PoolPlan::new(3);
    assert_eq!(plan.size, 3);
    assert_eq!(plan.terminate_count(), 3);
    assert_eq!(plan.worker_ids(), vec![0, 1, 2]);
}

#[test]
fn worker_runs_jobs_and_stops_on_terminate() {
    match worker_dispatch(PoolMessage::NewJob(7u32)) {
        WorkerStep::Run(job) => assert_eq!(job, 7),
        WorkerStep::Stop => panic!("a job must be run"),
    }
    match worker_dispatch(PoolMessage::<u32>::Terminate) {
        WorkerStep::Run(_) => panic!("terminate must stop the worker"),
        WorkerStep::Stop => {},
    }
}

struct CountingObserver;

impl RequestObserver for CountingObserver {
    fn on_request(&self, _request: &Request) {}
}

struct FailingResponder;

impl Responder for FailingResponder {
    fn on_response(&self, _request: &Request) -> Response {
        Response {
            is_success: IsResponseDataCreateSuccess::FAIL,
            response_code: None,
            http_version: None,
            headers: None,
            cookies: None,
            body: None,
        }
    }
}

#[test]
fn connection_writes_exactly_when_a_response_hook_exists() {
    let packet = vec!["GET / HTTP/1.1"];
    let events = ClientEvent {
        event_request: Some(CountingObserver),
        event_response: Some(FailingResponder),
    };
    let out = handle_request_lines(&packet, &events);
    assert_eq!(out.as_deref(), Some(FALLBACK));
    let silent: ClientEvent<CountingObserver, FailingResponder> =
        ClientEvent { event_request: Some(CountingObserver), event_response: None };
    assert_eq!(handle_request_lines(&packet, &silent), None);
}
