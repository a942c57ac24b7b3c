use qiniu_ng::client::{build_request, host_part, make_query, send, Call, Token};
use qiniu_ng::config::{Config, ConfigBuilder};
use qiniu_ng::credential::Credential;
use qiniu_ng::env::Env;
use qiniu_ng::error::{
    qiniu_ng_err_any_error, qiniu_ng_err_io_error_extract, qiniu_ng_err_io_error_t,
    qiniu_ng_err_os_error_extract, qiniu_ng_err_t,
};
use qiniu_ng::http::{
    find_header, judge, mentions_incorrect_zone, read_error_message, HTTPCaller, HTTPErrorKind, Header,
    Hooks, HTTPError, Method, NoHooks, Rejection, Request, Response, TransportError,
};
use qiniu_ng::multipart::{encode_form, make_content_type, text_part, Part};
use qiniu_ng::retry::{advance, classify_status, Outcome, Position, RetryKind, RetryPolicy};
use qiniu_ng::rob::Rob;
use qiniu_ng::string_map::StringMap;
use qiniu_ng::text::{contains_ignoring_case, split_first, u64_to_decimal};
use qiniu_ng::upload_logger::{failure_message, record_attempt, UpType, UploadLogger};
use qiniu_ng::upload_policy::{PolicyValue, UploadPolicy, UploadPolicyBuilder};
use qiniu_ng::upload_response::UploadResponse;
use qiniu_ng::uri::split;
use std::cell::{Cell, RefCell};

#[test]
fn rob_reads_the_same_borrowed_or_owned() {
    let text = String::from("abc");
    let borrowed: Rob<String> = Rob::from_ref(&text);
    let boxed: Rob<String> = Rob::from_box(Box::new(String::from("abc")));
    let owned: Rob<String> = Rob::from_value(String::from("abc"));
    assert_eq!(borrowed.as_ref(), "abc");
    assert_eq!(boxed.as_ref(), "abc");
    assert_eq!(owned.deref(), "abc");
    let slice: Rob<str> = Rob::from_ref("xyz");
    assert_eq!(slice.as_ref(), "xyz");
}

#[test]
fn env_keeps_its_values() {
    let names = [
        "ak", "sk", "public", "private", "huadong", "huabei", "huanan", "upload", "dual-huadong",
        "dual-huabei",
    ];
    let values: Vec<String> = names.iter().map(|s| s.to_string()).collect();
    let env = Env::from_values(&values).unwrap();
    assert_eq!(env.access_key(), "ak");
    assert_eq!(env.secret_key(), "sk");
    assert_eq!(env.public_bucket(), "public");
    assert_eq!(env.private_bucket(), "private");
    assert_eq!(env.huadong_bucket(), "huadong");
    assert_eq!(env.huabei_bucket(), "huabei");
    assert_eq!(env.huanan_bucket(), "huanan");
    assert_eq!(env.upload_bucket(), "upload");
    assert_eq!(env.dual_regions_bucket_huadong(), "dual-huadong");
    assert_eq!(env.dual_regions_bucket_huabei(), "dual-huabei");
    assert!(Env::from_values(&values[1..].to_vec()).is_none());
}

#[test]
fn errors_carry_their_numbers() {
    assert_eq!(qiniu_ng_err_t::default(), qiniu_ng_err_t::qiniu_ng_err_none);
    assert!(!qiniu_ng_err_any_error(&qiniu_ng_err_t::qiniu_ng_err_none));
    let os = qiniu_ng_err_t::from_io_error(Some(13), qiniu_ng_err_io_error_t::qiniu_ng_err_io_permission_denied_err);
    assert!(qiniu_ng_err_any_error(&os));
    assert_eq!(qiniu_ng_err_os_error_extract(&os), Some(13));
    assert_eq!(qiniu_ng_err_io_error_extract(&os), None);
    let io = qiniu_ng_err_t::from_io_error(None, qiniu_ng_err_io_error_t::qiniu_ng_err_io_timed_out_err);
    assert_eq!(io, qiniu_ng_err_t::from_io_error_kind(qiniu_ng_err_io_error_t::qiniu_ng_err_io_timed_out_err));
    assert_eq!(qiniu_ng_err_os_error_extract(&io), None);
    assert_eq!(qiniu_ng_err_io_error_extract(&io), Some(14));
    assert_eq!(qiniu_ng_err_io_error_t::qiniu_ng_err_io_not_found_err.code(), 1);
    assert_eq!(qiniu_ng_err_io_error_t::qiniu_ng_err_io_other_err.code(), 17);
    assert_eq!(qiniu_ng_err_io_error_t::qiniu_ng_err_io_unexpected_eof_err.code(), 18);
    for code in 1..=18 {
        assert_eq!(qiniu_ng_err_io_error_t::from_code(code).code(), code);
    }
    assert_eq!(qiniu_ng_err_io_error_t::from_code(0), qiniu_ng_err_io_error_t::qiniu_ng_err_io_other_err);
    assert_eq!(qiniu_ng_err_io_error_t::from_code(19), qiniu_ng_err_io_error_t::qiniu_ng_err_io_other_err);
}

#[test]
fn status_codes_are_classified() {
    assert_eq!(classify_status(200, false), None);
    assert_eq!(classify_status(299, true), None);
    assert_eq!(classify_status(400, true), Some(RetryKind::ZoneUnretryableError));
    assert_eq!(classify_status(400, false), Some(RetryKind::UnretryableError));
    assert_eq!(classify_status(404, true), Some(RetryKind::UnretryableError));
    assert_eq!(classify_status(500, false), Some(RetryKind::RetryableError));
    assert_eq!(classify_status(502, false), Some(RetryKind::RetryableError));
    assert_eq!(classify_status(503, false), Some(RetryKind::HostUnretryableError));
    assert_eq!(classify_status(599, false), Some(RetryKind::HostUnretryableError));
    assert_eq!(classify_status(612, false), Some(RetryKind::UnretryableError));
    assert_eq!(classify_status(199, false), Some(RetryKind::UnretryableError));
    assert_eq!(classify_status(302, false), Some(RetryKind::UnretryableError));
    assert!(mentions_incorrect_zone(b"{\"error\":\"Incorrect Region, please use z3h1.com\"}"));
    assert!(mentions_incorrect_zone(b"INCORRECT ZONE"));
    assert!(!mentions_incorrect_zone(b"incorrect regio"));
    assert!(!mentions_incorrect_zone(b""));
    assert!(contains_ignoring_case(b"xxAbCxx", b"abc"));
    assert!(contains_ignoring_case(b"abc", b""));
    assert!(!contains_ignoring_case(b"ab", b"abc"));
    let response = |status_code, body: &[u8]| Response {
        status_code,
        headers: Vec::new(),
        body: body.to_vec(),
        elapsed: 0,
    };
    assert_eq!(judge(&response(400, b"incorrect zone")), Some(RetryKind::ZoneUnretryableError));
    assert_eq!(judge(&response(500, b"incorrect zone")), Some(RetryKind::RetryableError));
    assert_eq!(judge(&response(204, b"")), None);
    assert_eq!(read_error_message(b"{\"error\":\"test error\"}"), "test error");
    assert_eq!(read_error_message(b"{\"error\":5}"), "");
    assert_eq!(read_error_message(b"<html>"), "");
}

#[test]
fn a_run_moves_from_try_to_try_and_from_host_to_host() {
    let policy = RetryPolicy { hosts: 2, retries: 1, idempotent: true };
    let at = |host, tries| Position { host, tries };
    let retryable = Outcome::StatusFailure(RetryKind::RetryableError);
    assert_eq!(advance(policy, at(0, 0), retryable), Some(at(0, 1)));
    assert_eq!(advance(policy, at(0, 1), retryable), Some(at(1, 0)));
    assert_eq!(advance(policy, at(1, 1), retryable), None);
    assert_eq!(advance(policy, at(0, 0), Outcome::TransportFailure), Some(at(0, 1)));
    let host = Outcome::StatusFailure(RetryKind::HostUnretryableError);
    assert_eq!(advance(policy, at(0, 0), host), Some(at(1, 0)));
    assert_eq!(advance(policy, at(1, 0), host), None);
    assert_eq!(advance(policy, at(0, 0), Outcome::Success), None);
    assert_eq!(advance(policy, at(0, 0), Outcome::StatusFailure(RetryKind::ZoneUnretryableError)), None);
    assert_eq!(advance(policy, at(0, 0), Outcome::StatusFailure(RetryKind::UnretryableError)), None);
    let once = RetryPolicy { idempotent: false, ..policy };
    assert_eq!(advance(once, at(0, 0), Outcome::TransportFailure), None);
    assert_eq!(advance(once, at(0, 0), retryable), Some(at(0, 1)));
}

struct Script {
    answers: RefCell<Vec<Result<u16, &'static str>>>,
    requests: RefCell<Vec<(String, u64)>>,
}

impl HTTPCaller for Script {
    fn call(&self, request: &Request) -> Result<Response, TransportError> {
        self.requests.borrow_mut().push((request.url.clone(), request.delay));
        match self.answers.borrow_mut().remove(0) {
            Ok(status_code) => Ok(Response {
                status_code,
                headers: vec![Header { name: "X-Reqid".to_string(), value: "r1".to_string() }],
                body: b"{\"error\":\"oops\"}".to_vec(),
                elapsed: 7,
            }),
            Err(message) => Err(TransportError { message: message.to_string(), elapsed: 9 }),
        }
    }
}

struct Turning {
    rejections: Cell<usize>,
    errors: usize,
    progress: Vec<(u64, u64)>,
}

impl Hooks for Turning {
    fn on_uploading_progress(&mut self, sent: u64, total: u64) {
        self.progress.push((sent, total));
    }

    fn on_response(&mut self, _response: &Response) -> Option<Rejection> {
        if self.rejections.get() > 0 {
            self.rejections.set(self.rejections.get() - 1);
            Some(Rejection::Malicious)
        } else {
            None
        }
    }

    fn on_error(&mut self, _host: &str, _error: &HTTPError) {
        self.errors += 1;
    }
}

#[test]
fn send_tries_hosts_in_order_and_reports_every_attempt() {
    let config = ConfigBuilder::default().http_request_retries(1).http_request_retry_delay(250).build();
    let hosts = vec!["http://h1".to_string(), "http://h2".to_string()];
    let query = vec![Header { name: "a b".to_string(), value: "c&d".to_string() }];
    let call = Call {
        method: Method::GET,
        path: "/p",
        query: &query,
        content_type: "",
        body: b"xyz",
        idempotent: true,
        token: Token::Anonymous,
    };
    let script = Script {
        answers: RefCell::new(vec![Err("reset"), Ok(500), Ok(503), Ok(200)]),
        requests: RefCell::new(Vec::new()),
    };
    let mut hooks = Turning { rejections: Cell::new(0), errors: 0, progress: Vec::new() };
    let sent = send(&script, &mut hooks, &config, &hosts, &call);
    assert!(sent.result.is_err());
    let outcomes: Vec<(usize, usize, Outcome, Option<u16>)> =
        sent.attempts.iter().map(|a| (a.host, a.tries, a.outcome, a.status_code)).collect();
    assert_eq!(
        outcomes,
        vec![
            (0, 0, Outcome::TransportFailure, None),
            (0, 1, Outcome::StatusFailure(RetryKind::RetryableError), Some(500)),
            (1, 0, Outcome::StatusFailure(RetryKind::HostUnretryableError), Some(503)),
        ]
    );
    assert_eq!(
        *script.requests.borrow(),
        vec![
            ("http://h1/p?a+b=c%26d".to_string(), 0),
            ("http://h1/p?a+b=c%26d".to_string(), 250),
            ("http://h2/p?a+b=c%26d".to_string(), 0),
        ]
    );
    let recorded: Vec<String> = sent.attempts.iter().map(|a| a.request.url.clone()).collect();
    let asked: Vec<String> = script.requests.borrow().iter().map(|r| r.0.clone()).collect();
    assert_eq!(recorded, asked);
    let error = sent.result.unwrap_err();
    assert_eq!(error.retry_kind(), RetryKind::HostUnretryableError);
    assert!(matches!(error.error_kind(), HTTPErrorKind::ResponseStatusCodeError(503, m) if m == "oops"));
    assert_eq!(error.request_id.as_deref(), Some("r1"));
    assert_eq!(error.host.as_deref(), Some("http://h2"));
    assert_eq!(hooks.errors, 3);
    assert_eq!(sent.attempts[1].request_id.as_deref(), Some("r1"));
    assert_eq!(sent.attempts[0].elapsed, 9);

    let good = Script { answers: RefCell::new(vec![Ok(200), Ok(200)]), requests: RefCell::new(Vec::new()) };
    let mut turning = Turning { rejections: Cell::new(1), errors: 0, progress: Vec::new() };
    let sent = send(&good, &mut turning, &config, &hosts, &call);
    assert_eq!(sent.result.unwrap().status_code, 200);
    assert_eq!(sent.attempts.len(), 2);
    assert_eq!(sent.attempts[0].outcome, Outcome::StatusFailure(RetryKind::HostUnretryableError));
    assert_eq!(sent.attempts[1].outcome, Outcome::Success);
    assert_eq!(turning.progress, vec![(3, 3)]);

    let unused = Script { answers: RefCell::new(Vec::new()), requests: RefCell::new(Vec::new()) };
    let none = send(&unused, &mut NoHooks, &config, &Vec::new(), &call);
    assert!(none.attempts.is_empty());
    assert!(matches!(none.result.unwrap_err().error_kind(), HTTPErrorKind::NoHostAvailable));
}

#[test]
fn requests_are_built_with_their_authorization() {
    let credential = Credential::new("abcdefghklmnopq", "1234567890");
    let query = vec![Header { name: "bucket".to_string(), value: "b".to_string() }];
    let call = |token| Call {
        method: Method::POST,
        path: "/move/1/2",
        query: &query,
        content_type: "application/x-www-form-urlencoded",
        body: b"name=test&language=go",
        idempotent: false,
        token,
    };
    let request = build_request(&call(Token::V1(&credential)), "http://upload.qiniup.com", 30_000, 0);
    assert_eq!(request.url, "http://upload.qiniup.com/move/1/2?bucket=b");
    assert_eq!(request.method, Method::POST);
    assert_eq!(request.timeout, 30_000);
    assert_eq!(request.body, b"name=test&language=go");
    assert_eq!(
        find_header(&request.headers, "Content-Type"),
        Some("application/x-www-form-urlencoded")
    );
    assert_eq!(
        find_header(&request.headers, "Authorization").unwrap(),
        "QBox ".to_string() + &credential.sign(b"/move/1/2?bucket=b\nname=test&language=go")
    );
    assert_eq!(
        credential.authorization_v1("http://upload.qiniup.com/move/1/2?bucket=b", "application/json", b"{}"),
        Some("QBox ".to_string() + &credential.sign(b"/move/1/2?bucket=b\n"))
    );
    assert_eq!(credential.authorization_v1("not a url", "", b""), None);
    let request = build_request(&call(Token::V2(&credential)), "http://upload.qiniup.com", 1, 2);
    assert_eq!(
        find_header(&request.headers, "Authorization").unwrap(),
        "Qiniu ".to_string()
            + &credential.sign(
                b"POST /move/1/2?bucket=b\nHost: upload.qiniup.com\nContent-Type: application/x-www-form-urlencoded\n\nname=test&language=go"
            )
    );
    assert_eq!(request.delay, 2);
    let request = build_request(&call(Token::UpToken("abc")), "http://upload.qiniup.com", 1, 2);
    assert_eq!(find_header(&request.headers, "Authorization"), Some("UpToken abc"));
    let request = build_request(&call(Token::Anonymous), "http://upload.qiniup.com", 1, 2);
    assert_eq!(find_header(&request.headers, "Authorization"), None);
    assert_eq!(host_part("https://a.b:8080"), "a.b:8080");
    assert_eq!(host_part("https://a.b:443"), "a.b");
    assert_eq!(host_part("http://user@UP.Example.com/"), "up.example.com");
    assert_eq!(host_part("a.b"), "a.b");
    assert_eq!(host_part("a.b:8080"), "a.b:8080");
    assert_eq!(make_query(&Vec::new()), None);
    assert_eq!(
        credential.authorization_v2_for_parts("GET", "h", "/p", None, "application/octet-stream", b"raw"),
        "Qiniu ".to_string() + &credential.sign(b"GET /p\nHost: h\nContent-Type: application/octet-stream\n\n")
    );
    assert_eq!(
        credential.authorization_v2_for_parts("GET", "h", "/p", Some("q=1"), "", b"raw"),
        "Qiniu ".to_string() + &credential.sign(b"GET /p?q=1\nHost: h\n\n")
    );
    assert_eq!(credential.access_key(), "abcdefghklmnopq");
    assert_eq!(credential.secret_key(), "1234567890");
    assert_eq!(credential.base64ed_hmac_digest(b"hello"), "b84KVc-LroDiz0ebUANfdzSRxa0=");
}

#[test]
fn urls_are_taken_apart() {
    let parts = split("https://example.com:8443/a%20b/c?x=1&y=2").unwrap();
    assert_eq!(parts.path, "/a%20b/c");
    assert_eq!(parts.query.as_deref(), Some("x=1&y=2"));
    assert_eq!(parts.host.as_deref(), Some("example.com"));
    assert_eq!(parts.port, Some(8443));
    let plain = split("http://example.com").unwrap();
    assert_eq!((plain.path.as_str(), plain.query, plain.port), ("/", None, None));
    assert!(split("example.com").is_none());
}

#[test]
fn numbers_and_texts() {
    assert_eq!(u64_to_decimal(0), "0");
    assert_eq!(u64_to_decimal(9), "9");
    assert_eq!(u64_to_decimal(10), "10");
    assert_eq!(u64_to_decimal(1_234_567_890), "1234567890");
    assert_eq!(u64_to_decimal(u64::MAX), "18446744073709551615");
    assert_eq!(split_first("a:b:c", ':'), Some(("a", "b:c")));
    assert_eq!(split_first(":b", ':'), Some(("", "b")));
    assert_eq!(split_first("abc", ':'), None);
}

#[test]
fn forms_are_written_part_by_part() {
    let parts = vec![
        text_part("token", "t"),
        Part {
            name: "file".to_string(),
            file_name: None,
            content_type: Some("application/octet-stream".to_string()),
            data: vec![0, 255, 13, 10],
        },
    ];
    let mut expected =
        b"--b\r\nContent-Disposition: form-data; name=\"token\"\r\n\r\nt\r\n--b\r\nContent-Disposition: form-data; name=\"file\"\r\nContent-Type: application/octet-stream\r\n\r\n".to_vec();
    expected.extend_from_slice(&[0, 255, 13, 10]);
    expected.extend_from_slice(b"\r\n--b--\r\n");
    assert_eq!(encode_form(&parts, "b"), expected);
    assert_eq!(encode_form(&Vec::new(), "b"), b"--b--\r\n".to_vec());
    assert_eq!(make_content_type("b"), "multipart/form-data; boundary=b");
}

#[test]
fn the_logger_hands_out_full_batches() {
    let attempt = |outcome, status_code| qiniu_ng::client::Attempt {
        host: 0,
        tries: 0,
        outcome,
        status_code,
        request_id: Some("id".to_string()),
        elapsed: 5,
        request: Request {
            method: Method::POST,
            url: "http://h/".to_string(),
            headers: Vec::new(),
            body: Vec::new(),
            timeout: 0,
            delay: 0,
        },
        body: Vec::new(),
        reported: Vec::new(),
    };
    let good = record_attempt(&attempt(Outcome::Success, Some(200)), "http://h", UpType::Form, 10, 99);
    assert_eq!((good.sent, good.total_size, good.duration, good.timestamp), (10, 10, 5, 99));
    assert_eq!(good.error_message, None);
    assert_eq!(good.host.as_deref(), Some("http://h"));
    let bad = record_attempt(&attempt(Outcome::TransportFailure, None), "http://h", UpType::ChunkedV1, 10, 99);
    assert_eq!(bad.sent, 0);
    assert_eq!(bad.status_code, None);
    assert_eq!(bad.error_message.as_deref(), Some("transport error"));
    assert_eq!(failure_message(Outcome::Success), None);
    assert_eq!(
        failure_message(Outcome::StatusFailure(RetryKind::ZoneUnretryableError)).as_deref(),
        Some("zone unretryable error")
    );
    let mut logger = UploadLogger::new(2);
    assert!(logger.log(good).is_none());
    let batch = logger.log(bad).unwrap();
    assert_eq!(batch.len(), 2);
    assert_eq!(batch[0].status_code, Some(200));
    assert!(logger.flush().is_empty());
    let third = record_attempt(&attempt(Outcome::Success, Some(200)), "http://h", UpType::Form, 1, 1);
    assert!(logger.log(third).is_none());
    assert_eq!(logger.flush().len(), 1);
    let mut eager = UploadLogger::new(0);
    let fourth = record_attempt(&attempt(Outcome::Success, Some(200)), "http://h", UpType::Form, 1, 1);
    assert_eq!(eager.log(fourth).unwrap().len(), 1);
}

#[test]
fn policies_keep_their_settings_in_order() {
    let config = Config::default();
    let policy = UploadPolicyBuilder::new_policy_for_objects_name_prefixed_with("b", "p/", &config, 10)
        .token_lifetime(100, 1000)
        .save_as("target", true)
        .enable_mime_detection()
        .infrequent_storage()
        .mime_types("image/*")
        .return_url("http://r")
        .return_body("body")
        .callback("http://c", "a=1")
        .persistent_ops("avthumb/mp4")
        .end_user("me")
        .text("custom", "x\"y")
        .number("deadline", 7)
        .flag("forceSaveKey", false)
        .build();
    assert_eq!(
        policy.as_json(),
        "{\"scope\":\"b:p/\",\"deadline\":7,\"isPrefixalScope\":1,\"saveKey\":\"target\",\
\"forceSaveKey\":false,\"detectMime\":1,\"fileType\":1,\"mimeLimit\":\"image/*\",\
\"returnUrl\":\"http://r\",\"returnBody\":\"body\",\"callbackUrl\":\"http://c\",\
\"callbackBody\":\"a=1\",\"persistentOps\":\"avthumb/mp4\",\"endUser\":\"me\",\"custom\":\"x\\\"y\"}"
    );
    assert_eq!(policy.len(), 15);
    assert_eq!(policy.bucket(), Some("b"));
    assert_eq!(policy.key(), Some("p/"));
    assert_eq!(policy.get_text("endUser"), Some("me"));
    assert_eq!(policy.get_number("fileType"), Some(1));
    assert_eq!(policy.get_text("fileType"), None);
    assert!(policy.get("nothing").is_none());
    assert!(matches!(policy.get("forceSaveKey"), Some(PolicyValue::Flag(false))));
    assert!(!policy.is_insert_only());
    let read = UploadPolicy::from_json(policy.as_json().as_bytes()).unwrap();
    // what is read back leaves out the field that is not recognized
    assert_eq!(read.len(), 14);
    assert_eq!(read.get_text("custom"), None);
    assert_eq!(read.get_text("saveKey"), Some("target"));
    assert_eq!(UploadPolicy::empty().as_json(), "{}");
    assert!(UploadPolicy::from_json(b"[1]").is_none());
    let saturated = UploadPolicyBuilder::new_policy_for_bucket("b", &config, u64::MAX).build();
    assert_eq!(saturated.token_deadline(), Some(u64::MAX));
    let mut copy = policy.clone();
    copy.set("scope", PolicyValue::Text("other".to_string()));
    assert_eq!(copy.bucket(), Some("other"));
    assert_eq!(copy.key(), None);
    assert_eq!(policy.bucket(), Some("b"));
}

#[test]
fn string_maps_keep_the_order_of_first_setting() {
    let mut map = StringMap::new();
    map.insert("b", "1");
    map.insert("a", "2");
    map.insert("b", "3");
    assert_eq!(map.len(), 2);
    assert_eq!(map.get("b"), Some("3"));
    assert_eq!(map.get("a"), Some("2"));
    assert_eq!(map.get("c"), None);
    assert_eq!((map.entry(0).name.as_str(), map.entry(0).value.as_str()), ("b", "3"));
    let copy = map.clone();
    assert_eq!(copy.get("a"), Some("2"));
}

#[test]
fn upload_responses_keep_the_body() {
    let response = UploadResponse::from_body(b"{\"key\":\"abc\",\"hash\":\"def\",\"x\":1}".to_vec());
    assert!(response.is_json());
    assert_eq!(response.key(), Some("abc"));
    assert_eq!(response.hash(), Some("def"));
    assert_eq!(response.as_bytes(), b"{\"key\":\"abc\",\"hash\":\"def\",\"x\":1}");
    let partial = UploadResponse::from_body(b"{\"key\":7}".to_vec());
    assert_eq!((partial.key(), partial.hash(), partial.is_json()), (None, None, true));
}

#[test]
fn config_defaults() {
    let config = Config::default();
    assert!(config.use_https());
    assert_eq!(config.upload_token_lifetime(), 3600);
    assert_eq!(config.batch_max_operation_size(), 1000);
    assert_eq!(config.http_request_retries(), 3);
    assert_eq!(config.http_request_retry_delay(), 500);
    assert_eq!(config.http_request_timeout(), 30_000);
    assert_eq!(config.upload_threshold(), 1 << 22);
    assert_eq!(config.upload_block_size(), 1 << 22);
    assert_eq!(config.upload_chunk_size(), 1 << 22);
    assert!(config.upload_logger_enabled());
    assert_eq!(config.uc_url(), "https://uc.qbox.me");
    assert_eq!(config.rs_url(), "https://rs.qbox.me");
    assert_eq!(config.rsf_url(), "https://rsf.qbox.me");
    assert_eq!(config.api_url(), "https://api.qiniu.com");
    let custom = ConfigBuilder::default()
        .use_https(false)
        .upload_token_lifetime(60)
        .http_request_timeout(5)
        .uc_host("uc.example.com")
        .rs_host("rs.example.com")
        .api_host("api.example.com")
        .build();
    assert_eq!(custom.uc_url(), "http://uc.example.com");
    assert_eq!(custom.rs_url(), "http://rs.example.com");
    assert_eq!(custom.api_url(), "http://api.example.com");
    assert_eq!(custom.upload_token_lifetime(), 60);
    assert_eq!(custom.http_request_timeout(), 5);
    assert_eq!(custom.clone().uc_url(), "http://uc.example.com");
}

#[test]
fn regions_are_known_by_their_places_too() {
    let pairs = [
        (qiniu_ng::region::Region::hua_dong(), qiniu_ng::region::Region::z0()),
        (qiniu_ng::region::Region::hua_bei(), qiniu_ng::region::Region::z1()),
        (qiniu_ng::region::Region::hua_nan(), qiniu_ng::region::Region::z2()),
    ];
    for (by_place, by_id) in pairs.iter() {
        assert_eq!(by_place.region_id(), by_id.region_id());
        assert_eq!(by_place.up_urls(true), by_id.up_urls(true));
        assert_eq!(by_place.rs_urls(false), by_id.rs_urls(false));
        assert!(!by_place.up_urls(false).is_empty());
    }
    assert_ne!(pairs[0].0.up_urls(true), pairs[1].0.up_urls(true));
    assert_ne!(pairs[1].0.up_urls(true), pairs[2].0.up_urls(true));
}

#[test]
fn the_storage_class_is_the_last_one_chosen() {
    let config = Config::default();
    let normal = UploadPolicyBuilder::new_policy_for_bucket("b", &config, 10).normal_storage().build();
    assert_eq!(normal.get_number("fileType"), Some(0));
    let changed = UploadPolicyBuilder::new_policy_for_bucket("b", &config, 10)
        .normal_storage()
        .infrequent_storage()
        .build();
    assert_eq!(changed.get_number("fileType"), Some(1));
    let back = UploadPolicyBuilder::new_policy_for_bucket("b", &config, 10)
        .infrequent_storage()
        .normal_storage()
        .build();
    assert_eq!(back.get_number("fileType"), Some(0));
}

#[test]
fn queries_are_written_in_the_form_of_forms() {
    let pairs = vec![
        Header { name: "A-z_0.9*".to_string(), value: "a b~c".to_string() },
        Header { name: "\u{e9}".to_string(), value: "%/+=&?\n".to_string() },
    ];
    assert_eq!(
        make_query(&pairs).unwrap(),
        "A-z_0.9*=a+b%7Ec&%C3%A9=%25%2F%2B%3D%26%3F%0A"
    );
}
