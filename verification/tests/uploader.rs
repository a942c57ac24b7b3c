use qiniu_ng::config::{Config, ConfigBuilder};
use qiniu_ng::credential::Credential;
use qiniu_ng::form_uploader::FormUploaderBuilder;
use qiniu_ng::http::{HTTPCaller, Header, NoHooks, Request, Response, TransportError};
use qiniu_ng::retry::{Outcome, RetryKind};
use qiniu_ng::upload_policy::UploadPolicyBuilder;
use qiniu_ng::upload_token::UploadToken;
use std::cell::Cell;

struct CounterCallMock {
    status_code: u16,
    body: Vec<u8>,
    called: Cell<usize>,
}

impl CounterCallMock {
    fn new(status_code: u16, body: &str) -> Self {
        CounterCallMock { status_code, body: body.as_bytes().to_vec(), called: Cell::new(0) }
    }

    fn call_called(&self) -> usize {
        self.called.get()
    }
}

impl HTTPCaller for CounterCallMock {
    fn call(&self, _request: &Request) -> Result<Response, TransportError> {
        self.called.set(self.called.get() + 1);
        Ok(Response {
            status_code: self.status_code,
            headers: vec![
                Header { name: "Content-Type".to_string(), value: "application/json".to_string() },
                Header { name: "X-Reqid".to_string(), value: "fake-req-id".to_string() },
            ],
            body: self.body.clone(),
            elapsed: 1,
        })
    }
}

fn get_credential() -> Credential {
    Credential::new("abcdefghklmnopq", "1234567890")
}

fn up_urls_list() -> Vec<Vec<String>> {
    vec![
        vec!["http://z1h1.com".to_string(), "http://z1h2.com".to_string()],
        vec!["http://z2h1.com".to_string(), "http://z2h2.com".to_string()],
    ]
}

fn config_with_retries(retries: usize) -> Config {
    ConfigBuilder::default().http_request_retries(retries).upload_logger(false).build()
}

fn token(config: &Config) -> UploadToken {
    let policy = UploadPolicyBuilder::new_policy_for_bucket("test-bucket", config, 1_600_000_000).build();
    UploadToken::new(policy, get_credential())
}

#[test]
fn test_storage_uploader_form_uploader_upload_seekable_stream() {
    let mock = CounterCallMock::new(200, "{\"key\":\"abc\",\"hash\":\"def\"}");
    let config = ConfigBuilder::default().upload_logger(false).build();
    let data = vec![7u8; 1 << 10];
    let uploaded = FormUploaderBuilder::new(&token(&config))
        .key("test:file")
        .seekable_stream(&data, "", None, true, "boundary")
        .send(&mock, &mut NoHooks, &config, &up_urls_list(), 1_600_000_000);
    let result = uploaded.result.unwrap();
    assert_eq!(result.key(), Some("abc"));
    assert_eq!(result.hash(), Some("def"));
    assert_eq!(mock.call_called(), 1);
}

#[test]
fn test_storage_uploader_form_uploader_upload_seekable_stream_with_500_error() {
    let mock = CounterCallMock::new(500, "{\"error\":\"test error\"}");
    let config = config_with_retries(3);
    let data = vec![7u8; 1 << 10];
    let uploaded = FormUploaderBuilder::new(&token(&config))
        .key("test:file")
        .seekable_stream(&data, "", None, true, "boundary")
        .send(&mock, &mut NoHooks, &config, &up_urls_list(), 1_600_000_000);
    assert!(uploaded.result.is_err());
    assert_eq!(mock.call_called(), 16);
    let error = uploaded.result.unwrap_err();
    assert_eq!(error.retry_kind, RetryKind::RetryableError);
    assert_eq!(error.to_string(), "status code 500: test error");
    assert_eq!(error.host.as_deref(), Some("http://z2h2.com"));
    assert_eq!(uploaded.runs.iter().map(|run| run.len()).collect::<Vec<_>>(), vec![8, 8]);
    let tries: Vec<(usize, usize)> = uploaded.runs[0].iter().map(|a| (a.host, a.tries)).collect();
    assert_eq!(tries, vec![(0, 0), (0, 1), (0, 2), (0, 3), (1, 0), (1, 1), (1, 2), (1, 3)]);
}

#[test]
fn test_storage_uploader_form_uploader_upload_seekable_stream_with_503_error() {
    let mock = CounterCallMock::new(503, "{\"error\":\"test error\"}");
    let config = config_with_retries(3);
    let data = vec![7u8; 1 << 10];
    let uploaded = FormUploaderBuilder::new(&token(&config))
        .key("test:file")
        .seekable_stream(&data, "", None, true, "boundary")
        .send(&mock, &mut NoHooks, &config, &up_urls_list(), 1_600_000_000);
    assert!(uploaded.result.is_err());
    assert_eq!(mock.call_called(), 4);
    assert_eq!(uploaded.result.unwrap_err().retry_kind, RetryKind::HostUnretryableError);
    assert_eq!(uploaded.runs.iter().map(|run| run.len()).collect::<Vec<_>>(), vec![2, 2]);
}

#[test]
fn test_storage_uploader_form_uploader_upload_stream_with_500_error() {
    let mock = CounterCallMock::new(500, "{\"error\":\"test error\"}");
    let config = config_with_retries(3);
    let data = vec![7u8; 1 << 10];
    let uploaded = FormUploaderBuilder::new(&token(&config))
        .key("test:file")
        .stream(&data, "", None, None, "boundary")
        .send(&mock, &mut NoHooks, &config, &up_urls_list(), 1_600_000_000);
    assert!(uploaded.result.is_err());
    assert_eq!(mock.call_called(), 16);
}

#[test]
fn test_storage_uploader_form_uploader_upload_stream_with_503_error() {
    let mock = CounterCallMock::new(503, "{\"error\":\"test error\"}");
    let config = config_with_retries(3);
    let data = vec![7u8; 1 << 10];
    let uploaded = FormUploaderBuilder::new(&token(&config))
        .key("test:file")
        .stream(&data, "", None, None, "boundary")
        .send(&mock, &mut NoHooks, &config, &up_urls_list(), 1_600_000_000);
    assert!(uploaded.result.is_err());
    assert_eq!(mock.call_called(), 4);
}

#[test]
fn test_storage_uploader_form_uploader_upload_stream_with_400_incorrect_zone_error() {
    let mock = CounterCallMock::new(400, "{\"error\":\"incorrect region, please use z3h1.com\"}");
    let config = config_with_retries(3);
    let data = vec![7u8; 1 << 10];
    let uploaded = FormUploaderBuilder::new(&token(&config))
        .key("test:file")
        .stream(&data, "", None, None, "boundary")
        .send(&mock, &mut NoHooks, &config, &up_urls_list(), 1_600_000_000);
    let error = uploaded.result.unwrap_err();
    assert_eq!(error.retry_kind, RetryKind::ZoneUnretryableError);
    assert_eq!(mock.call_called(), 2);
    assert_eq!(uploaded.runs.len(), 2);
    assert_eq!(uploaded.runs[0][0].outcome, Outcome::StatusFailure(RetryKind::ZoneUnretryableError));
}

#[test]
fn a_final_failure_ends_the_upload_at_once() {
    let mock = CounterCallMock::new(403, "{\"error\":\"bad token\"}");
    let config = config_with_retries(3);
    let uploaded = FormUploaderBuilder::new(&token(&config))
        .stream(b"data", "", None, None, "boundary")
        .send(&mock, &mut NoHooks, &config, &up_urls_list(), 1_600_000_000);
    assert_eq!(uploaded.result.unwrap_err().retry_kind, RetryKind::UnretryableError);
    assert_eq!(mock.call_called(), 1);
    assert_eq!(uploaded.runs.len(), 1);
}

#[test]
fn an_upload_without_hosts_has_no_host() {
    let mock = CounterCallMock::new(200, "{}");
    let config = config_with_retries(3);
    let uploader = FormUploaderBuilder::new(&token(&config)).stream(b"data", "", None, None, "b");
    // without a region the uploader of objects sends nothing at all
    let none = qiniu_ng::object_uploader::ObjectUploader::new("test-bucket", "token", Vec::new(), &config)
        .never_be_resumable()
        .upload_stream(
            &mock,
            &mut NoHooks,
            &mut qiniu_ng::resumable_uploader::NoProgress,
            b"data",
            Some(4),
            "",
            None,
            "b",
            &Vec::new(),
            0,
        );
    assert!(none.traces.is_empty());
    assert!(matches!(
        none.result,
        Err(qiniu_ng::object_uploader::UploadError::QiniuError(e))
            if matches!(e.error_kind(), qiniu_ng::http::HTTPErrorKind::NoHostAvailable)
    ));
    assert_eq!(mock.call_called(), 0);
    let empty = uploader.send(&mock, &mut NoHooks, &config, &vec![Vec::new(), Vec::new()], 0);
    assert_eq!(empty.runs.len(), 2);
    assert!(empty.result.is_err());
    let second = uploader.send(
        &mock,
        &mut NoHooks,
        &config,
        &vec![Vec::new(), vec!["http://h".to_string()]],
        0,
    );
    assert!(second.result.is_ok());
    assert_eq!(mock.call_called(), 1);
    assert_eq!(uploader.content_type(), "multipart/form-data; boundary=b");
    assert!(uploader.body().ends_with(b"--b--\r\n"));
}

#[test]
fn every_attempt_keeps_the_form_it_carried_and_the_answer_it_got() {
    let mock = CounterCallMock::new(500, "{\"error\":\"test error\"}");
    let config = ConfigBuilder::default()
        .http_request_retries(1)
        .http_request_retry_delay(250)
        .upload_logger(false)
        .build();
    let form = FormUploaderBuilder::new(&token(&config))
        .key("k")
        .seekable_stream(b"data", "", None, true, "boundary");
    let hosts = vec!["http://h1".to_string(), "http://h2".to_string()];
    let (result, attempts) = form.send_form_request(&mock, &mut NoHooks, &config, &hosts);
    assert_eq!(attempts.len(), 4);
    for attempt in attempts.iter() {
        assert_eq!(attempt.request.body, form.body());
        assert_eq!(attempt.request.url, format!("{}/", hosts[attempt.host]));
        assert_eq!(attempt.request.headers.len(), 1);
        assert_eq!(attempt.request.headers[0].name, "Content-Type");
        assert_eq!(attempt.request.headers[0].value, form.content_type());
        assert_eq!(attempt.request.delay, if attempt.tries > 0 { 250 } else { 0 });
        assert_eq!(attempt.request.timeout, config.http_request_timeout());
        assert_eq!(attempt.body, b"{\"error\":\"test error\"}".to_vec());
        assert!(attempt.reported.is_empty());
    }
    let error = result.unwrap_err();
    assert_eq!(error.retry_kind(), RetryKind::RetryableError);
    assert!(matches!(
        error.error_kind(),
        qiniu_ng::http::HTTPErrorKind::ResponseStatusCodeError(500, m) if m == "test error"
    ));
    assert_eq!(error.url, "http://h2/");
    assert_eq!(error.request_id.as_deref(), Some("fake-req-id"));

    let good = CounterCallMock::new(200, "plain words");
    let (result, attempts) = form.send_form_request(&good, &mut NoHooks, &config, &hosts);
    assert_eq!(attempts.len(), 1);
    assert_eq!(attempts[0].body, b"plain words".to_vec());
    let all = form.body().len() as u64;
    assert_eq!(attempts[0].reported, vec![(all, all)]);
    let answer = result.unwrap();
    assert!(!answer.is_json());
    assert_eq!(answer.as_bytes(), b"plain words");
}
