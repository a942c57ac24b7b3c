use qiniu_ng::bucket::{BucketBuilder, DomainsError};
use qiniu_ng::cache_map::{CacheMap, TIME_TO_LIVE};
use qiniu_ng::config::{Config, ConfigBuilder};
use qiniu_ng::credential::Credential;
use qiniu_ng::discovery::{query_domains, query_regions};
use qiniu_ng::http::{HTTPCaller, Header, Method, Request, Response, TransportError};
use qiniu_ng::region::{Region, RegionId};
use qiniu_ng::upload_manager::UploadManager;
use std::cell::{Cell, RefCell};

const NOW: u64 = 1_600_000_000;

struct JSONCallMock {
    status_code: u16,
    body: String,
    called: Cell<usize>,
    requests: RefCell<Vec<(Method, String, Vec<(String, String)>)>>,
}

impl JSONCallMock {
    fn new(status_code: u16, body: &str) -> Self {
        JSONCallMock {
            status_code,
            body: body.to_string(),
            called: Cell::new(0),
            requests: RefCell::new(Vec::new()),
        }
    }

    fn call_called(&self) -> usize {
        self.called.get()
    }
}

impl HTTPCaller for JSONCallMock {
    fn call(&self, request: &Request) -> Result<Response, TransportError> {
        self.called.set(self.called.get() + 1);
        self.requests.borrow_mut().push((
            request.method,
            request.url.clone(),
            request.headers.iter().map(|h| (h.name.clone(), h.value.clone())).collect(),
        ));
        Ok(Response {
            status_code: self.status_code,
            headers: vec![
                Header { name: "Content-Type".to_string(), value: "application/json".to_string() },
                Header { name: "X-Reqid".to_string(), value: "fake-req-id".to_string() },
            ],
            body: self.body.as_bytes().to_vec(),
            elapsed: 3,
        })
    }
}

struct PanickedHTTPCaller;

impl HTTPCaller for PanickedHTTPCaller {
    fn call(&self, _request: &Request) -> Result<Response, TransportError> {
        panic!("Should not call it");
    }
}

fn get_credential() -> Credential {
    Credential::new("abcdefghklmnopq", "1234567890")
}

fn builder(config: Config) -> BucketBuilder {
    BucketBuilder::new("test-bucket", get_credential(), UploadManager::new(config))
}

fn hosts_of(suffix: &str) -> String {
    format!(
        "{{\"io\":{{\"src\":{{\"main\":[\"iovip{s}.qbox.me\"]}}}},\
         \"up\":{{\"acc\":{{\"backup\":[\"upload-jjh{s}.qiniup.com\",\"upload-xs{s}.qiniup.com\"],\"main\":[\"upload{s}.qiniup.com\"]}},\
         \"old_acc\":{{\"info\":\"compatible to non-SNI device\",\"main\":[\"upload{s}.qbox.me\"]}},\
         \"old_src\":{{\"info\":\"compatible to non-SNI device\",\"main\":[\"up{s}.qbox.me\"]}},\
         \"src\":{{\"backup\":[\"up-jjh{s}.qiniup.com\",\"up-xs{s}.qiniup.com\"],\"main\":[\"up{s}.qiniup.com\"]}}}},\
         \"rs\":{{\"acc\":{{\"main\":[\"rs{s}.qbox.me\"]}}}},\
         \"rsf\":{{\"acc\":{{\"main\":[\"rsf{s}.qbox.me\"]}}}},\
         \"api\":{{\"acc\":{{\"main\":[\"api{s}.qiniu.com\"]}}}}}}",
        s = suffix
    )
}

fn region_answer(second: &str) -> String {
    format!("{{\"hosts\":[{},{}]}}", hosts_of(""), hosts_of(second))
}

#[test]
fn test_storage_bucket_set_region() {
    let mut cache = CacheMap::new();
    let mut bucket = {
        let mut builder = builder(Config::default());
        builder.region(Region::hua_bei());
        builder.build()
    };
    assert_eq!(
        bucket.region(&PanickedHTTPCaller, &mut cache, NOW).result.unwrap().region_id(),
        Some(RegionId::Z1)
    );
    let regions = bucket.regions(&PanickedHTTPCaller, &mut cache, NOW).result.unwrap();
    assert_eq!(regions.len(), 1);
    assert_eq!(regions.first().unwrap().region_id(), Some(RegionId::Z1));
}

#[test]
fn test_storage_bucket_set_region_id() {
    let mut cache = CacheMap::new();
    let mut bucket = {
        let mut builder = builder(Config::default());
        builder.region_id(RegionId::Z2);
        builder.build()
    };
    assert_eq!(
        bucket.region(&PanickedHTTPCaller, &mut cache, NOW).result.unwrap().region_id(),
        Some(RegionId::Z2)
    );
    let regions = bucket.regions(&PanickedHTTPCaller, &mut cache, NOW).result.unwrap();
    assert_eq!(regions.len(), 1);
    assert_eq!(regions.first().unwrap().region_id(), Some(RegionId::Z2));
}

#[test]
fn test_storage_bucket_prequery_region() {
    let mut cache = CacheMap::new();
    let mock = JSONCallMock::new(200, &region_answer("-z1"));
    let mut bucket = {
        let mut builder = builder(Config::default());
        builder.auto_detect_region(&mock, &mut cache, NOW).result.unwrap();
        builder.build()
    };
    assert_eq!(mock.call_called(), 1);

    let region = bucket.region(&mock, &mut cache, NOW).result.unwrap();
    assert!(region.up_urls(true).contains(&"https://up-xs.qiniup.com".to_string()));
    assert!(region.up_urls(true).contains(&"https://up-jjh.qiniup.com".to_string()));
    assert!(region.up_urls(true).contains(&"https://upload.qbox.me".to_string()));

    let regions = bucket.regions(&mock, &mut cache, NOW).result.unwrap();
    assert_eq!(regions.len(), 2);
    assert!(regions[1].up_urls(true).contains(&"https://up-xs-z1.qiniup.com".to_string()));
    assert!(regions[1].up_urls(true).contains(&"https://up-jjh-z1.qiniup.com".to_string()));
    assert!(regions[1].up_urls(true).contains(&"https://upload-z1.qbox.me".to_string()));

    assert_eq!(mock.call_called(), 1);
}

#[test]
fn test_storage_bucket_query_region() {
    let mut cache = CacheMap::new();
    let mock = JSONCallMock::new(200, &region_answer("-z2"));
    let mut bucket = builder(Config::default()).build();
    assert_eq!(mock.call_called(), 0);

    for url in ["https://up-xs.qiniup.com", "https://up-jjh.qiniup.com", "https://upload.qbox.me"] {
        let mut handle = bucket.duplicate();
        assert!(handle
            .region(&mock, &mut cache, NOW)
            .result.unwrap()
            .up_urls(true)
            .contains(&url.to_string()));
    }
    let regions = bucket.regions(&mock, &mut cache, NOW).result.unwrap();
    assert_eq!(regions.len(), 2);
    assert!(regions[1].up_urls(true).contains(&"https://up-xs-z2.qiniup.com".to_string()));
    assert!(regions[1].up_urls(true).contains(&"https://up-jjh-z2.qiniup.com".to_string()));
    assert!(regions[1].up_urls(true).contains(&"https://upload-z2.qbox.me".to_string()));

    assert_eq!(mock.call_called(), 1);
    let requests = mock.requests.borrow();
    assert_eq!(requests[0].0, Method::GET);
    assert_eq!(
        requests[0].1,
        "https://uc.qbox.me/v4/query?ak=abcdefghklmnopq&bucket=test-bucket"
    );
}

#[test]
fn test_storage_bucket_set_domain() {
    let mut cache = CacheMap::new();
    let mut bucket = {
        let mut builder = builder(Config::default());
        assert!(builder.prepend_domain("abc.com").is_ok());
        assert!(builder.prepend_domain("def.com").is_ok());
        builder.build()
    };
    let domains = bucket.domains(&PanickedHTTPCaller, &mut cache, NOW).result.unwrap();
    assert_eq!(domains.len(), 2);
    assert_eq!(domains.get(0), Some(&"def.com".to_string()));
    assert_eq!(domains.get(1), Some(&"abc.com".to_string()));
}

#[test]
fn test_storage_bucket_prequery_domain() {
    let mut cache = CacheMap::new();
    let mock = JSONCallMock::new(200, "[\"abc.com\",\"def.com\"]");
    let mut bucket = {
        let mut builder = builder(Config::default());
        builder.auto_detect_domains(&mock, &mut cache, NOW).result.unwrap();
        builder.build()
    };
    assert_eq!(mock.call_called(), 1);
    assert!(bucket.domains(&mock, &mut cache, NOW).result.unwrap().contains(&"abc.com".to_string()));
    assert!(bucket.domains(&mock, &mut cache, NOW).result.unwrap().contains(&"def.com".to_string()));
    assert_eq!(mock.call_called(), 1);
}

#[test]
fn test_storage_cloned_bucket_query_domain() {
    let mut cache = CacheMap::new();
    let mock = JSONCallMock::new(200, "[\"abc.com\",\"def.com\"]");
    let bucket = builder(Config::default()).build();
    assert_eq!(mock.call_called(), 0);

    let mut first = bucket.duplicate();
    assert!(first.domains(&mock, &mut cache, NOW).result.unwrap().contains(&"abc.com".to_string()));
    let mut second = bucket.duplicate();
    assert!(second.domains(&mock, &mut cache, NOW).result.unwrap().contains(&"def.com".to_string()));
    assert_eq!(mock.call_called(), 1);
}

#[test]
fn test_storage_independent_bucket_query_domain() {
    let mut cache = CacheMap::new();
    let mock = JSONCallMock::new(200, "[\"abc.com\",\"def.com\"]");
    let mut bucket1 = builder(Config::default()).build();
    let mut bucket2 = builder(Config::default()).build();
    assert_eq!(mock.call_called(), 0);

    assert!(bucket1.domains(&mock, &mut cache, NOW).result.unwrap().contains(&"abc.com".to_string()));
    assert!(bucket2.domains(&mock, &mut cache, NOW).result.unwrap().contains(&"def.com".to_string()));
    assert_eq!(mock.call_called(), 1);
}

#[test]
fn test_storage_bucket_is_private() {
    let mock = JSONCallMock::new(200, "{\"private\":1}");
    let mut bucket = builder(Config::default()).build();
    assert!(bucket.is_private(&mock).result.unwrap());
    assert!(bucket.is_private(&PanickedHTTPCaller).result.unwrap());
    assert_eq!(mock.call_called(), 1);
    let requests = mock.requests.borrow();
    assert_eq!(requests[0].1, "https://uc.qbox.me/v2/bucketInfo?bucket=test-bucket");
    let authorization = requests[0].2.iter().find(|h| h.0 == "Authorization").unwrap();
    assert!(authorization.1.starts_with("Qiniu abcdefghklmnopq:"));
}

#[test]
fn bucket_is_public_when_private_is_zero() {
    let mock = JSONCallMock::new(200, "{\"private\":0}");
    let mut bucket = builder(Config::default()).build();
    assert!(!bucket.is_private(&mock).result.unwrap());
}

#[test]
fn prepend_domain_turns_down_what_makes_no_url() {
    let mut builder = builder(Config::default());
    assert_eq!(builder.prepend_domain("a b c").unwrap_err().text, "http://a b c");
    assert!(builder.prepend_domain("").is_err());
    assert!(builder.prepend_domain("cdn.example.com").is_ok());
    let mut cache = CacheMap::new();
    let mut bucket = builder.build();
    assert_eq!(
        bucket.domains(&PanickedHTTPCaller, &mut cache, NOW).result.unwrap(),
        vec!["cdn.example.com".to_string()]
    );
}

#[test]
fn builder_reset_forgets_regions_and_domains() {
    let mut cache = CacheMap::new();
    let mock = JSONCallMock::new(200, &region_answer("-z1"));
    let mut builder = builder(Config::default());
    builder.region_id(RegionId::Z0).region_id(RegionId::Z1);
    assert!(builder.prepend_domain("abc.com").is_ok());
    let mut first = builder.build();
    assert_eq!(first.regions(&PanickedHTTPCaller, &mut cache, NOW).result.unwrap().len(), 2);
    builder.reset("other-bucket");
    let mut second = builder.build();
    assert_eq!(second.name(), "other-bucket");
    assert_eq!(second.regions(&mock, &mut cache, NOW).result.unwrap().len(), 2);
    assert_eq!(mock.call_called(), 1);
}

#[test]
fn region_iter_yields_region_then_backups() {
    let mut builder = builder(Config::default());
    builder.region_id(RegionId::Z2).region_id(RegionId::NA0).region_id(RegionId::AS0);
    let bucket = builder.build();
    let mut iter = bucket.region_iter();
    assert_eq!(iter.next().unwrap().region_id(), Some(RegionId::Z2));
    assert_eq!(iter.next().unwrap().region_id(), Some(RegionId::NA0));
    assert_eq!(iter.next().unwrap().region_id(), Some(RegionId::AS0));
    assert!(iter.next().is_none());
    assert!(iter.next().is_none());
}

#[test]
fn domain_and_backup_domains_follow_the_list_from_its_end() {
    let mut cache = CacheMap::new();
    let mock = JSONCallMock::new(200, "[\"a.com\",\"b.com\",\"c.com\"]");
    let mut bucket = builder(Config::default()).build();
    let (first, others) = bucket.get_domain_and_backup_domains(&mock, &mut cache, NOW).unwrap();
    assert_eq!(first, "c.com");
    assert_eq!(others, vec!["b.com".to_string(), "a.com".to_string()]);
}

#[test]
fn no_domains_bound() {
    let mut cache = CacheMap::new();
    let mock = JSONCallMock::new(200, "[]");
    let mut bucket = builder(Config::default()).build();
    match bucket.get_domain_and_backup_domains(&mock, &mut cache, NOW) {
        Err(DomainsError::NoDomainsBound) => {}
        _ => panic!("expected NoDomainsBound"),
    }
    let failing = JSONCallMock::new(404, "{\"error\":\"no such bucket\"}");
    let mut other = BucketBuilder::new(
        "other-bucket",
        get_credential(),
        UploadManager::new(Config::default()),
    )
    .build();
    match other.get_domain_and_backup_domains(&failing, &mut cache, NOW) {
        Err(DomainsError::GetDomainsError(_)) => {}
        _ => panic!("expected GetDomainsError"),
    }
}

#[test]
fn rs_urls_are_those_of_the_region_and_the_fallback() {
    let mut cache = CacheMap::new();
    let mut bucket = {
        let mut builder = builder(ConfigBuilder::default().use_https(false).build());
        builder.region_id(RegionId::Z1);
        builder.build()
    };
    assert_eq!(
        bucket.rs_urls(&PanickedHTTPCaller, &mut cache, NOW),
        vec!["http://rs-z1.qbox.me".to_string(), "http://rs.qbox.me".to_string()]
    );
    let failing = JSONCallMock::new(500, "{\"error\":\"down\"}");
    let mut unknown = builder(ConfigBuilder::default().http_request_retries(0).build()).build();
    assert_eq!(
        unknown.rs_urls(&failing, &mut cache, NOW),
        vec!["https://rs.qbox.me".to_string()]
    );
    assert_eq!(failing.call_called(), 1);
    assert_eq!(
        unknown.rs_urls(&PanickedHTTPCaller, &mut cache, NOW),
        vec!["https://rs.qbox.me".to_string()]
    );
}

#[test]
fn region_query_is_answered_from_the_cache_for_a_day() {
    let mut cache = CacheMap::new();
    let mock = JSONCallMock::new(200, &region_answer("-z1"));
    let config = Config::default();
    let first = query_regions(&mock, &mut cache, "b", "ak", &config, NOW);
    assert_eq!(first.attempts.len(), 1);
    assert_eq!(first.result.unwrap().len(), 2);
    let second = query_regions(&mock, &mut cache, "b", "ak", &config, NOW + TIME_TO_LIVE - 1);
    assert_eq!(second.attempts.len(), 0);
    assert_eq!(second.result.unwrap().len(), 2);
    assert_eq!(mock.call_called(), 1);
    let third = query_regions(&mock, &mut cache, "b", "ak", &config, NOW + TIME_TO_LIVE);
    assert_eq!(third.attempts.len(), 1);
    assert_eq!(mock.call_called(), 2);
    let other = query_regions(&mock, &mut cache, "c", "ak", &config, NOW);
    assert_eq!(other.attempts.len(), 1);
    cache.clear();
    let after = query_regions(&mock, &mut cache, "b", "ak", &config, NOW + TIME_TO_LIVE);
    assert_eq!(after.attempts.len(), 1);
    assert_eq!(mock.call_called(), 4);
}

#[test]
fn failed_query_is_not_remembered() {
    let mut cache = CacheMap::new();
    let config = ConfigBuilder::default().http_request_retries(1).build();
    let failing = JSONCallMock::new(500, "{\"error\":\"down\"}");
    let failed = query_domains(&failing, &mut cache, &get_credential(), "b", &config, NOW);
    assert!(failed.result.is_err());
    assert_eq!(failed.attempts.len(), 2);
    let mock = JSONCallMock::new(200, "[\"abc.com\"]");
    let found = query_domains(&mock, &mut cache, &get_credential(), "b", &config, NOW);
    assert_eq!(found.result.unwrap(), vec!["abc.com".to_string()]);
    assert_eq!(mock.call_called(), 1);
    assert_eq!(
        mock.requests.borrow()[0].1,
        "https://api.qiniu.com/v6/domain/list?tbl=b"
    );
}

#[test]
fn known_regions_have_their_hosts() {
    let z2 = RegionId::Z2.as_region();
    assert_eq!(
        z2.up_urls(false),
        vec![
            "http://upload-z2.qiniup.com".to_string(),
            "http://up-z2.qiniup.com".to_string(),
            "http://upload-z2.qbox.me".to_string(),
            "http://up-z2.qbox.me".to_string(),
        ]
    );
    assert_eq!(Region::z0().io_urls(true), vec!["https://iovip.qbox.me".to_string()]);
    assert_eq!(Region::na0().rs_urls(true), vec!["https://rs-na0.qbox.me".to_string()]);
    assert_eq!(Region::as0().rsf_urls(true), vec!["https://rsf-as0.qbox.me".to_string()]);
    assert_eq!(Region::z1().api_urls(true), vec!["https://api-z1.qiniu.com".to_string()]);
    assert_eq!(Region::all().len(), 5);
    assert_eq!(
        UploadManager::all_possible_up_urls_list(true)[4][0],
        "https://upload-as0.qiniup.com"
    );
}

#[test]
fn detection_takes_what_the_cache_holds_without_asking() {
    let mut regions_cache = CacheMap::new();
    regions_cache.insert(
        vec!["abcdefghklmnopq".to_string(), "test-bucket".to_string()],
        vec![Region::z2(), Region::z0()],
        NOW + 1,
    );
    let mut domains_cache = CacheMap::new();
    domains_cache.insert(
        vec!["abcdefghklmnopq".to_string(), "1234567890".to_string(), "test-bucket".to_string()],
        vec!["abc.com".to_string(), "def.com".to_string()],
        NOW + 1,
    );
    let mut builder = builder(Config::default());
    builder.prepend_domain("gone.com").unwrap();
    assert!(builder.auto_detect_region(&PanickedHTTPCaller, &mut regions_cache, NOW).result.is_ok());
    assert!(builder.auto_detect_domains(&PanickedHTTPCaller, &mut domains_cache, NOW).result.is_ok());
    let mut bucket = builder.build();
    let region = bucket.region(&PanickedHTTPCaller, &mut regions_cache, NOW).result.unwrap();
    assert_eq!(region.region_id(), Some(RegionId::Z2));
    let regions = bucket.regions(&PanickedHTTPCaller, &mut regions_cache, NOW).result.unwrap();
    assert_eq!(
        regions.iter().map(|r| r.region_id()).collect::<Vec<_>>(),
        vec![Some(RegionId::Z2), Some(RegionId::Z0)]
    );
    // a built bucket uses first the domain that its builder held last
    assert_eq!(
        bucket.domains(&PanickedHTTPCaller, &mut domains_cache, NOW).result.unwrap(),
        vec!["def.com".to_string(), "abc.com".to_string()]
    );
    // what has expired is asked for again
    let mock = JSONCallMock::new(200, &region_answer("-z1"));
    let mut later = self::builder(Config::default());
    assert!(later.auto_detect_region(&mock, &mut regions_cache, NOW + 1).result.is_ok());
    assert_eq!(mock.call_called(), 1);
}

#[test]
fn detection_fails_as_the_service_fails_and_leaves_the_builder() {
    let config = ConfigBuilder::default().http_request_retries(0).build();
    let failing = JSONCallMock::new(500, "{\"error\":\"down\"}");
    let mut regions_cache = CacheMap::new();
    let mut domains_cache = CacheMap::new();
    let mut builder = builder(config);
    builder.region_id(RegionId::Z1);
    builder.prepend_domain("kept.com").unwrap();
    assert!(builder.auto_detect_region(&failing, &mut regions_cache, NOW).result.is_err());
    assert!(builder.auto_detect_domains(&failing, &mut domains_cache, NOW).result.is_err());
    assert_eq!(failing.call_called(), 2);
    let mut bucket = builder.build();
    let region = bucket.region(&PanickedHTTPCaller, &mut regions_cache, NOW).result.unwrap();
    assert_eq!(region.region_id(), Some(RegionId::Z1));
    assert_eq!(
        bucket.domains(&PanickedHTTPCaller, &mut domains_cache, NOW).result.unwrap(),
        vec!["kept.com".to_string()]
    );
    // a list without regions is no answer, wherever it comes from
    let mut empty_cache: CacheMap<Vec<Region>> = CacheMap::new();
    empty_cache.insert(vec!["abcdefghklmnopq".to_string(), "test-bucket".to_string()], Vec::new(), NOW + 1);
    let mut other = self::builder(Config::default());
    let error = other.auto_detect_region(&PanickedHTTPCaller, &mut empty_cache, NOW).result.unwrap_err();
    assert!(matches!(error.error_kind(), qiniu_ng::http::HTTPErrorKind::JSONDecodeError));
}

#[test]
fn credentials_that_join_to_the_same_text_do_not_share_what_is_remembered() {
    let config = Config::default();
    let mut cache = CacheMap::new();
    let first = JSONCallMock::new(200, "[\"first.com\"]");
    let one = Credential::new("a:b", "c");
    let found = query_domains(&first, &mut cache, &one, "x", &config, NOW);
    assert_eq!(found.result.unwrap(), vec!["first.com".to_string()]);
    let second = JSONCallMock::new(200, "[\"second.com\"]");
    let other = Credential::new("a", "b:c");
    let found = query_domains(&second, &mut cache, &other, "x", &config, NOW);
    assert_eq!(found.attempts.len(), 1);
    assert_eq!(found.result.unwrap(), vec!["second.com".to_string()]);
    assert_eq!(second.call_called(), 1);
    let again = query_domains(&PanickedHTTPCaller, &mut cache, &one, "x", &config, NOW);
    assert_eq!(again.result.unwrap(), vec!["first.com".to_string()]);

    let mut regions = CacheMap::new();
    let mock = JSONCallMock::new(200, &region_answer("-z1"));
    assert_eq!(query_regions(&mock, &mut regions, "c", "a:b", &config, NOW).attempts.len(), 1);
    assert_eq!(query_regions(&mock, &mut regions, "b:c", "a", &config, NOW).attempts.len(), 1);
    assert_eq!(query_regions(&mock, &mut regions, "c", "a:b", &config, NOW).attempts.len(), 0);
    assert_eq!(mock.call_called(), 2);
}

#[test]
fn what_the_service_says_of_a_bucket_is_asked_for_once() {
    let mock = JSONCallMock::new(200, "{\"private\":1}");
    let mut bucket = builder(Config::default()).build();
    let asked = bucket.get_bucket_info(&mock);
    assert_eq!(asked.result.unwrap().private, 1);
    assert_eq!(asked.attempts.len(), 1);
    assert_eq!(asked.attempts[0].request.url, "https://uc.qbox.me/v2/bucketInfo?bucket=test-bucket");
    assert_eq!(asked.attempts[0].request.method, Method::GET);
    assert!(asked.attempts[0]
        .request
        .headers
        .iter()
        .any(|h| h.name == "Authorization" && h.value.starts_with("Qiniu abcdefghklmnopq:")));
    assert_eq!(asked.attempts[0].body, b"{\"private\":1}".to_vec());
    let known = bucket.get_bucket_info(&PanickedHTTPCaller);
    assert_eq!(known.result.unwrap().private, 1);
    assert!(known.attempts.is_empty());

    let silent = JSONCallMock::new(200, "{}");
    let mut other = builder(Config::default()).build();
    let asked = other.is_private(&silent);
    assert!(matches!(
        asked.result.unwrap_err().error_kind(),
        qiniu_ng::http::HTTPErrorKind::JSONDecodeError
    ));
    assert_eq!(asked.attempts.len(), 1);
}

#[test]
fn answers_of_the_wrong_shape_are_no_answers() {
    let config = ConfigBuilder::default().http_request_retries(0).build();
    for body in ["{}", "{\"domains\":[]}", "[\"a.com\",1]", "\"a.com\"", "not json"] {
        let mut cache = CacheMap::new();
        let mock = JSONCallMock::new(200, body);
        let asked = query_domains(&mock, &mut cache, &get_credential(), "b", &config, NOW);
        let error = asked.result.unwrap_err();
        assert!(matches!(error.error_kind(), qiniu_ng::http::HTTPErrorKind::JSONDecodeError), "{}", body);
        assert_eq!(asked.attempts.len(), 1);
        // nothing is remembered of it
        let again = query_domains(&mock, &mut cache, &get_credential(), "b", &config, NOW);
        assert_eq!(again.attempts.len(), 1);
    }
    let mut cache = CacheMap::new();
    let none = JSONCallMock::new(200, "[]");
    let asked = query_domains(&none, &mut cache, &get_credential(), "b", &config, NOW);
    assert_eq!(asked.result.unwrap(), Vec::<String>::new());

    for body in ["{}", "{\"hosts\":[]}", "{\"hosts\":[1]}", "{\"hosts\":{}}", "[]"] {
        let mut cache = CacheMap::new();
        let mock = JSONCallMock::new(200, body);
        let asked = query_regions(&mock, &mut cache, "b", "ak", &config, NOW);
        let error = asked.result.unwrap_err();
        assert!(matches!(error.error_kind(), qiniu_ng::http::HTTPErrorKind::JSONDecodeError), "{}", body);
    }
}

#[test]
fn detection_says_what_it_asked_and_sets_what_was_listed() {
    let mut cache = CacheMap::new();
    let mock = JSONCallMock::new(200, &region_answer("-z1"));
    let mut builder = builder(Config::default());
    let asked = builder.auto_detect_region(&mock, &mut cache, NOW);
    assert!(asked.result.is_ok());
    assert_eq!(asked.attempts.len(), 1);
    let request = &asked.attempts[0].request;
    assert_eq!(request.method, Method::GET);
    assert_eq!(request.url, "https://uc.qbox.me/v4/query?ak=abcdefghklmnopq&bucket=test-bucket");
    assert!(request.headers.is_empty());
    assert!(request.body.is_empty());
    assert!(asked.attempts[0].reported == vec![(0, 0)]);

    let mut domains = CacheMap::new();
    let listed = JSONCallMock::new(200, "[\"abc.com\",\"def.com\"]");
    let asked = builder.auto_detect_domains(&listed, &mut domains, NOW);
    assert!(asked.result.is_ok());
    let request = &asked.attempts[0].request;
    assert_eq!(request.url, "https://api.qiniu.com/v6/domain/list?tbl=test-bucket");
    assert_eq!(request.headers.len(), 1);
    assert_eq!(request.headers[0].name, "Authorization");
    assert_eq!(
        request.headers[0].value,
        "Qiniu ".to_string()
            + &get_credential().sign(b"GET /v6/domain/list?tbl=test-bucket\nHost: api.qiniu.com\n\n")
    );
    let mut bucket = builder.build();
    let known = bucket.domains(&PanickedHTTPCaller, &mut domains, NOW);
    assert!(known.attempts.is_empty());
    assert_eq!(known.result.unwrap(), vec!["def.com".to_string(), "abc.com".to_string()]);
    let region = bucket.region(&PanickedHTTPCaller, &mut cache, NOW);
    assert!(region.attempts.is_empty());
    assert!(region.result.unwrap().up_urls(true).contains(&"https://up-xs.qiniup.com".to_string()));
}
