use qiniu_ng::bucket::{Bucket, BucketBuilder};
use qiniu_ng::cache_map::CacheMap;
use qiniu_ng::config::{Config, ConfigBuilder};
use qiniu_ng::credential::Credential;
use qiniu_ng::http::{HTTPCaller, HTTPErrorKind, Header, Method, Request, Response, TransportError};
use qiniu_ng::object::{ObjectInfo, Timestamp};
use qiniu_ng::region::RegionId;
use qiniu_ng::resource::{Chgm, Delete, Move, SetMeta, Stat, ToURI};
use qiniu_ng::retry::{Outcome, RetryKind};
use qiniu_ng::string_map::StringMap;
use qiniu_ng::upload_manager::UploadManager;
use std::cell::{Cell, RefCell};

const NOW: u64 = 1_600_000_000;

struct JSONCallMock {
    status_code: u16,
    body: String,
    called: Cell<usize>,
    requests: RefCell<Vec<(Method, String)>>,
}

impl JSONCallMock {
    fn new(status_code: u16, body: &str) -> Self {
        JSONCallMock {
            status_code,
            body: body.to_string(),
            called: Cell::new(0),
            requests: RefCell::new(Vec::new()),
        }
    }
}

impl HTTPCaller for JSONCallMock {
    fn call(&self, request: &Request) -> Result<Response, TransportError> {
        self.called.set(self.called.get() + 1);
        self.requests.borrow_mut().push((request.method, request.url.clone()));
        Ok(Response {
            status_code: self.status_code,
            headers: vec![Header { name: "X-Reqid".to_string(), value: "fake-req-id".to_string() }],
            body: self.body.as_bytes().to_vec(),
            elapsed: 3,
        })
    }
}

struct FailingCaller {
    called: Cell<usize>,
}

impl HTTPCaller for FailingCaller {
    fn call(&self, _request: &Request) -> Result<Response, TransportError> {
        self.called.set(self.called.get() + 1);
        Err(TransportError { message: "connection reset".to_string(), elapsed: 1 })
    }
}

fn get_credential() -> Credential {
    Credential::new("abcdefghklmnopq", "1234567890")
}

/// A bucket that has yet to ask where it lives.
fn fresh_bucket(config: Config) -> Bucket {
    BucketBuilder::new("test-bucket", get_credential(), UploadManager::new(config)).build()
}

/// A bucket that knows its region.
fn bucket(config: Config) -> Bucket {
    let mut builder = BucketBuilder::new("test-bucket", get_credential(), UploadManager::new(config));
    builder.region_id(RegionId::Z0);
    builder.build()
}

#[test]
fn test_storage_object_stat() {
    let mock = JSONCallMock::new(
        200,
        "{\"fsize\":5122935,\"hash\":\"ljfockr0lOil_bZfyaI2ZY78HWoH\",\
         \"mimeType\":\"application/octet-stream\",\"putTime\":13603956734587420,\
         \"md5\":\"e41714a18899cf59c200a9bddfa78b95\"}",
    );
    let mut cache = CacheMap::new();
    let mut object = fresh_bucket(Config::default()).object("test-object");
    let object_info = object.get_info(&mock, &mut cache, NOW).result.unwrap();
    assert_eq!(object_info.size(), 5_122_935);
    assert_eq!(object_info.hash(), "ljfockr0lOil_bZfyaI2ZY78HWoH");
    assert_eq!(object_info.mime_type(), "application/octet-stream");
    // 2013-02-09T07:41:13.458742+00:00
    assert_eq!(
        object_info.uploaded_at(),
        Timestamp { seconds: 1_360_395_673, nanoseconds: 458_742_000 }
    );
    assert_eq!(object_info.put_time(), object_info.uploaded_at());
    // the bucket asks where it lives first; the answer names no region, and
    // the request goes to the host of the configuration
    let requests = mock.requests.borrow();
    assert_eq!(requests.len(), 2);
    assert_eq!(
        requests[0].1,
        "https://uc.qbox.me/v4/query?ak=abcdefghklmnopq&bucket=test-bucket"
    );
    assert_eq!(requests[1].0, Method::GET);
    assert_eq!(requests[1].1, "https://rs.qbox.me/stat/dGVzdC1idWNrZXQ6dGVzdC1vYmplY3Q=");
}

#[test]
fn test_storage_object_delete() {
    let mock = JSONCallMock::new(200, "{}");
    let mut cache = CacheMap::new();
    let mut object = fresh_bucket(Config::default()).object("test-object");
    assert!(object.delete(&mock, &mut cache, NOW).result.is_ok());
    let requests = mock.requests.borrow();
    assert_eq!(requests.len(), 2);
    assert_eq!(requests[1].0, Method::POST);
    assert_eq!(requests[1].1, "https://rs.qbox.me/delete/dGVzdC1idWNrZXQ6dGVzdC1vYmplY3Q=");
}

#[test]
fn test_storage_object_delete_with_612_response() {
    let mock = JSONCallMock::new(612, "{\"error\":\"Document not found\"}");
    let mut cache = CacheMap::new();
    let mut object = fresh_bucket(Config::default()).object("test-object");
    let deleted = object.delete(&mock, &mut cache, NOW);
    let err = deleted.result.unwrap_err();
    if let HTTPErrorKind::ResponseStatusCodeError(612, message) = err.error_kind() {
        assert_eq!(message, "Document not found");
        assert_eq!(err.retry_kind(), RetryKind::UnretryableError);
        assert_eq!(deleted.attempts.len(), 1);
        assert_eq!(deleted.attempts[0].status_code, Some(612));
        return;
    }
    panic!("Should not reach here");
}

#[test]
fn delete_is_not_sent_again_after_the_transport_failed() {
    let caller = FailingCaller { called: Cell::new(0) };
    let mut cache = CacheMap::new();
    let mut object = bucket(Config::default()).object("test-object");
    let deleted = object.delete(&caller, &mut cache, NOW);
    assert!(deleted.result.is_err());
    assert_eq!(caller.called.get(), 1);
    assert_eq!(deleted.attempts[0].outcome, Outcome::TransportFailure);
}

#[test]
fn stat_is_sent_again_after_the_transport_failed() {
    let caller = FailingCaller { called: Cell::new(0) };
    let mut cache = CacheMap::new();
    let config = ConfigBuilder::default().http_request_retries(2).build();
    let mut object = bucket(config).object("test-object");
    let info = object.get_info(&caller, &mut cache, NOW);
    let error = info.result.unwrap_err();
    assert_eq!(error.retry_kind(), RetryKind::RetryableError);
    // two hosts (that of the region and the fallback), three tries on each
    assert_eq!(caller.called.get(), 6);
    assert_eq!(info.attempts.len(), 6);
    assert_eq!((info.attempts[2].host, info.attempts[2].tries), (0, 2));
    assert_eq!((info.attempts[3].host, info.attempts[3].tries), (1, 0));
    let rs_urls = object.bucket().duplicate().rs_urls(&caller, &mut cache, NOW);
    assert_eq!(rs_urls.len(), 2);
    let entry = object.encoded_entry_uri();
    assert_eq!(info.attempts[2].request.url, format!("{}/stat/{}", rs_urls[0], entry));
    assert_eq!(info.attempts[3].request.url, format!("{}/stat/{}", rs_urls[1], entry));
    assert_eq!(caller.called.get(), 6);
}

#[test]
fn copy_is_sent_again_only_when_forced() {
    let caller = FailingCaller { called: Cell::new(0) };
    let mut cache = CacheMap::new();
    let config = ConfigBuilder::default().http_request_retries(1).build();
    let home = bucket(config);
    let target = home.object("target");
    let mut object = home.object("source");
    assert!(object.copy_to(&caller, &mut cache, NOW, &target, false).result.is_err());
    assert_eq!(caller.called.get(), 1);
    assert!(object.copy_to(&caller, &mut cache, NOW, &target, true).result.is_err());
    assert_eq!(caller.called.get(), 1 + 4);
    assert!(object.move_to(&caller, &mut cache, NOW, &target, true).result.is_err());
    assert_eq!(caller.called.get(), 1 + 4 + 1);
}

#[test]
fn stat_with_a_body_that_lacks_fields_is_a_decode_error() {
    let mock = JSONCallMock::new(200, "{\"fsize\":1}");
    let mut cache = CacheMap::new();
    let mut object = bucket(Config::default()).object("test-object");
    let err = object.get_info(&mock, &mut cache, NOW).result.unwrap_err();
    assert!(matches!(err.error_kind(), HTTPErrorKind::JSONDecodeError));
    assert!(ObjectInfo::from_body(b"not json").is_none());
    assert!(ObjectInfo::from_body(
        b"{\"fsize\":1,\"hash\":\"h\",\"mimeType\":\"m\",\"putTime\":2}"
    )
    .is_some());
}

#[test]
fn uploaded_at_splits_hundreds_of_nanoseconds() {
    let info = ObjectInfo::new(1, "h", "m", 10_000_001);
    assert_eq!(info.uploaded_at(), Timestamp { seconds: 1, nanoseconds: 100 });
    let late = ObjectInfo::new(1, "h", "m", u64::MAX);
    assert_eq!(
        late.uploaded_at(),
        Timestamp { seconds: 1_844_674_407_370, nanoseconds: 955_161_500 }
    );
}

#[test]
fn resource_paths() {
    assert_eq!(Stat::new("c3Jj").to_uri(), "/stat/c3Jj");
    assert_eq!(Delete::new("c3Jj").to_uri(), "/delete/c3Jj");
    assert_eq!(Move::new("c3Jj", "ZHN0", true).to_uri(), "/move/c3Jj/ZHN0/force/true");
    assert_eq!(qiniu_ng::resource::Copy::new("c3Jj", "ZHN0", false).to_uri(), "/copy/c3Jj/ZHN0/force/false");
    let mut metadata = StringMap::new();
    metadata.insert("a", "hello");
    metadata.insert("b", "world");
    metadata.insert("a", "again");
    assert_eq!(
        Chgm::new("c3Jj", Some("text/plain"), &metadata).to_uri(),
        "/chgm/c3Jj/mime/dGV4dC9wbGFpbg==/x-qn-meta-a/YWdhaW4=/x-qn-meta-b/d29ybGQ="
    );
    assert_eq!(
        SetMeta::new("c3Jj", &metadata).to_uri(),
        "/chgm/c3Jj/x-qn-meta-a/YWdhaW4=/x-qn-meta-b/d29ybGQ="
    );
}

#[test]
fn object_uploader_names_the_object() {
    let mut cache = CacheMap::new();
    let mock = JSONCallMock::new(200, "{}");
    let mut object = bucket(Config::default()).object("test-object");
    assert_eq!(object.key(), "test-object");
    assert_eq!(object.bucket().name(), "test-bucket");
    assert_eq!(object.encoded_entry_uri(), "dGVzdC1idWNrZXQ6dGVzdC1vYmplY3Q=");
    let uploader = object.uploader(&mock, &mut cache, NOW);
    assert_eq!(uploader.bucket_name(), "test-bucket");
    assert_eq!(uploader.up_urls_list().len(), 1);
    assert_eq!(uploader.up_urls_list()[0][0], "https://upload.qiniup.com");
    assert!(uploader.upload_token().starts_with("abcdefghklmnopq:"));
    assert_eq!(mock.called.get(), 0);
}
