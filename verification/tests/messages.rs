use qiniu_ng::batch_uploader::{BatchUploader, NoCompletion};
use qiniu_ng::bucket::{BucketBuilder, DomainsError};
use qiniu_ng::cache_map::CacheMap;
use qiniu_ng::config::Config;
use qiniu_ng::credential::Credential;
use qiniu_ng::http::{HTTPCaller, HTTPError, HTTPErrorKind, Method, Request, Response, TransportError};
use qiniu_ng::object_uploader::UploadError;
use qiniu_ng::region::RegionId;
use qiniu_ng::resumable_uploader::NoProgress;
use qiniu_ng::retry::RetryKind;
use qiniu_ng::upload_manager::{CreateUploaderError, UploadManager};
use qiniu_ng::upload_policy::{UploadPolicy, UploadPolicyBuilder};
use qiniu_ng::upload_token::{UploadToken, UploadTokenParseError};

fn http_error(error_kind: HTTPErrorKind) -> HTTPError {
    HTTPError {
        retry_kind: RetryKind::UnretryableError,
        error_kind,
        request_id: None,
        host: None,
        method: Method::GET,
        url: String::new(),
    }
}

#[test]
fn errors_say_what_went_wrong() {
    assert_eq!(
        HTTPErrorKind::ResponseStatusCodeError(612, "Document not found".to_string()).to_string(),
        "status code 612: Document not found"
    );
    assert_eq!(HTTPErrorKind::TransportError("reset".to_string()).to_string(), "transport error: reset");
    assert_eq!(HTTPErrorKind::JSONDecodeError.to_string(), "JSON decode error");
    assert_eq!(HTTPErrorKind::MaliciousResponse.to_string(), "malicious response");
    assert_eq!(HTTPErrorKind::UserCancelled.to_string(), "cancelled by user");
    assert_eq!(http_error(HTTPErrorKind::NoHostAvailable).to_string(), "no host available");
    assert_eq!(DomainsError::NoDomainsBound.to_string(), "No domains bound");
    assert_eq!(
        DomainsError::GetDomainsError(http_error(HTTPErrorKind::JSONDecodeError)).to_string(),
        "Get domains error: JSON decode error"
    );
    assert_eq!(
        CreateUploaderError::BucketIsMissingInUploadToken.to_string(),
        "Bucket is missing in upload token"
    );
    assert_eq!(
        CreateUploaderError::UploadTokenParseError(UploadTokenParseError::InvalidBase64).to_string(),
        "Failed to parse upload token: Base64 decode error"
    );
    assert_eq!(
        CreateUploaderError::QiniuAPIError(http_error(HTTPErrorKind::UserCancelled)).to_string(),
        "Qiniu API call error: cancelled by user"
    );
    assert_eq!(UploadTokenParseError::InvalidFormat.to_string(), "Invalid upload token format");
    assert_eq!(UploadTokenParseError::InvalidJSON.to_string(), "JSON decode error");
    assert_eq!(
        UploadTokenParseError::MissingField.to_string(),
        "Upload policy lacks a required field"
    );
    assert_eq!(UploadError::IOError("gone".to_string()).to_string(), "Local IO error: gone");
    assert_eq!(
        UploadError::QiniuError(http_error(HTTPErrorKind::MaliciousResponse)).to_string(),
        "Qiniu API error: malicious response"
    );
}

struct Regions;

impl HTTPCaller for Regions {
    fn call(&self, _request: &Request) -> Result<Response, TransportError> {
        Ok(Response {
            status_code: 200,
            headers: Vec::new(),
            body: b"{\"hosts\":[{\"up\":{\"acc\":{\"main\":[\"a.example.com\"]}}},{\"up\":{\"acc\":{\"main\":[\"b.example.com\"]}}}]}".to_vec(),
            elapsed: 0,
        })
    }
}

#[test]
fn upload_manager_and_bucket_make_batch_uploaders() {
    let config = Config::default();
    let manager = UploadManager::new(config.clone());
    let credential = || Credential::new("abcdefghklmnopq", "1234567890");
    let policy = UploadPolicyBuilder::new_policy_for_bucket("b", &config, 0).build();
    let from_token: BatchUploader<NoProgress, NoCompletion> = manager
        .batch_uploader_for_upload_token(UploadToken::new(policy.clone(), credential()))
        .ok()
        .unwrap();
    assert_eq!(from_token.len(), 0);
    assert!(manager
        .batch_uploader_for_upload_policy::<NoProgress, NoCompletion>(policy, credential())
        .is_ok());
    assert!(manager
        .batch_uploader_for_upload_policy::<NoProgress, NoCompletion>(UploadPolicy::empty(), credential())
        .is_err());
    let for_bucket: BatchUploader<NoProgress, NoCompletion> =
        manager.batch_uploader_for_bucket("b", credential(), 0);
    assert_eq!(for_bucket.len(), 0);

    let mut cache = CacheMap::new();
    let mut known = {
        let mut builder = BucketBuilder::new("known", credential(), manager.clone());
        builder.region_id(RegionId::Z0).region_id(RegionId::Z1);
        builder.build()
    };
    let of_bucket: BatchUploader<NoProgress, NoCompletion> = known.batch_uploader();
    assert_eq!(of_bucket.len(), 0);
    let uploader = manager.for_bucket(&Regions, &mut cache, &mut known, 0).build().uploader("t");
    assert_eq!(uploader.bucket_name(), "known");
    assert_eq!(
        uploader.up_urls_list().iter().map(|urls| urls[0].as_str()).collect::<Vec<_>>(),
        vec!["https://upload.qiniup.com", "https://upload-z1.qiniup.com"]
    );
    let mut unknown = BucketBuilder::new("unknown", credential(), manager.clone()).build();
    let found = manager.for_bucket(&Regions, &mut cache, &mut unknown, 0).build().uploader("t");
    assert_eq!(
        found.up_urls_list(),
        &vec![vec!["https://a.example.com".to_string()], vec!["https://b.example.com".to_string()]]
    );
}
