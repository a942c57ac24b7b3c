use qiniu_ng::batch_uploader::{
    build_thread_pool, check_token, BatchUploadJobBuilder, BatchUploader, PoolChoice, UploadCompleted,
};
use qiniu_ng::bucket::BucketBuilder;
use qiniu_ng::cache_map::CacheMap;
use qiniu_ng::config::{Config, ConfigBuilder};
use qiniu_ng::credential::Credential;
use qiniu_ng::http::{HTTPCaller, Header, NoHooks, Request, Response, TransportError};
use qiniu_ng::object_uploader::{UploadError, UploadMethod};
use qiniu_ng::region::RegionId;
use qiniu_ng::resumable_uploader::UploadProgress;
use qiniu_ng::upload_manager::{CreateUploaderError, UploadManager};
use qiniu_ng::upload_policy::{UploadPolicy, UploadPolicyBuilder};
use qiniu_ng::upload_response::UploadResponse;
use qiniu_ng::upload_token::{UploadToken, UploadTokenParseError};
use std::cell::RefCell;
use std::rc::Rc;

const NOW: u64 = 1_600_000_000;

/// A service that answers region queries, form uploads and block uploads.
struct Service {
    urls: RefCell<Vec<String>>,
}

impl HTTPCaller for Service {
    fn call(&self, request: &Request) -> Result<Response, TransportError> {
        self.urls.borrow_mut().push(request.url.clone());
        let body = if request.url.contains("/v4/query") {
            "{\"hosts\":[{\"up\":{\"src\":{\"main\":[\"up.example.com\"]}}}]}".to_string()
        } else if request.url.contains("/mkblk/") {
            format!(
                "{{\"ctx\":\"c\",\"offset\":{},\"expired_at\":{}}}",
                request.body.len(),
                NOW + 1_000_000
            )
        } else {
            "{\"key\":\"abc\",\"hash\":\"def\"}".to_string()
        };
        Ok(Response {
            status_code: 200,
            headers: vec![Header { name: "X-Reqid".to_string(), value: "id".to_string() }],
            body: body.into_bytes(),
            elapsed: 1,
        })
    }
}

#[derive(Clone)]
struct Watch {
    name: &'static str,
    log: Rc<RefCell<Vec<String>>>,
}

impl UploadProgress for Watch {
    fn on_progress(&mut self, uploaded: u64, total: Option<u64>) {
        self.log.borrow_mut().push(format!("{} progress {} of {:?}", self.name, uploaded, total));
    }
}

impl UploadCompleted for Watch {
    fn on_completed(&mut self, result: &Result<UploadResponse, UploadError>) {
        self.log.borrow_mut().push(format!("{} completed {}", self.name, result.is_ok()));
    }
}

fn get_credential() -> Credential {
    Credential::new("abcdefghklmnopq", "1234567890")
}

fn token(config: &Config) -> UploadToken {
    UploadToken::new(
        UploadPolicyBuilder::new_policy_for_bucket("test-bucket", config, NOW).build(),
        get_credential(),
    )
}

#[test]
fn jobs_are_worked_off_last_first_and_the_batch_is_left_empty() {
    let config = ConfigBuilder::default().upload_threshold(4).build();
    let log = Rc::new(RefCell::new(Vec::new()));
    let watch = |name| Watch { name, log: log.clone() };
    let mut uploader: BatchUploader<Watch, Watch> =
        BatchUploader::new_for_upload_manager(UploadManager::new(config.clone()), token(&config))
            .ok()
            .unwrap();
    uploader.expected_jobs_count(2).thread_pool_size(3).max_concurrency(5);
    uploader.push_job(
        BatchUploadJobBuilder::default()
            .key("small")
            .var("a", "1")
            .on_progress(watch("small"))
            .on_completed(watch("small"))
            .upload_stream(b"abcd".to_vec(), 4, "small.txt", None),
    );
    uploader.push_job(
        BatchUploadJobBuilder::default()
            .key("large")
            .metadata("m", "2")
            .disable_checksum()
            .on_progress(watch("large"))
            .on_completed(watch("large"))
            .upload_stream(b"abcde".to_vec(), 5, "", Some("text/plain")),
    );
    assert_eq!(uploader.len(), 2);
    let service = Service { urls: RefCell::new(Vec::new()) };
    let mut cache = CacheMap::new();
    let results = uploader.start(&service, &mut NoHooks, &mut cache, "BOUNDARY", NOW);
    assert_eq!(uploader.len(), 0);
    assert_eq!(results.len(), 2);
    assert_eq!(results[0].uploaded.method, Some(UploadMethod::Resumable));
    assert_eq!(results[1].uploaded.method, Some(UploadMethod::Form));
    assert!(results.iter().all(|r| r.uploaded.result.is_ok() && r.told == 1));
    assert_eq!(
        *log.borrow(),
        vec![
            "large progress 5 of Some(5)".to_string(),
            "large completed true".to_string(),
            format!("small progress {0} of Some({0})", results[1].uploaded.progress[0]),
            "small completed true".to_string(),
        ]
    );
    let small = qiniu_ng::object_uploader::ObjectUploader::new(
        "test-bucket",
        &token(&config).to_string(),
        Vec::new(),
        &config,
    )
    .key("small")
    .var("a", "1")
    .make_form(b"abcd", "small.txt", None, "BOUNDARY");
    assert_eq!(results[1].uploaded.progress, vec![small.body().len() as u64]);
    assert_eq!(
        *service.urls.borrow(),
        vec![
            "https://uc.qbox.me/v4/query?ak=abcdefghklmnopq&bucket=test-bucket".to_string(),
            "https://up.example.com/mkblk/5".to_string(),
            "https://up.example.com/mkfile/5/key/bGFyZ2U=/mimeType/dGV4dC9wbGFpbg==/x-qn-meta-m/Mg=="
                .to_string(),
            "https://up.example.com/".to_string(),
        ]
    );
    // an empty batch is done at once, and the batch can be used again
    assert!(uploader.start(&service, &mut NoHooks, &mut cache, "BOUNDARY", NOW).is_empty());
    uploader.push_job(
        BatchUploadJobBuilder::default()
            .always_be_resumable()
            .upload_stream(Vec::new(), 0, "", None),
    );
    let again = uploader.start(&service, &mut NoHooks, &mut cache, "BOUNDARY", NOW);
    assert_eq!(again.len(), 1);
    assert_eq!(again[0].uploaded.method, Some(UploadMethod::Resumable));
}

#[test]
fn a_job_may_bring_its_own_token_and_policy() {
    let config = Config::default();
    let service = Service { urls: RefCell::new(Vec::new()) };
    let mut cache = CacheMap::new();
    let bucket = {
        let mut builder =
            BucketBuilder::new("home", get_credential(), UploadManager::new(config.clone()));
        builder.region_id(RegionId::Z1);
        builder.build()
    };
    let mut uploader: BatchUploader<Watch, Watch> = BatchUploader::new_for_bucket(bucket);
    let own = UploadPolicyBuilder::new_policy_for_object("other", "key", &config, NOW).build();
    uploader.push_job(
        BatchUploadJobBuilder::default()
            .upload_policy(own, get_credential())
            .ok()
            .unwrap()
            .never_be_resumable()
            .upload_stream(vec![1; 10], 10, "", None),
    );
    uploader.push_job(
        BatchUploadJobBuilder::default()
            .upload_for_bucket("third", get_credential(), &config, NOW)
            .upload_threshold(100)
            .enable_checksum()
            .upload_stream(vec![1; 10], 10, "", None),
    );
    let results = uploader.start(&service, &mut NoHooks, &mut cache, "B", NOW);
    assert_eq!(results.len(), 2);
    assert!(results
        .iter()
        .all(|r| r.uploaded.method == Some(UploadMethod::Form) && r.uploaded.result.is_ok()));
    assert_eq!(
        *service.urls.borrow(),
        vec!["https://upload-z1.qiniup.com/".to_string(), "https://upload-z1.qiniup.com/".to_string()]
    );
}

#[test]
fn tokens_without_a_bucket_are_turned_down() {
    let config = Config::default();
    let no_scope = UploadToken::new(UploadPolicy::empty(), get_credential());
    assert!(matches!(
        check_token(&no_scope),
        Err(CreateUploaderError::BucketIsMissingInUploadToken)
    ));
    assert!(matches!(
        check_token(&UploadToken::from_token("nonsense")),
        Err(CreateUploaderError::UploadTokenParseError(UploadTokenParseError::InvalidFormat))
    ));
    assert!(check_token(&token(&config)).is_ok());
    assert!(check_token(&UploadToken::from_token(&token(&config).to_string())).is_ok());
    assert!(BatchUploader::<Watch, Watch>::new_for_upload_manager(
        UploadManager::new(config.clone()),
        UploadToken::new(UploadPolicy::empty(), get_credential())
    )
    .is_err());
    assert!(BatchUploadJobBuilder::<Watch, Watch>::default()
        .upload_token(UploadToken::from_token("a:b:???"))
        .is_err());
    assert!(BatchUploadJobBuilder::<Watch, Watch>::default()
        .upload_policy(UploadPolicy::empty(), get_credential())
        .is_err());
    assert!(BatchUploadJobBuilder::<Watch, Watch>::default()
        .upload_token(token(&config))
        .is_ok());
}

#[test]
fn the_pool_of_the_manager_is_used_when_it_has_more_than_one_thread() {
    assert_eq!(build_thread_pool(Some(4), 8, 16), PoolChoice::Shared);
    assert_eq!(build_thread_pool(Some(2), 0, 1), PoolChoice::Shared);
    assert_eq!(build_thread_pool(Some(1), 8, 16), PoolChoice::Dedicated(8));
    assert_eq!(build_thread_pool(None, 1, 16), PoolChoice::Dedicated(1));
    assert_eq!(build_thread_pool(None, 0, 16), PoolChoice::Dedicated(16));
    assert_eq!(build_thread_pool(None, 0, 1), PoolChoice::Dedicated(2));
    assert_eq!(build_thread_pool(Some(0), 0, 0), PoolChoice::Dedicated(2));
}

#[test]
fn upload_manager_makes_uploaders_from_tokens_policies_and_buckets() {
    let config = Config::default();
    let manager = UploadManager::new(config.clone());
    let service = Service { urls: RefCell::new(Vec::new()) };
    let mut cache = CacheMap::new();
    let bound = token(&config);
    let uploader = manager.upload_for_upload_token(&service, &mut cache, &bound, NOW).ok().unwrap();
    assert_eq!(uploader.bucket_name(), "test-bucket");
    assert_eq!(uploader.upload_token(), bound.to_string());
    assert_eq!(uploader.up_urls_list(), &vec![vec!["https://up.example.com".to_string()]]);
    let parsed = UploadToken::from_token(&bound.to_string());
    let again = manager.upload_for_upload_token(&service, &mut cache, &parsed, NOW).ok().unwrap();
    assert_eq!(again.bucket_name(), "test-bucket");
    assert_eq!(service.urls.borrow().len(), 1);
    let policy = UploadPolicyBuilder::new_policy_for_object("test-bucket", "k", &config, NOW).build();
    let third = manager
        .upload_for_upload_policy(&service, &mut cache, policy, get_credential(), NOW)
        .ok()
        .unwrap();
    assert_eq!(third.bucket_name(), "test-bucket");
    let fourth = manager.upload_for_bucket(&service, &mut cache, "another", get_credential(), NOW);
    assert_eq!(fourth.bucket_name(), "another");
    assert_eq!(service.urls.borrow().len(), 2);
    assert!(matches!(
        manager.upload_for_upload_policy(
            &service,
            &mut cache,
            UploadPolicy::empty(),
            get_credential(),
            NOW
        ),
        Err(CreateUploaderError::BucketIsMissingInUploadToken)
    ));
    assert!(matches!(
        manager.upload_for_upload_token(&service, &mut cache, &UploadToken::from_token("x"), NOW),
        Err(CreateUploaderError::UploadTokenParseError(UploadTokenParseError::InvalidFormat))
    ));
    let builder = manager.for_bucket_name(&service, &mut cache, "test-bucket", "abcdefghklmnopq", NOW);
    assert_eq!(
        builder.build().uploader("t").up_urls_list(),
        &vec![vec!["https://up.example.com".to_string()]]
    );
}

struct Down;

impl HTTPCaller for Down {
    fn call(&self, _request: &Request) -> Result<Response, TransportError> {
        Err(TransportError { message: "down".to_string(), elapsed: 0 })
    }
}

#[test]
fn all_known_regions_serve_when_the_regions_cannot_be_asked_for() {
    let manager = UploadManager::new(ConfigBuilder::default().http_request_retries(0).build());
    let mut cache = CacheMap::new();
    let uploader = manager.upload_for_bucket(&Down, &mut cache, "b", get_credential(), NOW);
    assert_eq!(uploader.up_urls_list(), &UploadManager::all_possible_up_urls_list(true));
    assert_eq!(uploader.up_urls_list().len(), 5);
}

#[test]
fn the_watcher_set_last_is_the_one_that_is_told() {
    let config = ConfigBuilder::default().upload_threshold(4).build();
    let log = Rc::new(RefCell::new(Vec::new()));
    let watch = |name| Watch { name, log: log.clone() };
    let mut uploader: BatchUploader<Watch, Watch> =
        BatchUploader::new_for_upload_manager(UploadManager::new(config.clone()), token(&config))
            .ok()
            .unwrap();
    uploader.push_job(
        BatchUploadJobBuilder::default()
            .on_progress(watch("first"))
            .on_completed(watch("first"))
            .key("k")
            .on_progress(watch("second"))
            .enable_checksum()
            .upload_stream(b"abcd".to_vec(), 4, "", None),
    );
    uploader.push_job(BatchUploadJobBuilder::default().upload_stream(b"ab".to_vec(), 2, "", None));
    let service = Service { urls: RefCell::new(Vec::new()) };
    let mut cache = CacheMap::new();
    let results = uploader.expected_jobs_count(7).start(&service, &mut NoHooks, &mut cache, "B", NOW);
    assert_eq!(results.len(), 2);
    assert!(results.iter().all(|r| r.uploaded.result.is_ok()));
    assert_eq!(results.iter().map(|r| r.told).collect::<Vec<_>>(), vec![0, 1]);
    assert_eq!(
        *log.borrow(),
        vec![
            format!("second progress {0} of Some({0})", results[1].uploaded.progress[0]),
            "first completed true".to_string()
        ]
    );
    let form = qiniu_ng::object_uploader::ObjectUploader::new(
        "test-bucket",
        &token(&config).to_string(),
        Vec::new(),
        &config,
    )
    .key("k")
    .make_form(b"abcd", "", None, "B");
    assert_eq!(results[1].uploaded.progress, vec![form.body().len() as u64]);
}
