//! Uploading many objects: jobs that each carry their data and settings,
//! and the uploader that works them off.

use crate::blocks::BlockContext;
use crate::bucket::{Bucket, BucketView, finds_region, known_regions, same_but_regions};
use crate::cache_map::CacheMap;
use crate::config::{Config, ConfigView};
use crate::credential::Credential;
use crate::http::{Hooks, HTTPCaller};
use crate::object_uploader::{
    method_for,
    uploaded_by,
    ObjectUploaded,
    ObjectUploader,
    ResumablePolicy,
    Settings,
    UploadError,
};
use crate::region::Region;
use crate::resumable_uploader::{NoProgress, UploadProgress};
use crate::string_map::{Pairs, put, StringMap};
use crate::upload_manager::{
    bucket_of_token,
    cached_regions,
    CreateUploaderError,
    new_settings,
    sends_where_asked,
    up_urls_for,
    UploadManager,
};
use crate::upload_policy::{
    deadline_after,
    initial_fields,
    lemma_position_is,
    lookup_text,
    policy_json,
    UploadPolicy,
};
use crate::upload_response::UploadResponse;
use crate::upload_token::{rendered, UploadToken, UploadTokenParseError};
use vstd::prelude::*;
use vstd::string::*;

verus! {

/// The watcher of the end of an upload.
pub trait UploadCompleted {
    /// Called once with the result of the upload.
    fn on_completed(&mut self, result: &Result<UploadResponse, UploadError>);
}

/// A watcher that does not watch.
#[derive(Clone, Copy, Debug)]
pub struct NoCompletion;

impl UploadCompleted for NoCompletion {
    fn on_completed(&mut self, result: &Result<UploadResponse, UploadError>) {
    }
}

/// Whether a token can be uploaded with: it names an access key and
/// carries a policy with a scope.
pub open spec fn is_usable_token(token: UploadToken) -> bool {
    bucket_of_token(token) is Some
}

/// Why a token cannot be uploaded with.
pub enum TokenFault {
    /// Its access key or its policy cannot be read.
    Unreadable(UploadTokenParseError),
    /// Its policy names no bucket.
    NoBucket,
}

/// Why `token` cannot be uploaded with, if it cannot: the error of its
/// access key where that cannot be read, else the error of its policy
/// where that cannot be read, else that the policy has no scope.
pub open spec fn token_fault(token: UploadToken) -> Option<TokenFault> {
    match token.spec_access_key() {
        Err(e) => Some(TokenFault::Unreadable(e)),
        Ok(_) => match token.spec_policy() {
            Err(e) => Some(TokenFault::Unreadable(e)),
            Ok(fields) => if lookup_text(fields, "scope"@) is None {
                Some(TokenFault::NoBucket)
            } else {
                None
            },
        },
    }
}

/// Whether `error` says why `token` cannot be uploaded with.
pub open spec fn says_fault(error: CreateUploaderError, token: UploadToken) -> bool {
    match error {
        CreateUploaderError::UploadTokenParseError(e) => token_fault(token) == Some(
            TokenFault::Unreadable(e),
        ),
        CreateUploaderError::BucketIsMissingInUploadToken => token_fault(token) == Some(
            TokenFault::NoBucket,
        ),
        CreateUploaderError::QiniuAPIError(_) => false,
    }
}

/// Checks that a token can be uploaded with, and says why where it cannot.
pub fn check_token(token: &UploadToken) -> (r: Result<(), CreateUploaderError>)
    ensures
        match r {
            Ok(_) => is_usable_token(*token),
            Err(error) => !is_usable_token(*token) && says_fault(error, *token),
        },
{
    match token.access_key() {
        Ok(_) => {},
        Err(e) => {
            return Err(CreateUploaderError::UploadTokenParseError(e));
        },
    }
    let policy = match token.policy() {
        Ok(policy) => policy,
        Err(e) => {
            return Err(CreateUploaderError::UploadTokenParseError(e));
        },
    };
    if policy.as_ref().bucket().is_none() {
        return Err(CreateUploaderError::BucketIsMissingInUploadToken);
    }
    Ok(())
}

/// A token that was checked: it can be uploaded with.
#[derive(Debug)]
pub struct UsableToken {
    token: UploadToken,
}

impl UsableToken {
    /// What holds of every checked token: it names an access key and
    /// carries a policy with a scope.
    #[verifier::type_invariant]
    pub open spec fn well_formed(&self) -> bool {
        is_usable_token(self.spec_token())
    }

    /// The token.
    pub closed spec fn spec_token(&self) -> UploadToken {
        self.token
    }

    /// Checks a token. A token that cannot be read, or whose policy names
    /// no bucket, is turned down.
    pub fn new(token: UploadToken) -> (r: Result<Self, CreateUploaderError>)
        ensures
            match r {
                Ok(checked) => is_usable_token(token) && checked.spec_token() == token,
                Err(error) => !is_usable_token(token) && says_fault(error, token),
            },
    {
        match check_token(&token) {
            Ok(_) => Ok(UsableToken { token }),
            Err(error) => Err(error),
        }
    }

    /// The token.
    pub fn token(&self) -> (r: &UploadToken)
        ensures
            *r == self.spec_token(),
            is_usable_token(*r),
    {
        proof {
            use_type_invariant(self);
        }
        &self.token
    }
}

/// What a job is set to.
pub struct JobSettings {
    pub key: Option<Seq<char>>,
    pub upload_token: Option<Seq<char>>,
    pub vars: Pairs,
    pub metadata: Pairs,
    pub checksum_enabled: bool,
    pub resumable_policy: Option<ResumablePolicy>,
}

/// What every job starts with: no name, no token, no variables, no
/// metadata, checksums on, and the policy of the uploader.
pub open spec fn default_job() -> JobSettings {
    JobSettings {
        key: None,
        upload_token: None,
        vars: Pairs::empty(),
        metadata: Pairs::empty(),
        checksum_enabled: true,
        resumable_policy: None,
    }
}

/// Builds a job setting by setting, and last of all gives it its data.
pub struct BatchUploadJobBuilder<P: UploadProgress, F: UploadCompleted> {
    key: Option<String>,
    upload_token: Option<UsableToken>,
    vars: StringMap,
    metadata: StringMap,
    checksum_enabled: bool,
    on_uploading_progress: Option<P>,
    on_completed: Option<F>,
    resumable_policy: Option<ResumablePolicy>,
}

/// One upload with all it needs: the data, the names, the settings and
/// the watchers.
#[must_use]
pub struct BatchUploadJob<P: UploadProgress, F: UploadCompleted> {
    key: Option<String>,
    upload_token: Option<UsableToken>,
    vars: StringMap,
    metadata: StringMap,
    checksum_enabled: bool,
    resumable_policy: Option<ResumablePolicy>,
    file_name: String,
    mime: Option<String>,
    on_uploading_progress: Option<P>,
    on_completed: Option<F>,
    data: Vec<u8>,
    expected_data_size: u64,
}

impl<P: UploadProgress, F: UploadCompleted> Default for BatchUploadJobBuilder<P, F> {
    fn default() -> (r: Self)
        ensures
            r.settings() == default_job(),
            r.spec_token() is None,
            r.spec_on_progress() is None,
            r.spec_on_completed() is None,
    {
        BatchUploadJobBuilder {
            key: None,
            upload_token: None,
            vars: StringMap::new(),
            metadata: StringMap::new(),
            checksum_enabled: true,
            on_uploading_progress: None,
            on_completed: None,
            resumable_policy: None,
        }
    }
}

impl<P: UploadProgress, F: UploadCompleted> BatchUploadJobBuilder<P, F> {
    /// The token that the job proves its right with, if it has one of its
    /// own.
    pub closed spec fn spec_token(&self) -> Option<UploadToken> {
        match self.upload_token {
            Some(token) => Some(token.spec_token()),
            None => None,
        }
    }

    /// The watcher of the upload's progress, if one is set.
    pub closed spec fn spec_on_progress(&self) -> Option<P> {
        self.on_uploading_progress
    }

    /// The watcher of the upload's end, if one is set.
    pub closed spec fn spec_on_completed(&self) -> Option<F> {
        self.on_completed
    }

    /// What the job is set to so far.
    pub closed spec fn settings(&self) -> JobSettings {
        JobSettings {
            key: self.key.deep_view(),
            upload_token: match self.spec_token() {
                Some(token) => Some(token.text()),
                None => None,
            },
            vars: self.vars.deep_view(),
            metadata: self.metadata.deep_view(),
            checksum_enabled: self.checksum_enabled,
            resumable_policy: self.resumable_policy,
        }
    }

    /// Names the object.
    pub fn key(self, key: &str) -> (r: Self)
        ensures
            r.spec_on_progress() == self.spec_on_progress(),
            r.spec_on_completed() == self.spec_on_completed(),
            r.spec_token() == self.spec_token(),
            r.settings() == (JobSettings { key: Some(key@), ..self.settings() }),
    {
        let mut r = self;
        r.key = Some(key.to_owned());
        r
    }

    /// Lets the job prove its right with a token of its own, in place of
    /// the token of the uploader. A token that cannot be read, or whose
    /// policy names no bucket, is turned down.
    pub fn upload_token(self, upload_token: UploadToken) -> (r: Result<Self, CreateUploaderError>)
        ensures
            match r {
                Ok(builder) => {
                    &&& is_usable_token(upload_token)
                    &&& builder.spec_token() == Some(upload_token)
                    &&& builder.settings() == (JobSettings {
                        upload_token: Some(upload_token.text()),
                        ..self.settings()
                    })
                    &&& builder.spec_on_progress() == self.spec_on_progress()
                    &&& builder.spec_on_completed() == self.spec_on_completed()
                },
                Err(error) => !is_usable_token(upload_token) && says_fault(error, upload_token),
            },
    {
        match UsableToken::new(upload_token) {
            Ok(checked) => {
                let mut r = self;
                r.upload_token = Some(checked);
                Ok(r)
            },
            Err(error) => Err(error),
        }
    }

    /// Lets the job prove its right with a token made from `upload_policy`
    /// and `credential`. A policy that names no bucket is turned down.
    pub fn upload_policy(self, upload_policy: UploadPolicy, credential: Credential) -> (r: Result<
        Self,
        CreateUploaderError,
    >)
        ensures
            match r {
                Ok(builder) => {
                    &&& lookup_text(upload_policy.deep_view(), "scope"@) is Some
                    &&& builder.spec_token() == Some(
                        UploadToken::Bound { policy: upload_policy, credential },
                    )
                    &&& builder.settings() == (JobSettings {
                        upload_token: Some(
                            (UploadToken::Bound { policy: upload_policy, credential }).text(),
                        ),
                        ..self.settings()
                    })
                    &&& builder.spec_on_progress() == self.spec_on_progress()
                    &&& builder.spec_on_completed() == self.spec_on_completed()
                },
                Err(error) => lookup_text(upload_policy.deep_view(), "scope"@) is None
                    && error is BucketIsMissingInUploadToken,
            },
    {
        self.upload_token(UploadToken::new(upload_policy, credential))
    }

    /// Lets the job prove its right with a token made for `bucket` at
    /// `now` from `credential`.
    pub fn upload_for_bucket(
        self,
        bucket: &str,
        credential: Credential,
        config: &Config,
        now: u64,
    ) -> (r: Self)
        ensures
            r.spec_on_progress() == self.spec_on_progress(),
            r.spec_on_completed() == self.spec_on_completed(),
            r.spec_token() matches Some(UploadToken::Bound { policy, credential: held }) && held
                == credential && policy.deep_view() == initial_fields(
                bucket@,
                deadline_after(now, config@.upload_token_lifetime),
            ),
            r.settings() == (JobSettings {
                upload_token: Some(
                    rendered(
                        credential.spec_access_key(),
                        credential.spec_secret_key(),
                        policy_json(
                            initial_fields(
                                bucket@,
                                deadline_after(now, config@.upload_token_lifetime),
                            ),
                        ),
                    ),
                ),
                ..self.settings()
            }),
    {
        let token = UploadToken::new_from_bucket(bucket, credential, config, now);
        proof {
            lemma_position_is(
                initial_fields(bucket@, deadline_after(now, config@.upload_token_lifetime)),
                "scope"@,
                0,
            );
        }
        let mut r = self;
        r.upload_token = Some(UsableToken::new(token).unwrap());
        r
    }

    /// Sets a custom variable.
    pub fn var(self, key: &str, value: &str) -> (r: Self)
        ensures
            r.spec_on_progress() == self.spec_on_progress(),
            r.spec_on_completed() == self.spec_on_completed(),
            r.spec_token() == self.spec_token(),
            r.settings() == (JobSettings {
                vars: put(self.settings().vars, key@, value@),
                ..self.settings()
            }),
    {
        let mut r = self;
        r.vars.insert(key, value);
        r
    }

    /// Sets custom metadata.
    pub fn metadata(self, key: &str, value: &str) -> (r: Self)
        ensures
            r.spec_on_progress() == self.spec_on_progress(),
            r.spec_on_completed() == self.spec_on_completed(),
            r.spec_token() == self.spec_token(),
            r.settings() == (JobSettings {
                metadata: put(self.settings().metadata, key@, value@),
                ..self.settings()
            }),
    {
        let mut r = self;
        r.metadata.insert(key, value);
        r
    }

    /// Sends the data without checksums.
    pub fn disable_checksum(self) -> (r: Self)
        ensures
            r.spec_on_progress() == self.spec_on_progress(),
            r.spec_on_completed() == self.spec_on_completed(),
            r.spec_token() == self.spec_token(),
            r.settings() == (JobSettings { checksum_enabled: false, ..self.settings() }),
    {
        let mut r = self;
        r.checksum_enabled = false;
        r
    }

    /// Lets checksums go with the data.
    pub fn enable_checksum(self) -> (r: Self)
        ensures
            r.spec_on_progress() == self.spec_on_progress(),
            r.spec_on_completed() == self.spec_on_completed(),
            r.spec_token() == self.spec_token(),
            r.settings() == (JobSettings { checksum_enabled: true, ..self.settings() }),
    {
        let mut r = self;
        r.checksum_enabled = true;
        r
    }

    /// Uploads in blocks what is larger than `threshold` bytes.
    pub fn upload_threshold(self, threshold: u32) -> (r: Self)
        ensures
            r.spec_on_progress() == self.spec_on_progress(),
            r.spec_on_completed() == self.spec_on_completed(),
            r.spec_token() == self.spec_token(),
            r.settings() == (JobSettings {
                resumable_policy: Some(ResumablePolicy::Threshold(threshold)),
                ..self.settings()
            }),
    {
        let mut r = self;
        r.resumable_policy = Some(ResumablePolicy::Threshold(threshold));
        r
    }

    /// Always uploads in blocks.
    pub fn always_be_resumable(self) -> (r: Self)
        ensures
            r.spec_on_progress() == self.spec_on_progress(),
            r.spec_on_completed() == self.spec_on_completed(),
            r.spec_token() == self.spec_token(),
            r.settings() == (JobSettings {
                resumable_policy: Some(ResumablePolicy::Always),
                ..self.settings()
            }),
    {
        let mut r = self;
        r.resumable_policy = Some(ResumablePolicy::Always);
        r
    }

    /// Always uploads in one form request.
    pub fn never_be_resumable(self) -> (r: Self)
        ensures
            r.spec_on_progress() == self.spec_on_progress(),
            r.spec_on_completed() == self.spec_on_completed(),
            r.spec_token() == self.spec_token(),
            r.settings() == (JobSettings {
                resumable_policy: Some(ResumablePolicy::Never),
                ..self.settings()
            }),
    {
        let mut r = self;
        r.resumable_policy = Some(ResumablePolicy::Never);
        r
    }

    /// Sets the watcher of the upload's progress, in place of one set
    /// before.
    pub fn on_progress(self, progress: P) -> (r: Self)
        ensures
            r.spec_on_progress() == Some(progress),
            r.spec_on_completed() == self.spec_on_completed(),
            r.spec_token() == self.spec_token(),
            r.settings() == self.settings(),
    {
        let mut r = self;
        r.on_uploading_progress = Some(progress);
        r
    }

    /// Sets the watcher of the upload's end, in place of one set before.
    pub fn on_completed(self, on_completed: F) -> (r: Self)
        ensures
            r.spec_on_completed() == Some(on_completed),
            r.spec_on_progress() == self.spec_on_progress(),
            r.spec_token() == self.spec_token(),
            r.settings() == self.settings(),
    {
        let mut r = self;
        r.on_completed = Some(on_completed);
        r
    }

    /// Gives the job its data, of which `size` bytes were expected, and
    /// finishes it.
    pub fn upload_stream(self, data: Vec<u8>, size: u64, file_name: &str, mime: Option<&str>) -> (r:
        BatchUploadJob<P, F>)
        ensures
            r.settings() == self.settings(),
            r.spec_on_progress() == self.spec_on_progress(),
            r.spec_on_completed() == self.spec_on_completed(),
            r.spec_token() == self.spec_token(),
            r.spec_data() == data@,
            r.spec_expected_data_size() == size,
            r.spec_file_name() == file_name@,
            r.spec_mime() == mime.deep_view(),
    {
        BatchUploadJob {
            key: self.key,
            upload_token: self.upload_token,
            vars: self.vars,
            metadata: self.metadata,
            checksum_enabled: self.checksum_enabled,
            resumable_policy: self.resumable_policy,
            on_uploading_progress: self.on_uploading_progress,
            on_completed: self.on_completed,
            file_name: file_name.to_owned(),
            mime: match mime {
                Some(mime) => Some(mime.to_owned()),
                None => None,
            },
            expected_data_size: size,
            data,
        }
    }
}

impl<P: UploadProgress, F: UploadCompleted> BatchUploadJob<P, F> {
    /// The token that the job proves its right with, if it has one of its
    /// own.
    pub closed spec fn spec_token(&self) -> Option<UploadToken> {
        match self.upload_token {
            Some(token) => Some(token.spec_token()),
            None => None,
        }
    }

    /// The watcher of the upload's progress, if the job has one.
    pub closed spec fn spec_on_progress(&self) -> Option<P> {
        self.on_uploading_progress
    }

    /// The watcher of the upload's end, if the job has one.
    pub closed spec fn spec_on_completed(&self) -> Option<F> {
        self.on_completed
    }

    /// What the job is set to.
    pub closed spec fn settings(&self) -> JobSettings {
        JobSettings {
            key: self.key.deep_view(),
            upload_token: match self.spec_token() {
                Some(token) => Some(token.text()),
                None => None,
            },
            vars: self.vars.deep_view(),
            metadata: self.metadata.deep_view(),
            checksum_enabled: self.checksum_enabled,
            resumable_policy: self.resumable_policy,
        }
    }

    /// The data of the job.
    pub closed spec fn spec_data(&self) -> Seq<u8> {
        self.data@
    }

    /// The size that was expected of the data.
    pub closed spec fn spec_expected_data_size(&self) -> u64 {
        self.expected_data_size
    }

    /// The name of the file that the data comes from.
    pub closed spec fn spec_file_name(&self) -> Seq<char> {
        self.file_name@
    }

    /// The content type of the data.
    pub closed spec fn spec_mime(&self) -> Option<Seq<char>> {
        self.mime.deep_view()
    }
}

/// Where the threads that carry a batch come from.
#[derive(Clone, Copy, Debug, PartialEq, Eq, Structural)]
pub enum PoolChoice {
    /// From the pool of the upload manager.
    Shared,
    /// From a pool of the batch's own with this many threads.
    Dedicated(usize),
}

/// The pool that carries a batch: that of the upload manager where it has
/// one with more than one thread; otherwise a pool of the batch's own, of
/// the size that was asked for or, where none was asked for, of one thread
/// for each processor and of two at least.
pub open spec fn pool_for(
    manager_threads: Option<usize>,
    thread_pool_size: usize,
    processors: usize,
) -> PoolChoice {
    match manager_threads {
        Some(threads) if threads > 1 => PoolChoice::Shared,
        _ => if thread_pool_size > 0 {
            PoolChoice::Dedicated(thread_pool_size)
        } else if processors > 2 {
            PoolChoice::Dedicated(processors)
        } else {
            PoolChoice::Dedicated(2)
        },
    }
}

/// Decides on the pool that carries a batch.
pub fn build_thread_pool(
    manager_threads: Option<usize>,
    thread_pool_size: usize,
    processors: usize,
) -> (r: PoolChoice)
    ensures
        r == pool_for(manager_threads, thread_pool_size, processors),
        manager_threads is None && thread_pool_size == 0 ==> (r matches PoolChoice::Dedicated(n)
            && n >= 2),
{
    let shared = match manager_threads {
        Some(threads) => threads > 1,
        None => false,
    };
    if shared {
        PoolChoice::Shared
    } else if thread_pool_size > 0 {
        PoolChoice::Dedicated(thread_pool_size)
    } else if processors > 2 {
        PoolChoice::Dedicated(processors)
    } else {
        PoolChoice::Dedicated(2)
    }
}

/// What the uploaders of a batch are made from.
pub enum BatchUploaderCore {
    /// An upload manager, and the token that jobs without a token of their
    /// own prove their right with.
    UploadManager { upload_manager: UploadManager, upload_token: UsableToken },
    /// A bucket.
    Bucket(Bucket),
}

/// What all jobs of a batch share.
pub struct BatchUploaderContext {
    core: BatchUploaderCore,
    max_concurrency: usize,
    thread_pool_size: usize,
}

/// What the uploaders of a batch are made from, as a value.
pub enum CoreView {
    /// The configuration of an upload manager, and the token of the batch.
    UploadManager { config: ConfigView, token: UploadToken },
    /// A bucket.
    Bucket(BucketView),
}

/// Whether the core of a batch is as it was but for the regions that its
/// bucket has found meanwhile.
pub open spec fn core_kept(before: CoreView, after: CoreView) -> bool {
    match before {
        CoreView::UploadManager { config, token } => after == before,
        CoreView::Bucket(bucket) => after matches CoreView::Bucket(found) && same_but_regions(
            bucket,
            found,
        ),
    }
}

impl BatchUploaderContext {
    /// What the uploaders of the batch are made from.
    pub closed spec fn spec_core(&self) -> CoreView {
        match self.core {
            BatchUploaderCore::UploadManager { upload_manager, upload_token } => {
                CoreView::UploadManager {
                    config: upload_manager.spec_config()@,
                    token: upload_token.spec_token(),
                }
            },
            BatchUploaderCore::Bucket(bucket) => CoreView::Bucket(bucket.deep_view()),
        }
    }

    /// The bound on the blocks of one job that are on their way at once.
    pub closed spec fn spec_max_concurrency(&self) -> usize {
        self.max_concurrency
    }

    /// The size asked for of a pool of the batch's own.
    pub closed spec fn spec_thread_pool_size(&self) -> usize {
        self.thread_pool_size
    }

    /// The bound on the blocks of one job that are on their way at once.
    pub fn max_concurrency(&self) -> (r: usize)
        ensures
            r == self.spec_max_concurrency(),
    {
        self.max_concurrency
    }

    /// The size asked for of a pool of the batch's own.
    pub fn thread_pool_size(&self) -> (r: usize)
        ensures
            r == self.spec_thread_pool_size(),
    {
        self.thread_pool_size
    }
}

/// The settings of the uploader of a job: those of the uploader that the
/// batch makes, with the bound of the batch and with what the job sets.
pub open spec fn planned(base: Settings, job: JobSettings, max_concurrency: usize) -> Settings {
    Settings {
        key: match job.key {
            Some(key) => Some(key),
            None => base.key,
        },
        vars: put_all(base.vars, job.vars),
        metadata: put_all(base.metadata, job.metadata),
        checksum_enabled: job.checksum_enabled,
        resumable_policy: match job.resumable_policy {
            Some(policy) => policy,
            None => base.resumable_policy,
        },
        max_concurrency,
        ..base
    }
}

/// The pairs with each of `more` set, in order.
pub open spec fn put_all(pairs: Pairs, more: Pairs) -> Pairs
    decreases more.len(),
{
    if more.len() == 0 {
        pairs
    } else {
        put(put_all(pairs, more.drop_last()), more.last().0, more.last().1)
    }
}

/// Sets an uploader to what a job asks for.
pub fn configure(
    uploader: ObjectUploader,
    key: Option<&str>,
    vars: &StringMap,
    metadata: &StringMap,
    checksum_enabled: bool,
    resumable_policy: Option<ResumablePolicy>,
    max_concurrency: usize,
) -> (r: ObjectUploader)
    ensures
        r.spec_config() == uploader.spec_config(),
        r.spec_up_urls_list().deep_view() == uploader.spec_up_urls_list().deep_view(),
        r.settings() == planned(
            uploader.settings(),
            JobSettings {
                key: key.deep_view(),
                upload_token: None,
                vars: vars.deep_view(),
                metadata: metadata.deep_view(),
                checksum_enabled,
                resumable_policy,
            },
            max_concurrency,
        ),
{
    let ghost base = uploader.settings();
    let mut object_uploader = uploader.max_concurrency(max_concurrency);
    match key {
        Some(key) => {
            object_uploader = object_uploader.key(key);
        },
        None => {},
    }
    let ghost all_vars = vars.deep_view();
    let mut i: usize = 0;
    proof {
        assert(all_vars.take(0) =~= Pairs::empty());
    }
    while i < vars.len()
        invariant
            i <= all_vars.len(),
            all_vars == vars.deep_view(),
            object_uploader.spec_config() == uploader.spec_config(),
            object_uploader.spec_up_urls_list().deep_view()
                == uploader.spec_up_urls_list().deep_view(),
            object_uploader.settings() == (Settings {
                key: match key.deep_view() {
                    Some(key) => Some(key),
                    None => base.key,
                },
                vars: put_all(base.vars, all_vars.take(i as int)),
                max_concurrency,
                ..base
            }),
        decreases all_vars.len() - i,
    {
        let entry = vars.entry(i);
        object_uploader = object_uploader.var(entry.name.as_str(), entry.value.as_str());
        proof {
            let next = all_vars.take(i + 1);
            assert(next.drop_last() =~= all_vars.take(i as int));
            assert(next.last() == all_vars[i as int]);
        }
        i += 1;
    }
    proof {
        assert(all_vars.take(i as int) =~= all_vars);
    }
    let ghost all_metadata = metadata.deep_view();
    let mut j: usize = 0;
    proof {
        assert(all_metadata.take(0) =~= Pairs::empty());
    }
    while j < metadata.len()
        invariant
            j <= all_metadata.len(),
            all_metadata == metadata.deep_view(),
            object_uploader.spec_config() == uploader.spec_config(),
            object_uploader.spec_up_urls_list().deep_view()
                == uploader.spec_up_urls_list().deep_view(),
            object_uploader.settings() == (Settings {
                key: match key.deep_view() {
                    Some(key) => Some(key),
                    None => base.key,
                },
                vars: put_all(base.vars, all_vars),
                metadata: put_all(base.metadata, all_metadata.take(j as int)),
                max_concurrency,
                ..base
            }),
        decreases all_metadata.len() - j,
    {
        let entry = metadata.entry(j);
        object_uploader = object_uploader.metadata(entry.name.as_str(), entry.value.as_str());
        proof {
            let next = all_metadata.take(j + 1);
            assert(next.drop_last() =~= all_metadata.take(j as int));
            assert(next.last() == all_metadata[j as int]);
        }
        j += 1;
    }
    proof {
        assert(all_metadata.take(j as int) =~= all_metadata);
    }
    if checksum_enabled {
        object_uploader = object_uploader.enable_checksum();
    } else {
        object_uploader = object_uploader.disable_checksum();
    }
    match resumable_policy {
        Some(ResumablePolicy::Threshold(threshold)) => {
            object_uploader = object_uploader.upload_threshold(threshold);
        },
        Some(ResumablePolicy::Never) => {
            object_uploader = object_uploader.never_be_resumable();
        },
        Some(ResumablePolicy::Always) => {
            object_uploader = object_uploader.always_be_resumable();
        },
        None => {},
    }
    object_uploader
}

/// The policy that decides how the data of a job is uploaded: that of the
/// job where it sets one, that of the configuration otherwise.
pub open spec fn job_policy(job: JobSettings, config: ConfigView) -> ResumablePolicy {
    match job.resumable_policy {
        Some(policy) => policy,
        None => ResumablePolicy::Threshold(config.upload_threshold),
    }
}

/// The configuration that the uploaders of a batch work under.
pub open spec fn core_config(context: BatchUploaderContext) -> ConfigView {
    config_of(context.spec_core())
}

/// The configuration that uploaders made from a core work under.
pub open spec fn config_of(core: CoreView) -> ConfigView {
    match core {
        CoreView::UploadManager { config, token } => config,
        CoreView::Bucket(bucket) => bucket.config,
    }
}

/// What a job asks of its uploader: all that it is set to but its token.
pub open spec fn asked_of_uploader(job: JobSettings) -> JobSettings {
    JobSettings { upload_token: None, ..job }
}

/// Whether `uploader` is set as the uploader of a job of a batch is: for
/// the bucket and with the token of the job, or else of the batch, where
/// the batch was made from an upload manager; for the bucket of the batch,
/// with a token made for that bucket at `now`, where it was made from a
/// bucket. It works under the configuration of the batch and is set to
/// what the job asks for, with the batch's bound on concurrency.
pub open spec fn set_for(
    core: CoreView,
    max_concurrency: usize,
    job_token: Option<UploadToken>,
    job: JobSettings,
    now: u64,
    uploader: ObjectUploader,
) -> bool {
    match core {
        CoreView::UploadManager { config, token } => {
            let used = match job_token {
                Some(own) => own,
                None => token,
            };
            &&& uploader.spec_config()@ == config
            &&& bucket_of_token(used) matches Some(bucket)
            &&& uploader.settings() == planned(
                new_settings(bucket, used.text(), uploader.settings().up_urls_list, config),
                asked_of_uploader(job),
                max_concurrency,
            )
        },
        CoreView::Bucket(bucket) => {
            &&& uploader.spec_config()@ == bucket.config
            &&& uploader.settings() == planned(
                new_settings(
                    bucket.name,
                    rendered(
                        bucket.access_key,
                        bucket.secret_key,
                        policy_json(
                            initial_fields(
                                bucket.name,
                                deadline_after(now, bucket.config.upload_token_lifetime),
                            ),
                        ),
                    ),
                    uploader.settings().up_urls_list,
                    bucket.config,
                ),
                asked_of_uploader(job),
                max_concurrency,
            )
        },
    }
}

/// Whether `uploader` sends where the uploader of a job of a batch sends:
/// where the batch was made from an upload manager, to the regions that a
/// region query for the bucket of its token gave, as [`sends_where_asked`]
/// says; where it was made from a bucket, to the regions that the bucket
/// knows after looking for them, as [`finds_region`] says; and to all known
/// regions where none are found.
pub open spec fn sends_for(
    core: CoreView,
    found: CoreView,
    cache_before: CacheMap<Vec<Region>>,
    cache: CacheMap<Vec<Region>>,
    job_token: Option<UploadToken>,
    now: u64,
    uploader: ObjectUploader,
) -> bool {
    match core {
        CoreView::UploadManager { config, token } => {
            let used = match job_token {
                Some(own) => own,
                None => token,
            };
            &&& bucket_of_token(used) matches Some(bucket)
            &&& used.spec_access_key() matches Ok(access_key)
            &&& sends_where_asked(
                config,
                access_key,
                bucket,
                cache_before,
                cache,
                now,
                uploader.settings().up_urls_list,
            )
            &&& now < u64::MAX ==> uploader.settings().up_urls_list == up_urls_for(
                cached_regions(cache, access_key, bucket, now),
                config.use_https,
            )
        },
        CoreView::Bucket(bucket) => found matches CoreView::Bucket(after) && finds_region(
            bucket,
            after,
            cache_before,
            cache,
            now,
            after.region is Some,
        ) && uploader.settings().up_urls_list == up_urls_for(
            if after.region is Some {
                Some(known_regions(after))
            } else {
                None
            },
            bucket.config.use_https,
        ),
    }
}

/// What became of a job: what became of its upload, and how often the
/// watcher of its end was told of the result.
pub struct JobDone {
    /// What became of the upload.
    pub uploaded: ObjectUploaded,
    /// How often the job's watcher of the end was told of the result of
    /// the upload.
    pub told: usize,
}

/// How often the watcher of the end of a job is told: once where the job
/// has one.
pub open spec fn times_told<F>(watcher: Option<F>) -> usize {
    if watcher is Some {
        1
    } else {
        0
    }
}

/// A job whose uploader has been made and set: all that is left is to
/// upload its data, which needs nothing of the batch any more.
pub struct PreparedJob<P: UploadProgress, F: UploadCompleted> {
    uploader: ObjectUploader,
    file_name: String,
    mime: Option<String>,
    on_uploading_progress: Option<P>,
    on_completed: Option<F>,
    data: Vec<u8>,
    expected_data_size: u64,
}

impl<P: UploadProgress, F: UploadCompleted> PreparedJob<P, F> {
    /// The uploader of the job.
    pub closed spec fn spec_uploader(&self) -> ObjectUploader {
        self.uploader
    }

    /// The watcher of the upload's progress, if the job has one.
    pub closed spec fn spec_on_progress(&self) -> Option<P> {
        self.on_uploading_progress
    }

    /// The watcher of the upload's end, if the job has one.
    pub closed spec fn spec_on_completed(&self) -> Option<F> {
        self.on_completed
    }

    /// What the uploader of the job is set to.
    pub open spec fn settings(&self) -> Settings {
        self.spec_uploader().settings()
    }

    /// The data of the job.
    pub closed spec fn spec_data(&self) -> Seq<u8> {
        self.data@
    }

    /// The size that was expected of the data.
    pub closed spec fn spec_expected_data_size(&self) -> u64 {
        self.expected_data_size
    }

    /// The name of the file that the data comes from.
    pub closed spec fn spec_file_name(&self) -> Seq<char> {
        self.file_name@
    }

    /// The content type of the data.
    pub closed spec fn spec_mime(&self) -> Option<Seq<char>> {
        self.mime.deep_view()
    }
}

/// Makes the uploader of a job from what the batch shares, and sets it to
/// what the job asks for.
///
/// The uploader of a batch that was made from an upload manager proves its
/// right with the token of the job, or else with that of the batch; the
/// uploader of a batch that was made from a bucket is the bucket's. Names,
/// variables, metadata, checksums and policy are those of the job, and the
/// bound on concurrency is that of the batch.
pub fn prepare_job<C: HTTPCaller, P: UploadProgress, F: UploadCompleted>(
    context: &mut BatchUploaderContext,
    job: BatchUploadJob<P, F>,
    caller: &C,
    cache: &mut CacheMap<Vec<Region>>,
    now: u64,
) -> (r: PreparedJob<P, F>)
    ensures
        final(context).spec_max_concurrency() == old(context).spec_max_concurrency(),
        final(context).spec_thread_pool_size() == old(context).spec_thread_pool_size(),
        core_config(*final(context)) == core_config(*old(context)),
        core_kept(old(context).spec_core(), final(context).spec_core()),
        set_for(
            old(context).spec_core(),
            old(context).spec_max_concurrency(),
            job.spec_token(),
            job.settings(),
            now,
            r.spec_uploader(),
        ),
        sends_for(
            old(context).spec_core(),
            final(context).spec_core(),
            *old(cache),
            *final(cache),
            job.spec_token(),
            now,
            r.spec_uploader(),
        ),
        r.settings().key == job.settings().key,
        r.settings().vars == put_all(Pairs::empty(), job.settings().vars),
        r.settings().metadata == put_all(Pairs::empty(), job.settings().metadata),
        r.settings().checksum_enabled == job.settings().checksum_enabled,
        r.settings().resumable_policy == job_policy(job.settings(), core_config(*old(context))),
        r.settings().max_concurrency == old(context).spec_max_concurrency(),
        r.spec_on_progress() == job.spec_on_progress(),
        r.spec_on_completed() == job.spec_on_completed(),
        r.spec_data() == job.spec_data(),
        r.spec_expected_data_size() == job.spec_expected_data_size(),
        r.spec_file_name() == job.spec_file_name(),
        r.spec_mime() == job.spec_mime(),
{
    let BatchUploadJob {
        key,
        upload_token,
        vars,
        metadata,
        checksum_enabled,
        resumable_policy,
        file_name,
        mime,
        data,
        expected_data_size,
        on_uploading_progress,
        on_completed,
    } = job;
    let max_concurrency = context.max_concurrency;
    let object_uploader = match &mut context.core {
        BatchUploaderCore::UploadManager { upload_manager, upload_token: context_upload_token } => {
            let token: &UploadToken = match &upload_token {
                Some(token) => token.token(),
                None => context_upload_token.token(),
            };
            upload_manager.upload_for_upload_token(caller, cache, token, now).unwrap()
        },
        BatchUploaderCore::Bucket(bucket) => bucket.uploader(caller, cache, now),
    };
    let uploader = configure(
        object_uploader,
        match &key {
            Some(key) => Some(key.as_str()),
            None => None,
        },
        &vars,
        &metadata,
        checksum_enabled,
        resumable_policy,
        max_concurrency,
    );
    PreparedJob {
        uploader,
        file_name,
        mime,
        on_uploading_progress,
        on_completed,
        data,
        expected_data_size,
    }
}

/// Uploads the data of a prepared job and tells the job's watcher of the
/// end.
///
/// What became of the upload is what [`uploaded_by`] says of the job's
/// uploader and data, for data of the size that the job expects. The
/// watcher of the end, where the job has one, is told once, of the result
/// that is handed back, after the upload has ended.
pub fn run_job<C: HTTPCaller, H: Hooks, P: UploadProgress, F: UploadCompleted>(
    job: PreparedJob<P, F>,
    caller: &C,
    hooks: &mut H,
    boundary: &str,
    now: u64,
) -> (r: JobDone)
    ensures
        uploaded_by(
            job.spec_uploader(),
            job.spec_data(),
            Some(job.spec_expected_data_size()),
            job.spec_file_name(),
            job.spec_mime(),
            boundary@,
            Seq::<BlockContext>::empty(),
            now,
            r.uploaded,
        ),
        r.uploaded.method is Some,
        r.told == times_told(job.spec_on_completed()),
{
    let PreparedJob {
        uploader,
        file_name,
        mime,
        on_uploading_progress,
        on_completed,
        data,
        expected_data_size,
    } = job;
    let recorded: Vec<BlockContext> = Vec::new();
    let mime_text: Option<&str> = match &mime {
        Some(mime) => Some(mime.as_str()),
        None => None,
    };
    let uploaded = match on_uploading_progress {
        Some(mut observer) => uploader.upload_stream(
            caller,
            hooks,
            &mut observer,
            data.as_slice(),
            Some(expected_data_size),
            file_name.as_str(),
            mime_text,
            boundary,
            &recorded,
            now,
        ),
        None => {
            let mut observer = NoProgress;
            uploader.upload_stream(
                caller,
                hooks,
                &mut observer,
                data.as_slice(),
                Some(expected_data_size),
                file_name.as_str(),
                mime_text,
                boundary,
                &recorded,
                now,
            )
        },
    };
    let told: usize = match on_completed {
        Some(mut on_completed) => {
            on_completed.on_completed(&uploaded.result);
            1
        },
        None => 0,
    };
    JobDone { uploaded, told }
}

/// Works off one job: prepares it as [`prepare_job`] says and uploads its
/// data as [`run_job`] says.
///
/// The upload is made by an uploader that is set for the job as
/// [`set_for`] says and sends where [`sends_for`] says, and what became of
/// it is what [`uploaded_by`] says of that uploader. The watcher of the
/// end, where the job has one, is told once, of the result that is handed
/// back. The batch stays as it was, but for the regions that its bucket
/// has found.
pub fn handle_job<C: HTTPCaller, H: Hooks, P: UploadProgress, F: UploadCompleted>(
    context: &mut BatchUploaderContext,
    job: BatchUploadJob<P, F>,
    caller: &C,
    hooks: &mut H,
    cache: &mut CacheMap<Vec<Region>>,
    boundary: &str,
    now: u64,
) -> (r: JobDone)
    ensures
        final(context).spec_max_concurrency() == old(context).spec_max_concurrency(),
        final(context).spec_thread_pool_size() == old(context).spec_thread_pool_size(),
        core_kept(old(context).spec_core(), final(context).spec_core()),
        exists|uploader: ObjectUploader|
            {
                &&& set_for(
                    old(context).spec_core(),
                    old(context).spec_max_concurrency(),
                    job.spec_token(),
                    job.settings(),
                    now,
                    uploader,
                )
                &&& sends_for(
                    old(context).spec_core(),
                    final(context).spec_core(),
                    *old(cache),
                    *final(cache),
                    job.spec_token(),
                    now,
                    uploader,
                )
                &&& #[trigger] uploaded_by(
                    uploader,
                    job.spec_data(),
                    Some(job.spec_expected_data_size()),
                    job.spec_file_name(),
                    job.spec_mime(),
                    boundary@,
                    Seq::<BlockContext>::empty(),
                    now,
                    r.uploaded,
                )
            },
        r.uploaded.method == method_for(
            job_policy(job.settings(), core_config(*old(context))),
            Some(job.spec_expected_data_size()),
        ),
        r.uploaded.method is Some,
        r.told == times_told(job.spec_on_completed()),
{
    let prepared = prepare_job(context, job, caller, cache, now);
    let ghost uploader = prepared.spec_uploader();
    let done = run_job(prepared, caller, hooks, boundary, now);
    proof {
        assert(uploaded_by(
            uploader,
            job.spec_data(),
            Some(job.spec_expected_data_size()),
            job.spec_file_name(),
            job.spec_mime(),
            boundary@,
            Seq::<BlockContext>::empty(),
            now,
            done.uploaded,
        ));
    }
    done
}

/// Uploads the jobs that were handed to it.
pub struct BatchUploader<P: UploadProgress, F: UploadCompleted> {
    context: BatchUploaderContext,
    jobs: Vec<BatchUploadJob<P, F>>,
}

impl<P: UploadProgress, F: UploadCompleted> BatchUploader<P, F> {
    /// What the jobs share.
    pub closed spec fn spec_context(&self) -> BatchUploaderContext {
        self.context
    }

    /// The jobs that wait, in the order in which they were handed in.
    pub closed spec fn spec_jobs(&self) -> Seq<BatchUploadJob<P, F>> {
        self.jobs@
    }

    /// A batch uploader whose jobs prove their right with `upload_token`
    /// unless they have a token of their own. A token that cannot be
    /// read, or whose policy names no bucket, is turned down.
    pub fn new_for_upload_manager(upload_manager: UploadManager, upload_token: UploadToken) -> (r:
        Result<Self, CreateUploaderError>)
        ensures
            match r {
                Ok(uploader) => {
                    &&& is_usable_token(upload_token)
                    &&& uploader.spec_jobs().len() == 0
                    &&& uploader.spec_context().spec_max_concurrency() == 0
                    &&& uploader.spec_context().spec_thread_pool_size() == 0
                    &&& uploader.spec_context().spec_core() == (CoreView::UploadManager {
                        config: upload_manager.spec_config()@,
                        token: upload_token,
                    })
                },
                Err(error) => !is_usable_token(upload_token) && says_fault(error, upload_token),
            },
    {
        match UsableToken::new(upload_token) {
            Ok(upload_token) => Ok(
                BatchUploader {
                    jobs: Vec::new(),
                    context: BatchUploaderContext {
                        core: BatchUploaderCore::UploadManager { upload_manager, upload_token },
                        max_concurrency: 0,
                        thread_pool_size: 0,
                    },
                },
            ),
            Err(error) => Err(error),
        }
    }

    /// A batch uploader into `bucket`.
    pub fn new_for_bucket(bucket: Bucket) -> (r: Self)
        ensures
            r.spec_jobs().len() == 0,
            r.spec_context().spec_max_concurrency() == 0,
            r.spec_context().spec_thread_pool_size() == 0,
            r.spec_context().spec_core() == CoreView::Bucket(bucket.deep_view()),
    {
        BatchUploader {
            jobs: Vec::new(),
            context: BatchUploaderContext {
                core: BatchUploaderCore::Bucket(bucket),
                max_concurrency: 0,
                thread_pool_size: 0,
            },
        }
    }

    /// Says how many jobs are to be expected, so that room can be made for
    /// them. Nothing that can be seen changes.
    pub fn expected_jobs_count(&mut self, expected_jobs_count: usize) -> (r: &mut Self)
        ensures
            r.spec_jobs() == old(self).spec_jobs(),
            r.spec_context() == old(self).spec_context(),
            *final(self) == *final(r),
    {
        if expected_jobs_count > self.jobs.len() {
            self.jobs.reserve(expected_jobs_count - self.jobs.len());
        }
        self
    }

    /// Sets the size of a pool of the batch's own; zero leaves it to the
    /// number of processors.
    pub fn thread_pool_size(&mut self, num_threads: usize) -> (r: &mut Self)
        ensures
            r.spec_jobs() == old(self).spec_jobs(),
            r.spec_context().spec_thread_pool_size() == num_threads,
            r.spec_context().spec_max_concurrency() == old(self).spec_context().spec_max_concurrency(),
            r.spec_context().spec_core() == old(self).spec_context().spec_core(),
            *final(self) == *final(r),
    {
        self.context.thread_pool_size = num_threads;
        self
    }

    /// Bounds the blocks of one job that are on their way at once; zero
    /// leaves the bound to the pool.
    pub fn max_concurrency(&mut self, concurrency: usize) -> (r: &mut Self)
        ensures
            r.spec_jobs() == old(self).spec_jobs(),
            r.spec_context().spec_max_concurrency() == concurrency,
            r.spec_context().spec_thread_pool_size() == old(self).spec_context().spec_thread_pool_size(),
            r.spec_context().spec_core() == old(self).spec_context().spec_core(),
            *final(self) == *final(r),
    {
        self.context.max_concurrency = concurrency;
        self
    }

    /// Hands in a job.
    pub fn push_job(&mut self, job: BatchUploadJob<P, F>) -> (r: &mut Self)
        ensures
            r.spec_jobs() == old(self).spec_jobs().push(job),
            r.spec_context() == old(self).spec_context(),
            *final(self) == *final(r),
    {
        self.jobs.push(job);
        self
    }

    /// Takes the job that was handed in last out of the batch, to be worked
    /// off elsewhere, together with what the jobs share.
    pub fn pop_job(&mut self) -> (r: Option<BatchUploadJob<P, F>>)
        ensures
            final(self).spec_context() == old(self).spec_context(),
            match r {
                Some(job) => {
                    &&& old(self).spec_jobs().len() > 0
                    &&& job == old(self).spec_jobs().last()
                    &&& final(self).spec_jobs() == old(self).spec_jobs().drop_last()
                },
                None => old(self).spec_jobs().len() == 0 && final(self).spec_jobs().len() == 0,
            },
    {
        self.jobs.pop()
    }

    /// What the jobs share, to prepare jobs with that were taken out.
    pub fn context(&mut self) -> (r: &mut BatchUploaderContext)
        ensures
            *r == old(self).spec_context(),
            final(self).spec_jobs() == old(self).spec_jobs(),
            final(self).spec_context() == *final(r),
    {
        &mut self.context
    }

    /// The number of jobs that wait.
    pub fn len(&self) -> (r: usize)
        ensures
            r == self.spec_jobs().len(),
    {
        self.jobs.len()
    }

    /// Works off all jobs, the one handed in last first, and hands back
    /// what became of each, in the order in which they were worked off.
    ///
    /// When it returns, every job's watcher has been told of the end of
    /// its upload and no job waits any more; the batch is as it was, but
    /// for the regions that its bucket has found. What became of each job
    /// is what [`worked_off`] says. A batch without jobs is done at once.
    pub fn start<C: HTTPCaller, H: Hooks>(
        &mut self,
        caller: &C,
        hooks: &mut H,
        cache: &mut CacheMap<Vec<Region>>,
        boundary: &str,
        now: u64,
    ) -> (r: Vec<JobDone>)
        ensures
            final(self).spec_jobs().len() == 0,
            final(self).spec_context().spec_max_concurrency() == old(self).spec_context().spec_max_concurrency(),
            final(self).spec_context().spec_thread_pool_size() == old(self).spec_context().spec_thread_pool_size(),
            core_kept(old(self).spec_context().spec_core(), final(self).spec_context().spec_core()),
            r@.len() == old(self).spec_jobs().len(),
            forall|i: int|
                0 <= i < r@.len() ==> worked_off(
                    old(self).spec_context(),
                    old(self).spec_jobs()[r@.len() - 1 - i],
                    boundary@,
                    now,
                    #[trigger] r@[i],
                ),
    {
        let mut results: Vec<JobDone> = Vec::new();
        let ghost all = self.jobs@;
        let ghost first = self.context;
        while self.jobs.len() > 0
            invariant
                self.jobs@ == all.take(self.jobs@.len() as int),
                self.jobs@.len() <= all.len(),
                all == old(self).spec_jobs(),
                first == old(self).spec_context(),
                self.context.spec_max_concurrency() == first.spec_max_concurrency(),
                self.context.spec_thread_pool_size() == first.spec_thread_pool_size(),
                core_kept(first.spec_core(), self.context.spec_core()),
                results@.len() == all.len() - self.jobs@.len(),
                forall|i: int|
                    0 <= i < results@.len() ==> worked_off(
                        first,
                        all[all.len() - 1 - i],
                        boundary@,
                        now,
                        #[trigger] results@[i],
                    ),
            decreases self.jobs@.len(),
        {
            let ghost before = self.jobs@;
            let ghost done_before = results@;
            let ghost core_before = self.context.spec_core();
            let job = self.jobs.pop().unwrap();
            proof {
                assert(job == all[before.len() - 1]);
                assert(self.jobs@ =~= all.take(self.jobs@.len() as int));
            }
            let done = handle_job(&mut self.context, job, caller, hooks, cache, boundary, now);
            results.push(done);
            proof {
                let uploader = choose|uploader: ObjectUploader|
                    {
                        &&& set_for(
                            core_before,
                            first.spec_max_concurrency(),
                            job.spec_token(),
                            job.settings(),
                            now,
                            uploader,
                        )
                        &&& #[trigger] uploaded_by(
                            uploader,
                            job.spec_data(),
                            Some(job.spec_expected_data_size()),
                            job.spec_file_name(),
                            job.spec_mime(),
                            boundary@,
                            Seq::<BlockContext>::empty(),
                            now,
                            done.uploaded,
                        )
                    };
                assert(set_for(
                    first.spec_core(),
                    first.spec_max_concurrency(),
                    job.spec_token(),
                    job.settings(),
                    now,
                    uploader,
                ));
                assert(worked_off(first, job, boundary@, now, done));
                assert forall|i: int| 0 <= i < results@.len() implies worked_off(
                    first,
                    all[all.len() - 1 - i],
                    boundary@,
                    now,
                    #[trigger] results@[i],
                ) by {
                    if i < done_before.len() {
                        assert(results@[i] == done_before[i]);
                    }
                }
            }
        }
        results
    }
}

/// Whether `done` is what became of `job` in a batch: it was uploaded by an
/// uploader that is set for the job as [`set_for`] says, what became of the
/// upload is what [`uploaded_by`] says of that uploader, and the job's
/// watcher of the end, where it has one, was told once.
pub open spec fn worked_off<P: UploadProgress, F: UploadCompleted>(
    context: BatchUploaderContext,
    job: BatchUploadJob<P, F>,
    boundary: Seq<char>,
    now: u64,
    done: JobDone,
) -> bool {
    &&& exists|uploader: ObjectUploader|
        {
            &&& set_for(
                context.spec_core(),
                context.spec_max_concurrency(),
                job.spec_token(),
                job.settings(),
                now,
                uploader,
            )
            &&& #[trigger] uploaded_by(
                uploader,
                job.spec_data(),
                Some(job.spec_expected_data_size()),
                job.spec_file_name(),
                job.spec_mime(),
                boundary,
                Seq::<BlockContext>::empty(),
                now,
                done.uploaded,
            )
        }
    &&& done.uploaded.method == method_for(
        job_policy(job.settings(), core_config(context)),
        Some(job.spec_expected_data_size()),
    )
    &&& done.told == times_told(job.spec_on_completed())
}

} // verus!
