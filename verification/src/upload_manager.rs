//! The entry to uploading: from a token, a policy or a bucket to an
//! uploader that knows where to send.

use crate::batch_uploader::{BatchUploader, CoreView, says_fault, UploadCompleted};
use crate::bucket::{Bucket, finds_region, known_regions, same_but_regions};
use crate::resumable_uploader::UploadProgress;
use crate::cache_map::{CacheMap, lemma_dropped_is_gone, lemma_stored_is_cached, TIME_TO_LIVE};
use crate::config::{Config, ConfigView};
use crate::credential::Credential;
use crate::client::{Attempt, viewed};
use crate::discovery::{query_regions, region_key, regions_queried};
use crate::http::{kind_words, HTTPCaller, HTTPError};
use crate::text::concat;
use crate::object_uploader::{ObjectUploader, ResumablePolicy, Settings};
use crate::region::{group_urls, known_ids, known_region, Region, RegionView};
use crate::string_map::Pairs;
use crate::upload_policy::{
    deadline_after,
    Field,
    initial_fields,
    lemma_position_is,
    lookup_text,
    policy_json,
    scope_bucket,
    UploadPolicy,
};
use crate::upload_token::{parse_error_words, UploadToken, UploadTokenParseError};
use vstd::prelude::*;
use vstd::string::*;

verus! {

/// Why no uploader could be made.
#[derive(Debug)]
pub enum CreateUploaderError {
    /// The upload token could not be read.
    UploadTokenParseError(UploadTokenParseError),
    /// A call to the service failed.
    QiniuAPIError(HTTPError),
    /// The policy of the upload token names no bucket.
    BucketIsMissingInUploadToken,
}

/// Why no uploader could be made, in words.
pub open spec fn create_error_words(error: CreateUploaderError) -> Seq<char> {
    match error {
        CreateUploaderError::UploadTokenParseError(error) => "Failed to parse upload token: "@
            + parse_error_words(error),
        CreateUploaderError::QiniuAPIError(error) => "Qiniu API call error: "@ + kind_words(
            error.error_kind.deep_view(),
        ),
        CreateUploaderError::BucketIsMissingInUploadToken => "Bucket is missing in upload token"@,
    }
}

impl CreateUploaderError {
    /// Says why no uploader could be made.
    pub fn to_string(&self) -> (r: String)
        ensures
            r@ == create_error_words(*self),
    {
        match self {
            CreateUploaderError::UploadTokenParseError(error) => concat(
                "Failed to parse upload token: ",
                error.to_string().as_str(),
            ),
            CreateUploaderError::QiniuAPIError(error) => concat(
                "Qiniu API call error: ",
                error.to_string().as_str(),
            ),
            CreateUploaderError::BucketIsMissingInUploadToken => {
                "Bucket is missing in upload token".to_owned()
            },
        }
    }
}

/// The upload URLs of the regions in order, each region's in the order in
/// which they are tried.
pub open spec fn up_urls_of_regions(regions: Seq<RegionView>, use_https: bool) -> Seq<
    Seq<Seq<char>>,
> {
    Seq::new(regions.len(), |i: int| group_urls(regions[i].up, use_https))
}

/// The upload URLs of all known regions.
pub open spec fn all_possible_up_urls(use_https: bool) -> Seq<Seq<Seq<char>>> {
    up_urls_of_regions(
        Seq::new(known_ids().len(), |i: int| known_region(known_ids()[i])),
        use_https,
    )
}

/// The upload URLs that serve a bucket whose regions were asked for: those
/// of its regions where the service named them, those of all known regions
/// otherwise.
pub open spec fn up_urls_for(regions: Option<Seq<RegionView>>, use_https: bool) -> Seq<
    Seq<Seq<char>>,
> {
    match regions {
        Some(regions) => up_urls_of_regions(regions, use_https),
        None => all_possible_up_urls(use_https),
    }
}

/// The name of a bucket and the hosts that take uploads into it.
pub struct BucketUploaderBuilder {
    bucket_name: String,
    up_urls_list: Vec<Vec<String>>,
    config: Config,
}

/// The name of a bucket and the hosts that take uploads into it, as built.
pub struct BucketUploader {
    bucket_name: String,
    up_urls_list: Vec<Vec<String>>,
    config: Config,
}

impl BucketUploaderBuilder {
    /// The name of the bucket.
    pub closed spec fn spec_bucket_name(&self) -> Seq<char> {
        self.bucket_name@
    }

    /// The upload URLs, region by region.
    pub closed spec fn spec_up_urls_list(&self) -> Seq<Seq<Seq<char>>> {
        self.up_urls_list.deep_view()
    }

    /// The configuration.
    pub closed spec fn spec_config(&self) -> Config {
        self.config
    }

    /// A builder for `bucket_name` with the given upload URLs.
    pub fn new(bucket_name: &str, up_urls_list: Vec<Vec<String>>, config: &Config) -> (r: Self)
        ensures
            r.spec_bucket_name() == bucket_name@,
            r.spec_up_urls_list() == up_urls_list.deep_view(),
            r.spec_config()@ == config@,
    {
        BucketUploaderBuilder {
            bucket_name: bucket_name.to_owned(),
            up_urls_list,
            config: config.clone(),
        }
    }

    /// The bucket uploader as set.
    pub fn build(self) -> (r: BucketUploader)
        ensures
            r.spec_bucket_name() == self.spec_bucket_name(),
            r.spec_up_urls_list() == self.spec_up_urls_list(),
            r.spec_config() == self.spec_config(),
    {
        BucketUploader {
            bucket_name: self.bucket_name,
            up_urls_list: self.up_urls_list,
            config: self.config,
        }
    }
}

impl BucketUploader {
    /// The name of the bucket.
    pub closed spec fn spec_bucket_name(&self) -> Seq<char> {
        self.bucket_name@
    }

    /// The upload URLs, region by region.
    pub closed spec fn spec_up_urls_list(&self) -> Seq<Seq<Seq<char>>> {
        self.up_urls_list.deep_view()
    }

    /// The configuration.
    pub closed spec fn spec_config(&self) -> Config {
        self.config
    }

    /// An uploader of single objects that proves its right with
    /// `upload_token`.
    pub fn uploader(self, upload_token: &str) -> (r: ObjectUploader)
        ensures
            r.spec_config()@ == self.spec_config()@,
            r.settings() == new_settings(
                self.spec_bucket_name(),
                upload_token@,
                self.spec_up_urls_list(),
                self.spec_config()@,
            ),
    {
        ObjectUploader::new(
            self.bucket_name.as_str(),
            upload_token,
            self.up_urls_list,
            &self.config,
        )
    }
}

/// Whether `up_urls_list` is where uploads into a bucket go after the
/// service was asked for its regions: some region query, as
/// [`regions_queried`] says, took the cache from what it was to what it is,
/// and the list holds the hosts of the regions that the query gave, or of
/// all known regions where it gave none.
pub open spec fn sends_where_asked(
    config: ConfigView,
    access_key: Seq<char>,
    bucket: Seq<char>,
    cache_before: CacheMap<Vec<Region>>,
    cache_after: CacheMap<Vec<Region>>,
    now: u64,
    up_urls_list: Seq<Seq<Seq<char>>>,
) -> bool {
    exists|attempts: Seq<Attempt>, listed: Result<Seq<RegionView>, HTTPError>|
        {
            &&& #[trigger] regions_queried(
                config,
                access_key,
                bucket,
                cache_before,
                cache_after,
                now,
                attempts,
                listed,
            )
            &&& up_urls_list == up_urls_for(
                match listed {
                    Ok(regions) => Some(regions),
                    Err(_) => None,
                },
                config.use_https,
            )
        }
}

/// What a new uploader is set to.
pub open spec fn new_settings(
    bucket_name: Seq<char>,
    upload_token: Seq<char>,
    up_urls_list: Seq<Seq<Seq<char>>>,
    config: ConfigView,
) -> Settings {
    Settings {
        bucket_name,
        upload_token,
        up_urls_list,
        key: None,
        vars: Pairs::empty(),
        metadata: Pairs::empty(),
        checksum_enabled: true,
        resumable_policy: ResumablePolicy::Threshold(config.upload_threshold),
        max_concurrency: 0,
    }
}

/// The regions that the cache holds for a bucket at `now`, as values.
pub open spec fn cached_regions(
    cache: CacheMap<Vec<Region>>,
    access_key: Seq<char>,
    bucket: Seq<char>,
    now: u64,
) -> Option<Seq<RegionView>> {
    match cache.cached(region_key(access_key, bucket), now) {
        Some(regions) => Some(regions.deep_view()),
        None => None,
    }
}

/// The bucket that an uploader made from a token would upload into, if one
/// can be made.
pub open spec fn bucket_of_token(token: UploadToken) -> Option<Seq<char>> {
    match (token.spec_access_key(), token.spec_policy()) {
        (Ok(_), Ok(fields)) => match lookup_text(fields, "scope"@) {
            Some(scope) => Some(scope_bucket(scope)),
            None => None,
        },
        _ => None,
    }
}

/// The entry to uploading: it holds the configuration that every uploader
/// it makes works under.
#[derive(Debug)]
pub struct UploadManager {
    config: Config,
}

impl Clone for UploadManager {
    fn clone(&self) -> (r: Self)
        ensures
            r.spec_config()@ == self.spec_config()@,
    {
        UploadManager { config: self.config.clone() }
    }
}

impl UploadManager {
    /// The configuration.
    pub closed spec fn spec_config(&self) -> Config {
        self.config
    }

    /// An upload manager that works under `config`.
    pub fn new(config: Config) -> (r: Self)
        ensures
            r.spec_config() == config,
    {
        UploadManager { config }
    }

    /// The configuration.
    pub fn config(&self) -> (r: &Config)
        ensures
            *r == self.spec_config(),
    {
        &self.config
    }

    /// The upload URLs of the regions in order.
    pub fn extract_up_urls_list_from_regions(regions: &Vec<Region>, use_https: bool) -> (r: Vec<
        Vec<String>,
    >)
        ensures
            r.deep_view() == up_urls_of_regions(regions.deep_view(), use_https),
    {
        let mut list: Vec<Vec<String>> = Vec::new();
        let mut i: usize = 0;
        while i < regions.len()
            invariant
                i <= regions.len(),
                list.len() == i,
                forall|k: int|
                    0 <= k < i ==> (#[trigger] list[k]).deep_view() == group_urls(
                        regions[k].deep_view().up,
                        use_https,
                    ),
            decreases regions.len() - i,
        {
            list.push(regions[i].up_urls(use_https));
            i += 1;
        }
        assert(list.deep_view() =~= up_urls_of_regions(regions.deep_view(), use_https));
        list
    }

    /// The upload URLs of all known regions.
    pub fn all_possible_up_urls_list(use_https: bool) -> (r: Vec<Vec<String>>)
        ensures
            r.deep_view() == all_possible_up_urls(use_https),
    {
        let regions = Region::all();
        Self::extract_up_urls_list_from_regions(&regions, use_https)
    }

    /// The upload URLs for a bucket whose regions may be known.
    pub fn up_urls_list_for(regions: Option<&Vec<Region>>, use_https: bool) -> (r: Vec<Vec<String>>)
        ensures
            r.deep_view() == up_urls_for(regions.deep_view(), use_https),
    {
        match regions {
            Some(regions) => Self::extract_up_urls_list_from_regions(regions, use_https),
            None => Self::all_possible_up_urls_list(use_https),
        }
    }

    /// A builder of uploaders into `bucket_name`, for the account with the
    /// access key `access_key`.
    ///
    /// The regions of the bucket are asked for, unless the cache holds
    /// them. The builder sends to the regions that are then in the cache,
    /// and to all known regions where the service could not name any.
    pub fn for_bucket_name<C: HTTPCaller>(
        &self,
        caller: &C,
        cache: &mut CacheMap<Vec<Region>>,
        bucket_name: &str,
        access_key: &str,
        now: u64,
    ) -> (r: BucketUploaderBuilder)
        ensures
            r.spec_bucket_name() == bucket_name@,
            r.spec_config()@ == self.spec_config()@,
            sends_where_asked(
                self.spec_config()@,
                access_key@,
                bucket_name@,
                *old(cache),
                *final(cache),
                now,
                r.spec_up_urls_list(),
            ),
            now < u64::MAX ==> r.spec_up_urls_list() == up_urls_for(
                cached_regions(*final(cache), access_key@, bucket_name@, now),
                self.spec_config()@.use_https,
            ),
            old(cache).cached(region_key(access_key@, bucket_name@), now) is Some
                ==> final(cache).entries() == old(cache).entries(),
    {
        proof {
            use_type_invariant(&*cache);
        }
        let queried = query_regions(caller, cache, bucket_name, access_key, &self.config, now);
        proof {
            assert(regions_queried(
                self.spec_config()@,
                access_key@,
                bucket_name@,
                *old(cache),
                *cache,
                now,
                queried.attempts@,
                viewed(queried.result),
            ));
        }
        let up_urls_list = match &queried.result {
            Ok(regions) => {
                proof {
                    if old(cache).cached(region_key(access_key@, bucket_name@), now) is None {
                        let (key, kept): (Vec<String>, Vec<Region>) = choose|
                            key: Vec<String>,
                            kept: Vec<Region>,
                        |
                            {
                                &&& key.deep_view() == region_key(access_key@, bucket_name@)
                                &&& kept.deep_view() == regions.deep_view()
                                &&& cache.entries() == crate::cache_map::stored(
                                    old(cache).entries(),
                                    key,
                                    kept,
                                    deadline_after(now, TIME_TO_LIVE),
                                )
                            };
                        lemma_stored_is_cached(
                            old(cache).entries(),
                            key,
                            kept,
                            deadline_after(now, TIME_TO_LIVE),
                            now,
                        );
                    }
                }
                Self::extract_up_urls_list_from_regions(regions, self.config.use_https())
            },
            Err(_) => {
                proof {
                    lemma_dropped_is_gone(
                        old(cache).entries(),
                        region_key(access_key@, bucket_name@),
                        now,
                    );
                }
                Self::all_possible_up_urls_list(self.config.use_https())
            },
        };
        BucketUploaderBuilder::new(bucket_name, up_urls_list, &self.config)
    }

    /// A builder of uploaders into `bucket`. It sends to the regions of the
    /// bucket, which are asked for where the bucket does not know them, or
    /// to all known regions where they cannot be found.
    pub fn for_bucket<C: HTTPCaller>(
        &self,
        caller: &C,
        cache: &mut CacheMap<Vec<Region>>,
        bucket: &mut Bucket,
        now: u64,
    ) -> (r: BucketUploaderBuilder)
        ensures
            finds_region(
                old(bucket).deep_view(),
                final(bucket).deep_view(),
                *old(cache),
                *final(cache),
                now,
                final(bucket).deep_view().region is Some,
            ),
            same_but_regions(old(bucket).deep_view(), final(bucket).deep_view()),
            r.spec_bucket_name() == old(bucket).deep_view().name,
            r.spec_config()@ == self.spec_config()@,
            r.spec_up_urls_list() == up_urls_for(
                if final(bucket).deep_view().region is Some {
                    Some(known_regions(final(bucket).deep_view()))
                } else {
                    None
                },
                self.spec_config()@.use_https,
            ),
    {
        let regions = match bucket.regions(caller, cache, now).result {
            Ok(regions) => Some(regions),
            Err(_) => None,
        };
        let up_urls_list = Self::up_urls_list_for(regions.as_ref(), self.config.use_https());
        BucketUploaderBuilder::new(bucket.name(), up_urls_list, &self.config)
    }

    /// A batch uploader whose jobs prove their right with `upload_token`
    /// unless they have a token of their own. A token that cannot be read,
    /// or whose policy names no bucket, is turned down.
    pub fn batch_uploader_for_upload_token<P: UploadProgress, F: UploadCompleted>(
        &self,
        upload_token: UploadToken,
    ) -> (r: Result<BatchUploader<P, F>, CreateUploaderError>)
        ensures
            match r {
                Ok(uploader) => {
                    &&& bucket_of_token(upload_token) is Some
                    &&& uploader.spec_jobs().len() == 0
                    &&& uploader.spec_context().spec_max_concurrency() == 0
                    &&& uploader.spec_context().spec_thread_pool_size() == 0
                    &&& uploader.spec_context().spec_core() == (CoreView::UploadManager {
                        config: self.spec_config()@,
                        token: upload_token,
                    })
                },
                Err(error) => bucket_of_token(upload_token) is None && says_fault(
                    error,
                    upload_token,
                ),
            },
    {
        BatchUploader::new_for_upload_manager(self.clone(), upload_token)
    }

    /// A batch uploader whose jobs prove their right with a token made from
    /// `upload_policy` and `credential`. A policy that names no bucket is
    /// turned down.
    pub fn batch_uploader_for_upload_policy<P: UploadProgress, F: UploadCompleted>(
        &self,
        upload_policy: UploadPolicy,
        credential: Credential,
    ) -> (r: Result<BatchUploader<P, F>, CreateUploaderError>)
        ensures
            match r {
                Ok(uploader) => {
                    &&& lookup_text(upload_policy.deep_view(), "scope"@) is Some
                    &&& uploader.spec_jobs().len() == 0
                    &&& uploader.spec_context().spec_max_concurrency() == 0
                    &&& uploader.spec_context().spec_thread_pool_size() == 0
                    &&& uploader.spec_context().spec_core() == (CoreView::UploadManager {
                        config: self.spec_config()@,
                        token: UploadToken::Bound { policy: upload_policy, credential },
                    })
                },
                Err(error) => lookup_text(upload_policy.deep_view(), "scope"@) is None
                    && error is BucketIsMissingInUploadToken,
            },
    {
        self.batch_uploader_for_upload_token(UploadToken::new(upload_policy, credential))
    }

    /// A batch uploader into `bucket` whose jobs prove their right with a
    /// token made for the bucket at `now` from `credential`.
    pub fn batch_uploader_for_bucket<P: UploadProgress, F: UploadCompleted>(
        &self,
        bucket: &str,
        credential: Credential,
        now: u64,
    ) -> (r: BatchUploader<P, F>)
        ensures
            r.spec_jobs().len() == 0,
            r.spec_context().spec_max_concurrency() == 0,
            r.spec_context().spec_thread_pool_size() == 0,
            r.spec_context().spec_core() matches CoreView::UploadManager { config, token }
                && config == self.spec_config()@ && (token matches UploadToken::Bound {
                policy,
                credential: held,
            } && held == credential && policy.deep_view() == initial_fields(
                bucket@,
                deadline_after(now, self.spec_config()@.upload_token_lifetime),
            )),
    {
        let token = UploadToken::new_from_bucket(bucket, credential, &self.config, now);
        proof {
            lemma_position_is(
                initial_fields(
                    bucket@,
                    deadline_after(now, self.spec_config()@.upload_token_lifetime),
                ),
                "scope"@,
                0,
            );
        }
        self.batch_uploader_for_upload_token(token).unwrap()
    }

    /// An uploader that proves its right with `upload_token`.
    ///
    /// The token must name an access key and carry a policy with a scope;
    /// the bucket of the scope is the bucket that the uploader uploads
    /// into. Where to send is found as [`for_bucket_name`] says.
    ///
    /// [`for_bucket_name`]: UploadManager::for_bucket_name
    pub fn upload_for_upload_token<C: HTTPCaller>(
        &self,
        caller: &C,
        cache: &mut CacheMap<Vec<Region>>,
        upload_token: &UploadToken,
        now: u64,
    ) -> (r: Result<ObjectUploader, CreateUploaderError>)
        ensures
            match r {
                Ok(uploader) => {
                    &&& bucket_of_token(*upload_token) matches Some(bucket)
                    &&& upload_token.spec_access_key() matches Ok(access_key)
                    &&& uploader.spec_config()@ == self.spec_config()@
                    &&& uploader.settings() == new_settings(
                        bucket,
                        upload_token.text(),
                        uploader.settings().up_urls_list,
                        self.spec_config()@,
                    )
                    &&& sends_where_asked(
                        self.spec_config()@,
                        access_key,
                        bucket,
                        *old(cache),
                        *final(cache),
                        now,
                        uploader.settings().up_urls_list,
                    )
                    &&& now < u64::MAX ==> uploader.settings().up_urls_list == up_urls_for(
                        cached_regions(*final(cache), access_key, bucket, now),
                        self.spec_config()@.use_https,
                    )
                },
                Err(CreateUploaderError::UploadTokenParseError(e)) => {
                    &&& final(cache).entries() == old(cache).entries()
                    &&& upload_token.spec_access_key() == Err::<Seq<char>, UploadTokenParseError>(e)
                        || (upload_token.spec_access_key() is Ok && upload_token.spec_policy()
                        == Err::<Seq<Field>, UploadTokenParseError>(e))
                },
                Err(CreateUploaderError::BucketIsMissingInUploadToken) => {
                    &&& final(cache).entries() == old(cache).entries()
                    &&& upload_token.spec_access_key() is Ok
                    &&& upload_token.spec_policy() matches Ok(fields)
                    &&& lookup_text(fields, "scope"@) is None
                },
                Err(CreateUploaderError::QiniuAPIError(_)) => false,
            },
    {
        let access_key = match upload_token.access_key() {
            Ok(access_key) => access_key,
            Err(e) => {
                return Err(CreateUploaderError::UploadTokenParseError(e));
            },
        };
        let policy = match upload_token.policy() {
            Ok(policy) => policy,
            Err(e) => {
                return Err(CreateUploaderError::UploadTokenParseError(e));
            },
        };
        match policy.as_ref().bucket() {
            Some(bucket_name) => {
                let builder = self.for_bucket_name(caller, cache, bucket_name, access_key, now);
                let text = upload_token.to_string();
                Ok(builder.build().uploader(text.as_str()))
            },
            None => Err(CreateUploaderError::BucketIsMissingInUploadToken),
        }
    }

    /// An uploader that proves its right with a token made from
    /// `upload_policy` and `credential`.
    pub fn upload_for_upload_policy<C: HTTPCaller>(
        &self,
        caller: &C,
        cache: &mut CacheMap<Vec<Region>>,
        upload_policy: UploadPolicy,
        credential: Credential,
        now: u64,
    ) -> (r: Result<ObjectUploader, CreateUploaderError>)
        ensures
            match r {
                Ok(uploader) => {
                    &&& lookup_text(upload_policy.deep_view(), "scope"@) matches Some(scope)
                    &&& uploader.spec_config()@ == self.spec_config()@
                    &&& uploader.settings() == new_settings(
                        scope_bucket(scope),
                        (UploadToken::Bound { policy: upload_policy, credential }).text(),
                        uploader.settings().up_urls_list,
                        self.spec_config()@,
                    )
                    &&& sends_where_asked(
                        self.spec_config()@,
                        credential.spec_access_key(),
                        scope_bucket(scope),
                        *old(cache),
                        *final(cache),
                        now,
                        uploader.settings().up_urls_list,
                    )
                    &&& now < u64::MAX ==> uploader.settings().up_urls_list == up_urls_for(
                        cached_regions(
                            *final(cache),
                            credential.spec_access_key(),
                            scope_bucket(scope),
                            now,
                        ),
                        self.spec_config()@.use_https,
                    )
                },
                Err(CreateUploaderError::BucketIsMissingInUploadToken) => lookup_text(
                    upload_policy.deep_view(),
                    "scope"@,
                ) is None && final(cache).entries() == old(cache).entries(),
                Err(_) => false,
            },
    {
        let token = UploadToken::new(upload_policy, credential);
        self.upload_for_upload_token(caller, cache, &token, now)
    }

    /// An uploader into `bucket` that proves its right with a token made
    /// for the bucket at `now` from `credential`.
    pub fn upload_for_bucket<C: HTTPCaller>(
        &self,
        caller: &C,
        cache: &mut CacheMap<Vec<Region>>,
        bucket: &str,
        credential: Credential,
        now: u64,
    ) -> (r: ObjectUploader)
        ensures
            r.spec_config()@ == self.spec_config()@,
            r.settings() == new_settings(
                scope_bucket(bucket@),
                r.settings().upload_token,
                r.settings().up_urls_list,
                self.spec_config()@,
            ),
            r.settings().upload_token == crate::upload_token::rendered(
                credential.spec_access_key(),
                credential.spec_secret_key(),
                policy_json(
                    initial_fields(
                        bucket@,
                        deadline_after(now, self.spec_config()@.upload_token_lifetime),
                    ),
                ),
            ),
            sends_where_asked(
                self.spec_config()@,
                credential.spec_access_key(),
                scope_bucket(bucket@),
                *old(cache),
                *final(cache),
                now,
                r.settings().up_urls_list,
            ),
            now < u64::MAX ==> r.settings().up_urls_list == up_urls_for(
                cached_regions(
                    *final(cache),
                    credential.spec_access_key(),
                    scope_bucket(bucket@),
                    now,
                ),
                self.spec_config()@.use_https,
            ),
    {
        let token = UploadToken::new_from_bucket(bucket, credential, &self.config, now);
        proof {
            let fields = initial_fields(
                bucket@,
                deadline_after(now, self.spec_config()@.upload_token_lifetime),
            );
            lemma_position_is(fields, "scope"@, 0);
        }
        let access_key = token.access_key().unwrap();
        let bucket_name = token.policy().unwrap().as_ref().bucket().unwrap().to_owned();
        let builder = self.for_bucket_name(caller, cache, bucket_name.as_str(), access_key, now);
        let text = token.to_string();
        builder.build().uploader(text.as_str())
    }

    /// An uploader into `bucket_name` that proves its right with
    /// `upload_token` and sends to the given regions, or to all known
    /// regions where none are given.
    pub fn upload_for_internal_generated_upload_token_with_regions(
        &self,
        bucket_name: &str,
        upload_token: &UploadToken,
        regions: Option<&Vec<Region>>,
    ) -> (r: ObjectUploader)
        ensures
            r.spec_config()@ == self.spec_config()@,
            r.settings() == new_settings(
                bucket_name@,
                upload_token.text(),
                up_urls_for(regions.deep_view(), self.spec_config()@.use_https),
                self.spec_config()@,
            ),
    {
        let up_urls_list = Self::up_urls_list_for(regions, self.config.use_https());
        let text = upload_token.to_string();
        ObjectUploader::new(bucket_name, text.as_str(), up_urls_list, &self.config)
    }
}

} // verus!
