//! Buckets: the name of a bucket with the credential that may use it, and
//! what is known, or found out when first needed, of where it lives and
//! under which domains it is served.

use crate::batch_uploader::{BatchUploader, CoreView, UploadCompleted};
use crate::resumable_uploader::UploadProgress;
use crate::cache_map::{CacheMap, lemma_stored_is_cached, TIME_TO_LIVE};
use crate::client::{
    answer_read,
    asks,
    asks_plainly,
    last_success_body,
    v2_authorization,
    Attempt,
    Call,
    carries,
    is_run_of,
    send,
    Token,
    viewed,
};
use crate::config::{Config, ConfigView, host_url};
use crate::credential::Credential;
use crate::discovery::{
    asks_for_domains,
    asks_for_regions,
    domain_key,
    domains_kept,
    domains_of_body,
    domains_read,
    Queried,
    query_domains,
    query_regions,
    query_rule,
    region_key,
    regions_kept,
    regions_read,
};
use crate::http::{Header, HTTPCaller, HTTPError, HTTPErrorKind, Method, NoHooks, kind_words};
use crate::json::{get_unsigned, parse, text_nodes, unsigned_at};
use crate::object_uploader::ObjectUploader;
use crate::region::{
    clone_regions,
    group_urls,
    known_region,
    Region,
    RegionId,
    regions_of_body,
    RegionView,
};
use crate::retry::RetryKind;
use crate::text::{clone_strings, concat};
use crate::upload_manager::{cached_regions, new_settings, up_urls_for, UploadManager};
use crate::upload_policy::{deadline_after, initial_fields, policy_json};
use crate::upload_token::{rendered, UploadToken};
use crate::uri::{is_url, split, UrlParseError};
use vstd::prelude::*;
use vstd::string::*;

verus! {

/// Why the domains of a bucket are not to be had.
#[derive(Debug)]
pub enum DomainsError {
    /// No domain is bound to the bucket.
    NoDomainsBound,
    /// The domains could not be asked for.
    GetDomainsError(HTTPError),
}

/// Why the domains are not to be had, in words.
pub open spec fn domains_error_words(error: DomainsError) -> Seq<char> {
    match error {
        DomainsError::NoDomainsBound => "No domains bound"@,
        DomainsError::GetDomainsError(error) => "Get domains error: "@ + kind_words(
            error.error_kind.deep_view(),
        ),
    }
}

impl DomainsError {
    /// Says why the domains are not to be had.
    pub fn to_string(&self) -> (r: String)
        ensures
            r@ == domains_error_words(*self),
    {
        match self {
            DomainsError::NoDomainsBound => "No domains bound".to_owned(),
            DomainsError::GetDomainsError(error) => concat(
                "Get domains error: ",
                error.to_string().as_str(),
            ),
        }
    }
}

/// What is set of a bucket before it is built.
pub struct BucketBuilder {
    name: String,
    credential: Credential,
    upload_manager: UploadManager,
    region: Option<Region>,
    backup_regions: Vec<Region>,
    domains: Vec<String>,
}

/// The mathematical value of a [`BucketBuilder`].
pub struct BuilderView {
    pub name: Seq<char>,
    pub access_key: Seq<char>,
    pub secret_key: Seq<char>,
    pub config: ConfigView,
    pub region: Option<RegionView>,
    pub backup_regions: Seq<RegionView>,
    pub domains: Seq<Seq<char>>,
}

impl DeepView for BucketBuilder {
    type V = BuilderView;

    closed spec fn deep_view(&self) -> BuilderView {
        BuilderView {
            name: self.name@,
            access_key: self.credential.spec_access_key(),
            secret_key: self.credential.spec_secret_key(),
            config: self.upload_manager.spec_config()@,
            region: self.region.deep_view(),
            backup_regions: self.backup_regions.deep_view(),
            domains: self.domains.deep_view(),
        }
    }
}

/// What the service says of a bucket.
#[derive(Clone, Copy, Debug)]
pub struct BucketInfo {
    /// Zero for a bucket that anyone may read.
    pub private: u64,
}

/// A bucket. What is not known of it when it is built is asked for when it
/// is first needed, and kept from then on.
#[derive(Debug)]
pub struct Bucket {
    name: String,
    credential: Credential,
    upload_manager: UploadManager,
    region: Option<Region>,
    backup_regions: Option<Vec<Region>>,
    domains: Option<Vec<String>>,
    rs_urls: Option<Vec<String>>,
    bucket_info: Option<BucketInfo>,
}

/// The mathematical value of a [`Bucket`].
pub struct BucketView {
    pub name: Seq<char>,
    pub access_key: Seq<char>,
    pub secret_key: Seq<char>,
    pub config: ConfigView,
    pub region: Option<RegionView>,
    pub backup_regions: Option<Seq<RegionView>>,
    pub domains: Option<Seq<Seq<char>>>,
    pub rs_urls: Option<Seq<Seq<char>>>,
    pub private: Option<u64>,
}

impl DeepView for Bucket {
    type V = BucketView;

    closed spec fn deep_view(&self) -> BucketView {
        BucketView {
            name: self.name@,
            access_key: self.credential.spec_access_key(),
            secret_key: self.credential.spec_secret_key(),
            config: self.upload_manager.spec_config()@,
            region: self.region.deep_view(),
            backup_regions: self.backup_regions.deep_view(),
            domains: self.domains.deep_view(),
            rs_urls: self.rs_urls.deep_view(),
            private: match self.bucket_info {
                Some(info) => Some(info.private),
                None => None,
            },
        }
    }
}

/// The bucket that a builder builds: the region and its backups where a
/// region is set, the domains where one is set, the domain set last first.
pub open spec fn built(builder: BuilderView) -> BucketView {
    BucketView {
        name: builder.name,
        access_key: builder.access_key,
        secret_key: builder.secret_key,
        config: builder.config,
        region: builder.region,
        backup_regions: if builder.region is Some {
            Some(builder.backup_regions)
        } else {
            None
        },
        domains: if builder.domains.len() == 0 {
            None
        } else {
            Some(builder.domains.reverse())
        },
        rs_urls: None,
        private: None,
    }
}

/// The regions that are known of a bucket, the region it lives in first.
pub open spec fn known_regions(bucket: BucketView) -> Seq<RegionView> {
    match bucket.region {
        Some(region) => match bucket.backup_regions {
            Some(backups) => seq![region] + backups,
            None => seq![region],
        },
        None => Seq::empty(),
    }
}

/// The bucket with the regions that the service named, where it had none:
/// the first is the region it lives in, the others are its backups unless
/// backups were set before.
pub open spec fn with_regions(bucket: BucketView, regions: Seq<RegionView>) -> BucketView {
    BucketView {
        region: Some(regions[0]),
        backup_regions: match bucket.backup_regions {
            Some(backups) => Some(backups),
            None => Some(regions.skip(1)),
        },
        ..bucket
    }
}

/// Whether something was read, and nothing of what.
pub open spec fn unit_of<V>(read: Option<V>) -> Option<()> {
    match read {
        Some(_) => Some(()),
        None => None,
    }
}

/// The first of what was read.
pub open spec fn first_of<V>(read: Option<Seq<V>>) -> Option<V> {
    match read {
        Some(all) => Some(all[0]),
        None => None,
    }
}

/// A builder with the regions that the service named: the first is the
/// region of the bucket, the others are its backups; where there are no
/// others, the backups stay as they were.
pub open spec fn set_regions(builder: BuilderView, regions: Seq<RegionView>) -> BuilderView {
    BuilderView {
        region: Some(regions[0]),
        backup_regions: if regions.len() > 1 {
            regions.skip(1)
        } else {
            builder.backup_regions
        },
        ..builder
    }
}

/// How a builder detects the regions of its bucket.
///
/// Regions that the cache holds for the bucket at `now` are set without
/// any request, and that fails only where the cache holds an empty list,
/// which is no answer. Otherwise the attempts are one whole run of the
/// region query, it succeeds exactly where the last attempt succeeded and
/// its body lists regions, those regions are set and remembered, and a
/// failure leaves the builder as it was and the cache without the bucket.
pub open spec fn detects_region(
    before: BuilderView,
    after: BuilderView,
    cache_before: CacheMap<Vec<Region>>,
    cache_after: CacheMap<Vec<Region>>,
    now: u64,
    attempts: Seq<Attempt>,
    result: Result<(), HTTPError>,
) -> bool {
    match cached_regions(cache_before, before.access_key, before.name, now) {
        Some(regions) => {
            &&& attempts.len() == 0
            &&& cache_after.entries() == cache_before.entries()
            &&& if regions.len() > 0 {
                result is Ok && after == set_regions(before, regions)
            } else {
                after == before && (result matches Err(error) && error.error_kind
                    is JSONDecodeError)
            }
        },
        None => {
            &&& is_run_of(query_rule(before.config), attempts)
            &&& asks_for_regions(before.config, before.access_key, before.name, attempts)
            &&& regions_kept(
                cache_before,
                cache_after,
                region_key(before.access_key, before.name),
                now,
                regions_read(attempts),
            )
            &&& answer_read(result, attempts, |body: Seq<u8>| unit_of(regions_of_body(body)))
            &&& after == match regions_read(attempts) {
                Some(regions) => set_regions(before, regions),
                None => before,
            }
        },
    }
}

/// How a builder detects the domains of its bucket.
///
/// Domains that the cache holds for the bucket at `now` are set without
/// any request, and that cannot fail. Otherwise the attempts are one whole
/// run of the domain query, it succeeds exactly where the last attempt
/// succeeded and its body lists domains, those domains are set in place of
/// those set before and remembered, and a failure leaves the builder as it
/// was and the cache without the bucket.
pub open spec fn detects_domains(
    before: BuilderView,
    after: BuilderView,
    cache_before: CacheMap<Vec<String>>,
    cache_after: CacheMap<Vec<String>>,
    now: u64,
    attempts: Seq<Attempt>,
    result: Result<(), HTTPError>,
) -> bool {
    let key = domain_key(before.access_key, before.secret_key, before.name);
    match cache_before.cached(key, now) {
        Some(domains) => {
            &&& attempts.len() == 0
            &&& cache_after.entries() == cache_before.entries()
            &&& result is Ok
            &&& after == (BuilderView { domains: domains.deep_view(), ..before })
        },
        None => {
            &&& is_run_of(query_rule(before.config), attempts)
            &&& asks_for_domains(
                before.config,
                before.access_key,
                before.secret_key,
                before.name,
                attempts,
            )
            &&& domains_kept(cache_before, cache_after, key, now, domains_read(attempts))
            &&& answer_read(result, attempts, |body: Seq<u8>| unit_of(domains_of_body(body)))
            &&& after == match domains_read(attempts) {
                Some(domains) => BuilderView { domains, ..before },
                None => before,
            }
        },
    }
}

/// How a bucket asks for its region.
///
/// A region that is known is handed out without any request. Otherwise
/// regions that the cache holds for the bucket at `now` are taken without
/// any request, and the first of them is handed out; an empty list is no
/// answer. Otherwise the attempts are one whole run of the region query;
/// it succeeds exactly where the last attempt succeeded and its body lists
/// regions; the first region listed is handed out and becomes the region
/// of the bucket, and the regions are remembered; a failure leaves the
/// bucket as it was and the cache without the bucket.
pub open spec fn asks_region(
    before: BucketView,
    after: BucketView,
    cache_before: CacheMap<Vec<Region>>,
    cache_after: CacheMap<Vec<Region>>,
    now: u64,
    attempts: Seq<Attempt>,
    result: Result<RegionView, HTTPError>,
) -> bool {
    match before.region {
        Some(region) => {
            &&& attempts.len() == 0
            &&& result == Ok::<RegionView, HTTPError>(region)
            &&& after == before
            &&& cache_after.entries() == cache_before.entries()
        },
        None => match cached_regions(cache_before, before.access_key, before.name, now) {
            Some(regions) => {
                &&& attempts.len() == 0
                &&& cache_after.entries() == cache_before.entries()
                &&& if regions.len() > 0 {
                    after == with_regions(before, regions) && result == Ok::<
                        RegionView,
                        HTTPError,
                    >(regions[0])
                } else {
                    after == before && (result matches Err(error) && error.error_kind
                        is JSONDecodeError)
                }
            },
            None => {
                &&& is_run_of(query_rule(before.config), attempts)
                &&& asks_for_regions(before.config, before.access_key, before.name, attempts)
                &&& regions_kept(
                    cache_before,
                    cache_after,
                    region_key(before.access_key, before.name),
                    now,
                    regions_read(attempts),
                )
                &&& answer_read(
                    result,
                    attempts,
                    |body: Seq<u8>| first_of(regions_of_body(body)),
                )
                &&& after == match regions_read(attempts) {
                    Some(regions) => with_regions(before, regions),
                    None => before,
                }
            },
        },
    }
}

/// How a bucket asks for its domains.
///
/// Domains that are known are handed out without any request. Otherwise
/// domains that the cache holds for the bucket at `now` are taken without
/// any request. Otherwise the attempts are one whole run of the domain
/// query; it succeeds exactly where the last attempt succeeded and its
/// body lists domains; those domains are handed out, kept by the bucket and
/// remembered; a failure leaves the bucket as it was and the cache without
/// the bucket.
pub open spec fn asks_domains(
    before: BucketView,
    after: BucketView,
    cache_before: CacheMap<Vec<String>>,
    cache_after: CacheMap<Vec<String>>,
    now: u64,
    attempts: Seq<Attempt>,
    result: Result<Seq<Seq<char>>, HTTPError>,
) -> bool {
    let key = domain_key(before.access_key, before.secret_key, before.name);
    match before.domains {
        Some(domains) => {
            &&& attempts.len() == 0
            &&& result == Ok::<Seq<Seq<char>>, HTTPError>(domains)
            &&& after == before
            &&& cache_after.entries() == cache_before.entries()
        },
        None => match cache_before.cached(key, now) {
            Some(domains) => {
                &&& attempts.len() == 0
                &&& cache_after.entries() == cache_before.entries()
                &&& result == Ok::<Seq<Seq<char>>, HTTPError>(domains.deep_view())
                &&& after == (BucketView { domains: Some(domains.deep_view()), ..before })
            },
            None => {
                &&& is_run_of(query_rule(before.config), attempts)
                &&& asks_for_domains(
                    before.config,
                    before.access_key,
                    before.secret_key,
                    before.name,
                    attempts,
                )
                &&& domains_kept(cache_before, cache_after, key, now, domains_read(attempts))
                &&& answer_read(result, attempts, |body: Seq<u8>| domains_of_body(body))
                &&& after == match domains_read(attempts) {
                    Some(domains) => BucketView { domains: Some(domains), ..before },
                    None => before,
                }
            },
        },
    }
}

/// How a bucket comes to know its region: it asks for it, as
/// [`asks_region`] says, with some attempts and some result, and finds it
/// exactly where the result is a region.
pub open spec fn finds_region(
    before: BucketView,
    after: BucketView,
    cache_before: CacheMap<Vec<Region>>,
    cache_after: CacheMap<Vec<Region>>,
    now: u64,
    found: bool,
) -> bool {
    exists|attempts: Seq<Attempt>, result: Result<RegionView, HTTPError>|
        #[trigger] asks_region(
            before,
            after,
            cache_before,
            cache_after,
            now,
            attempts,
            result,
        ) && found == (result is Ok)
}

/// How a bucket comes to know its domains: it asks for them, as
/// [`asks_domains`] says, with some attempts and some result, and finds
/// them exactly where the result is a list of domains.
pub open spec fn finds_domains(
    before: BucketView,
    after: BucketView,
    cache_before: CacheMap<Vec<String>>,
    cache_after: CacheMap<Vec<String>>,
    now: u64,
    found: bool,
) -> bool {
    exists|attempts: Seq<Attempt>, result: Result<Seq<Seq<char>>, HTTPError>|
        #[trigger] asks_domains(
            before,
            after,
            cache_before,
            cache_after,
            now,
            attempts,
            result,
        ) && found == (result is Ok)
}

/// How a bucket comes to know the URLs that manage its objects.
///
/// URLs that are known stay, and nothing is asked. Otherwise the bucket
/// looks for its region as [`finds_region`] says, and the URLs are those of
/// the region, where it is found, followed by the one of the
/// configuration.
pub open spec fn finds_rs_urls(
    before: BucketView,
    after: BucketView,
    cache_before: CacheMap<Vec<Region>>,
    cache_after: CacheMap<Vec<Region>>,
    now: u64,
) -> bool {
    match before.rs_urls {
        Some(urls) => after == before && cache_after.entries() == cache_before.entries(),
        None => {
            let looked = BucketView { rs_urls: None, ..after };
            &&& finds_region(before, looked, cache_before, cache_after, now, after.region is Some)
            &&& after.rs_urls == Some(
                (match after.region {
                    Some(region) => group_urls(region.rs, before.config.use_https),
                    None => Seq::empty(),
                }).push(host_url(before.config.use_https, before.config.rs_host)),
            )
        },
    }
}

/// Whether two buckets differ in nothing but the regions that are known of
/// them.
pub open spec fn same_but_regions(before: BucketView, after: BucketView) -> bool {
    after == (BucketView {
        region: after.region,
        backup_regions: after.backup_regions,
        ..before
    })
}

fn reversed(texts: &Vec<String>) -> (r: Vec<String>)
    ensures
        r.deep_view() == texts.deep_view().reverse(),
{
    let mut r: Vec<String> = Vec::new();
    let mut i: usize = texts.len();
    while i > 0
        invariant
            i <= texts.len(),
            r.len() == texts.len() - i,
            forall|k: int| 0 <= k < r.len() ==> (#[trigger] r[k])@ == texts[texts.len() - 1 - k]@,
        decreases i,
    {
        i -= 1;
        r.push(texts[i].clone());
    }
    assert(r.deep_view() =~= texts.deep_view().reverse());
    r
}

impl BucketBuilder {
    /// A builder for the bucket `name` of the account of `credential`.
    pub fn new(name: &str, credential: Credential, upload_manager: UploadManager) -> (r:
        BucketBuilder)
        ensures
            r.deep_view() == (BuilderView {
                name: name@,
                access_key: credential.spec_access_key(),
                secret_key: credential.spec_secret_key(),
                config: upload_manager.spec_config()@,
                region: None,
                backup_regions: Seq::empty(),
                domains: Seq::empty(),
            }),
    {
        let r = BucketBuilder {
            name: name.to_owned(),
            credential,
            upload_manager,
            region: None,
            backup_regions: Vec::new(),
            domains: Vec::new(),
        };
        assert(r.backup_regions.deep_view() =~= Seq::<RegionView>::empty());
        assert(r.domains.deep_view() =~= Seq::<Seq<char>>::empty());
        r
    }

    /// Sets the region of the bucket; where one is set already, adds a
    /// backup region.
    pub fn region(&mut self, region: Region) -> (r: &mut Self)
        ensures
            r.deep_view() == if old(self).deep_view().region is None {
                BuilderView { region: Some(region.deep_view()), ..old(self).deep_view() }
            } else {
                BuilderView {
                    backup_regions: old(self).deep_view().backup_regions.push(region.deep_view()),
                    ..old(self).deep_view()
                }
            },
            *final(self) == *final(r),
    {
        if self.region.is_none() {
            self.region = Some(region);
        } else {
            let ghost before = self.backup_regions.deep_view();
            self.backup_regions.push(region);
            assert(self.backup_regions.deep_view() =~= before.push(region.deep_view()));
        }
        self
    }

    /// Sets the region of the bucket to a known region; where one is set
    /// already, adds it as a backup region.
    pub fn region_id(&mut self, region_id: RegionId) -> (r: &mut Self)
        ensures
            r.deep_view() == if old(self).deep_view().region is None {
                BuilderView { region: Some(known_region(region_id)), ..old(self).deep_view() }
            } else {
                BuilderView {
                    backup_regions: old(self).deep_view().backup_regions.push(
                        known_region(region_id),
                    ),
                    ..old(self).deep_view()
                }
            },
            *final(self) == *final(r),
    {
        self.region(region_id.as_region())
    }

    /// Asks the service for the regions of the bucket and sets them: the
    /// first as its region, the others as its backup regions.
    ///
    /// What happens is what [`detects_region`] says: regions that the cache
    /// holds for the bucket at `now` are set without any request; otherwise
    /// the service is asked once, and the regions that its answer lists are
    /// set and remembered. A failure leaves the builder as it was.
    pub fn auto_detect_region<C: HTTPCaller>(
        &mut self,
        caller: &C,
        cache: &mut CacheMap<Vec<Region>>,
        now: u64,
    ) -> (r: Queried<()>)
        ensures
            detects_region(
                old(self).deep_view(),
                final(self).deep_view(),
                *old(cache),
                *final(cache),
                now,
                r.attempts@,
                r.result,
            ),
    {
        let queried = query_regions(
            caller,
            cache,
            self.name.as_str(),
            self.credential.access_key(),
            self.upload_manager.config(),
            now,
        );
        let attempts = queried.attempts;
        let result = match queried.result {
            Ok(regions) => {
                if regions.len() == 0 {
                    Err(
                        HTTPError {
                            retry_kind: RetryKind::UnretryableError,
                            error_kind: HTTPErrorKind::JSONDecodeError,
                            request_id: None,
                            host: None,
                            method: Method::GET,
                            url: String::new(),
                        },
                    )
                } else {
                    let mut regions = regions;
                    let ghost all = regions.deep_view();
                    let first = regions.remove(0);
                    assert(first.deep_view() == all[0]);
                    assert(regions.deep_view() =~= all.skip(1));
                    self.region = Some(first);
                    if regions.len() > 0 {
                        self.backup_regions = regions;
                    }
                    Ok(())
                }
            },
            Err(error) => Err(error),
        };
        Queried { result, attempts }
    }

    /// Adds a domain under which the bucket is served; the domain added
    /// last is used first. A domain that does not make a URL behind
    /// `http://` is turned down, and the builder stays as it was.
    pub fn prepend_domain(&mut self, domain: &str) -> (r: Result<(), UrlParseError>)
        ensures
            match r {
                Ok(_) => is_url("http://"@ + domain@) && final(self).deep_view() == (BuilderView {
                    domains: old(self).deep_view().domains.push(domain@),
                    ..old(self).deep_view()
                }),
                Err(error) => !is_url("http://"@ + domain@) && error.text@ == "http://"@ + domain@
                    && final(self).deep_view() == old(self).deep_view(),
            },
    {
        let url = concat("http://", domain);
        match split(url.as_str()) {
            Some(_) => {
                let ghost before = self.domains.deep_view();
                self.domains.push(domain.to_owned());
                assert(self.domains.deep_view() =~= before.push(domain@));
                Ok(())
            },
            None => Err(UrlParseError { text: url }),
        }
    }

    /// Asks the service for the domains of the bucket and sets them in
    /// place of those set before.
    ///
    /// What happens is what [`detects_domains`] says: domains that the
    /// cache holds for the bucket at `now` are set without any request;
    /// otherwise the service is asked once, and the domains that its answer
    /// lists are set and remembered. A failure leaves the builder as it was.
    pub fn auto_detect_domains<C: HTTPCaller>(
        &mut self,
        caller: &C,
        cache: &mut CacheMap<Vec<String>>,
        now: u64,
    ) -> (r: Queried<()>)
        ensures
            detects_domains(
                old(self).deep_view(),
                final(self).deep_view(),
                *old(cache),
                *final(cache),
                now,
                r.attempts@,
                r.result,
            ),
    {
        let queried = query_domains(
            caller,
            cache,
            &self.credential,
            self.name.as_str(),
            self.upload_manager.config(),
            now,
        );
        let attempts = queried.attempts;
        let result = match queried.result {
            Ok(domains) => {
                self.domains = domains;
                Ok(())
            },
            Err(error) => Err(error),
        };
        Queried { result, attempts }
    }

    /// Builds the bucket. The builder stays as it is and can build again.
    pub fn build(&self) -> (r: Bucket)
        ensures
            r.deep_view() == built(self.deep_view()),
    {
        let region = match &self.region {
            Some(region) => Some(region.duplicate()),
            None => None,
        };
        let backup_regions = if self.region.is_some() {
            Some(clone_regions(&self.backup_regions))
        } else {
            None
        };
        let domains = if self.domains.len() == 0 {
            None
        } else {
            Some(reversed(&self.domains))
        };
        Bucket {
            name: self.name.clone(),
            credential: self.credential.clone(),
            upload_manager: self.upload_manager.clone(),
            region,
            backup_regions,
            domains,
            rs_urls: None,
            bucket_info: None,
        }
    }

    /// Makes the builder one for the bucket `name`, with nothing else set.
    pub fn reset(&mut self, name: &str) -> (r: &mut Self)
        ensures
            r.deep_view() == (BuilderView {
                name: name@,
                region: None,
                backup_regions: Seq::empty(),
                domains: Seq::empty(),
                ..old(self).deep_view()
            }),
            *final(self) == *final(r),
    {
        self.name = name.to_owned();
        self.region = None;
        self.backup_regions.clear();
        self.domains.clear();
        assert(self.backup_regions.deep_view() =~= Seq::<RegionView>::empty());
        assert(self.domains.deep_view() =~= Seq::<Seq<char>>::empty());
        self
    }
}

/// What the answer to a bucket query said of the bucket, where the last
/// attempt succeeded and its body says it.
pub open spec fn private_read(attempts: Seq<Attempt>) -> Option<u64> {
    match last_success_body(attempts) {
        Some(body) => private_of_body(body),
        None => None,
    }
}

/// How a bucket comes to know what the service says of it.
///
/// What is known is handed out without any request, and the bucket stays
/// as it is. Otherwise the attempts are one whole run of a `GET` of
/// `/v2/bucketInfo`, with the name of the bucket as its query, signed with
/// the keys of the account, to the query host of the configuration. It
/// succeeds exactly where the last attempt succeeded and its body says
/// whether the bucket is private; what the body says is handed out, as
/// `told` tells it, and kept; anything else leaves the bucket as it was.
pub open spec fn asks_of_bucket<V>(
    before: BucketView,
    after: BucketView,
    result: Result<V, HTTPError>,
    attempts: Seq<Attempt>,
    told: spec_fn(u64) -> V,
) -> bool {
    match before.private {
        Some(private) => {
            &&& result == Ok::<V, HTTPError>(told(private))
            &&& after == before
            &&& attempts.len() == 0
        },
        None => {
            &&& is_run_of(query_rule(before.config), attempts)
            &&& forall|i: int|
                0 <= i < attempts.len() ==> asks_plainly(
                    Method::GET,
                    host_url(before.config.use_https, before.config.uc_host),
                    "/v2/bucketInfo"@,
                    seq![("bucket"@, before.name)],
                    Some(
                        v2_authorization(
                            before.access_key,
                            before.secret_key,
                            Method::GET,
                            host_url(before.config.use_https, before.config.uc_host),
                            "/v2/bucketInfo"@,
                            seq![("bucket"@, before.name)],
                        ),
                    ),
                    before.config,
                    #[trigger] attempts[i],
                )
            &&& answer_read(
                result,
                attempts,
                |body: Seq<u8>|
                    match private_of_body(body) {
                        Some(private) => Some(told(private)),
                        None => None,
                    },
            )
            &&& after == match private_read(attempts) {
                Some(private) => BucketView { private: Some(private), ..before },
                None => before,
            }
        },
    }
}

/// What the body of an answer to a bucket query says of the bucket: the
/// number under `private`.
pub open spec fn private_of_body(body: Seq<u8>) -> Option<u64> {
    match text_nodes(body) {
        Some(nodes) => unsigned_at(nodes, "/private"@),
        None => None,
    }
}

/// Reads the body of an answer to a bucket query.
pub fn bucket_info_from_body(body: &[u8]) -> (r: Option<BucketInfo>)
    ensures
        match r {
            Some(info) => private_of_body(body@) == Some(info.private),
            None => private_of_body(body@) is None,
        },
{
    match parse(body) {
        Some(document) => match get_unsigned(&document, "/private") {
            Some(private) => Some(BucketInfo { private }),
            None => None,
        },
        None => None,
    }
}

/// The first domain and the others of a list of domains: the last of the
/// list is the first domain, the others follow in turned order.
pub open spec fn first_and_backup(domains: Seq<Seq<char>>) -> (Seq<char>, Seq<Seq<char>>) {
    (domains.last(), domains.drop_last().reverse())
}

/// Goes through the regions that are known of a bucket, the region it
/// lives in first.
pub struct BucketRegionIter<'a> {
    bucket: &'a Bucket,
    first_done: bool,
    backups_done: usize,
}

impl<'a> BucketRegionIter<'a> {
    /// The regions that are still to come.
    pub closed spec fn remaining(&self) -> Seq<RegionView> {
        let all = known_regions(self.bucket.deep_view());
        if !self.first_done {
            all
        } else if 1 + self.backups_done <= all.len() {
            all.skip(1 + self.backups_done)
        } else {
            Seq::empty()
        }
    }

    /// The next region, if there is one left.
    pub fn next(&mut self) -> (r: Option<&'a Region>)
        ensures
            match r {
                Some(region) => {
                    &&& old(self).remaining().len() > 0
                    &&& region.deep_view() == old(self).remaining()[0]
                    &&& final(self).remaining() == old(self).remaining().skip(1)
                },
                None => old(self).remaining().len() == 0 && final(self).remaining().len() == 0,
            },
    {
        let ghost all = known_regions(self.bucket.deep_view());
        if !self.first_done {
            match &self.bucket.region {
                Some(region) => {
                    self.first_done = true;
                    self.backups_done = 0;
                    assert(all.len() >= 1);
                    assert(all[0] == region.deep_view());
                    Some(region)
                },
                None => None,
            }
        } else {
            match (&self.bucket.region, &self.bucket.backup_regions) {
                (Some(_), Some(regions)) => {
                    if self.backups_done < regions.len() {
                        let region = &regions[self.backups_done];
                        assert(all.len() == 1 + regions.len());
                        let ghost n = self.backups_done as int;
                        assert(all[1 + n] == regions.deep_view()[n]);
                        assert(all.skip(1 + self.backups_done)[0] == region.deep_view());
                        assert(all.skip(1 + self.backups_done).skip(1) =~= all.skip(
                            2 + self.backups_done,
                        ));
                        self.backups_done = self.backups_done + 1;
                        Some(region)
                    } else {
                        assert(all.len() == 1 + regions.len());
                        None
                    }
                },
                _ => None,
            }
        }
    }
}

impl Bucket {
    /// The name of the bucket.
    pub fn name(&self) -> (r: &str)
        ensures
            r@ == self.deep_view().name,
    {
        self.name.as_str()
    }

    /// The credential of the account that the bucket belongs to.
    pub fn credential(&self) -> (r: &Credential)
        ensures
            r.spec_access_key() == self.deep_view().access_key,
            r.spec_secret_key() == self.deep_view().secret_key,
    {
        &self.credential
    }

    /// The upload manager of the bucket.
    pub closed spec fn spec_upload_manager(&self) -> UploadManager {
        self.upload_manager
    }

    /// The upload manager of the bucket.
    pub fn upload_manager(&self) -> (r: &UploadManager)
        ensures
            *r == self.spec_upload_manager(),
            r.spec_config()@ == self.deep_view().config,
    {
        &self.upload_manager
    }

    /// The configuration that the bucket works under.
    pub fn config(&self) -> (r: &Config)
        ensures
            r@ == self.deep_view().config,
    {
        self.upload_manager.config()
    }

    /// A copy of the bucket with all that is known of it.
    pub fn duplicate(&self) -> (r: Self)
        ensures
            r.deep_view() == self.deep_view(),
    {
        Bucket {
            name: self.name.clone(),
            credential: self.credential.clone(),
            upload_manager: self.upload_manager.clone(),
            region: match &self.region {
                Some(region) => Some(region.duplicate()),
                None => None,
            },
            backup_regions: match &self.backup_regions {
                Some(regions) => Some(clone_regions(regions)),
                None => None,
            },
            domains: match &self.domains {
                Some(domains) => Some(clone_strings(domains)),
                None => None,
            },
            rs_urls: match &self.rs_urls {
                Some(urls) => Some(clone_strings(urls)),
                None => None,
            },
            bucket_info: self.bucket_info,
        }
    }

    /// Goes through the regions that are known of the bucket.
    pub fn region_iter(&self) -> (r: BucketRegionIter<'_>)
        ensures
            r.remaining() == known_regions(self.deep_view()),
    {
        BucketRegionIter { bucket: self, first_done: false, backups_done: 0 }
    }

    /// The region that the bucket lives in.
    ///
    /// A region that is known is handed out without any request, and the
    /// bucket stays as it is. Otherwise the service is asked, unless the
    /// cache holds the answer; the first region it names becomes the region
    /// of the bucket for good, and the others its backup regions, unless
    /// backup regions are known already. A failure leaves the bucket as it
    /// was.
    pub fn region<C: HTTPCaller>(
        &mut self,
        caller: &C,
        cache: &mut CacheMap<Vec<Region>>,
        now: u64,
    ) -> (r: Queried<Region>)
        ensures
            asks_region(
                old(self).deep_view(),
                final(self).deep_view(),
                *old(cache),
                *final(cache),
                now,
                r.attempts@,
                viewed(r.result),
            ),
            finds_region(
                old(self).deep_view(),
                final(self).deep_view(),
                *old(cache),
                *final(cache),
                now,
                r.result is Ok,
            ),
            match old(self).deep_view().region {
                Some(region) => {
                    &&& r.result matches Ok(found) && found.deep_view() == region
                    &&& final(self).deep_view() == old(self).deep_view()
                    &&& final(cache).entries() == old(cache).entries()
                },
                None => match r.result {
                    Ok(found) => {
                        &&& final(self).deep_view().region == Some(found.deep_view())
                        &&& final(self).deep_view().backup_regions is Some
                        &&& same_but_regions(old(self).deep_view(), final(self).deep_view())
                        &&& now < u64::MAX ==> {
                            &&& cached_regions(
                                *final(cache),
                                old(self).deep_view().access_key,
                                old(self).deep_view().name,
                                now,
                            ) matches Some(regions)
                            &&& regions.len() > 0
                            &&& final(self).deep_view() == with_regions(
                                old(self).deep_view(),
                                regions,
                            )
                        }
                    },
                    Err(_) => final(self).deep_view() == old(self).deep_view(),
                },
            },
    {
        match &self.region {
            Some(region) => {
                return Queried { result: Ok(region.duplicate()), attempts: Vec::new() };
            },
            None => {},
        }
        let queried = query_regions(
            caller,
            cache,
            self.name.as_str(),
            self.credential.access_key(),
            self.upload_manager.config(),
            now,
        );
        let attempts = queried.attempts;
        let result = match queried.result {
            Ok(regions) => {
                proof {
                    let key_text = region_key(
                        old(self).deep_view().access_key,
                        old(self).deep_view().name,
                    );
                    if old(cache).cached(key_text, now) is None {
                        let (key, kept): (Vec<String>, Vec<Region>) = choose|
                            key: Vec<String>,
                            kept: Vec<Region>,
                        |
                            {
                                &&& key.deep_view() == key_text
                                &&& kept.deep_view() == regions.deep_view()
                                &&& cache.entries() == crate::cache_map::stored(
                                    old(cache).entries(),
                                    key,
                                    kept,
                                    deadline_after(now, TIME_TO_LIVE),
                                )
                            };
                        lemma_stored_is_cached(
                            old(cache).entries(),
                            key,
                            kept,
                            deadline_after(now, TIME_TO_LIVE),
                            now,
                        );
                    }
                }
                if regions.len() == 0 {
                    Err(
                        HTTPError {
                            retry_kind: RetryKind::UnretryableError,
                            error_kind: HTTPErrorKind::JSONDecodeError,
                            request_id: None,
                            host: None,
                            method: Method::GET,
                            url: String::new(),
                        },
                    )
                } else {
                    let mut regions = regions;
                    let ghost all = regions.deep_view();
                    let first = regions.remove(0);
                    assert(first.deep_view() == all[0]);
                    assert(regions.deep_view() =~= all.skip(1));
                    let found = first.duplicate();
                    self.region = Some(first);
                    if self.backup_regions.is_none() {
                        self.backup_regions = Some(regions);
                    }
                    Ok(found)
                }
            },
            Err(error) => Err(error),
        };
        proof {
            assert(asks_region(
                old(self).deep_view(),
                self.deep_view(),
                *old(cache),
                *cache,
                now,
                attempts@,
                viewed(result),
            ));
        }
        Queried { result, attempts }
    }

    /// The regions of the bucket, the region it lives in first, then its
    /// backup regions in order. The region is found as [`region`] says.
    ///
    /// [`region`]: Bucket::region
    pub fn regions<C: HTTPCaller>(
        &mut self,
        caller: &C,
        cache: &mut CacheMap<Vec<Region>>,
        now: u64,
    ) -> (r: Queried<Vec<Region>>)
        ensures
            asks_region(
                old(self).deep_view(),
                final(self).deep_view(),
                *old(cache),
                *final(cache),
                now,
                r.attempts@,
                match r.result {
                    Ok(regions) => Ok(regions.deep_view()[0]),
                    Err(error) => Err(error),
                },
            ),
            finds_region(
                old(self).deep_view(),
                final(self).deep_view(),
                *old(cache),
                *final(cache),
                now,
                r.result is Ok,
            ),
            same_but_regions(old(self).deep_view(), final(self).deep_view()),
            match r.result {
                Ok(regions) => regions.deep_view() == known_regions(final(self).deep_view())
                    && final(self).deep_view().region is Some,
                Err(_) => final(self).deep_view() == old(self).deep_view() && old(self).deep_view().region is None,
            },
            old(self).deep_view().region is Some ==> final(self).deep_view() == old(self).deep_view()
                && final(cache).entries() == old(cache).entries(),
    {
        let asked = self.region(caller, cache, now);
        let attempts = asked.attempts;
        let result = match asked.result {
            Ok(first) => {
                let mut regions: Vec<Region> = Vec::new();
                regions.push(first);
                match &self.backup_regions {
                    Some(backups) => {
                        let mut i: usize = 0;
                        while i < backups.len()
                            invariant
                                i <= backups.len(),
                                regions.len() == i + 1,
                                regions[0].deep_view() == first.deep_view(),
                                forall|k: int|
                                    0 <= k < i ==> (#[trigger] regions[k + 1]).deep_view()
                                        == backups[k].deep_view(),
                            decreases backups.len() - i,
                        {
                            regions.push(backups[i].duplicate());
                            i += 1;
                        }
                        proof {
                            let known = known_regions(self.deep_view());
                            assert(known.len() == regions.len());
                            assert forall|k: int| 0 <= k < regions.len() implies (
                            #[trigger] regions.deep_view()[k]) == known[k] by {
                                if k > 0 {
                                    assert(regions[(k - 1) + 1].deep_view() == backups[k
                                        - 1].deep_view());
                                }
                            }
                            assert(regions.deep_view() =~= known);
                        }
                    },
                    None => {
                        assert(regions.deep_view() =~= known_regions(self.deep_view()));
                    },
                }
                Ok(regions)
            },
            Err(error) => Err(error),
        };
        Queried { result, attempts }
    }

    /// The domains under which the bucket is served, the one to use first
    /// first.
    ///
    /// Domains that are known are handed out without any request.
    /// Otherwise the service is asked, unless the cache holds the answer,
    /// and what it names is kept for good. A failure leaves the bucket as
    /// it was.
    pub fn domains<C: HTTPCaller>(
        &mut self,
        caller: &C,
        cache: &mut CacheMap<Vec<String>>,
        now: u64,
    ) -> (r: Queried<Vec<String>>)
        ensures
            asks_domains(
                old(self).deep_view(),
                final(self).deep_view(),
                *old(cache),
                *final(cache),
                now,
                r.attempts@,
                viewed(r.result),
            ),
            finds_domains(
                old(self).deep_view(),
                final(self).deep_view(),
                *old(cache),
                *final(cache),
                now,
                r.result is Ok,
            ),
            r.result matches Ok(found) ==> final(self).deep_view().domains == Some(found.deep_view()),
            match old(self).deep_view().domains {
                Some(domains) => {
                    &&& r.result matches Ok(found) && found.deep_view() == domains
                    &&& final(self).deep_view() == old(self).deep_view()
                    &&& final(cache).entries() == old(cache).entries()
                },
                None => match r.result {
                    Ok(found) => final(self).deep_view() == (BucketView {
                        domains: Some(found.deep_view()),
                        ..old(self).deep_view()
                    }),
                    Err(_) => final(self).deep_view() == old(self).deep_view(),
                },
            },
    {
        match &self.domains {
            Some(domains) => {
                return Queried { result: Ok(clone_strings(domains)), attempts: Vec::new() };
            },
            None => {},
        }
        let queried = query_domains(
            caller,
            cache,
            &self.credential,
            self.name.as_str(),
            self.upload_manager.config(),
            now,
        );
        let attempts = queried.attempts;
        let result = match queried.result {
            Ok(domains) => {
                proof {
                    let key_text = domain_key(
                        old(self).deep_view().access_key,
                        old(self).deep_view().secret_key,
                        old(self).deep_view().name,
                    );
                    if old(cache).cached(key_text, now) is None {
                        let (key, kept): (Vec<String>, Vec<String>) = choose|
                            key: Vec<String>,
                            kept: Vec<String>,
                        |
                            {
                                &&& key.deep_view() == key_text
                                &&& kept.deep_view() == domains.deep_view()
                                &&& cache.entries() == crate::cache_map::stored(
                                    old(cache).entries(),
                                    key,
                                    kept,
                                    deadline_after(now, TIME_TO_LIVE),
                                )
                            };
                        lemma_stored_is_cached(
                            old(cache).entries(),
                            key,
                            kept,
                            deadline_after(now, TIME_TO_LIVE),
                            now,
                        );
                    }
                }
                let found = clone_strings(&domains);
                self.domains = Some(domains);
                Ok(found)
            },
            Err(error) => Err(error),
        };
        proof {
            assert(asks_domains(
                old(self).deep_view(),
                self.deep_view(),
                *old(cache),
                *cache,
                now,
                attempts@,
                viewed(result),
            ));
        }
        Queried { result, attempts }
    }

    /// The domain to use first and the others, found as [`domains`] says.
    /// A bucket without domains gives the error that none is bound.
    ///
    /// [`domains`]: Bucket::domains
    pub fn get_domain_and_backup_domains<C: HTTPCaller>(
        &mut self,
        caller: &C,
        cache: &mut CacheMap<Vec<String>>,
        now: u64,
    ) -> (r: Result<(String, Vec<String>), DomainsError>)
        ensures
            finds_domains(
                old(self).deep_view(),
                final(self).deep_view(),
                *old(cache),
                *final(cache),
                now,
                !(r matches Err(DomainsError::GetDomainsError(_))),
            ),
            final(self).deep_view().domains matches Some(domains) ==> (r is Ok <==> domains.len()
                > 0),
            match r {
                Ok((first, others)) => {
                    &&& final(self).deep_view().domains matches Some(domains)
                    &&& domains.len() > 0
                    &&& (first@, others.deep_view()) == first_and_backup(domains)
                },
                Err(DomainsError::NoDomainsBound) => final(self).deep_view().domains == Some(
                    Seq::<Seq<char>>::empty(),
                ),
                Err(DomainsError::GetDomainsError(_)) => final(self).deep_view() == old(self).deep_view()
                    && old(self).deep_view().domains is None,
            },
    {
        let mut domains = match self.domains(caller, cache, now).result {
            Ok(domains) => domains,
            Err(error) => {
                return Err(DomainsError::GetDomainsError(error));
            },
        };
        let ghost all = domains.deep_view();
        match domains.pop() {
            Some(first) => {
                assert(domains.deep_view() =~= all.drop_last());
                Ok((first, reversed(&domains)))
            },
            None => {
                assert(all =~= Seq::<Seq<char>>::empty());
                Err(DomainsError::NoDomainsBound)
            },
        }
    }

    /// The URLs that manage the objects of the bucket: those of its
    /// region, followed by the one of the configuration.
    ///
    /// The URLs are made when first asked for, from the region of the
    /// bucket, found as [`region`] says, or from nothing where it cannot be
    /// found; from then on they are kept.
    ///
    /// [`region`]: Bucket::region
    pub fn rs_urls<C: HTTPCaller>(
        &mut self,
        caller: &C,
        cache: &mut CacheMap<Vec<Region>>,
        now: u64,
    ) -> (r: Vec<String>)
        ensures
            finds_rs_urls(
                old(self).deep_view(),
                final(self).deep_view(),
                *old(cache),
                *final(cache),
                now,
            ),
            final(self).deep_view().rs_urls == Some(r.deep_view()),
            final(self).deep_view() == (BucketView {
                region: final(self).deep_view().region,
                backup_regions: final(self).deep_view().backup_regions,
                rs_urls: final(self).deep_view().rs_urls,
                ..old(self).deep_view()
            }),
            match old(self).deep_view().rs_urls {
                Some(urls) => r.deep_view() == urls
                    && final(self).deep_view() == old(self).deep_view()
                    && final(cache).entries() == old(cache).entries(),
                None => r.deep_view() == (match final(self).deep_view().region {
                    Some(region) => group_urls(region.rs, old(self).deep_view().config.use_https),
                    None => Seq::empty(),
                }).push(
                    host_url(
                        old(self).deep_view().config.use_https,
                        old(self).deep_view().config.rs_host,
                    ),
                ),
            },
    {
        match &self.rs_urls {
            Some(urls) => {
                return clone_strings(urls);
            },
            None => {},
        }
        let use_https = self.upload_manager.config().use_https();
        let mut urls = match self.region(caller, cache, now).result {
            Ok(region) => region.rs_urls(use_https),
            Err(_) => {
                let none: Vec<String> = Vec::new();
                assert(none.deep_view() =~= Seq::<Seq<char>>::empty());
                none
            },
        };
        let ghost before = urls.deep_view();
        let fallback = self.upload_manager.config().rs_url();
        urls.push(fallback);
        assert(urls.deep_view() =~= before.push(fallback@));
        let found = clone_strings(&urls);
        self.rs_urls = Some(urls);
        found
    }

    /// A batch uploader into the bucket. It holds a copy of the bucket with
    /// all that is known of it.
    pub fn batch_uploader<P: UploadProgress, F: UploadCompleted>(&self) -> (r: BatchUploader<P, F>)
        ensures
            r.spec_jobs().len() == 0,
            r.spec_context().spec_max_concurrency() == 0,
            r.spec_context().spec_thread_pool_size() == 0,
            r.spec_context().spec_core() == CoreView::Bucket(self.deep_view()),
    {
        BatchUploader::new_for_bucket(self.duplicate())
    }

    /// Whether only the account may read the bucket, found as
    /// [`get_bucket_info`] says.
    ///
    /// [`get_bucket_info`]: Bucket::get_bucket_info
    pub fn is_private<C: HTTPCaller>(&mut self, caller: &C) -> (r: Queried<bool>)
        ensures
            asks_of_bucket(
                old(self).deep_view(),
                final(self).deep_view(),
                r.result,
                r.attempts@,
                |private: u64| private != 0,
            ),
    {
        let asked = self.get_bucket_info(caller);
        let result = match asked.result {
            Ok(info) => Ok(info.private != 0),
            Err(error) => Err(error),
        };
        Queried { result, attempts: asked.attempts }
    }

    /// What the service says of the bucket, asked for once and kept.
    ///
    /// What is known is handed out without any request. Otherwise a signed
    /// `GET` of `/v2/bucketInfo` with the bucket's name goes to the query
    /// host of the configuration, and may be sent again. An answer that
    /// says whether the bucket is private is kept; a failure, and an answer
    /// that does not say it, leave the bucket as it was.
    pub fn get_bucket_info<C: HTTPCaller>(&mut self, caller: &C) -> (r: Queried<BucketInfo>)
        ensures
            asks_of_bucket(
                old(self).deep_view(),
                final(self).deep_view(),
                r.result,
                r.attempts@,
                |private: u64| BucketInfo { private },
            ),
    {
        match self.bucket_info {
            Some(info) => {
                return Queried { result: Ok(info), attempts: Vec::new() };
            },
            None => {},
        }
        let mut query: Vec<Header> = Vec::new();
        query.push(Header { name: "bucket".to_owned(), value: self.name.clone() });
        let empty: Vec<u8> = Vec::new();
        let call = Call {
            method: Method::GET,
            path: "/v2/bucketInfo",
            query: &query,
            content_type: "",
            body: empty.as_slice(),
            idempotent: true,
            token: Token::V2(&self.credential),
        };
        let mut hosts: Vec<String> = Vec::new();
        let config = self.upload_manager.config();
        hosts.push(config.uc_url());
        let mut hooks = NoHooks;
        let sent = send(caller, &mut hooks, config, &hosts, &call);
        proof {
            reveal_strlit("");
            assert(""@ =~= Seq::<char>::empty());
            assert(empty@ =~= Seq::<u8>::empty());
            assert(query.deep_view() =~= seq![("bucket"@, self.name@)]);
            let before = old(self).deep_view();
            assert forall|i: int| 0 <= i < sent.attempts@.len() implies asks_plainly(
                Method::GET,
                host_url(before.config.use_https, before.config.uc_host),
                "/v2/bucketInfo"@,
                seq![("bucket"@, before.name)],
                Some(
                    v2_authorization(
                        before.access_key,
                        before.secret_key,
                        Method::GET,
                        host_url(before.config.use_https, before.config.uc_host),
                        "/v2/bucketInfo"@,
                        seq![("bucket"@, before.name)],
                    ),
                ),
                before.config,
                #[trigger] sent.attempts@[i],
            ) by {
                assert(carries(call, hosts@, *config, sent.attempts@[i]));
            }
        }
        let result = match sent.result {
            Ok(response) => match bucket_info_from_body(response.body.as_slice()) {
                Some(info) => {
                    self.bucket_info = Some(info);
                    Ok(info)
                },
                None => Err(
                    HTTPError {
                        retry_kind: RetryKind::UnretryableError,
                        error_kind: HTTPErrorKind::JSONDecodeError,
                        request_id: None,
                        host: None,
                        method: Method::GET,
                        url: String::new(),
                    },
                ),
            },
            Err(error) => Err(error),
        };
        Queried { result, attempts: sent.attempts }
    }

    /// An uploader into the bucket that proves its right with a token made
    /// for the bucket at `now`. It sends to the regions of the bucket,
    /// found as [`regions`] says, or to all known regions where they
    /// cannot be found.
    ///
    /// [`regions`]: Bucket::regions
    pub fn uploader<C: HTTPCaller>(
        &mut self,
        caller: &C,
        cache: &mut CacheMap<Vec<Region>>,
        now: u64,
    ) -> (r: ObjectUploader)
        ensures
            finds_region(
                old(self).deep_view(),
                final(self).deep_view(),
                *old(cache),
                *final(cache),
                now,
                final(self).deep_view().region is Some,
            ),
            same_but_regions(old(self).deep_view(), final(self).deep_view()),
            r.spec_config()@ == old(self).deep_view().config,
            r.settings() == new_settings(
                old(self).deep_view().name,
                r.settings().upload_token,
                r.settings().up_urls_list,
                old(self).deep_view().config,
            ),
            r.settings().upload_token == rendered(
                old(self).deep_view().access_key,
                old(self).deep_view().secret_key,
                policy_json(
                    initial_fields(
                        old(self).deep_view().name,
                        deadline_after(now, old(self).deep_view().config.upload_token_lifetime),
                    ),
                ),
            ),
            r.settings().up_urls_list == up_urls_for(
                if final(self).deep_view().region is Some {
                    Some(known_regions(final(self).deep_view()))
                } else {
                    None
                },
                old(self).deep_view().config.use_https,
            ),
    {
        let token = UploadToken::new_from_bucket(
            self.name.as_str(),
            self.credential.clone(),
            self.upload_manager.config(),
            now,
        );
        let regions = match self.regions(caller, cache, now).result {
            Ok(regions) => Some(regions),
            Err(_) => None,
        };
        self.upload_manager.upload_for_internal_generated_upload_token_with_regions(
            self.name.as_str(),
            &token,
            regions.as_ref(),
        )
    }
}

} // verus!
