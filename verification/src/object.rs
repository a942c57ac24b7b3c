//! Objects: what a bucket holds under a key, and what can be asked of the
//! service about it.

use crate::bucket::{Bucket, BucketView, finds_region, finds_rs_urls, known_regions};
use crate::cache_map::CacheMap;
use crate::client::{
    answer_fits,
    answer_read,
    asks_plainly,
    carries,
    v2_authorization,
    viewed,
    Attempt,
    Call,
    is_run_of,
    result_fits,
    send,
    Token,
};
use crate::discovery::Queried;
use crate::http::{Header, HTTPCaller, HTTPError, HTTPErrorKind, Method, NoHooks};
use crate::json::{get_string, get_unsigned, parse, string_at, text_nodes, unsigned_at};
use crate::object_uploader::{ObjectUploader, Settings};
use crate::region::Region;
use crate::resource::{Delete, encode_entry_uri, entry_uri, Move, Stat, ToURI, transfer_uri};
use crate::retry::{RetryKind, RetryPolicy};
use crate::upload_manager::{new_settings, up_urls_for};
use crate::upload_policy::{
    deadline_after,
    Field,
    FieldValue,
    initial_fields,
    object_scope,
    policy_json,
    put,
    UploadPolicyBuilder,
};
use crate::upload_token::{rendered, UploadToken};
use vstd::prelude::*;
use vstd::string::*;

verus! {

/// A point in time: whole seconds since the Unix epoch, and the
/// nanoseconds of the second that has begun.
#[derive(Clone, Copy, Debug, PartialEq, Eq, Structural)]
pub struct Timestamp {
    pub seconds: u64,
    pub nanoseconds: u32,
}

/// What the service knows of an object.
#[derive(Debug)]
pub struct ObjectInfo {
    fsize: u64,
    hash: String,
    mime_type: String,
    put_time: u64,
}

/// The mathematical value of an [`ObjectInfo`].
pub struct ObjectInfoView {
    pub fsize: u64,
    pub hash: Seq<char>,
    pub mime_type: Seq<char>,
    pub put_time: u64,
}

impl DeepView for ObjectInfo {
    type V = ObjectInfoView;

    closed spec fn deep_view(&self) -> ObjectInfoView {
        ObjectInfoView {
            fsize: self.fsize,
            hash: self.hash@,
            mime_type: self.mime_type@,
            put_time: self.put_time,
        }
    }
}

/// What the body of an answer to a stat request says: `None` unless it is
/// a JSON object with the numbers `fsize` and `putTime` and the texts
/// `hash` and `mimeType`.
pub open spec fn info_of_body(body: Seq<u8>) -> Option<ObjectInfoView> {
    match text_nodes(body) {
        Some(nodes) => match (
            unsigned_at(nodes, "/fsize"@),
            string_at(nodes, "/hash"@),
            string_at(nodes, "/mimeType"@),
            unsigned_at(nodes, "/putTime"@),
        ) {
            (Some(fsize), Some(hash), Some(mime_type), Some(put_time)) => Some(
                ObjectInfoView { fsize, hash, mime_type, put_time },
            ),
            _ => None,
        },
        None => None,
    }
}

/// The time that is `put_time` hundreds of nanoseconds after the Unix
/// epoch.
pub open spec fn time_of(put_time: u64) -> Timestamp {
    Timestamp {
        seconds: put_time / 10_000_000,
        nanoseconds: ((put_time % 10_000_000) * 100) as u32,
    }
}

impl ObjectInfo {
    /// What is known of an object of `fsize` bytes that was stored at
    /// `put_time`, in hundreds of nanoseconds since the Unix epoch.
    pub fn new(fsize: u64, hash: &str, mime_type: &str, put_time: u64) -> (r: Self)
        ensures
            r.deep_view() == (ObjectInfoView {
                fsize,
                hash: hash@,
                mime_type: mime_type@,
                put_time,
            }),
    {
        ObjectInfo { fsize, hash: hash.to_owned(), mime_type: mime_type.to_owned(), put_time }
    }

    /// Reads the body of an answer to a stat request.
    pub fn from_body(body: &[u8]) -> (r: Option<Self>)
        ensures
            r.deep_view() == info_of_body(body@),
    {
        let document = match parse(body) {
            Some(document) => document,
            None => {
                return None;
            },
        };
        let fsize = get_unsigned(&document, "/fsize");
        let hash = get_string(&document, "/hash");
        let mime_type = get_string(&document, "/mimeType");
        let put_time = get_unsigned(&document, "/putTime");
        match (fsize, hash, mime_type, put_time) {
            (Some(fsize), Some(hash), Some(mime_type), Some(put_time)) => Some(
                ObjectInfo { fsize, hash, mime_type, put_time },
            ),
            _ => None,
        }
    }

    /// The size of the object in bytes.
    pub fn size(&self) -> (r: u64)
        ensures
            r == self.deep_view().fsize,
    {
        self.fsize
    }

    /// The hash of the content of the object.
    pub fn hash(&self) -> (r: &str)
        ensures
            r@ == self.deep_view().hash,
    {
        self.hash.as_str()
    }

    /// The content type of the object.
    pub fn mime_type(&self) -> (r: &str)
        ensures
            r@ == self.deep_view().mime_type,
    {
        self.mime_type.as_str()
    }

    /// When the object was stored. The time is a hundred nanoseconds for
    /// each unit of what the service says: the seconds and the nanoseconds
    /// together are that many nanoseconds.
    pub fn uploaded_at(&self) -> (r: Timestamp)
        ensures
            r == time_of(self.deep_view().put_time),
            r.nanoseconds < 1_000_000_000,
            r.seconds * 1_000_000_000 + r.nanoseconds == self.deep_view().put_time * 100,
    {
        let seconds = self.put_time / 10_000_000;
        let rest = self.put_time % 10_000_000;
        let nanoseconds = (rest * 100) as u32;
        assert(self.put_time == seconds * 10_000_000 + rest);
        Timestamp { seconds, nanoseconds }
    }

    /// When the object was stored as the service says it: in hundreds of
    /// nanoseconds since the Unix epoch.
    pub fn put_time_ticks(&self) -> (r: u64)
        ensures
            r == self.deep_view().put_time,
    {
        self.put_time
    }

    /// When the object was stored; the same as [`uploaded_at`].
    ///
    /// [`uploaded_at`]: ObjectInfo::uploaded_at
    pub fn put_time(&self) -> (r: Timestamp)
        ensures
            r == time_of(self.deep_view().put_time),
    {
        self.uploaded_at()
    }
}

/// An object of a bucket.
#[derive(Debug)]
pub struct Object {
    key: String,
    bucket: Bucket,
}

fn decode_error(method: Method) -> (r: HTTPError)
    ensures
        r.retry_kind == RetryKind::UnretryableError,
        r.error_kind is JSONDecodeError,
{
    HTTPError {
        retry_kind: RetryKind::UnretryableError,
        error_kind: HTTPErrorKind::JSONDecodeError,
        request_id: None,
        host: None,
        method,
        url: String::new(),
    }
}

/// Whether a bucket is the same as before but for what it has found out
/// of its region and of the URLs that manage its objects.
pub open spec fn same_but_found(before: BucketView, after: BucketView) -> bool {
    after == (BucketView {
        region: after.region,
        backup_regions: after.backup_regions,
        rs_urls: after.rs_urls,
        ..before
    })
}

/// The rule for a request that manages an object: the URLs that the
/// bucket has for that, the retries of its configuration, and whether the
/// request may be sent again.
pub open spec fn manage_policy(bucket: BucketView, idempotent: bool) -> RetryPolicy {
    RetryPolicy {
        hosts: match bucket.rs_urls {
            Some(urls) => urls.len() as usize,
            None => 0,
        },
        retries: bucket.config.http_request_retries,
        idempotent,
    }
}

/// The policy of a token for the object `key` of `bucket` alone: its scope
/// is the object, it is good until `deadline`, and what is uploaded is
/// stored under `key` whatever the upload says.
pub open spec fn object_fields(bucket: Seq<char>, key: Seq<char>, deadline: u64) -> Seq<Field> {
    put(
        put(
            initial_fields(object_scope(bucket, key), deadline),
            "saveKey"@,
            FieldValue::Text(key),
        ),
        "forceSaveKey"@,
        FieldValue::Flag(true),
    )
}

/// Whether every attempt asked for `path` at the URL, among those that
/// manage the objects of the bucket, that the attempt names: a request of
/// the given method without query, body and content type, signed with the
/// keys of the account; and what each attempt records of its answer fits
/// how it ended.
pub open spec fn manages(
    bucket: BucketView,
    method: Method,
    path: Seq<char>,
    attempts: Seq<Attempt>,
) -> bool {
    bucket.rs_urls matches Some(urls) && forall|k: int|
        0 <= k < attempts.len() ==> (#[trigger] attempts[k]).host < urls.len() && asks_plainly(
            method,
            urls[attempts[k].host as int],
            path,
            Seq::empty(),
            Some(
                v2_authorization(
                    bucket.access_key,
                    bucket.secret_key,
                    method,
                    urls[attempts[k].host as int],
                    path,
                    Seq::empty(),
                ),
            ),
            bucket.config,
            attempts[k],
        )
}

/// A result without a value is owed exactly where the last attempt
/// succeeded; otherwise the error is that of the last attempt.
pub open spec fn done_as_answered(result: Result<(), HTTPError>, attempts: Seq<Attempt>) -> bool {
    answer_read(result, attempts, |body: Seq<u8>| Some(()))
}

impl Object {
    /// The key of the object.
    pub closed spec fn spec_key(&self) -> Seq<char> {
        self.key@
    }

    /// The bucket of the object.
    pub closed spec fn spec_bucket(&self) -> BucketView {
        self.bucket.deep_view()
    }

    /// The object of `bucket` under `key`.
    pub fn new(bucket: Bucket, key: &str) -> (r: Self)
        ensures
            r.spec_key() == key@,
            r.spec_bucket() == bucket.deep_view(),
    {
        Object { bucket, key: key.to_owned() }
    }

    /// The bucket of the object.
    pub fn bucket(&self) -> (r: &Bucket)
        ensures
            r.deep_view() == self.spec_bucket(),
    {
        &self.bucket
    }

    /// The key of the object.
    pub fn key(&self) -> (r: &str)
        ensures
            r@ == self.spec_key(),
    {
        self.key.as_str()
    }

    /// The name by which the service knows the object in paths.
    pub fn encoded_entry_uri(&self) -> (r: String)
        ensures
            r@ == entry_uri(self.spec_bucket().name, self.spec_key()),
    {
        encode_entry_uri(self.bucket.name(), self.key.as_str())
    }

    fn manage<C: HTTPCaller>(
        &mut self,
        caller: &C,
        cache: &mut CacheMap<Vec<Region>>,
        now: u64,
        method: Method,
        path: &str,
        idempotent: bool,
    ) -> (r: (Result<Vec<u8>, HTTPError>, Vec<Attempt>))
        ensures
            final(self).spec_key() == old(self).spec_key(),
            same_but_found(old(self).spec_bucket(), final(self).spec_bucket()),
            finds_rs_urls(
                old(self).spec_bucket(),
                final(self).spec_bucket(),
                *old(cache),
                *final(cache),
                now,
            ),
            final(self).spec_bucket().rs_urls is Some,
            is_run_of(manage_policy(final(self).spec_bucket(), idempotent), r.1@),
            manages(final(self).spec_bucket(), method, path@, r.1@),
            result_fits(r.0, r.1@),
            answer_read(
                match r.0 {
                    Ok(body) => Ok(body@),
                    Err(error) => Err(error),
                },
                r.1@,
                |body: Seq<u8>| Some(body),
            ),
    {
        let rs_urls = self.bucket.rs_urls(caller, cache, now);
        let query: Vec<Header> = Vec::new();
        let empty: Vec<u8> = Vec::new();
        let call = Call {
            method,
            path,
            query: &query,
            content_type: "",
            body: empty.as_slice(),
            idempotent,
            token: Token::V2(self.bucket.credential()),
        };
        let mut hooks = NoHooks;
        let config = self.bucket.config();
        let sent = send(caller, &mut hooks, config, &rs_urls, &call);
        proof {
            reveal_strlit("");
            assert(""@ =~= Seq::<char>::empty());
            assert(empty@ =~= Seq::<u8>::empty());
            assert(query.deep_view() =~= Seq::<(Seq<char>, Seq<char>)>::empty());
            let urls = rs_urls.deep_view();
            let bucket = self.spec_bucket();
            assert forall|k: int| 0 <= k < sent.attempts@.len() implies {
                let attempt = #[trigger] sent.attempts@[k];
                attempt.host < urls.len() && asks_plainly(
                    method,
                    urls[attempt.host as int],
                    path@,
                    Seq::empty(),
                    Some(
                        v2_authorization(
                            bucket.access_key,
                            bucket.secret_key,
                            method,
                            urls[attempt.host as int],
                            path@,
                            Seq::empty(),
                        ),
                    ),
                    bucket.config,
                    attempt,
                )
            } by {
                let attempt = sent.attempts@[k];
                assert(carries(call, rs_urls@, *config, attempt));
                assert(urls[attempt.host as int] == rs_urls@[attempt.host as int]@);
            }
        }
        let result = match sent.result {
            Ok(response) => Ok(response.body),
            Err(error) => Err(error),
        };
        (result, sent.attempts)
    }

    /// Asks the service what it knows of the object: a signed `GET` of the
    /// stat path, which may be sent again, to the URLs that manage the
    /// objects of the bucket.
    pub fn get_info<C: HTTPCaller>(
        &mut self,
        caller: &C,
        cache: &mut CacheMap<Vec<Region>>,
        now: u64,
    ) -> (r: Queried<ObjectInfo>)
        ensures
            final(self).spec_key() == old(self).spec_key(),
            same_but_found(old(self).spec_bucket(), final(self).spec_bucket()),
            finds_rs_urls(
                old(self).spec_bucket(),
                final(self).spec_bucket(),
                *old(cache),
                *final(cache),
                now,
            ),
            is_run_of(manage_policy(final(self).spec_bucket(), true), r.attempts@),
            manages(
                final(self).spec_bucket(),
                Method::GET,
                "/stat/"@ + entry_uri(old(self).spec_bucket().name, old(self).spec_key()),
                r.attempts@,
            ),
            answer_fits(r.result, r.attempts@),
            answer_read(
                viewed(r.result),
                r.attempts@,
                |body: Seq<u8>| info_of_body(body),
            ),
    {
        let entry = self.encoded_entry_uri();
        let path = Stat::new(entry.as_str()).to_uri();
        let (result, attempts) = self.manage(caller, cache, now, Method::GET, path.as_str(), true);
        let result = match result {
            Ok(body) => match ObjectInfo::from_body(body.as_slice()) {
                Some(info) => Ok(info),
                None => Err(decode_error(Method::GET)),
            },
            Err(error) => Err(error),
        };
        Queried { result, attempts }
    }

    /// Deletes the object: a signed `POST` of the delete path.
    pub fn delete<C: HTTPCaller>(
        &mut self,
        caller: &C,
        cache: &mut CacheMap<Vec<Region>>,
        now: u64,
    ) -> (r: Queried<()>)
        ensures
            final(self).spec_key() == old(self).spec_key(),
            same_but_found(old(self).spec_bucket(), final(self).spec_bucket()),
            finds_rs_urls(
                old(self).spec_bucket(),
                final(self).spec_bucket(),
                *old(cache),
                *final(cache),
                now,
            ),
            is_run_of(manage_policy(final(self).spec_bucket(), false), r.attempts@),
            manages(
                final(self).spec_bucket(),
                Method::POST,
                "/delete/"@ + entry_uri(old(self).spec_bucket().name, old(self).spec_key()),
                r.attempts@,
            ),
            result_fits(r.result, r.attempts@),
            done_as_answered(r.result, r.attempts@),
    {
        let entry = self.encoded_entry_uri();
        let path = Delete::new(entry.as_str()).to_uri();
        let (result, attempts) = self.manage(
            caller,
            cache,
            now,
            Method::POST,
            path.as_str(),
            false,
        );
        let result = match result {
            Ok(_) => Ok(()),
            Err(error) => Err(error),
        };
        Queried { result, attempts }
    }

    /// Moves the object to `target_object`: a signed `POST` of the move
    /// path. With `force` an object that is there already is replaced.
    pub fn move_to<C: HTTPCaller>(
        &mut self,
        caller: &C,
        cache: &mut CacheMap<Vec<Region>>,
        now: u64,
        target_object: &Object,
        force: bool,
    ) -> (r: Queried<()>)
        ensures
            final(self).spec_key() == old(self).spec_key(),
            same_but_found(old(self).spec_bucket(), final(self).spec_bucket()),
            finds_rs_urls(
                old(self).spec_bucket(),
                final(self).spec_bucket(),
                *old(cache),
                *final(cache),
                now,
            ),
            is_run_of(manage_policy(final(self).spec_bucket(), false), r.attempts@),
            manages(
                final(self).spec_bucket(),
                Method::POST,
                transfer_uri(
                    "/move/"@,
                    entry_uri(old(self).spec_bucket().name, old(self).spec_key()),
                    entry_uri(target_object.spec_bucket().name, target_object.spec_key()),
                    force,
                ),
                r.attempts@,
            ),
            result_fits(r.result, r.attempts@),
            done_as_answered(r.result, r.attempts@),
    {
        let src = self.encoded_entry_uri();
        let dest = target_object.encoded_entry_uri();
        let path = Move::new(src.as_str(), dest.as_str(), force).to_uri();
        let (result, attempts) = self.manage(
            caller,
            cache,
            now,
            Method::POST,
            path.as_str(),
            false,
        );
        let result = match result {
            Ok(_) => Ok(()),
            Err(error) => Err(error),
        };
        Queried { result, attempts }
    }

    /// Copies the object to `target_object`: a signed `POST` of the copy
    /// path. With `force` an object that is there already is replaced, and
    /// the request may be sent again.
    pub fn copy_to<C: HTTPCaller>(
        &mut self,
        caller: &C,
        cache: &mut CacheMap<Vec<Region>>,
        now: u64,
        target_object: &Object,
        force: bool,
    ) -> (r: Queried<()>)
        ensures
            final(self).spec_key() == old(self).spec_key(),
            same_but_found(old(self).spec_bucket(), final(self).spec_bucket()),
            finds_rs_urls(
                old(self).spec_bucket(),
                final(self).spec_bucket(),
                *old(cache),
                *final(cache),
                now,
            ),
            is_run_of(manage_policy(final(self).spec_bucket(), force), r.attempts@),
            manages(
                final(self).spec_bucket(),
                Method::POST,
                transfer_uri(
                    "/copy/"@,
                    entry_uri(old(self).spec_bucket().name, old(self).spec_key()),
                    entry_uri(target_object.spec_bucket().name, target_object.spec_key()),
                    force,
                ),
                r.attempts@,
            ),
            result_fits(r.result, r.attempts@),
            done_as_answered(r.result, r.attempts@),
    {
        let src = self.encoded_entry_uri();
        let dest = target_object.encoded_entry_uri();
        let path = crate::resource::Copy::new(src.as_str(), dest.as_str(), force).to_uri();
        let (result, attempts) = self.manage(
            caller,
            cache,
            now,
            Method::POST,
            path.as_str(),
            force,
        );
        let result = match result {
            Ok(_) => Ok(()),
            Err(error) => Err(error),
        };
        Queried { result, attempts }
    }

    /// An uploader of this object: it proves its right with a token made
    /// at `now` for the object alone, which stores what is uploaded under
    /// the object's key whatever the upload says, and it names the object.
    /// It sends to the regions of the bucket, or to all known regions
    /// where they cannot be found.
    pub fn uploader<C: HTTPCaller>(
        &mut self,
        caller: &C,
        cache: &mut CacheMap<Vec<Region>>,
        now: u64,
    ) -> (r: ObjectUploader)
        ensures
            final(self).spec_key() == old(self).spec_key(),
            same_but_found(old(self).spec_bucket(), final(self).spec_bucket()),
            finds_region(
                old(self).spec_bucket(),
                final(self).spec_bucket(),
                *old(cache),
                *final(cache),
                now,
                final(self).spec_bucket().region is Some,
            ),
            r.spec_config()@ == old(self).spec_bucket().config,
            r.settings() == (Settings {
                key: Some(old(self).spec_key()),
                ..new_settings(
                    old(self).spec_bucket().name,
                    rendered(
                        old(self).spec_bucket().access_key,
                        old(self).spec_bucket().secret_key,
                        policy_json(
                            object_fields(
                                old(self).spec_bucket().name,
                                old(self).spec_key(),
                                deadline_after(
                                    now,
                                    old(self).spec_bucket().config.upload_token_lifetime,
                                ),
                            ),
                        ),
                    ),
                    up_urls_for(
                        if final(self).spec_bucket().region is Some {
                            Some(known_regions(final(self).spec_bucket()))
                        } else {
                            None
                        },
                        old(self).spec_bucket().config.use_https,
                    ),
                    old(self).spec_bucket().config,
                )
            }),
    {
        let policy = UploadPolicyBuilder::new_policy_for_object(
            self.bucket.name(),
            self.key.as_str(),
            self.bucket.config(),
            now,
        ).save_as(self.key.as_str(), true).build();
        let token = UploadToken::new(policy, self.bucket.credential().clone());
        let regions = match self.bucket.regions(caller, cache, now).result {
            Ok(regions) => Some(regions),
            Err(_) => None,
        };
        self.bucket.upload_manager().upload_for_internal_generated_upload_token_with_regions(
            self.bucket.name(),
            &token,
            regions.as_ref(),
        ).key(self.key.as_str())
    }
}

impl Bucket {
    /// The object of this bucket under `key`. It holds a copy of the
    /// bucket with all that is known of it.
    pub fn object(&self, key: &str) -> (r: Object)
        ensures
            r.spec_key() == key@,
            r.spec_bucket() == self.deep_view(),
    {
        Object::new(self.duplicate(), key)
    }
}

} // verus!
