//! Asking the service where a bucket lives and under which domains it is
//! served, and remembering the answers for a day.

use crate::cache_map::{
    CacheEntry,
    CacheMap,
    dropped,
    fresh,
    lemma_stored_is_cached,
    stored,
    TIME_TO_LIVE,
};
use crate::client::{
    answer_fits,
    answer_read,
    asks_plainly,
    last_success_body,
    Attempt,
    Call,
    carries,
    is_run_of,
    send,
    Token,
    v2_authorization,
    viewed,
};
use crate::config::{Config, ConfigView, host_url};
use crate::credential::Credential;
use crate::http::{Header, HTTPCaller, HTTPError, HTTPErrorKind, Method, NoHooks};
use crate::json::{get_length, get_string, length_at, Nodes, parse, string_at, text_nodes};
use crate::region::{
    clone_regions,
    element_pointer,
    make_element_pointer,
    Region,
    regions_from_query_body,
    regions_of_body,
    RegionView,
};
use crate::retry::{RetryKind, RetryPolicy};
use crate::text::clone_strings;
use crate::upload_policy::deadline_after;
use vstd::prelude::*;
use vstd::string::*;

verus! {

/// What a query gave, and the physical attempts that it took. A query that
/// was answered from the cache took none.
pub struct Queried<T> {
    /// The answer, or why there is none.
    pub result: Result<T, HTTPError>,
    /// The attempts that were made.
    pub attempts: Vec<Attempt>,
}

/// The key under which the regions of a bucket are remembered: the access
/// key and the bucket, each a part of its own.
pub open spec fn region_key(access_key: Seq<char>, bucket: Seq<char>) -> Seq<Seq<char>> {
    seq![access_key, bucket]
}

/// The key under which the domains of a bucket are remembered: the access
/// key, the secret key and the bucket, each a part of its own.
pub open spec fn domain_key(access_key: Seq<char>, secret_key: Seq<char>, bucket: Seq<char>) -> Seq<
    Seq<char>,
> {
    seq![access_key, secret_key, bucket]
}

/// Two credentials, or two buckets, never share a key: keys are the same
/// only where every part is.
pub proof fn lemma_keys_tell_their_parts(
    access_key: Seq<char>,
    secret_key: Seq<char>,
    bucket: Seq<char>,
    other_access_key: Seq<char>,
    other_secret_key: Seq<char>,
    other_bucket: Seq<char>,
)
    ensures
        region_key(access_key, bucket) == region_key(other_access_key, other_bucket) <==> access_key
            == other_access_key && bucket == other_bucket,
        domain_key(access_key, secret_key, bucket) == domain_key(
            other_access_key,
            other_secret_key,
            other_bucket,
        ) <==> access_key == other_access_key && secret_key == other_secret_key && bucket
            == other_bucket,
{
    let first = region_key(access_key, bucket);
    let second = region_key(other_access_key, other_bucket);
    if first == second {
        assert(first[0] == second[0]);
        assert(first[1] == second[1]);
    }
    let third = domain_key(access_key, secret_key, bucket);
    let fourth = domain_key(other_access_key, other_secret_key, other_bucket);
    if third == fourth {
        assert(third[0] == fourth[0]);
        assert(third[1] == fourth[1]);
        assert(third[2] == fourth[2]);
    }
}

/// What a query stored at `now` is found under its key, unchanged, at
/// every time before a day has passed since, whatever the cache held
/// before.
pub proof fn lemma_answer_is_remembered<V>(
    entries: Seq<CacheEntry<V>>,
    key: Vec<String>,
    value: V,
    now: u64,
    later: u64,
)
    requires
        later < deadline_after(now, TIME_TO_LIVE),
    ensures
        fresh(stored(entries, key, value, deadline_after(now, TIME_TO_LIVE)), key.deep_view(), later)
            == Some(value),
{
    lemma_stored_is_cached(entries, key, value, deadline_after(now, TIME_TO_LIVE), later);
}

/// The rule for a query: one host, the retries of the configuration, and
/// leave to send the request again.
pub open spec fn query_policy(config: Config) -> RetryPolicy {
    RetryPolicy { hosts: 1, retries: config@.http_request_retries, idempotent: true }
}

fn decode_error(method: Method) -> (r: HTTPError)
    ensures
        r.retry_kind == RetryKind::UnretryableError,
        r.error_kind is JSONDecodeError,
{
    HTTPError {
        retry_kind: RetryKind::UnretryableError,
        error_kind: HTTPErrorKind::JSONDecodeError,
        request_id: None,
        host: None,
        method,
        url: String::new(),
    }
}

/// The domains that a document lists: the elements of the array that the
/// document is, in their order; nothing unless the document is an array of
/// strings.
pub open spec fn domains_of_nodes(nodes: Nodes) -> Option<Seq<Seq<char>>> {
    match length_at(nodes, Seq::empty()) {
        Some(count) => if forall|i: int|
            0 <= i < count ==> string_at(nodes, #[trigger] element_pointer(Seq::empty(), i as nat))
                is Some {
            Some(
                Seq::new(
                    count,
                    |i: int| string_at(nodes, element_pointer(Seq::empty(), i as nat))->0,
                ),
            )
        } else {
            None
        },
        None => None,
    }
}

/// The domains that the body of an answer to a domain query lists: `None`
/// unless the body is a JSON array of strings.
pub open spec fn domains_of_body(body: Seq<u8>) -> Option<Seq<Seq<char>>> {
    match text_nodes(body) {
        Some(nodes) => domains_of_nodes(nodes),
        None => None,
    }
}

/// Reads the domains that the body of an answer to a domain query lists.
pub fn domains_from_query_body(body: &[u8]) -> (r: Option<Vec<String>>)
    ensures
        r.deep_view() == domains_of_body(body@),
{
    let document = match parse(body) {
        Some(document) => document,
        None => {
            return None;
        },
    };
    let ghost nodes = crate::json::nodes(document);
    proof {
        reveal_strlit("");
        assert(""@ =~= Seq::<char>::empty());
    }
    let count = match get_length(&document, "") {
        Some(count) => count,
        None => {
            return None;
        },
    };
    let mut domains: Vec<String> = Vec::new();
    let mut i: usize = 0;
    while i < count
        invariant
            i <= count,
            nodes == crate::json::nodes(document),
            text_nodes(body@) == Some(nodes),
            length_at(nodes, Seq::empty()) == Some(count as nat),
            ""@ == Seq::<char>::empty(),
            domains.len() == i,
            forall|k: int|
                0 <= k < i ==> string_at(nodes, #[trigger] element_pointer(Seq::empty(), k as nat))
                    == Some(domains[k]@),
        decreases count - i,
    {
        let pointer = make_element_pointer("", i);
        match get_string(&document, pointer.as_str()) {
            Some(text) => {
                domains.push(text);
            },
            None => {
                proof {
                    let at = i as int;
                    assert(string_at(nodes, element_pointer(Seq::empty(), at as nat)) is None);
                    assert(domains_of_nodes(nodes) is None);
                }
                return None;
            },
        }
        i += 1;
    }
    proof {
        assert(domains.deep_view() =~= Seq::new(
            count as nat,
            |i: int| string_at(nodes, element_pointer(Seq::empty(), i as nat))->0,
        ));
    }
    Some(domains)
}

/// What the requests of a region query asked: a `GET` of `/v4/query` at
/// the query host of the configuration, with the access key and the bucket
/// as its query and without authorization.
pub open spec fn asks_for_regions(
    config: ConfigView,
    access_key: Seq<char>,
    bucket: Seq<char>,
    attempts: Seq<Attempt>,
) -> bool {
    forall|i: int|
        0 <= i < attempts.len() ==> asks_plainly(
            Method::GET,
            host_url(config.use_https, config.uc_host),
            "/v4/query"@,
            seq![("ak"@, access_key), ("bucket"@, bucket)],
            None,
            config,
            #[trigger] attempts[i],
        )
}

/// What the requests of a domain query asked: a `GET` of `/v6/domain/list`
/// at the API host of the configuration, with the bucket as its query,
/// signed with the keys of the account.
pub open spec fn asks_for_domains(
    config: ConfigView,
    access_key: Seq<char>,
    secret_key: Seq<char>,
    bucket: Seq<char>,
    attempts: Seq<Attempt>,
) -> bool {
    forall|i: int|
        0 <= i < attempts.len() ==> asks_plainly(
            Method::GET,
            host_url(config.use_https, config.api_host),
            "/v6/domain/list"@,
            seq![("tbl"@, bucket)],
            Some(
                v2_authorization(
                    access_key,
                    secret_key,
                    Method::GET,
                    host_url(config.use_https, config.api_host),
                    "/v6/domain/list"@,
                    seq![("tbl"@, bucket)],
                ),
            ),
            config,
            #[trigger] attempts[i],
        )
}

/// The regions that the answer to a region query listed, where the last
/// attempt succeeded and its body lists regions.
pub open spec fn regions_read(attempts: Seq<Attempt>) -> Option<Seq<RegionView>> {
    match last_success_body(attempts) {
        Some(body) => regions_of_body(body),
        None => None,
    }
}

/// The domains that the answer to a domain query listed, where the last
/// attempt succeeded and its body lists domains.
pub open spec fn domains_read(attempts: Seq<Attempt>) -> Option<Seq<Seq<char>>> {
    match last_success_body(attempts) {
        Some(body) => domains_of_body(body),
        None => None,
    }
}

/// How a cache changes with a region query that asked the service: the
/// regions that were read are stored under the key for a day from `now`;
/// where none were read, the cache forgets the key.
pub open spec fn regions_kept(
    before: CacheMap<Vec<Region>>,
    after: CacheMap<Vec<Region>>,
    key: Seq<Seq<char>>,
    now: u64,
    read: Option<Seq<RegionView>>,
) -> bool {
    match read {
        Some(regions) => exists|held: Vec<String>, kept: Vec<Region>|
            {
                &&& held.deep_view() == key
                &&& kept.deep_view() == regions
                &&& after.entries() == #[trigger] stored(
                    before.entries(),
                    held,
                    kept,
                    deadline_after(now, TIME_TO_LIVE),
                )
            },
        None => after.entries() == dropped(before.entries(), key),
    }
}

/// How a cache changes with a domain query that asked the service: the
/// domains that were read are stored under the key for a day from `now`;
/// where none were read, the cache forgets the key.
pub open spec fn domains_kept(
    before: CacheMap<Vec<String>>,
    after: CacheMap<Vec<String>>,
    key: Seq<Seq<char>>,
    now: u64,
    read: Option<Seq<Seq<char>>>,
) -> bool {
    match read {
        Some(domains) => exists|held: Vec<String>, kept: Vec<String>|
            {
                &&& held.deep_view() == key
                &&& kept.deep_view() == domains
                &&& after.entries() == #[trigger] stored(
                    before.entries(),
                    held,
                    kept,
                    deadline_after(now, TIME_TO_LIVE),
                )
            },
        None => after.entries() == dropped(before.entries(), key),
    }
}

/// The rule for a query under a configuration.
pub open spec fn query_rule(config: ConfigView) -> RetryPolicy {
    RetryPolicy { hosts: 1, retries: config.http_request_retries, idempotent: true }
}

/// What a region query is: an answer that the cache holds at `now` is
/// handed out without any request and the cache stays as it is; otherwise
/// the attempts are one whole run of the request of [`asks_for_regions`],
/// the result is what the body of the last attempt lists, and the cache
/// changes as [`regions_kept`] says.
pub open spec fn regions_queried(
    config: ConfigView,
    access_key: Seq<char>,
    bucket: Seq<char>,
    cache_before: CacheMap<Vec<Region>>,
    cache_after: CacheMap<Vec<Region>>,
    now: u64,
    attempts: Seq<Attempt>,
    result: Result<Seq<RegionView>, HTTPError>,
) -> bool {
    match cache_before.cached(region_key(access_key, bucket), now) {
        Some(regions) => {
            &&& attempts.len() == 0
            &&& result == Ok::<Seq<RegionView>, HTTPError>(regions.deep_view())
            &&& cache_after.entries() == cache_before.entries()
        },
        None => {
            &&& is_run_of(query_rule(config), attempts)
            &&& asks_for_regions(config, access_key, bucket, attempts)
            &&& answer_read(result, attempts, |body: Seq<u8>| regions_of_body(body))
            &&& regions_kept(
                cache_before,
                cache_after,
                region_key(access_key, bucket),
                now,
                regions_read(attempts),
            )
        },
    }
}

/// What a domain query is: an answer that the cache holds at `now` is
/// handed out without any request and the cache stays as it is; otherwise
/// the attempts are one whole run of the request of [`asks_for_domains`],
/// the result is what the body of the last attempt lists, and the cache
/// changes as [`domains_kept`] says.
pub open spec fn domains_queried(
    config: ConfigView,
    access_key: Seq<char>,
    secret_key: Seq<char>,
    bucket: Seq<char>,
    cache_before: CacheMap<Vec<String>>,
    cache_after: CacheMap<Vec<String>>,
    now: u64,
    attempts: Seq<Attempt>,
    result: Result<Seq<Seq<char>>, HTTPError>,
) -> bool {
    match cache_before.cached(domain_key(access_key, secret_key, bucket), now) {
        Some(domains) => {
            &&& attempts.len() == 0
            &&& result == Ok::<Seq<Seq<char>>, HTTPError>(domains.deep_view())
            &&& cache_after.entries() == cache_before.entries()
        },
        None => {
            &&& is_run_of(query_rule(config), attempts)
            &&& asks_for_domains(config, access_key, secret_key, bucket, attempts)
            &&& answer_read(result, attempts, |body: Seq<u8>| domains_of_body(body))
            &&& domains_kept(
                cache_before,
                cache_after,
                domain_key(access_key, secret_key, bucket),
                now,
                domains_read(attempts),
            )
        },
    }
}

/// Asks for the regions of `bucket`: the region it lives in first, then its
/// backups.
///
/// An answer that the cache holds at `now` is handed out without any
/// request. Otherwise one request goes to the query host of the
/// configuration; the regions it lists are remembered for a day, and a
/// failure makes the cache forget the bucket.
pub fn query_regions<C: HTTPCaller>(
    caller: &C,
    cache: &mut CacheMap<Vec<Region>>,
    bucket: &str,
    access_key: &str,
    config: &Config,
    now: u64,
) -> (r: Queried<Vec<Region>>)
    ensures
        regions_queried(
            config@,
            access_key@,
            bucket@,
            *old(cache),
            *final(cache),
            now,
            r.attempts@,
            viewed(r.result),
        ),
        match old(cache).cached(region_key(access_key@, bucket@), now) {
            Some(regions) => {
                &&& r.attempts@.len() == 0
                &&& r.result matches Ok(found) && found.deep_view() == regions.deep_view()
                &&& final(cache).entries() == old(cache).entries()
            },
            None => {
                &&& is_run_of(query_policy(*config), r.attempts@)
                &&& asks_for_regions(config@, access_key@, bucket@, r.attempts@)
                &&& answer_read(
                    viewed(r.result),
                    r.attempts@,
                    |body: Seq<u8>| regions_of_body(body),
                )
                &&& answer_fits(r.result, r.attempts@)
                &&& match r.result {
                    Ok(found) => found.deep_view().len() > 0 && exists|
                        key: Vec<String>,
                        kept: Vec<Region>,
                    |
                        {
                            &&& key.deep_view() == region_key(access_key@, bucket@)
                            &&& kept.deep_view() == found.deep_view()
                            &&& final(cache).entries() == stored(
                                old(cache).entries(),
                                key,
                                kept,
                                deadline_after(now, TIME_TO_LIVE),
                            )
                        },
                    Err(_) => final(cache).entries() == dropped(
                        old(cache).entries(),
                        region_key(access_key@, bucket@),
                    ),
                }
            },
        },
{
    let mut key: Vec<String> = Vec::new();
    key.push(access_key.to_owned());
    key.push(bucket.to_owned());
    assert(key.deep_view() =~= region_key(access_key@, bucket@));
    match cache.get(&key, now) {
        Some(regions) => {
            return Queried { result: Ok(clone_regions(regions)), attempts: Vec::new() };
        },
        None => {},
    }
    let mut query: Vec<Header> = Vec::new();
    query.push(Header { name: "ak".to_owned(), value: access_key.to_owned() });
    query.push(Header { name: "bucket".to_owned(), value: bucket.to_owned() });
    let empty: Vec<u8> = Vec::new();
    let call = Call {
        method: Method::GET,
        path: "/v4/query",
        query: &query,
        content_type: "",
        body: empty.as_slice(),
        idempotent: true,
        token: Token::Anonymous,
    };
    let mut hosts: Vec<String> = Vec::new();
    hosts.push(config.uc_url());
    let mut hooks = NoHooks;
    let sent = send(caller, &mut hooks, config, &hosts, &call);
    proof {
        reveal_strlit("");
        assert(""@ =~= Seq::<char>::empty());
        assert(query.deep_view() =~= seq![("ak"@, access_key@), ("bucket"@, bucket@)]);
        assert forall|i: int| 0 <= i < sent.attempts@.len() implies asks_plainly(
            Method::GET,
            host_url(config@.use_https, config@.uc_host),
            "/v4/query"@,
            seq![("ak"@, access_key@), ("bucket"@, bucket@)],
            None,
            config@,
            #[trigger] sent.attempts@[i],
        ) by {
            assert(carries(call, hosts@, *config, sent.attempts@[i]));
        }
    }
    let found = match sent.result {
        Ok(response) => match regions_from_query_body(response.body.as_slice()) {
            Some(regions) => Ok(regions),
            None => Err(decode_error(Method::GET)),
        },
        Err(error) => Err(error),
    };
    match &found {
        Ok(regions) => {
            let expires_at = if now > u64::MAX - TIME_TO_LIVE {
                u64::MAX
            } else {
                now + TIME_TO_LIVE
            };
            let kept = clone_regions(regions);
            let ghost held_key = key;
            let ghost held = kept;
            cache.insert(key, kept, expires_at);
            proof {
                assert(held_key.deep_view() == region_key(access_key@, bucket@));
                assert(held.deep_view() == regions.deep_view());
                assert(cache.entries() == stored(
                    old(cache).entries(),
                    held_key,
                    held,
                    deadline_after(now, TIME_TO_LIVE),
                ));
            }
        },
        Err(_) => {
            cache.remove(&key);
        },
    }
    Queried { result: found, attempts: sent.attempts }
}

/// Asks for the domains under which `bucket` is served, in the order of
/// the service's preference.
///
/// An answer that the cache holds at `now` is handed out without any
/// request. Otherwise one request, signed with the credential, goes to the
/// API host of the configuration; the domains it lists are remembered for a
/// day, and a failure makes the cache forget the bucket.
pub fn query_domains<C: HTTPCaller>(
    caller: &C,
    cache: &mut CacheMap<Vec<String>>,
    credential: &Credential,
    bucket: &str,
    config: &Config,
    now: u64,
) -> (r: Queried<Vec<String>>)
    ensures
        domains_queried(
            config@,
            credential.spec_access_key(),
            credential.spec_secret_key(),
            bucket@,
            *old(cache),
            *final(cache),
            now,
            r.attempts@,
            viewed(r.result),
        ),
        match old(cache).cached(
            domain_key(credential.spec_access_key(), credential.spec_secret_key(), bucket@),
            now,
        ) {
            Some(domains) => {
                &&& r.attempts@.len() == 0
                &&& r.result matches Ok(found) && found.deep_view() == domains.deep_view()
                &&& final(cache).entries() == old(cache).entries()
            },
            None => {
                &&& is_run_of(query_policy(*config), r.attempts@)
                &&& asks_for_domains(
                    config@,
                    credential.spec_access_key(),
                    credential.spec_secret_key(),
                    bucket@,
                    r.attempts@,
                )
                &&& answer_read(
                    viewed(r.result),
                    r.attempts@,
                    |body: Seq<u8>| domains_of_body(body),
                )
                &&& answer_fits(r.result, r.attempts@)
                &&& match r.result {
                    Ok(found) => exists|key: Vec<String>, kept: Vec<String>|
                        {
                            &&& key.deep_view() == domain_key(
                                credential.spec_access_key(),
                                credential.spec_secret_key(),
                                bucket@,
                            )
                            &&& kept.deep_view() == found.deep_view()
                            &&& final(cache).entries() == stored(
                                old(cache).entries(),
                                key,
                                kept,
                                deadline_after(now, TIME_TO_LIVE),
                            )
                        },
                    Err(_) => final(cache).entries() == dropped(
                        old(cache).entries(),
                        domain_key(
                            credential.spec_access_key(),
                            credential.spec_secret_key(),
                            bucket@,
                        ),
                    ),
                }
            },
        },
{
    let mut key: Vec<String> = Vec::new();
    key.push(credential.access_key().to_owned());
    key.push(credential.secret_key().to_owned());
    key.push(bucket.to_owned());
    assert(key.deep_view() =~= domain_key(
        credential.spec_access_key(),
        credential.spec_secret_key(),
        bucket@,
    ));
    match cache.get(&key, now) {
        Some(domains) => {
            return Queried { result: Ok(clone_strings(domains)), attempts: Vec::new() };
        },
        None => {},
    }
    let mut query: Vec<Header> = Vec::new();
    query.push(Header { name: "tbl".to_owned(), value: bucket.to_owned() });
    let empty: Vec<u8> = Vec::new();
    let call = Call {
        method: Method::GET,
        path: "/v6/domain/list",
        query: &query,
        content_type: "",
        body: empty.as_slice(),
        idempotent: true,
        token: Token::V2(credential),
    };
    let mut hosts: Vec<String> = Vec::new();
    hosts.push(config.api_url());
    let mut hooks = NoHooks;
    let sent = send(caller, &mut hooks, config, &hosts, &call);
    proof {
        reveal_strlit("");
        assert(""@ =~= Seq::<char>::empty());
        assert(query.deep_view() =~= seq![("tbl"@, bucket@)]);
        assert(empty@ =~= Seq::<u8>::empty());
        assert forall|i: int| 0 <= i < sent.attempts@.len() implies asks_plainly(
            Method::GET,
            host_url(config@.use_https, config@.api_host),
            "/v6/domain/list"@,
            seq![("tbl"@, bucket@)],
            Some(
                v2_authorization(
                    credential.spec_access_key(),
                    credential.spec_secret_key(),
                    Method::GET,
                    host_url(config@.use_https, config@.api_host),
                    "/v6/domain/list"@,
                    seq![("tbl"@, bucket@)],
                ),
            ),
            config@,
            #[trigger] sent.attempts@[i],
        ) by {
            assert(carries(call, hosts@, *config, sent.attempts@[i]));
        }
    }
    let found = match sent.result {
        Ok(response) => match domains_from_query_body(response.body.as_slice()) {
            Some(domains) => Ok(domains),
            None => Err(decode_error(Method::GET)),
        },
        Err(error) => Err(error),
    };
    match &found {
        Ok(domains) => {
            let expires_at = if now > u64::MAX - TIME_TO_LIVE {
                u64::MAX
            } else {
                now + TIME_TO_LIVE
            };
            let kept = clone_strings(domains);
            let ghost held_key = key;
            let ghost held = kept;
            cache.insert(key, kept, expires_at);
            proof {
                assert(held_key.deep_view() == domain_key(
                    credential.spec_access_key(),
                    credential.spec_secret_key(),
                    bucket@,
                ));
                assert(held.deep_view() == domains.deep_view());
                assert(cache.entries() == stored(
                    old(cache).entries(),
                    held_key,
                    held,
                    deadline_after(now, TIME_TO_LIVE),
                ));
            }
        },
        Err(_) => {
            cache.remove(&key);
        },
    }
    Queried { result: found, attempts: sent.attempts }
}

} // verus!
