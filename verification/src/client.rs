//! Sending one logical request: building the physical requests, trying the
//! hosts of a region in order, and trying a host again where that may help.

use crate::config::{Config, ConfigView};
use crate::credential::{canonical_v1, canonical_v2, Credential, signature};
use crate::http::{
    error_message,
    ErrorKindView,
    find_header,
    header_of,
    Header,
    Hooks,
    HTTPCaller,
    HTTPError,
    HTTPErrorKind,
    judge,
    Method,
    read_error_message,
    Rejection,
    Request,
    Response,
    speaks_of_incorrect_zone,
};
use crate::retry::{
    advance,
    budget,
    in_range,
    is_run,
    lemma_spent_grows,
    next,
    Outcome,
    Position,
    position_after,
    RetryKind,
    RetryPolicy,
    spent,
    status_kind,
};
use crate::text::{decimal, u64_to_decimal};
use crate::uri::{form_encode, form_encoded, split, url_parts};
use vstd::prelude::*;
use vstd::string::*;
use vstd::utf8::encode_utf8;

verus! {

/// The name of a method as it stands in a request line.
pub open spec fn method_name(method: Method) -> Seq<char> {
    match method {
        Method::GET => "GET"@,
        Method::HEAD => "HEAD"@,
        Method::POST => "POST"@,
        Method::PUT => "PUT"@,
    }
}

/// The name of a method.
pub fn method_text(method: Method) -> (r: &'static str)
    ensures
        r@ == method_name(method),
{
    match method {
        Method::GET => "GET",
        Method::HEAD => "HEAD",
        Method::POST => "POST",
        Method::PUT => "PUT",
    }
}

/// How a request proves who sends it.
pub enum Token<'a> {
    /// Not at all.
    Anonymous,
    /// With a version 1 signature of the credential.
    V1(&'a Credential),
    /// With a version 2 signature of the credential.
    V2(&'a Credential),
    /// With an upload token.
    UpToken(&'a str),
}

/// One logical request, to be sent to one of several hosts.
pub struct Call<'a> {
    /// The method.
    pub method: Method,
    /// The path, starting with a slash.
    pub path: &'a str,
    /// The query parameters in order.
    pub query: &'a Vec<Header>,
    /// The content type of the body; empty for none.
    pub content_type: &'a str,
    /// The body.
    pub body: &'a [u8],
    /// Whether the request may be sent again after the transport failed.
    pub idempotent: bool,
    /// How the request proves who sends it.
    pub token: Token<'a>,
}

/// One query parameter in a URL: the encoded name, `=`, the encoded value.
pub open spec fn pair_text(pair: (Seq<char>, Seq<char>)) -> Seq<char> {
    form_encoded(encode_utf8(pair.0)) + seq!['='] + form_encoded(encode_utf8(pair.1))
}

/// The query parameters in order, with `&` between them.
pub open spec fn pairs_text(pairs: Seq<(Seq<char>, Seq<char>)>) -> Seq<char>
    decreases pairs.len(),
{
    if pairs.len() == 0 {
        Seq::empty()
    } else if pairs.len() == 1 {
        pair_text(pairs[0])
    } else {
        pairs_text(pairs.drop_last()) + seq!['&'] + pair_text(pairs.last())
    }
}

/// The query string of a request, if it has parameters.
pub open spec fn query_of(pairs: Seq<(Seq<char>, Seq<char>)>) -> Option<Seq<char>> {
    if pairs.len() == 0 {
        None
    } else {
        Some(pairs_text(pairs))
    }
}

/// The path with the query string behind a `?`, if there is one.
pub open spec fn target_of(path: Seq<char>, query: Option<Seq<char>>) -> Seq<char> {
    match query {
        Some(q) => path + seq!['?'] + q,
        None => path,
    }
}

/// A host with a port behind a colon, where there is a port.
pub open spec fn host_with_port(host: Seq<char>, port: Option<u16>) -> Seq<char> {
    match port {
        Some(port) => host + seq![':'] + decimal(port as nat),
        None => host,
    }
}

/// The host that a base URL names: the host of the URL, with its port
/// where it names one that is not the default of its scheme; the whole
/// text where it is no URL with a host.
pub open spec fn host_of(base_url: Seq<char>) -> Seq<char> {
    match url_parts(base_url) {
        Some(parts) => match parts.host {
            Some(host) => host_with_port(host, parts.port),
            None => base_url,
        },
        None => base_url,
    }
}

/// Builds the query string of a request.
pub fn make_query(pairs: &Vec<Header>) -> (r: Option<String>)
    ensures
        r.deep_view() == query_of(pairs.deep_view()),
{
    if pairs.len() == 0 {
        return None;
    }
    let mut text = String::new();
    let mut i: usize = 0;
    proof {
        reveal_strlit("=");
        reveal_strlit("&");
        assert("="@ =~= seq!['=']);
        assert("&"@ =~= seq!['&']);
        assert(pairs.deep_view().take(0) =~= Seq::<(Seq<char>, Seq<char>)>::empty());
    }
    while i < pairs.len()
        invariant
            i <= pairs.len(),
            text@ == pairs_text(pairs.deep_view().take(i as int)),
            "="@ == seq!['='],
            "&"@ == seq!['&'],
        decreases pairs.len() - i,
    {
        let ghost all = pairs.deep_view();
        if i > 0 {
            text.append("&");
        }
        let name = form_encode(pairs[i].name.as_str().as_bytes());
        let value = form_encode(pairs[i].value.as_str().as_bytes());
        text.append(name.as_str());
        text.append("=");
        text.append(value.as_str());
        proof {
            let next = all.take(i + 1);
            assert(next.drop_last() =~= all.take(i as int));
            assert(next.last() == all[i as int]);
            assert(all[i as int] == pairs[i as int].deep_view());
            if i == 0 {
                assert(next.len() == 1);
                assert(next[0] == all[0]);
                assert(all.take(0).len() == 0);
            }
            assert(text@ =~= pairs_text(next));
        }
        i += 1;
    }
    proof {
        assert(pairs.deep_view().take(i as int) =~= pairs.deep_view());
    }
    Some(text)
}

/// Finds the host that a base URL names.
pub fn host_part(base_url: &str) -> (r: String)
    ensures
        r@ == host_of(base_url@),
{
    match split(base_url) {
        Some(parts) => match parts.host {
            Some(host) => match parts.port {
                Some(port) => {
                    proof {
                        reveal_strlit(":");
                        assert(":"@ =~= seq![':']);
                    }
                    let mut r = host;
                    r.append(":");
                    r.append(u64_to_decimal(port as u64).as_str());
                    r
                },
                None => host,
            },
            None => base_url.to_owned(),
        },
        None => base_url.to_owned(),
    }
}

/// The value of the `Authorization` header of a request, if it has one.
pub open spec fn authorization_of(
    token: Token,
    method: Method,
    base_url: Seq<char>,
    path: Seq<char>,
    query: Option<Seq<char>>,
    content_type: Seq<char>,
    body: Seq<u8>,
) -> Option<Seq<char>> {
    match token {
        Token::Anonymous => None,
        Token::V1(credential) => Some(
            "QBox "@ + signature(
                credential.spec_access_key(),
                credential.spec_secret_key(),
                canonical_v1(path, query, content_type, body),
            ),
        ),
        Token::V2(credential) => Some(
            "Qiniu "@ + signature(
                credential.spec_access_key(),
                credential.spec_secret_key(),
                canonical_v2(
                    method_name(method),
                    host_of(base_url),
                    path,
                    query,
                    content_type,
                    body,
                ),
            ),
        ),
        Token::UpToken(token) => Some("UpToken "@ + token@),
    }
}

/// The header lines of a request: the content type where there is one, then
/// the authorization where there is one.
pub open spec fn headers_of(content_type: Seq<char>, authorization: Option<Seq<char>>) -> Seq<
    (Seq<char>, Seq<char>),
> {
    let first = if content_type.len() > 0 {
        seq![("Content-Type"@, content_type)]
    } else {
        Seq::empty()
    };
    match authorization {
        Some(value) => first.push(("Authorization"@, value)),
        None => first,
    }
}

/// Whether `request` is the physical request that carries `call` to the
/// host at `base_url`: the method and the body of the call, the address of
/// its path and query at the host, its content type and its authorization
/// as header lines, the time it may take, and the pause to keep before it.
pub open spec fn is_request_for(
    call: Call,
    base_url: Seq<char>,
    timeout: u64,
    delay: u64,
    request: Request,
) -> bool {
    &&& request.method == call.method
    &&& request.url@ == base_url + target_of(call.path@, query_of(call.query.deep_view()))
    &&& request.headers.deep_view() == headers_of(
        call.content_type@,
        authorization_of(
            call.token,
            call.method,
            base_url,
            call.path@,
            query_of(call.query.deep_view()),
            call.content_type@,
            call.body@,
        ),
    )
    &&& request.body@ == call.body@
    &&& request.timeout == timeout
    &&& request.delay == delay
}

/// Builds the physical request that carries `call` to the host at
/// `base_url`. `delay` is the pause to keep before it is sent.
pub fn build_request(call: &Call, base_url: &str, timeout: u64, delay: u64) -> (r: Request)
    ensures
        is_request_for(*call, base_url@, timeout, delay, r),
{
    let query = make_query(call.query);
    let mut url = base_url.to_owned();
    url.append(call.path);
    proof {
        reveal_strlit("?");
        assert("?"@ =~= seq!['?']);
    }
    let query_text: Option<&str> = match &query {
        Some(q) => {
            url.append("?");
            url.append(q.as_str());
            assert(url@ =~= base_url@ + (call.path@ + seq!['?'] + q@));
            Some(q.as_str())
        },
        None => None,
    };
    let authorization = match call.token {
        Token::Anonymous => None,
        Token::V1(credential) => Some(
            credential.authorization_v1_for_parts(
                call.path,
                query_text,
                call.content_type,
                call.body,
            ),
        ),
        Token::V2(credential) => Some(
            credential.authorization_v2_for_parts(
                method_text(call.method),
                host_part(base_url).as_str(),
                call.path,
                query_text,
                call.content_type,
                call.body,
            ),
        ),
        Token::UpToken(token) => {
            let mut value = "UpToken ".to_owned();
            value.append(token);
            Some(value)
        },
    };
    let mut headers: Vec<Header> = Vec::new();
    if !call.content_type.is_empty() {
        headers.push(
            Header { name: "Content-Type".to_owned(), value: call.content_type.to_owned() },
        );
    }
    match authorization {
        Some(value) => {
            headers.push(Header { name: "Authorization".to_owned(), value });
        },
        None => {},
    }
    let mut body: Vec<u8> = Vec::new();
    body.extend_from_slice(call.body);
    assert(body@ =~= call.body@);
    assert(headers.deep_view() =~= headers_of(
        call.content_type@,
        authorization_of(
            call.token,
            call.method,
            base_url@,
            call.path@,
            query_of(call.query.deep_view()),
            call.content_type@,
            call.body@,
        ),
    ));
    Request { method: call.method, url, headers, body, timeout, delay }
}

/// One physical attempt: the host it went to, how often that host had been
/// tried before, how it ended, and what the answer said of itself.
#[derive(Debug)]
pub struct Attempt {
    /// The index of the host among the hosts of the region.
    pub host: usize,
    /// The number of earlier attempts on that host.
    pub tries: usize,
    /// How the attempt ended.
    pub outcome: Outcome,
    /// The status code of the answer, if there was an answer.
    pub status_code: Option<u16>,
    /// The request id of the answer, if it gave one.
    pub request_id: Option<String>,
    /// The time the attempt took, in milliseconds.
    pub elapsed: u64,
    /// The request that was handed to the transport.
    pub request: Request,
    /// The body of the answer; empty where there was no answer.
    pub body: Vec<u8>,
    /// What the progress hook was told during the attempt: each time the
    /// bytes that were sent and the bytes that were to send.
    pub reported: Vec<(u64, u64)>,
}

/// The outcomes of the attempts in order.
pub open spec fn outcomes_of(attempts: Seq<Attempt>) -> Seq<Outcome> {
    attempts.map_values(|a: Attempt| a.outcome)
}

/// How a failed attempt may be tried again.
pub open spec fn failure_kind(outcome: Outcome) -> RetryKind {
    match outcome {
        Outcome::StatusFailure(kind) => kind,
        _ => RetryKind::RetryableError,
    }
}

/// Whether what an attempt records of its answer fits how it ended: an
/// attempt without an answer is a failure of the transport, and only that;
/// only an answer with a status from 200 to 299 is a success, and such an
/// answer fails only where a hook turned it down; every other answer fails
/// in the way that its status and its body say. The progress hook is told
/// once of a success, that all of the request's body was sent, and never of
/// a failure.
pub open spec fn is_recorded(attempt: Attempt) -> bool {
    &&& attempt.reported@ == if attempt.outcome == Outcome::Success {
        seq![(attempt.request.body@.len() as u64, attempt.request.body@.len() as u64)]
    } else {
        Seq::empty()
    }
    &&& ends_as_answered(attempt)
}

/// Whether the end of an attempt fits its answer.
pub open spec fn ends_as_answered(attempt: Attempt) -> bool {
    match attempt.status_code {
        None => attempt.outcome == Outcome::TransportFailure && attempt.body@.len() == 0,
        Some(code) => match attempt.outcome {
            Outcome::Success => 200 <= code <= 299,
            Outcome::TransportFailure => false,
            Outcome::StatusFailure(kind) => if 200 <= code <= 299 {
                kind == RetryKind::HostUnretryableError || kind == RetryKind::UnretryableError
            } else {
                status_kind(code, speaks_of_incorrect_zone(attempt.body@)) == Some(kind)
            },
        },
    }
}

/// Whether an error is that of a failed attempt: it may be tried again as
/// the attempt's end says, it names the method, the address and the host
/// of the attempt's request and the request id of the answer, and it says
/// what went wrong. Of an answer that failed by its status it gives the
/// status and the message of the body; of an answer that a hook turned
/// down, that it was not to be believed or that the user cancelled; of an
/// attempt without an answer, what the transport said.
pub open spec fn error_fits(error: HTTPError, attempt: Attempt) -> bool {
    &&& error.retry_kind == failure_kind(attempt.outcome)
    &&& error.method == attempt.request.method
    &&& error.url@ == attempt.request.url@
    &&& error.request_id.deep_view() == attempt.request_id.deep_view()
    &&& match attempt.status_code {
        None => error.error_kind is TransportError,
        Some(code) => if 200 <= code <= 299 {
            if error.retry_kind == RetryKind::UnretryableError {
                error.error_kind is UserCancelled
            } else {
                error.error_kind is MaliciousResponse
            }
        } else {
            error.error_kind.deep_view() == ErrorKindView::ResponseStatusCodeError(
                code,
                error_message(attempt.body@),
            )
        },
    }
}

/// An answer with a status from 500 to 502 fails in a way that is tried
/// again, one with a status from 503 to 599 in a way that rules out its
/// host, and one with a status of 400 that speaks of another region or any
/// other status outside 200 to 299 in a way that ends the run.
pub proof fn lemma_status_decides_outcome(attempt: Attempt)
    requires
        is_recorded(attempt),
        attempt.status_code is Some,
    ensures
        500 <= attempt.status_code->0 <= 502 ==> attempt.outcome == Outcome::StatusFailure(
            RetryKind::RetryableError,
        ),
        503 <= attempt.status_code->0 <= 599 ==> attempt.outcome == Outcome::StatusFailure(
            RetryKind::HostUnretryableError,
        ),
        attempt.status_code->0 == 400 ==> attempt.outcome == Outcome::StatusFailure(
            RetryKind::ZoneUnretryableError,
        ) || attempt.outcome == Outcome::StatusFailure(RetryKind::UnretryableError),
        attempt.outcome == Outcome::Success <==> 200 <= attempt.status_code->0 <= 299
            && !(attempt.outcome is StatusFailure),
{
}

/// Whether the attempts are those of a whole run over the hosts of one
/// region: each went to the host and was the try that the run was due to
/// make then, and none was due after the last.
pub open spec fn is_run_of(policy: RetryPolicy, attempts: Seq<Attempt>) -> bool {
    &&& is_run(policy, outcomes_of(attempts))
    &&& forall|i: int|
        0 <= i < attempts.len() ==> position_after(
            policy,
            #[trigger] outcomes_of(attempts).take(i),
        ) == Some(Position { host: attempts[i].host, tries: attempts[i].tries })
}

/// What became of a logical request: its result, and every physical attempt
/// that was made for it, in order.
pub struct Sent {
    /// The answer of the last attempt if it succeeded, its error otherwise.
    pub result: Result<Response, HTTPError>,
    /// The attempts.
    pub attempts: Vec<Attempt>,
}

/// The rule for `call` on `hosts` under `config`.
pub open spec fn policy_of(call: Call, hosts: nat, config: Config) -> RetryPolicy {
    RetryPolicy {
        hosts: hosts as usize,
        retries: config@.http_request_retries,
        idempotent: call.idempotent,
    }
}

/// How the last attempt decides the result: a success gives a result, a
/// failure gives its error, as [`error_fits`] says; without any attempt
/// the error says that no host was available and that another region may
/// do.
pub open spec fn result_fits<T>(result: Result<T, HTTPError>, attempts: Seq<Attempt>) -> bool {
    match result {
        Ok(_) => attempts.len() > 0 && attempts.last().outcome == Outcome::Success,
        Err(error) => if attempts.len() == 0 {
            error.error_kind is NoHostAvailable && error.retry_kind
                == RetryKind::HostUnretryableError
        } else {
            attempts.last().outcome != Outcome::Success && error_fits(error, attempts.last())
        },
    }
}

/// The body of the answer that the attempts ended with, where the last of
/// them succeeded.
pub open spec fn last_success_body(attempts: Seq<Attempt>) -> Option<Seq<u8>> {
    if attempts.len() > 0 && attempts.last().outcome == Outcome::Success {
        Some(attempts.last().body@)
    } else {
        None
    }
}

/// How the attempts decide a result that is read from the body of the
/// answer: where the last attempt succeeded and `read` reads its body, the
/// result is what it reads; where it succeeded and the body cannot be read,
/// the error says so and is final; otherwise the error is that of the last
/// attempt.
pub open spec fn answer_read<V>(
    result: Result<V, HTTPError>,
    attempts: Seq<Attempt>,
    read: spec_fn(Seq<u8>) -> Option<V>,
) -> bool {
    match last_success_body(attempts) {
        Some(body) => match read(body) {
            Some(value) => result == Ok::<V, HTTPError>(value),
            None => result matches Err(error) && error.error_kind is JSONDecodeError
                && error.retry_kind == RetryKind::UnretryableError,
        },
        None => result matches Err(error) && result_fits(Err::<V, HTTPError>(error), attempts),
    }
}

/// A result with its value as a mathematical value.
pub open spec fn viewed<T: DeepView>(result: Result<T, HTTPError>) -> Result<T::V, HTTPError> {
    match result {
        Ok(value) => Ok(value.deep_view()),
        Err(error) => Err(error),
    }
}

/// The version 2 authorization of a request without content type and
/// body, signed with the keys of an account.
pub open spec fn v2_authorization(
    access_key: Seq<char>,
    secret_key: Seq<char>,
    method: Method,
    base_url: Seq<char>,
    path: Seq<char>,
    query: Seq<(Seq<char>, Seq<char>)>,
) -> Seq<char> {
    "Qiniu "@ + signature(
        access_key,
        secret_key,
        canonical_v2(
            method_name(method),
            host_of(base_url),
            path,
            query_of(query),
            Seq::empty(),
            Seq::empty(),
        ),
    )
}

/// Whether an attempt asked `base_url` for `path` with the pairs of `query`
/// and nothing else: a request of the given method without body and content
/// type, with `authorization` as its authorization where one is given, the
/// timeout of the configuration, and the pause that is due before the
/// attempt; and what the attempt records of its answer fits how it ended.
pub open spec fn asks_plainly(
    method: Method,
    base_url: Seq<char>,
    path: Seq<char>,
    query: Seq<(Seq<char>, Seq<char>)>,
    authorization: Option<Seq<char>>,
    config: ConfigView,
    attempt: Attempt,
) -> bool {
    &&& attempt.request.method == method
    &&& attempt.request.url@ == base_url + target_of(path, query_of(query))
    &&& attempt.request.headers.deep_view() == headers_of(Seq::empty(), authorization)
    &&& attempt.request.body@.len() == 0
    &&& attempt.request.timeout == config.http_request_timeout
    &&& attempt.request.delay == if attempt.tries > 0 {
        config.http_request_retry_delay
    } else {
        0
    }
    &&& is_recorded(attempt)
}

/// Whether an answer is that of an attempt: the status and the body that
/// the attempt records.
pub open spec fn is_answer_of(response: Response, attempt: Attempt) -> bool {
    attempt.status_code == Some(response.status_code) && attempt.body@ == response.body@
}

/// The pause before an attempt: none before the first try on a host, the
/// retry delay of the configuration before every other.
pub open spec fn delay_before(config: Config, tries: usize) -> u64 {
    if tries > 0 {
        config@.http_request_retry_delay
    } else {
        0
    }
}

/// Whether the request of an attempt is the one that carries `call` to the
/// host that the attempt names, with the timeout of the configuration and
/// the pause that is due before the attempt.
pub open spec fn carries(call: Call, hosts: Seq<String>, config: Config, attempt: Attempt) -> bool {
    &&& attempt.host < hosts.len()
    &&& is_request_for(
        call,
        hosts[attempt.host as int]@,
        config@.http_request_timeout,
        delay_before(config, attempt.tries),
        attempt.request,
    )
}

/// How the attempts decide a result that is read from the answer of the
/// last attempt: a result is there only after a success; an error is that
/// of the last attempt, or it says that the answer of a successful attempt
/// could not be read or was not to be believed.
pub open spec fn answer_fits<T>(result: Result<T, HTTPError>, attempts: Seq<Attempt>) -> bool {
    match result {
        Ok(_) => attempts.len() > 0 && attempts.last().outcome == Outcome::Success,
        Err(error) => result_fits(Err::<T, HTTPError>(error), attempts) || (attempts.len() > 0
            && attempts.last().outcome == Outcome::Success && (error.error_kind is JSONDecodeError
            || error.error_kind is MaliciousResponse)),
    }
}

fn request_id_of(response: &Response) -> (r: Option<String>)
    ensures
        r.deep_view() == header_of(response.headers.deep_view(), "X-Reqid"@),
{
    match find_header(&response.headers, "X-Reqid") {
        Some(id) => Some(id.to_owned()),
        None => None,
    }
}

/// Every attempt of a run went to one of the hosts.
pub proof fn lemma_attempts_in_range(policy: RetryPolicy, attempts: Seq<Attempt>, i: int)
    requires
        is_run_of(policy, attempts),
        0 <= i < attempts.len(),
    ensures
        attempts[i].host < policy.hosts,
        attempts[i].tries <= policy.retries,
{
    crate::retry::lemma_position_after(policy, outcomes_of(attempts).take(i));
}

/// Whether the request of an attempt was made for the host that the attempt
/// names, with this path and this query.
pub open spec fn is_sent_to(
    hosts: Seq<String>,
    path: Seq<char>,
    query: Option<Seq<char>>,
    attempt: Attempt,
) -> bool {
    &&& attempt.host < hosts.len()
    &&& attempt.request.url@ == hosts[attempt.host as int]@ + target_of(path, query)
}

/// Whether the request of an attempt was made for `path` at `base_url`, with
/// the pairs of `query` as its query.
pub open spec fn asks(
    base_url: Seq<char>,
    path: Seq<char>,
    query: Seq<(Seq<char>, Seq<char>)>,
    attempt: Attempt,
) -> bool {
    attempt.request.url@ == base_url + target_of(path, query_of(query))
}

/// Whether the request of an attempt was made for the host that the attempt
/// names, with the path and the query of `call`.
pub open spec fn is_addressed(call: Call, hosts: Seq<String>, attempt: Attempt) -> bool {
    is_sent_to(hosts, call.path@, query_of(call.query.deep_view()), attempt)
}

/// The number of attempts that a run can still make at most.
pub open spec fn remaining(policy: RetryPolicy, position: Option<Position>) -> int {
    match position {
        Some(p) => budget(policy) - spent(policy, p),
        None => 0,
    }
}

/// Sends `call` to the hosts of one region, in their order, until an
/// attempt succeeds, fails for good, or the hosts and retries are used up.
///
/// Every attempt is judged by [`judge`], and a success by the hooks. What
/// the transport and the hooks answer is theirs to decide; whatever they
/// answer, the attempts form a whole run under the retry rule and the result
/// is that of the last attempt.
pub fn send<C: HTTPCaller, H: Hooks>(
    caller: &C,
    hooks: &mut H,
    config: &Config,
    hosts: &Vec<String>,
    call: &Call,
) -> (r: Sent)
    ensures
        is_run_of(policy_of(*call, hosts@.len(), *config), r.attempts@),
        result_fits(r.result, r.attempts@),
        forall|i: int| 0 <= i < r.attempts@.len() ==> is_recorded(#[trigger] r.attempts@[i]),
        forall|i: int|
            0 <= i < r.attempts@.len() ==> is_addressed(*call, hosts@, #[trigger] r.attempts@[i]),
        forall|i: int|
            0 <= i < r.attempts@.len() ==> carries(*call, hosts@, *config, #[trigger] r.attempts@[i]),
        r.result matches Ok(response) ==> is_answer_of(response, r.attempts@.last()),
{
    let policy = RetryPolicy {
        hosts: hosts.len(),
        retries: config.http_request_retries(),
        idempotent: call.idempotent,
    };
    let mut attempts: Vec<Attempt> = Vec::new();
    let mut result: Result<Response, HTTPError> = Err(
        HTTPError {
            retry_kind: RetryKind::HostUnretryableError,
            error_kind: HTTPErrorKind::NoHostAvailable,
            request_id: None,
            host: None,
            method: call.method,
            url: String::new(),
        },
    );
    let mut position: Option<Position> = if hosts.len() > 0 {
        Some(Position { host: 0, tries: 0 })
    } else {
        None
    };
    proof {
        assert(outcomes_of(attempts@) =~= Seq::<Outcome>::empty());
    }
    while position.is_some()
        invariant
            policy == policy_of(*call, hosts@.len(), *config),
            position == position_after(policy, outcomes_of(attempts@)),
            position matches Some(p) ==> in_range(policy, p),
            forall|i: int|
                0 <= i < attempts@.len() ==> position_after(
                    policy,
                    #[trigger] outcomes_of(attempts@).take(i),
                ) == Some(Position { host: attempts@[i].host, tries: attempts@[i].tries }),
            result_fits(result, attempts@),
            forall|i: int| 0 <= i < attempts@.len() ==> is_recorded(#[trigger] attempts@[i]),
            forall|i: int|
                0 <= i < attempts@.len() ==> is_addressed(*call, hosts@, #[trigger] attempts@[i]),
            forall|i: int|
                0 <= i < attempts@.len() ==> carries(*call, hosts@, *config, #[trigger] attempts@[i]),
            result matches Ok(response) ==> is_answer_of(response, attempts@.last()),
        decreases remaining(policy, position),
    {
        let ghost before_step = remaining(policy, position);
        let here = position.unwrap();
        let base_url = hosts[here.host].as_str();
        let delay = if here.tries > 0 {
            config.http_request_retry_delay()
        } else {
            0
        };
        let request = build_request(call, base_url, config.http_request_timeout(), delay);
        let method = request.method;
        let answer = caller.call(&request);
        let url = request.url.clone();
        let total: u64 = request.body.len() as u64;
        let mut reported: Vec<(u64, u64)> = Vec::new();
        let (outcome, status_code, request_id, elapsed, body) = match answer {
            Ok(response) => {
                let status_code = response.status_code;
                let elapsed = response.elapsed;
                let request_id = request_id_of(&response);
                let mut body: Vec<u8> = Vec::new();
                body.extend_from_slice(response.body.as_slice());
                assert(body@ =~= response.body@);
                let failure = match judge(&response) {
                    Some(kind) => Some(
                        (
                            kind,
                            HTTPErrorKind::ResponseStatusCodeError(
                                status_code,
                                read_error_message(response.body.as_slice()),
                            ),
                        ),
                    ),
                    None => match hooks.on_response(&response) {
                        Some(Rejection::Malicious) => Some(
                            (RetryKind::HostUnretryableError, HTTPErrorKind::MaliciousResponse),
                        ),
                        Some(Rejection::Cancelled) => Some(
                            (RetryKind::UnretryableError, HTTPErrorKind::UserCancelled),
                        ),
                        None => None,
                    },
                };
                let outcome = match failure {
                    Some((kind, error_kind)) => {
                        let error = HTTPError {
                            retry_kind: kind,
                            error_kind,
                            request_id: request_id_of(&response),
                            host: Some(base_url.to_owned()),
                            method,
                            url,
                        };
                        hooks.on_error(base_url, &error);
                        result = Err(error);
                        Outcome::StatusFailure(kind)
                    },
                    None => {
                        hooks.on_uploading_progress(total, total);
                        reported.push((total, total));
                        result = Ok(response);
                        Outcome::Success
                    },
                };
                (outcome, Some(status_code), request_id, elapsed, body)
            },
            Err(failure) => {
                let elapsed = failure.elapsed;
                let error = HTTPError {
                    retry_kind: RetryKind::RetryableError,
                    error_kind: HTTPErrorKind::TransportError(failure.message),
                    request_id: None,
                    host: Some(base_url.to_owned()),
                    method,
                    url,
                };
                hooks.on_error(base_url, &error);
                result = Err(error);
                (Outcome::TransportFailure, None, None, elapsed, Vec::new())
            },
        };
        let ghost before = outcomes_of(attempts@);
        attempts.push(
            Attempt {
                host: here.host,
                tries: here.tries,
                outcome,
                status_code,
                request_id,
                elapsed,
                request,
                body,
                reported,
            },
        );
        proof {
            let after = outcomes_of(attempts@);
            assert(after.drop_last() =~= before);
            assert(after.last() == outcome);
            assert(after.take(after.len() - 1) =~= before);
            assert forall|i: int| 0 <= i < attempts@.len() implies position_after(
                policy,
                #[trigger] after.take(i),
            ) == Some(Position { host: attempts@[i].host, tries: attempts@[i].tries }) by {
                if i < before.len() {
                    assert(after.take(i) =~= before.take(i));
                }
            }
            lemma_spent_grows(policy, here, outcome);
        }
        position = advance(policy, here, outcome);
        proof {
            match position {
                Some(p) => {
                    lemma_spent_grows(policy, p, Outcome::Success);
                },
                None => {},
            }
            assert(0 <= remaining(policy, position) < before_step);
        }
    }
    proof {
        let outcomes = outcomes_of(attempts@);
        assert forall|i: int| 0 <= i < outcomes.len() implies (#[trigger] position_after(
            policy,
            outcomes.take(i),
        )) is Some by {}
    }
    Sent { result, attempts }
}

} // verus!
