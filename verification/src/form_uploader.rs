//! Uploading data in a single form request, region by region.

use crate::client::{
    Attempt,
    Call,
    carries,
    delay_before,
    failure_kind,
    headers_of,
    is_addressed,
    is_recorded,
    is_run_of,
    is_sent_to,
    lemma_attempts_in_range,
    outcomes_of,
    result_fits,
    send,
    Token,
};
use crate::config::Config;
use crate::crc32::{checksum, checksum_of};
use crate::http::{Header, Hooks, HTTPCaller, HTTPError, HTTPErrorKind, Method};
use crate::multipart::{
    encode_form,
    form_body,
    form_content_type,
    make_content_type,
    Part,
    PartView,
    text_part,
};
use crate::retry::{
    all_are,
    lemma_final_outcome_is_last,
    lemma_host_failures_try_each_host_once,
    lemma_retried_run_uses_budget,
    Outcome,
    position_after,
    RetryKind,
    RetryPolicy,
};
use crate::text::{concat, decimal, u64_to_decimal};
use crate::upload_logger::{record_attempt, UploadLoggerRecord, UpType};
use crate::upload_response::{response_of_body, UploadResponse};
use crate::upload_token::UploadToken;
use vstd::prelude::*;
use vstd::string::*;

verus! {

/// The rule for an upload request on the hosts of one region: uploads may
/// be sent again.
pub open spec fn region_policy(config: Config, hosts: nat) -> RetryPolicy {
    RetryPolicy { hosts: hosts as usize, retries: config@.http_request_retries, idempotent: true }
}

/// Whether the run on one region ended in a way that lets the next region
/// be tried: without a host, or with a failure that is not final.
pub open spec fn lets_next_region_try(attempts: Seq<Attempt>) -> bool {
    attempts.len() == 0 || (attempts.last().outcome != Outcome::Success && failure_kind(
        attempts.last().outcome,
    ) != RetryKind::UnretryableError)
}

/// The attempts of the runs as values.
pub open spec fn runs_view(runs: Vec<Vec<Attempt>>) -> Seq<Seq<Attempt>> {
    Seq::new(runs@.len(), |i: int| runs@[i]@)
}

/// The number of hosts of each region.
pub open spec fn sizes_of(up_urls_list: Vec<Vec<String>>) -> Seq<nat> {
    Seq::new(up_urls_list@.len(), |i: int| up_urls_list@[i]@.len())
}

/// Whether `runs` are the runs of one upload over regions with the given
/// numbers of hosts: the regions were tried in order, each by a whole run
/// over its hosts; every run but the last let the next region try; and a
/// region was left untried only because the last run ended the upload.
pub open spec fn is_upload_run(config: Config, sizes: Seq<nat>, runs: Seq<Seq<Attempt>>) -> bool {
    &&& runs.len() <= sizes.len()
    &&& forall|i: int|
        0 <= i < runs.len() ==> is_run_of(region_policy(config, sizes[i]), #[trigger] runs[i])
    &&& forall|i: int| 0 <= i < runs.len() - 1 ==> lets_next_region_try(#[trigger] runs[i])
    &&& runs.len() < sizes.len() ==> runs.len() > 0 && !lets_next_region_try(runs.last())
}

/// How the last run decides the result of an upload: the result is that of
/// the last attempt of the last run; without any run, and after a last run
/// without hosts, the error says that no host was available.
pub open spec fn upload_result_fits<T>(result: Result<T, HTTPError>, runs: Seq<Seq<Attempt>>) -> bool {
    if runs.len() == 0 {
        result matches Err(error) && error.error_kind is NoHostAvailable
    } else {
        result_fits(result, runs.last())
    }
}

/// Whether what every attempt records of its answer fits how it ended.
pub open spec fn all_recorded(runs: Seq<Seq<Attempt>>) -> bool {
    forall|i: int, k: int|
        0 <= i < runs.len() && 0 <= k < runs[i].len() ==> is_recorded(#[trigger] runs[i][k])
}

/// Whether every request of every run was made for the path `/` of a host
/// of the region of its run, without a query.
pub open spec fn all_sent_to(up_urls_list: Seq<Vec<String>>, runs: Seq<Seq<Attempt>>) -> bool {
    forall|i: int, k: int|
        0 <= i < runs.len() && 0 <= k < runs[i].len() ==> i < up_urls_list.len() && is_sent_to(
            up_urls_list[i]@,
            "/"@,
            None,
            #[trigger] runs[i][k],
        )
}

/// Whether the request of an attempt carried a form to the host that the
/// attempt names: a `POST` of its body to `/`, with its content type as
/// the only header line, the timeout of the configuration, and the pause
/// that is due before the attempt.
pub open spec fn carries_form(
    content_type: Seq<char>,
    body: Seq<u8>,
    hosts: Seq<String>,
    config: Config,
    attempt: Attempt,
) -> bool {
    &&& attempt.host < hosts.len()
    &&& attempt.request.method == Method::POST
    &&& attempt.request.url@ == hosts[attempt.host as int]@ + "/"@
    &&& attempt.request.headers.deep_view() == headers_of(content_type, None)
    &&& attempt.request.body@ == body
    &&& attempt.request.timeout == config@.http_request_timeout
    &&& attempt.request.delay == delay_before(config, attempt.tries)
}

/// Whether every request of every run carried the form to a host of the
/// region of its run.
pub open spec fn all_carry_form(
    content_type: Seq<char>,
    body: Seq<u8>,
    up_urls_list: Seq<Vec<String>>,
    config: Config,
    runs: Seq<Seq<Attempt>>,
) -> bool {
    forall|i: int, k: int|
        0 <= i < runs.len() && 0 <= k < runs[i].len() ==> i < up_urls_list.len() && carries_form(
            content_type,
            body,
            up_urls_list[i]@,
            config,
            #[trigger] runs[i][k],
        )
}

/// Whether the answer to an upload is what the body of the answer of the
/// last attempt says.
pub open spec fn says_what_was_answered(
    result: Result<UploadResponse, HTTPError>,
    attempts: Seq<Attempt>,
) -> bool {
    result matches Ok(value) ==> attempts.len() > 0 && value.deep_view() == response_of_body(
        attempts.last().body@,
    )
}

/// The number of attempts of all runs together.
pub open spec fn total_attempts(runs: Seq<Seq<Attempt>>) -> nat
    decreases runs.len(),
{
    if runs.len() == 0 {
        0
    } else {
        total_attempts(runs.drop_last()) + runs.last().len()
    }
}

/// Whether every attempt of every run ended with `outcome`.
pub open spec fn all_ended(runs: Seq<Seq<Attempt>>, outcome: Outcome) -> bool {
    forall|i: int| 0 <= i < runs.len() ==> all_are(outcomes_of(#[trigger] runs[i]), outcome)
}

/// An upload whose every attempt fails in a way that is tried again goes
/// through every region, and in each through every host, once and then
/// again for each retry.
pub proof fn lemma_retried_upload_tries_everything(
    config: Config,
    sizes: Seq<nat>,
    runs: Seq<Seq<Attempt>>,
    outcome: Outcome,
)
    requires
        is_upload_run(config, sizes, runs),
        all_ended(runs, outcome),
        outcome == Outcome::StatusFailure(RetryKind::RetryableError) || outcome
            == Outcome::TransportFailure,
        forall|i: int| 0 <= i < sizes.len() ==> #[trigger] sizes[i] <= usize::MAX,
    ensures
        runs.len() == sizes.len(),
        forall|i: int|
            0 <= i < runs.len() ==> (#[trigger] runs[i]).len() == sizes[i] * (
            config@.http_request_retries + 1),
{
    if runs.len() < sizes.len() {
        let last = runs.last();
        assert(all_are(outcomes_of(last), outcome));
        assert(outcomes_of(last).last() == outcome);
    }
    assert forall|i: int| 0 <= i < runs.len() implies (#[trigger] runs[i]).len() == sizes[i] * (
    config@.http_request_retries + 1) by {
        let policy = region_policy(config, sizes[i]);
        assert(is_run_of(policy, runs[i]));
        lemma_retried_run_uses_budget(policy, outcomes_of(runs[i]), outcome);
    }
}

/// An upload whose every attempt fails in a way that rules out its host
/// goes through every region and tries each host once.
pub proof fn lemma_host_failures_try_every_host_once(
    config: Config,
    sizes: Seq<nat>,
    runs: Seq<Seq<Attempt>>,
)
    requires
        is_upload_run(config, sizes, runs),
        all_ended(runs, Outcome::StatusFailure(RetryKind::HostUnretryableError)),
        forall|i: int| 0 <= i < sizes.len() ==> #[trigger] sizes[i] <= usize::MAX,
    ensures
        runs.len() == sizes.len(),
        forall|i: int| 0 <= i < runs.len() ==> (#[trigger] runs[i]).len() == sizes[i],
{
    let outcome = Outcome::StatusFailure(RetryKind::HostUnretryableError);
    if runs.len() < sizes.len() {
        let last = runs.last();
        assert(all_are(outcomes_of(last), outcome));
        assert(outcomes_of(last).last() == outcome);
    }
    assert forall|i: int| 0 <= i < runs.len() implies (#[trigger] runs[i]).len() == sizes[i] by {
        let policy = region_policy(config, sizes[i]);
        assert(is_run_of(policy, runs[i]));
        lemma_host_failures_try_each_host_once(policy, outcomes_of(runs[i]));
    }
}

/// An upload whose every attempt fails in a way that rules out its region
/// goes through every region and makes one attempt in each that has a host.
pub proof fn lemma_zone_failures_try_every_region_once(
    config: Config,
    sizes: Seq<nat>,
    runs: Seq<Seq<Attempt>>,
)
    requires
        is_upload_run(config, sizes, runs),
        all_ended(runs, Outcome::StatusFailure(RetryKind::ZoneUnretryableError)),
        forall|i: int| 0 <= i < sizes.len() ==> 0 < #[trigger] sizes[i] <= usize::MAX,
    ensures
        runs.len() == sizes.len(),
        forall|i: int| 0 <= i < runs.len() ==> (#[trigger] runs[i]).len() == 1,
{
    let outcome = Outcome::StatusFailure(RetryKind::ZoneUnretryableError);
    if runs.len() < sizes.len() {
        let last = runs.last();
        assert(all_are(outcomes_of(last), outcome));
        assert(outcomes_of(last).last() == outcome);
    }
    assert forall|i: int| 0 <= i < runs.len() implies (#[trigger] runs[i]).len() == 1 by {
        let policy = region_policy(config, sizes[i]);
        let outcomes = outcomes_of(runs[i]);
        assert(is_run_of(policy, runs[i]));
        assert(all_are(outcomes, outcome));
        if outcomes.len() == 0 {
            assert(position_after(policy, outcomes) is None);
        } else {
            assert(outcomes[0] == outcome);
            lemma_final_outcome_is_last(policy, outcomes, 0);
        }
    }
}

/// Whether every attempt of every run was answered with a status from
/// `low` to `high`.
pub open spec fn all_answered(runs: Seq<Seq<Attempt>>, low: u16, high: u16) -> bool {
    forall|i: int, k: int|
        0 <= i < runs.len() && 0 <= k < runs[i].len() ==> ((#[trigger] runs[i][k]).status_code
            matches Some(code) && low <= code <= high)
}

/// An upload whose every attempt is answered with a status from 500 to 502
/// goes through every region, and in each through every host, once and then
/// again for each retry: with two regions of two hosts each and three
/// retries that is sixteen attempts.
pub proof fn lemma_answers_from_500_to_502(
    config: Config,
    sizes: Seq<nat>,
    runs: Seq<Seq<Attempt>>,
)
    requires
        is_upload_run(config, sizes, runs),
        all_recorded(runs),
        all_answered(runs, 500, 502),
        forall|i: int| 0 <= i < sizes.len() ==> #[trigger] sizes[i] <= usize::MAX,
    ensures
        runs.len() == sizes.len(),
        forall|i: int|
            0 <= i < runs.len() ==> (#[trigger] runs[i]).len() == sizes[i] * (
            config@.http_request_retries + 1),
{
    let outcome = Outcome::StatusFailure(RetryKind::RetryableError);
    assert(all_ended(runs, outcome)) by {
        assert forall|i: int| 0 <= i < runs.len() implies all_are(
            outcomes_of(#[trigger] runs[i]),
            outcome,
        ) by {
            assert forall|k: int| 0 <= k < outcomes_of(runs[i]).len() implies #[trigger] outcomes_of(
                runs[i],
            )[k] == outcome by {
                crate::client::lemma_status_decides_outcome(runs[i][k]);
            }
        }
    }
    lemma_retried_upload_tries_everything(config, sizes, runs, outcome);
}

/// An upload whose every attempt is answered with a status from 503 to 599
/// goes through every region and tries each host once: with two regions of
/// two hosts each that is four attempts.
pub proof fn lemma_answers_from_503_to_599(
    config: Config,
    sizes: Seq<nat>,
    runs: Seq<Seq<Attempt>>,
)
    requires
        is_upload_run(config, sizes, runs),
        all_recorded(runs),
        all_answered(runs, 503, 599),
        forall|i: int| 0 <= i < sizes.len() ==> #[trigger] sizes[i] <= usize::MAX,
    ensures
        runs.len() == sizes.len(),
        forall|i: int| 0 <= i < runs.len() ==> (#[trigger] runs[i]).len() == sizes[i],
{
    let outcome = Outcome::StatusFailure(RetryKind::HostUnretryableError);
    assert(all_ended(runs, outcome)) by {
        assert forall|i: int| 0 <= i < runs.len() implies all_are(
            outcomes_of(#[trigger] runs[i]),
            outcome,
        ) by {
            assert forall|k: int| 0 <= k < outcomes_of(runs[i]).len() implies #[trigger] outcomes_of(
                runs[i],
            )[k] == outcome by {
                crate::client::lemma_status_decides_outcome(runs[i][k]);
            }
        }
    }
    lemma_host_failures_try_every_host_once(config, sizes, runs);
}

/// An upload whose every attempt is answered with a status of 400 makes at
/// most one attempt in each region that it tries: no host is tried again,
/// and no second host of a region is tried.
pub proof fn lemma_answers_of_400(config: Config, sizes: Seq<nat>, runs: Seq<Seq<Attempt>>)
    requires
        is_upload_run(config, sizes, runs),
        all_recorded(runs),
        all_answered(runs, 400, 400),
        forall|i: int| 0 <= i < sizes.len() ==> #[trigger] sizes[i] <= usize::MAX,
    ensures
        forall|i: int| 0 <= i < runs.len() ==> (#[trigger] runs[i]).len() <= 1,
{
    assert forall|i: int| 0 <= i < runs.len() implies (#[trigger] runs[i]).len() <= 1 by {
        let policy = region_policy(config, sizes[i]);
        let outcomes = outcomes_of(runs[i]);
        assert(is_run_of(policy, runs[i]));
        if outcomes.len() > 1 {
            crate::client::lemma_status_decides_outcome(runs[i][0]);
            assert(outcomes[0] == runs[i][0].outcome);
            lemma_final_outcome_is_last(policy, outcomes, 0);
        }
    }
}

/// The parts that every form upload starts with, in the order in which the
/// service reads them: the token first, then what is added.
pub struct FormUploaderBuilder {
    parts: Vec<Part>,
}

/// The part that carries the data: a file named `file_name`, if that is
/// not empty, of the content type `mime`, or of binary data where none is
/// given.
pub open spec fn file_part(data: Seq<u8>, file_name: Seq<char>, mime: Option<Seq<char>>) -> PartView {
    PartView {
        name: "file"@,
        file_name: if file_name.len() == 0 {
            None
        } else {
            Some(file_name)
        },
        content_type: Some(
            match mime {
                Some(mime) => mime,
                None => "application/octet-stream"@,
            },
        ),
        data,
    }
}

/// A text field.
pub open spec fn field(name: Seq<char>, value: Seq<u8>) -> PartView {
    PartView { name, file_name: None, content_type: None, data: value }
}

/// The parts that follow those set before: the file, and the checksum
/// where one is given.
pub open spec fn data_parts(
    data: Seq<u8>,
    file_name: Seq<char>,
    mime: Option<Seq<char>>,
    crc32: Option<u32>,
) -> Seq<PartView> {
    match crc32 {
        Some(crc32) => seq![
            file_part(data, file_name, mime),
            field("crc32"@, vstd::utf8::encode_utf8(decimal(crc32 as nat))),
        ],
        None => seq![file_part(data, file_name, mime)],
    }
}

impl FormUploaderBuilder {
    /// The parts set so far.
    pub closed spec fn parts(&self) -> Seq<PartView> {
        self.parts.deep_view()
    }

    /// Starts a form with the field `token`.
    pub fn new(upload_token: &UploadToken) -> (r: Self)
        ensures
            r.parts() == seq![field("token"@, vstd::utf8::encode_utf8(upload_token.text()))],
    {
        let token = upload_token.to_string();
        let mut parts: Vec<Part> = Vec::new();
        parts.push(text_part("token", token.as_str()));
        assert(parts.deep_view() =~= seq![
            field("token"@, vstd::utf8::encode_utf8(upload_token.text())),
        ]);
        FormUploaderBuilder { parts }
    }

    fn with(self, part: Part) -> (r: Self)
        ensures
            r.parts() == self.parts().push(part.deep_view()),
    {
        let mut parts = self.parts;
        let ghost before = parts.deep_view();
        parts.push(part);
        assert(parts.deep_view() =~= before.push(part.deep_view()));
        FormUploaderBuilder { parts }
    }

    /// Adds the field `key`: the name under which the object is stored.
    pub fn key(self, key: &str) -> (r: Self)
        ensures
            r.parts() == self.parts().push(field("key"@, key.spec_bytes())),
    {
        self.with(text_part("key", key))
    }

    /// Adds a custom variable: the field `x:` with the variable's name.
    pub fn var(self, var_key: &str, var_value: &str) -> (r: Self)
        ensures
            r.parts() == self.parts().push(field("x:"@ + var_key@, var_value.spec_bytes())),
    {
        let name = concat("x:", var_key);
        self.with(text_part(name.as_str(), var_value))
    }

    /// Adds custom metadata: the field `x-qn-meta-` with the metadata's
    /// name.
    pub fn metadata(self, metadata_key: &str, metadata_value: &str) -> (r: Self)
        ensures
            r.parts() == self.parts().push(
                field("x-qn-meta-"@ + metadata_key@, metadata_value.spec_bytes()),
            ),
    {
        let name = concat("x-qn-meta-", metadata_key);
        self.with(text_part(name.as_str(), metadata_value))
    }

    /// Adds data that can be read twice, and finishes the form. With
    /// `checksum_enabled` the CRC-32 of the data follows it in the field
    /// `crc32`.
    pub fn seekable_stream(
        self,
        data: &[u8],
        file_name: &str,
        mime: Option<&str>,
        checksum_enabled: bool,
        boundary: &str,
    ) -> (r: FormUploader)
        ensures
            r.spec_content_type() == form_content_type(boundary@),
            r.spec_body() == form_body(
                self.parts() + data_parts(
                    data@,
                    file_name@,
                    mime.deep_view(),
                    if checksum_enabled {
                        Some(checksum_of(data@))
                    } else {
                        None
                    },
                ),
                boundary@,
            ),
    {
        let crc32 = if checksum_enabled {
            Some(checksum(data))
        } else {
            None
        };
        self.stream(data, file_name, mime, crc32, boundary)
    }

    /// Adds data that can be read once, and finishes the form. A checksum
    /// that is given follows the data in the field `crc32`.
    pub fn stream(
        self,
        data: &[u8],
        file_name: &str,
        mime: Option<&str>,
        crc32: Option<u32>,
        boundary: &str,
    ) -> (r: FormUploader)
        ensures
            r.spec_content_type() == form_content_type(boundary@),
            r.spec_body() == form_body(
                self.parts() + data_parts(data@, file_name@, mime.deep_view(), crc32),
                boundary@,
            ),
    {
        let mut content: Vec<u8> = Vec::new();
        content.extend_from_slice(data);
        assert(content@ =~= data@);
        let part = Part {
            name: "file".to_owned(),
            file_name: if file_name.is_empty() {
                None
            } else {
                Some(file_name.to_owned())
            },
            content_type: Some(
                match mime {
                    Some(mime) => mime.to_owned(),
                    None => "application/octet-stream".to_owned(),
                },
            ),
            data: content,
        };
        assert(part.deep_view() == file_part(data@, file_name@, mime.deep_view()));
        let ghost before = self.parts();
        let mut builder = self.with(part);
        match crc32 {
            Some(crc32) => {
                let digits = u64_to_decimal(crc32 as u64);
                builder = builder.with(text_part("crc32", digits.as_str()));
            },
            None => {},
        }
        assert(builder.parts() =~= before + data_parts(
            data@,
            file_name@,
            mime.deep_view(),
            crc32,
        ));
        builder.upload_multipart(boundary)
    }

    /// Finishes the form: writes the body with the given boundary.
    pub fn upload_multipart(self, boundary: &str) -> (r: FormUploader)
        ensures
            r.spec_content_type() == form_content_type(boundary@),
            r.spec_body() == form_body(self.parts(), boundary@),
    {
        FormUploader {
            content_type: make_content_type(boundary),
            body: encode_form(&self.parts, boundary),
        }
    }
}

/// A form that is ready to be sent.
#[must_use]
pub struct FormUploader {
    content_type: String,
    body: Vec<u8>,
}

/// What became of an upload: its result, the run on each region that was
/// tried, and the records of the attempts where logging is on.
pub struct Uploaded {
    /// The answer of the service, or the error of the last attempt.
    pub result: Result<UploadResponse, HTTPError>,
    /// The attempts on each region that was tried, in the order of the
    /// regions.
    pub runs: Vec<Vec<Attempt>>,
    /// One record for each attempt, in order, where logging is on.
    pub records: Vec<UploadLoggerRecord>,
}

/// Whether the records are those of the runs of an upload of the given
/// kind: one for each attempt where logging is on, none otherwise, and each
/// says how its request ended.
pub open spec fn records_fit(
    records: Seq<UploadLoggerRecord>,
    runs: Seq<Seq<Attempt>>,
    config: Config,
    up_type: UpType,
) -> bool {
    &&& records.len() == if config@.upload_logger_enabled {
        total_attempts(runs)
    } else {
        0
    }
    &&& forall|i: int|
        0 <= i < records.len() ==> (#[trigger] records[i]).wf() && records[i].up_type == up_type
}

/// Records the attempts of one run, where logging is on.
pub(crate) fn record_run(
    records: &mut Vec<UploadLoggerRecord>,
    attempts: &Vec<Attempt>,
    hosts: &Vec<String>,
    config: &Config,
    up_type: UpType,
    total_size: u64,
    now: u64,
)
    requires
        is_run_of(region_policy(*config, hosts@.len()), attempts@),
        forall|i: int| 0 <= i < attempts@.len() ==> is_recorded(#[trigger] attempts@[i]),
        forall|i: int|
            0 <= i < old(records)@.len() ==> (#[trigger] old(records)@[i]).wf() && old(records)@[i].up_type == up_type,
    ensures
        final(records)@.len() == old(records)@.len() + if config@.upload_logger_enabled {
            attempts@.len()
        } else {
            0
        },
        forall|i: int|
            0 <= i < final(records)@.len() ==> (#[trigger] final(records)@[i]).wf() && final(records)@[i].up_type == up_type,
{
    if !config.upload_logger_enabled() {
        return ;
    }
    let mut i: usize = 0;
    while i < attempts.len()
        invariant
            i <= attempts.len(),
            is_run_of(region_policy(*config, hosts@.len()), attempts@),
            forall|k: int| 0 <= k < attempts@.len() ==> is_recorded(#[trigger] attempts@[k]),
            records@.len() == old(records)@.len() + i,
            forall|k: int|
                0 <= k < records@.len() ==> (#[trigger] records@[k]).wf() && records@[k].up_type
                    == up_type,
        decreases attempts.len() - i,
    {
        proof {
            lemma_attempts_in_range(region_policy(*config, hosts@.len()), attempts@, i as int);
        }
        let host = hosts[attempts[i].host].as_str();
        records.push(record_attempt(&attempts[i], host, up_type, total_size, now));
        i += 1;
    }
}

impl FormUploader {
    /// The content type of the form.
    pub closed spec fn spec_content_type(&self) -> Seq<char> {
        self.content_type@
    }

    /// The body of the form.
    pub closed spec fn spec_body(&self) -> Seq<u8> {
        self.body@
    }

    /// The content type of the form.
    pub fn content_type(&self) -> (r: &str)
        ensures
            r@ == self.spec_content_type(),
    {
        self.content_type.as_str()
    }

    /// The body of the form.
    pub fn body(&self) -> (r: &[u8])
        ensures
            r@ == self.spec_body(),
    {
        self.body.as_slice()
    }

    /// Sends the form to the hosts of one region: a `POST` to `/` that may
    /// be sent again. The progress hook is told once of the attempt that
    /// succeeds: that all of the form's body was sent.
    pub fn send_form_request<C: HTTPCaller, H: Hooks>(
        &self,
        caller: &C,
        hooks: &mut H,
        config: &Config,
        up_urls: &Vec<String>,
    ) -> (r: (Result<UploadResponse, HTTPError>, Vec<Attempt>))
        ensures
            is_run_of(region_policy(*config, up_urls@.len()), r.1@),
            result_fits(r.0, r.1@),
            forall|i: int| 0 <= i < r.1@.len() ==> is_recorded(#[trigger] r.1@[i]),
            forall|i: int|
                0 <= i < r.1@.len() ==> is_sent_to(up_urls@, "/"@, None, #[trigger] r.1@[i]),
            forall|i: int|
                0 <= i < r.1@.len() ==> carries_form(
                    self.spec_content_type(),
                    self.spec_body(),
                    up_urls@,
                    *config,
                    #[trigger] r.1@[i],
                ),
            says_what_was_answered(r.0, r.1@),
            r.0 is Ok ==> r.1@.last().reported@ == seq![
                (self.spec_body().len() as u64, self.spec_body().len() as u64),
            ],
    {
        let query: Vec<Header> = Vec::new();
        let call = Call {
            method: Method::POST,
            path: "/",
            query: &query,
            content_type: self.content_type.as_str(),
            body: self.body.as_slice(),
            idempotent: true,
            token: Token::Anonymous,
        };
        let sent = send(caller, hooks, config, up_urls, &call);
        proof {
            assert(query.deep_view() =~= Seq::<(Seq<char>, Seq<char>)>::empty());
            assert forall|i: int| 0 <= i < sent.attempts@.len() implies is_sent_to(
                up_urls@,
                "/"@,
                None,
                #[trigger] sent.attempts@[i],
            ) by {
                assert(is_addressed(call, up_urls@, sent.attempts@[i]));
            }
            assert forall|i: int| 0 <= i < sent.attempts@.len() implies carries_form(
                self.spec_content_type(),
                self.spec_body(),
                up_urls@,
                *config,
                #[trigger] sent.attempts@[i],
            ) by {
                assert(carries(call, up_urls@, *config, sent.attempts@[i]));
            }
        }
        let result = match sent.result {
            Ok(response) => Ok(UploadResponse::from_body(response.body)),
            Err(error) => Err(error),
        };
        (result, sent.attempts)
    }

    /// Sends the form to the regions in order until one takes it. There
    /// must be a region to send to.
    ///
    /// Within a region the hosts are tried as [`send_form_request`] says. A
    /// region whose run fails in a way that another region may mend is
    /// followed by the next; a success and a final failure end the upload.
    /// When every region has failed, the error is that of the last.
    ///
    /// [`send_form_request`]: FormUploader::send_form_request
    pub fn send<C: HTTPCaller, H: Hooks>(
        &self,
        caller: &C,
        hooks: &mut H,
        config: &Config,
        up_urls_list: &Vec<Vec<String>>,
        now: u64,
    ) -> (r: Uploaded)
        requires
            up_urls_list@.len() > 0,
        ensures
            runs_view(r.runs).len() > 0,
            is_upload_run(*config, sizes_of(*up_urls_list), runs_view(r.runs)),
            upload_result_fits(r.result, runs_view(r.runs)),
            records_fit(r.records@, runs_view(r.runs), *config, UpType::Form),
            all_recorded(runs_view(r.runs)),
            all_sent_to(up_urls_list@, runs_view(r.runs)),
            all_carry_form(
                self.spec_content_type(),
                self.spec_body(),
                up_urls_list@,
                *config,
                runs_view(r.runs),
            ),
            r.result is Ok ==> says_what_was_answered(r.result, runs_view(r.runs).last()),
    {
        let mut runs: Vec<Vec<Attempt>> = Vec::new();
        let mut records: Vec<UploadLoggerRecord> = Vec::new();
        let mut prev_err = HTTPError {
            retry_kind: RetryKind::HostUnretryableError,
            error_kind: HTTPErrorKind::NoHostAvailable,
            request_id: None,
            host: None,
            method: Method::POST,
            url: String::new(),
        };
        let total_size: u64 = self.body.len() as u64;
        let ghost sizes = sizes_of(*up_urls_list);
        let mut i: usize = 0;
        proof {
            assert(runs_view(runs) =~= Seq::<Seq<Attempt>>::empty());
        }
        while i < up_urls_list.len()
            invariant
                i <= up_urls_list.len(),
                sizes == sizes_of(*up_urls_list),
                runs@.len() == i,
                forall|k: int|
                    0 <= k < i ==> is_run_of(
                        region_policy(*config, sizes[k]),
                        #[trigger] runs_view(runs)[k],
                    ),
                forall|k: int| 0 <= k < i ==> lets_next_region_try(#[trigger] runs_view(runs)[k]),
                upload_result_fits(Err::<UploadResponse, HTTPError>(prev_err), runs_view(runs)),
                records_fit(records@, runs_view(runs), *config, UpType::Form),
                all_recorded(runs_view(runs)),
                all_sent_to(up_urls_list@, runs_view(runs)),
                all_carry_form(
                    self.spec_content_type(),
                    self.spec_body(),
                    up_urls_list@,
                    *config,
                    runs_view(runs),
                ),
            decreases up_urls_list.len() - i,
        {
            let ghost before = runs_view(runs);
            let (result, attempts) = self.send_form_request(
                caller,
                hooks,
                config,
                &up_urls_list[i],
            );
            record_run(
                &mut records,
                &attempts,
                &up_urls_list[i],
                config,
                UpType::Form,
                total_size,
                now,
            );
            let ghost run = attempts@;
            runs.push(attempts);
            proof {
                let after = runs_view(runs);
                assert(after =~= before.push(run));
                assert(after.drop_last() =~= before);
                assert(after.last() == run);
                assert(sizes[i as int] == up_urls_list@[i as int]@.len());
            }
            match result {
                Ok(value) => {
                    return Uploaded { result: Ok(value), runs, records };
                },
                Err(err) => match err.retry_kind() {
                    RetryKind::UnretryableError => {
                        return Uploaded { result: Err(err), runs, records };
                    },
                    _ => {
                        prev_err = err;
                    },
                },
            }
            i += 1;
        }
        Uploaded { result: Err(prev_err), runs, records }
    }
}

} // verus!
