//! Uploading one object: choosing between a form upload and a resumable
//! upload, and carrying the chosen one out.

use crate::blocks::{BlockContext, covers, tokens_of};
use crate::client::{Attempt, is_recorded, is_run_of, is_sent_to};
use crate::config::Config;
use crate::crc32::checksum_of;
use crate::form_uploader::{
    all_carry_form,
    all_recorded,
    all_sent_to,
    says_what_was_answered,
    data_parts,
    field,
    FormUploader,
    FormUploaderBuilder,
    is_upload_run,
    region_policy,
    runs_view,
    sizes_of,
};
use crate::http::{kind_words, Hooks, HTTPCaller, HTTPError};
use crate::multipart::{form_body, form_content_type, PartView};
use crate::resumable_uploader::{
    all_taken,
    Asked,
    asks_for,
    chained,
    block_size_of,
    end_of,
    resumed_of,
    starts_behind,
    is_rising,
    last_or_zero,
    last_request_fits,
    makes_object_of,
    no_forms,
    ProgressLog,
    regions_in_turn,
    requests_fit,
    RequestTrace,
    traces_fit,
    upload,
    UploadJob,
    UploadProgress,
};
use crate::string_map::{Pairs, put, StringMap};
use crate::text::concat;
use crate::upload_logger::UploadLoggerRecord;
use crate::upload_response::UploadResponse;
use crate::upload_token::UploadToken;
use vstd::prelude::*;
use vstd::string::*;
use vstd::utf8::encode_utf8;

verus! {

/// When an upload is made in blocks.
#[derive(Clone, Copy, Debug, PartialEq, Eq, Structural)]
pub enum ResumablePolicy {
    /// When the data is larger than this many bytes, or of unknown size.
    Threshold(u32),
    /// Never: always in one form request.
    Never,
    /// Always.
    Always,
}

/// The way in which an upload is made.
#[derive(Clone, Copy, Debug, PartialEq, Eq, Structural)]
pub enum UploadMethod {
    /// In one form request.
    Form,
    /// In blocks.
    Resumable,
}

/// Why an upload failed.
#[derive(Debug)]
pub enum UploadError {
    /// The data could not be handled as asked.
    IOError(String),
    /// The service, or the way to it, failed.
    QiniuError(HTTPError),
}

/// Why an upload failed, in words.
pub open spec fn upload_error_words(error: UploadError) -> Seq<char> {
    match error {
        UploadError::IOError(message) => "Local IO error: "@ + message@,
        UploadError::QiniuError(error) => "Qiniu API error: "@ + kind_words(
            error.error_kind.deep_view(),
        ),
    }
}

impl UploadError {
    /// Says why the upload failed.
    pub fn to_string(&self) -> (r: String)
        ensures
            r@ == upload_error_words(*self),
    {
        match self {
            UploadError::IOError(message) => concat("Local IO error: ", message.as_str()),
            UploadError::QiniuError(error) => concat(
                "Qiniu API error: ",
                error.to_string().as_str(),
            ),
        }
    }
}

/// The way in which data of the given size, if it is known, is uploaded
/// under `policy`. `None` where a form upload is asked for and the size is
/// not known.
pub open spec fn method_for(policy: ResumablePolicy, known_size: Option<u64>) -> Option<
    UploadMethod,
> {
    match policy {
        ResumablePolicy::Never => match known_size {
            Some(_) => Some(UploadMethod::Form),
            None => None,
        },
        ResumablePolicy::Always => Some(UploadMethod::Resumable),
        ResumablePolicy::Threshold(threshold) => match known_size {
            Some(size) => if size <= threshold {
                Some(UploadMethod::Form)
            } else {
                Some(UploadMethod::Resumable)
            },
            None => Some(UploadMethod::Resumable),
        },
    }
}

/// Chooses the way in which data is uploaded.
pub fn choose_method(policy: ResumablePolicy, known_size: Option<u64>) -> (r: Option<UploadMethod>)
    ensures
        r == method_for(policy, known_size),
{
    match policy {
        ResumablePolicy::Never => match known_size {
            Some(_) => Some(UploadMethod::Form),
            None => None,
        },
        ResumablePolicy::Always => Some(UploadMethod::Resumable),
        ResumablePolicy::Threshold(threshold) => match known_size {
            Some(size) => if size <= threshold as u64 {
                Some(UploadMethod::Form)
            } else {
                Some(UploadMethod::Resumable)
            },
            None => Some(UploadMethod::Resumable),
        },
    }
}

/// What an uploader is set to.
pub struct Settings {
    pub bucket_name: Seq<char>,
    pub upload_token: Seq<char>,
    pub up_urls_list: Seq<Seq<Seq<char>>>,
    pub key: Option<Seq<char>>,
    pub vars: Pairs,
    pub metadata: Pairs,
    pub checksum_enabled: bool,
    pub resumable_policy: ResumablePolicy,
    pub max_concurrency: usize,
}

/// Uploads objects into one bucket, to the hosts of its regions.
pub struct ObjectUploader {
    bucket_name: String,
    upload_token: String,
    up_urls_list: Vec<Vec<String>>,
    config: Config,
    key: Option<String>,
    vars: StringMap,
    metadata: StringMap,
    checksum_enabled: bool,
    resumable_policy: ResumablePolicy,
    max_concurrency: usize,
}

/// What became of the upload of one object.
pub struct ObjectUploaded {
    /// The answer of the service, or why there is none.
    pub result: Result<UploadResponse, UploadError>,
    /// The way in which the upload was made, if one could be chosen.
    pub method: Option<UploadMethod>,
    /// Every request with its attempts, in the order in which they were
    /// made.
    pub traces: Vec<RequestTrace>,
    /// What was reported as progress, in order.
    pub progress: Vec<u64>,
    /// The blocks of a resumable upload.
    pub contexts: Vec<BlockContext>,
    /// One record for each attempt, in order, where logging is on.
    pub records: Vec<UploadLoggerRecord>,
}

/// The attempts of the requests, request by request.
pub open spec fn runs_of(traces: Seq<RequestTrace>) -> Seq<Seq<Attempt>> {
    Seq::new(traces.len(), |i: int| traces[i].attempts@)
}

/// Whether every request is a form sent to `/`, the first to the first
/// region and each other to the region after that of the one before it.
pub open spec fn all_forms(traces: Seq<RequestTrace>) -> bool {
    forall|i: int|
        0 <= i < traces.len() ==> {
            let trace = #[trigger] traces[i];
            trace.asked is Form && trace.region == i && trace.path@ == "/"@
        }
}

/// The result of an upload as the result of its last request.
pub open spec fn result_of_requests(result: Result<UploadResponse, UploadError>) -> Option<
    Result<UploadResponse, HTTPError>,
> {
    match result {
        Ok(response) => Some(Ok(response)),
        Err(UploadError::QiniuError(error)) => Some(Err(error)),
        Err(UploadError::IOError(_)) => None,
    }
}

/// The number of bytes that an upload has to send in all: the length of
/// the form's body for a form upload, the length of the data otherwise.
pub open spec fn sent_in_all(
    method: Option<UploadMethod>,
    settings: Settings,
    data: Seq<u8>,
    file_name: Seq<char>,
    mime: Option<Seq<char>>,
    boundary: Seq<char>,
) -> nat {
    if method == Some(UploadMethod::Form) {
        form_body(form_parts(settings, data, file_name, mime), boundary).len()
    } else {
        data.len()
    }
}

/// Whether `done` is what became of the upload of `data` by `uploader`.
///
/// The way of the upload is what the policy says for the size that was
/// known. Where none can be chosen, nothing is sent and the error says so.
/// Without regions nothing is sent and the error says that there was no
/// host. Otherwise the result is that of the last request, and an answer is
/// what the body of the last attempt says.
///
/// A form upload is one run of form requests over the regions in order,
/// each carrying the form of [`form_parts`]. A resumable upload sends no
/// form: its requests go to the regions in turn, every chunk with exactly
/// its bytes and their checksum, and on success the last request made the
/// object from blocks that cover the data. The chunks of a block go one
/// after the other, each under the token that the service answered the one
/// before it with, and every block of the object that was not built on was
/// completed by one of the requests. Recorded blocks that can be
/// built on are not sent to the first region again, and an object that the
/// first region makes starts with them.
///
/// What was reported as progress rises and never passes what there is to
/// send in all, which is the form's body for a form upload and the data
/// otherwise; after a success the last report is all of it.
pub open spec fn uploaded_by(
    uploader: ObjectUploader,
    data: Seq<u8>,
    known_size: Option<u64>,
    file_name: Seq<char>,
    mime: Option<Seq<char>>,
    boundary: Seq<char>,
    recorded: Seq<BlockContext>,
    now: u64,
    done: ObjectUploaded,
) -> bool {
    let settings = uploader.settings();
    let config = uploader.spec_config();
    let up_urls_list = uploader.spec_up_urls_list();
    &&& done.method == method_for(settings.resumable_policy, known_size)
    &&& done.method is None ==> {
        &&& done.result matches Err(UploadError::IOError(_))
        &&& done.traces@.len() == 0
        &&& done.progress@.len() == 0
        &&& done.contexts@.len() == 0
    }
    &&& done.method is Some ==> if up_urls_list@.len() == 0 {
        &&& done.result matches Err(UploadError::QiniuError(error)) && error.error_kind
            is NoHostAvailable
        &&& done.traces@.len() == 0
    } else {
        &&& result_of_requests(done.result) matches Some(result) && last_request_fits(
            result,
            done.traces@,
        ) && says_what_was_answered(result, done.traces@.last().attempts@)
    }
    &&& traces_fit(config, sizes_of(up_urls_list), done.traces@)
    &&& requests_fit(
        data,
        settings.checksum_enabled,
        settings.upload_token,
        up_urls_list@,
        done.traces@,
    )
    &&& done.method == Some(UploadMethod::Form) ==> {
        &&& all_forms(done.traces@)
        &&& is_upload_run(config, sizes_of(up_urls_list), runs_of(done.traces@))
        &&& all_carry_form(
            form_content_type(boundary),
            form_body(form_parts(settings, data, file_name, mime), boundary),
            up_urls_list@,
            config,
            runs_of(done.traces@),
        )
        &&& done.contexts@.len() == 0
    }
    &&& done.method == Some(UploadMethod::Resumable) ==> {
        &&& no_forms(done.traces@)
        &&& regions_in_turn(done.traces@)
        &&& chained(done.traces@)
        &&& done.result is Ok ==> all_taken(
            done.contexts@,
            if done.traces@.last().region == 0 {
                resumed_of(recorded, data.len(), block_size_of(config), now).len() as int
            } else {
                0
            },
            done.traces@,
        )
        &&& starts_behind(
            end_of(resumed_of(recorded, data.len(), block_size_of(config), now)),
            done.traces@,
        )
        &&& done.result is Ok && done.traces@.last().region == 0 ==> tokens_of(
            resumed_of(recorded, data.len(), block_size_of(config), now),
        ).is_prefix_of(tokens_of(done.contexts@))
        &&& done.result is Ok ==> {
            &&& makes_object_of(
                settings.key,
                mime,
                file_name,
                settings.vars,
                settings.metadata,
                data.len(),
                done.contexts@,
                done.traces@.last(),
            )
            &&& covers(done.contexts@, data.len(), block_size_of(config))
        }
    }
    &&& is_rising(done.progress@)
    &&& forall|i: int|
        0 <= i < done.progress@.len() ==> 0 < #[trigger] done.progress@[i] <= sent_in_all(
            done.method,
            settings,
            data,
            file_name,
            mime,
            boundary,
        )
    &&& done.result is Ok ==> last_or_zero(done.progress@) == sent_in_all(
        done.method,
        settings,
        data,
        file_name,
        mime,
        boundary,
    )
}

fn no_host() -> (r: HTTPError)
    ensures
        r.error_kind is NoHostAvailable,
{
    HTTPError {
        retry_kind: crate::retry::RetryKind::HostUnretryableError,
        error_kind: crate::http::HTTPErrorKind::NoHostAvailable,
        request_id: None,
        host: None,
        method: crate::http::Method::POST,
        url: String::new(),
    }
}

fn traces_of_runs(
    runs: Vec<Vec<Attempt>>,
    config: &Config,
    up_urls_list: &Vec<Vec<String>>,
    Ghost(data): Ghost<Seq<u8>>,
    Ghost(checksum_enabled): Ghost<bool>,
    Ghost(token): Ghost<Seq<char>>,
) -> (r: Vec<RequestTrace>)
    requires
        is_upload_run(*config, sizes_of(*up_urls_list), runs_view(runs)),
        all_recorded(runs_view(runs)),
        all_sent_to(up_urls_list@, runs_view(runs)),
    ensures
        traces_fit(*config, sizes_of(*up_urls_list), r@),
        requests_fit(data, checksum_enabled, token, up_urls_list@, r@),
        all_forms(r@),
        runs_of(r@) == runs_view(runs),
{
    let mut traces: Vec<RequestTrace> = Vec::new();
    let mut runs = runs;
    let ghost all = runs_view(runs);
    let ghost sizes = sizes_of(*up_urls_list);
    let count = runs.len();
    // The runs are taken from the back, so the traces come out reversed and
    // are turned round afterwards.
    while runs.len() > 0
        invariant
            runs@.len() <= count,
            count == all.len(),
            traces@.len() == count - runs@.len(),
            forall|k: int| 0 <= k < runs@.len() ==> (#[trigger] runs@[k])@ == all[k],
            is_upload_run(*config, sizes, all),
            all_recorded(all),
            all_sent_to(up_urls_list@, all),
            sizes == sizes_of(*up_urls_list),
            forall|i: int|
                0 <= i < traces@.len() ==> {
                    let trace = #[trigger] traces@[i];
                    &&& trace.region == count - 1 - i
                    &&& trace.attempts@ == all[count - 1 - i]
                    &&& trace.asked is Form
                    &&& trace.path@ == "/"@
                },
        decreases runs@.len(),
    {
        let region = runs.len() - 1;
        let attempts = runs.pop().unwrap();
        traces.push(RequestTrace { region, path: "/".to_owned(), asked: Asked::Form, attempts });
    }
    let mut ordered: Vec<RequestTrace> = Vec::new();
    while traces.len() > 0
        invariant
            traces@.len() + ordered@.len() == count,
            count == all.len(),
            is_upload_run(*config, sizes, all),
            all_recorded(all),
            all_sent_to(up_urls_list@, all),
            sizes == sizes_of(*up_urls_list),
            forall|i: int|
                0 <= i < traces@.len() ==> {
                    let trace = #[trigger] traces@[i];
                    &&& trace.region == count - 1 - i
                    &&& trace.attempts@ == all[count - 1 - i]
                    &&& trace.asked is Form
                    &&& trace.path@ == "/"@
                },
            forall|i: int|
                0 <= i < ordered@.len() ==> {
                    let trace = #[trigger] ordered@[i];
                    &&& trace.region == i
                    &&& trace.attempts@ == all[i]
                    &&& trace.asked is Form
                    &&& trace.path@ == "/"@
                },
        decreases traces@.len(),
    {
        let trace = traces.pop().unwrap();
        ordered.push(trace);
    }
    proof {
        assert forall|i: int| 0 <= i < ordered@.len() implies {
            let trace = #[trigger] ordered@[i];
            &&& trace.region < sizes.len()
            &&& is_run_of(region_policy(*config, sizes[trace.region as int]), trace.attempts@)
            &&& forall|k: int|
                0 <= k < trace.attempts@.len() ==> is_recorded(#[trigger] trace.attempts@[k])
        } by {
            let trace = ordered@[i];
            assert(is_run_of(region_policy(*config, sizes[i]), all[i]));
            assert forall|k: int| 0 <= k < trace.attempts@.len() implies is_recorded(
                #[trigger] trace.attempts@[k],
            ) by {
                assert(is_recorded(all[i][k]));
            }
        }
        assert forall|i: int| 0 <= i < ordered@.len() implies {
            let trace = #[trigger] ordered@[i];
            trace.region < up_urls_list@.len() && asks_for(
                data,
                checksum_enabled,
                token,
                up_urls_list@[trace.region as int]@,
                trace,
            )
        } by {
            let trace = ordered@[i];
            assert forall|k: int| 0 <= k < trace.attempts@.len() implies is_sent_to(
                up_urls_list@[i]@,
                trace.path@,
                None,
                #[trigger] trace.attempts@[k],
            ) by {
                assert(is_sent_to(up_urls_list@[i]@, "/"@, None, all[i][k]));
            }
        }
        assert(runs_of(ordered@) =~= all);
    }
    ordered
}

/// The fields of the pairs in order, each name behind `prefix`.
pub open spec fn fields_of(prefix: Seq<char>, pairs: Pairs) -> Seq<PartView> {
    Seq::new(pairs.len(), |i: int| field(prefix + pairs[i].0, encode_utf8(pairs[i].1)))
}

/// The parts of the form that uploads `data` under `settings`, in the order
/// in which the service reads them: the token, the name of the object where
/// it has one, the custom variables, the custom metadata, the data, and the
/// CRC-32 of the data where checksums are on.
pub open spec fn form_parts(
    settings: Settings,
    data: Seq<u8>,
    file_name: Seq<char>,
    mime: Option<Seq<char>>,
) -> Seq<PartView> {
    seq![field("token"@, encode_utf8(settings.upload_token))] + (match settings.key {
        Some(key) => seq![field("key"@, encode_utf8(key))],
        None => Seq::empty(),
    }) + fields_of("x:"@, settings.vars) + fields_of("x-qn-meta-"@, settings.metadata)
        + data_parts(
        data,
        file_name,
        mime,
        if settings.checksum_enabled {
            Some(checksum_of(data))
        } else {
            None
        },
    )
}

impl ObjectUploader {
    /// What the uploader is set to.
    pub closed spec fn settings(&self) -> Settings {
        Settings {
            bucket_name: self.bucket_name@,
            upload_token: self.upload_token@,
            up_urls_list: self.up_urls_list.deep_view(),
            key: self.key.deep_view(),
            vars: self.vars.deep_view(),
            metadata: self.metadata.deep_view(),
            checksum_enabled: self.checksum_enabled,
            resumable_policy: self.resumable_policy,
            max_concurrency: self.max_concurrency,
        }
    }

    /// The configuration of the uploader.
    pub closed spec fn spec_config(&self) -> Config {
        self.config
    }

    /// The lists of URLs that the uploader sends to, region by region.
    pub closed spec fn spec_up_urls_list(&self) -> Vec<Vec<String>> {
        self.up_urls_list
    }

    /// An uploader into `bucket_name` that proves its right with
    /// `upload_token` and sends to the given hosts, region by region.
    /// Checksums are on, and the threshold of the configuration decides
    /// between a form upload and a resumable upload.
    pub fn new(
        bucket_name: &str,
        upload_token: &str,
        up_urls_list: Vec<Vec<String>>,
        config: &Config,
    ) -> (r: Self)
        ensures
            r.spec_config()@ == config@,
            r.spec_up_urls_list() == up_urls_list,
            r.settings() == (Settings {
                bucket_name: bucket_name@,
                upload_token: upload_token@,
                up_urls_list: up_urls_list.deep_view(),
                key: None,
                vars: Pairs::empty(),
                metadata: Pairs::empty(),
                checksum_enabled: true,
                resumable_policy: ResumablePolicy::Threshold(config@.upload_threshold),
                max_concurrency: 0,
            }),
    {
        ObjectUploader {
            bucket_name: bucket_name.to_owned(),
            upload_token: upload_token.to_owned(),
            up_urls_list,
            config: config.clone(),
            key: None,
            vars: StringMap::new(),
            metadata: StringMap::new(),
            checksum_enabled: true,
            resumable_policy: ResumablePolicy::Threshold(config.upload_threshold()),
            max_concurrency: 0,
        }
    }

    /// Names the object.
    pub fn key(self, key: &str) -> (r: Self)
        ensures
            r.spec_config() == self.spec_config(),
            r.spec_up_urls_list() == self.spec_up_urls_list(),
            r.settings() == (Settings { key: Some(key@), ..self.settings() }),
    {
        let mut r = self;
        r.key = Some(key.to_owned());
        r
    }

    /// Sets a custom variable.
    pub fn var(self, key: &str, value: &str) -> (r: Self)
        ensures
            r.spec_config() == self.spec_config(),
            r.spec_up_urls_list() == self.spec_up_urls_list(),
            r.settings() == (Settings {
                vars: put(self.settings().vars, key@, value@),
                ..self.settings()
            }),
    {
        let mut r = self;
        r.vars.insert(key, value);
        r
    }

    /// Sets custom metadata.
    pub fn metadata(self, key: &str, value: &str) -> (r: Self)
        ensures
            r.spec_config() == self.spec_config(),
            r.spec_up_urls_list() == self.spec_up_urls_list(),
            r.settings() == (Settings {
                metadata: put(self.settings().metadata, key@, value@),
                ..self.settings()
            }),
    {
        let mut r = self;
        r.metadata.insert(key, value);
        r
    }

    /// Lets checksums go with the data.
    pub fn enable_checksum(self) -> (r: Self)
        ensures
            r.spec_config() == self.spec_config(),
            r.spec_up_urls_list() == self.spec_up_urls_list(),
            r.settings() == (Settings { checksum_enabled: true, ..self.settings() }),
    {
        let mut r = self;
        r.checksum_enabled = true;
        r
    }

    /// Sends the data without checksums.
    pub fn disable_checksum(self) -> (r: Self)
        ensures
            r.spec_config() == self.spec_config(),
            r.spec_up_urls_list() == self.spec_up_urls_list(),
            r.settings() == (Settings { checksum_enabled: false, ..self.settings() }),
    {
        let mut r = self;
        r.checksum_enabled = false;
        r
    }

    /// Uploads in blocks what is larger than `threshold` bytes.
    pub fn upload_threshold(self, threshold: u32) -> (r: Self)
        ensures
            r.spec_config() == self.spec_config(),
            r.spec_up_urls_list() == self.spec_up_urls_list(),
            r.settings() == (Settings {
                resumable_policy: ResumablePolicy::Threshold(threshold),
                ..self.settings()
            }),
    {
        let mut r = self;
        r.resumable_policy = ResumablePolicy::Threshold(threshold);
        r
    }

    /// Always uploads in blocks.
    pub fn always_be_resumable(self) -> (r: Self)
        ensures
            r.spec_config() == self.spec_config(),
            r.spec_up_urls_list() == self.spec_up_urls_list(),
            r.settings() == (Settings {
                resumable_policy: ResumablePolicy::Always,
                ..self.settings()
            }),
    {
        let mut r = self;
        r.resumable_policy = ResumablePolicy::Always;
        r
    }

    /// Always uploads in one form request.
    pub fn never_be_resumable(self) -> (r: Self)
        ensures
            r.spec_config() == self.spec_config(),
            r.spec_up_urls_list() == self.spec_up_urls_list(),
            r.settings() == (Settings {
                resumable_policy: ResumablePolicy::Never,
                ..self.settings()
            }),
    {
        let mut r = self;
        r.resumable_policy = ResumablePolicy::Never;
        r
    }

    /// Bounds the number of blocks that are on their way at once; zero
    /// leaves the bound to the pool that carries the upload.
    pub fn max_concurrency(self, concurrency: usize) -> (r: Self)
        ensures
            r.spec_config() == self.spec_config(),
            r.spec_up_urls_list() == self.spec_up_urls_list(),
            r.settings() == (Settings { max_concurrency: concurrency, ..self.settings() }),
    {
        let mut r = self;
        r.max_concurrency = concurrency;
        r
    }

    /// The lists of URLs that the uploader sends to, region by region.
    pub fn up_urls_list(&self) -> (r: &Vec<Vec<String>>)
        ensures
            *r == self.spec_up_urls_list(),
            r.deep_view() == self.settings().up_urls_list,
    {
        &self.up_urls_list
    }

    /// The bucket that the uploader uploads into.
    pub fn bucket_name(&self) -> (r: &str)
        ensures
            r@ == self.settings().bucket_name,
    {
        self.bucket_name.as_str()
    }

    /// The text of the upload token.
    pub fn upload_token(&self) -> (r: &str)
        ensures
            r@ == self.settings().upload_token,
    {
        self.upload_token.as_str()
    }

    /// Makes the form that uploads `data` in one request.
    pub fn make_form(&self, data: &[u8], file_name: &str, mime: Option<&str>, boundary: &str) -> (r:
        FormUploader)
        ensures
            r.spec_content_type() == form_content_type(boundary@),
            r.spec_body() == form_body(
                form_parts(self.settings(), data@, file_name@, mime.deep_view()),
                boundary@,
            ),
    {
        let token = UploadToken::from_token(self.upload_token.as_str());
        let mut builder = FormUploaderBuilder::new(&token);
        match &self.key {
            Some(key) => {
                builder = builder.key(key.as_str());
            },
            None => {},
        }
        let ghost head = builder.parts();
        let ghost vars = self.vars.deep_view();
        let mut i: usize = 0;
        proof {
            assert(head =~= seq![field("token"@, encode_utf8(self.settings().upload_token))] + (
            match self.settings().key {
                Some(key) => seq![field("key"@, encode_utf8(key))],
                None => Seq::empty(),
            }));
            assert(fields_of("x:"@, vars.take(0)) =~= Seq::<PartView>::empty());
            assert(head + Seq::<PartView>::empty() =~= head);
        }
        while i < self.vars.len()
            invariant
                i <= vars.len(),
                vars == self.vars.deep_view(),
                builder.parts() == head + fields_of("x:"@, vars.take(i as int)),
            decreases vars.len() - i,
        {
            let entry = self.vars.entry(i);
            builder = builder.var(entry.name.as_str(), entry.value.as_str());
            proof {
                assert(fields_of("x:"@, vars.take(i + 1)) =~= fields_of(
                    "x:"@,
                    vars.take(i as int),
                ).push(field("x:"@ + vars[i as int].0, encode_utf8(vars[i as int].1))));
                assert(builder.parts() =~= head + fields_of("x:"@, vars.take(i + 1)));
            }
            i += 1;
        }
        proof {
            assert(vars.take(i as int) =~= vars);
        }
        let ghost middle = builder.parts();
        let ghost metadata = self.metadata.deep_view();
        let mut j: usize = 0;
        proof {
            assert(fields_of("x-qn-meta-"@, metadata.take(0)) =~= Seq::<PartView>::empty());
            assert(middle + Seq::<PartView>::empty() =~= middle);
        }
        while j < self.metadata.len()
            invariant
                j <= metadata.len(),
                metadata == self.metadata.deep_view(),
                builder.parts() == middle + fields_of("x-qn-meta-"@, metadata.take(j as int)),
            decreases metadata.len() - j,
        {
            let entry = self.metadata.entry(j);
            builder = builder.metadata(entry.name.as_str(), entry.value.as_str());
            proof {
                assert(fields_of("x-qn-meta-"@, metadata.take(j + 1)) =~= fields_of(
                    "x-qn-meta-"@,
                    metadata.take(j as int),
                ).push(
                    field("x-qn-meta-"@ + metadata[j as int].0, encode_utf8(metadata[j as int].1)),
                ));
                assert(builder.parts() =~= middle + fields_of(
                    "x-qn-meta-"@,
                    metadata.take(j + 1),
                ));
            }
            j += 1;
        }
        proof {
            assert(metadata.take(j as int) =~= metadata);
            let crc32 = if self.checksum_enabled {
                Some(checksum_of(data@))
            } else {
                None
            };
            assert(builder.parts() + data_parts(data@, file_name@, mime.deep_view(), crc32)
                =~= form_parts(self.settings(), data@, file_name@, mime.deep_view()));
        }
        builder.seekable_stream(data, file_name, mime, self.checksum_enabled, boundary)
    }

    /// Uploads `data`.
    ///
    /// `known_size` is the size of the data where it was known before the
    /// data was read; it decides, with the uploader's policy, between a form
    /// upload and a resumable upload, as [`method_for`] says. A form upload
    /// sends the form that [`make_form`] makes, with `boundary` between its
    /// parts; `recorded` are the blocks that an earlier run of a resumable
    /// upload of the same data left behind.
    ///
    /// [`make_form`]: ObjectUploader::make_form
    ///
    /// What comes back is what [`uploaded_by`] says, whatever the service
    /// answers.
    pub fn upload_stream<C: HTTPCaller, H: Hooks, P: UploadProgress>(
        &self,
        caller: &C,
        hooks: &mut H,
        observer: &mut P,
        data: &[u8],
        known_size: Option<u64>,
        file_name: &str,
        mime: Option<&str>,
        boundary: &str,
        recorded: &Vec<BlockContext>,
        now: u64,
    ) -> (r: ObjectUploaded)
        ensures
            uploaded_by(
                *self,
                data@,
                known_size,
                file_name@,
                mime.deep_view(),
                boundary@,
                recorded@,
                now,
                r,
            ),
    {
        match choose_method(self.resumable_policy, known_size) {
            None => ObjectUploaded {
                result: Err(
                    UploadError::IOError("the size of the data must be known".to_owned()),
                ),
                method: None,
                traces: Vec::new(),
                progress: Vec::new(),
                contexts: Vec::new(),
                records: Vec::new(),
            },
            Some(UploadMethod::Form) => {
                if self.up_urls_list.len() == 0 {
                    return ObjectUploaded {
                        result: Err(UploadError::QiniuError(no_host())),
                        method: Some(UploadMethod::Form),
                        traces: Vec::new(),
                        progress: Vec::new(),
                        contexts: Vec::new(),
                        records: Vec::new(),
                    };
                }
                let uploader = self.make_form(data, file_name, mime, boundary);
                let sent = uploader.send(caller, hooks, &self.config, &self.up_urls_list, now);
                let traces = traces_of_runs(
                    sent.runs,
                    &self.config,
                    &self.up_urls_list,
                    Ghost(data@),
                    Ghost(self.checksum_enabled),
                    Ghost(self.upload_token@),
                );
                let mut log = ProgressLog::new();
                let result = match sent.result {
                    Ok(response) => {
                        let total = uploader.body().len() as u64;
                        log.report(observer, total, total);
                        Ok(response)
                    },
                    Err(error) => Err(UploadError::QiniuError(error)),
                };
                ObjectUploaded {
                    result,
                    method: Some(UploadMethod::Form),
                    traces,
                    progress: log.into_reports(),
                    contexts: Vec::new(),
                    records: sent.records,
                }
            },
            Some(UploadMethod::Resumable) => {
                let job = UploadJob {
                    token: self.upload_token.as_str(),
                    key: match &self.key {
                        Some(key) => Some(key.as_str()),
                        None => None,
                    },
                    vars: &self.vars,
                    metadata: &self.metadata,
                    mime,
                    file_name,
                    checksum_enabled: self.checksum_enabled,
                    now,
                };
                let sent = upload(
                    caller,
                    hooks,
                    observer,
                    &self.config,
                    &job,
                    &self.up_urls_list,
                    data,
                    recorded,
                );
                ObjectUploaded {
                    result: match sent.result {
                        Ok(response) => Ok(response),
                        Err(error) => Err(UploadError::QiniuError(error)),
                    },
                    method: Some(UploadMethod::Resumable),
                    traces: sent.traces,
                    progress: sent.progress,
                    contexts: sent.contexts,
                    records: sent.records,
                }
            },
        }
    }
}

} // verus!
