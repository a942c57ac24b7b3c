//! Uploading data block by block, and each block chunk by chunk, then
//! making the object from the blocks.

use crate::base64::{encode, urlsafe_text};
use crate::blocks::{
    BlockContext,
    covers,
    Piece,
    piece_size,
    pieces,
    pieces_from,
    spans_of,
    tokens_of,
};
use crate::client::{
    answer_fits,
    Attempt,
    Call,
    carries,
    headers_of,
    is_addressed,
    is_recorded,
    is_run_of,
    is_sent_to,
    query_of,
    send,
    Token,
};
use crate::config::Config;
use crate::crc32::{checksum, checksum_of};
use crate::form_uploader::{record_run, region_policy, says_what_was_answered, sizes_of};
use crate::http::{Header, Hooks, HTTPCaller, HTTPError, HTTPErrorKind, Method};
use crate::json::{get_string, get_unsigned, parse, string_at, text_nodes, unsigned_at};
use crate::retry::{Outcome, RetryKind};
use crate::string_map::{Pairs, StringMap};
use crate::text::{decimal, str_equal, u64_to_decimal};
use crate::upload_logger::{UploadLoggerRecord, UpType};
use crate::upload_response::UploadResponse;
use vstd::prelude::*;
use vstd::string::*;
use vstd::utf8::encode_utf8;

verus! {

/// The time that the token of a block must still be good for when the
/// block is handed on: twelve hours, in seconds.
pub const BLOCK_LIFETIME_MARGIN: u64 = 43200u64;

/// The time that the token of a recorded block must still be good for when
/// an upload is taken up again: two hours, in seconds.
pub const RESUME_LIFETIME_MARGIN: u64 = 7200u64;

/// The watcher of an upload's progress.
pub trait UploadProgress {
    /// Called when more bytes than ever before have been taken by the
    /// service: `uploaded` of `total`, where the total is known.
    fn on_progress(&mut self, uploaded: u64, total: Option<u64>);
}

/// A watcher that does not watch.
#[derive(Clone, Copy, Debug)]
pub struct NoProgress;

impl UploadProgress for NoProgress {
    fn on_progress(&mut self, uploaded: u64, total: Option<u64>) {
    }
}

/// Whether the values rise from each to the next.
pub open spec fn is_rising(values: Seq<u64>) -> bool {
    forall|i: int, j: int| 0 <= i < j < values.len() ==> values[i] < values[j]
}

/// The last value, or zero where there is none.
pub open spec fn last_or_zero(values: Seq<u64>) -> u64 {
    if values.len() == 0 {
        0
    } else {
        values.last()
    }
}

/// The progress of one upload as it was reported: each report says how
/// many bytes the service had taken, and each says more than the one
/// before.
pub struct ProgressLog {
    reports: Vec<u64>,
}

impl ProgressLog {
    /// The reports in order.
    pub closed spec fn reports(&self) -> Seq<u64> {
        self.reports@
    }

    /// What holds of every log: the reports rise, and none is zero.
    #[verifier::type_invariant]
    pub open spec fn well_formed(&self) -> bool {
        is_rising(self.reports()) && forall|i: int|
            0 <= i < self.reports().len() ==> self.reports()[i] > 0
    }

    /// A log without reports.
    pub fn new() -> (r: Self)
        ensures
            r.reports().len() == 0,
    {
        ProgressLog { reports: Vec::new() }
    }

    /// The reports in order.
    pub fn into_reports(self) -> (r: Vec<u64>)
        ensures
            r@ == self.reports(),
            is_rising(r@),
            forall|i: int| 0 <= i < r@.len() ==> r@[i] > 0,
    {
        proof {
            use_type_invariant(&self);
        }
        self.reports
    }

    /// Tells the watcher that `uploaded` of `total` bytes have been taken,
    /// unless as much was reported before: what is reported never falls.
    pub fn report<P: UploadProgress>(&mut self, observer: &mut P, uploaded: u64, total: u64)
        ensures
            final(self).reports() == if uploaded > last_or_zero(old(self).reports()) {
                old(self).reports().push(uploaded)
            } else {
                old(self).reports()
            },
            last_or_zero(final(self).reports()) >= uploaded,
            last_or_zero(final(self).reports()) >= last_or_zero(old(self).reports()),
    {
        let last = if self.reports.len() == 0 {
            0
        } else {
            self.reports[self.reports.len() - 1]
        };
        proof {
            use_type_invariant(&*self);
        }
        if uploaded > last {
            observer.on_progress(uploaded, Some(total));
            let mut reports: Vec<u64> = Vec::new();
            core::mem::swap(&mut self.reports, &mut reports);
            reports.push(uploaded);
            self.reports = reports;
        }
    }
}

/// What the service answers to a chunk: the token of the block so far,
/// how much of the block it has, and when the token expires.
#[derive(Debug)]
pub struct ChunkAnswer {
    pub ctx: String,
    pub offset: u64,
    pub expires_at: u64,
}

/// The mathematical value of a [`ChunkAnswer`].
pub struct ChunkAnswerView {
    pub ctx: Seq<char>,
    pub offset: u64,
    pub expires_at: u64,
}

impl DeepView for ChunkAnswer {
    type V = ChunkAnswerView;

    open spec fn deep_view(&self) -> ChunkAnswerView {
        ChunkAnswerView { ctx: self.ctx@, offset: self.offset, expires_at: self.expires_at }
    }
}

/// What the body of an answer to a chunk says: `None` unless it is a JSON
/// object with the text `ctx` and the numbers `offset` and `expired_at`.
pub open spec fn chunk_answer_of_body(body: Seq<u8>) -> Option<ChunkAnswerView> {
    match text_nodes(body) {
        Some(nodes) => match (
            string_at(nodes, "/ctx"@),
            unsigned_at(nodes, "/offset"@),
            unsigned_at(nodes, "/expired_at"@),
        ) {
            (Some(ctx), Some(offset), Some(expires_at)) => Some(
                ChunkAnswerView { ctx, offset, expires_at },
            ),
            _ => None,
        },
        None => None,
    }
}

/// Reads the body of an answer to a chunk.
pub fn read_chunk_answer(body: &[u8]) -> (r: Option<ChunkAnswer>)
    ensures
        r.deep_view() == chunk_answer_of_body(body@),
{
    let document = match parse(body) {
        Some(document) => document,
        None => {
            return None;
        },
    };
    let ctx = get_string(&document, "/ctx");
    let offset = get_unsigned(&document, "/offset");
    let expires_at = get_unsigned(&document, "/expired_at");
    match (ctx, offset, expires_at) {
        (Some(ctx), Some(offset), Some(expires_at)) => Some(
            ChunkAnswer { ctx, offset, expires_at },
        ),
        _ => None,
    }
}

/// The path that starts a block of `size` bytes.
pub open spec fn mkblk_path(size: nat) -> Seq<char> {
    "/mkblk/"@ + decimal(size)
}

/// The path that adds a chunk at `offset` to the block known by `ctx`.
pub open spec fn bput_path(ctx: Seq<char>, offset: nat) -> Seq<char> {
    "/bput/"@ + ctx + seq!['/'] + decimal(offset)
}

/// One named value in the path that makes the object: a slash, the name,
/// a slash, and the value in URL-safe Base64.
pub open spec fn path_entry(name: Seq<char>, value: Seq<char>) -> Seq<char> {
    seq!['/'] + name + seq!['/'] + urlsafe_text(encode_utf8(value))
}

/// The entries of the pairs in order, each name behind `prefix`.
pub open spec fn path_entries(prefix: Seq<char>, pairs: Pairs) -> Seq<char>
    decreases pairs.len(),
{
    if pairs.len() == 0 {
        Seq::empty()
    } else {
        path_entries(prefix, pairs.drop_last()) + path_entry(
            prefix + pairs.last().0,
            pairs.last().1,
        )
    }
}

/// An entry that is there only for a value that is given and not empty.
pub open spec fn optional_entry(name: Seq<char>, value: Option<Seq<char>>) -> Seq<char> {
    match value {
        Some(value) => if value.len() > 0 {
            path_entry(name, value)
        } else {
            Seq::empty()
        },
        None => Seq::empty(),
    }
}

/// The path that makes an object of `total` bytes from its blocks: the
/// size, then the object's name, its content type and its file name where
/// they are given, then the custom variables and the custom metadata.
pub open spec fn mkfile_path(
    total: nat,
    key: Option<Seq<char>>,
    mime: Option<Seq<char>>,
    file_name: Seq<char>,
    vars: Pairs,
    metadata: Pairs,
) -> Seq<char> {
    "/mkfile/"@ + decimal(total) + (match key {
        Some(key) => path_entry("key"@, key),
        None => Seq::empty(),
    }) + optional_entry("mimeType"@, mime) + optional_entry("fname"@, Some(file_name))
        + path_entries("x:"@, vars) + path_entries("x-qn-meta-"@, metadata)
}

/// The texts with commas between them.
pub open spec fn comma_joined(texts: Seq<Seq<char>>) -> Seq<char>
    decreases texts.len(),
{
    if texts.len() == 0 {
        Seq::empty()
    } else if texts.len() == 1 {
        texts[0]
    } else {
        comma_joined(texts.drop_last()) + seq![','] + texts.last()
    }
}

/// The body of the request that makes the object: the tokens of the
/// blocks in the order of the blocks, with commas between them.
pub open spec fn mkfile_body(contexts: Seq<BlockContext>) -> Seq<char> {
    comma_joined(tokens_of(contexts))
}

fn append_entry(path: &mut String, name: &str, value: &str)
    ensures
        final(path)@ == old(path)@ + path_entry(name@, value@),
{
    proof {
        reveal_strlit("/");
        assert("/"@ =~= seq!['/']);
    }
    let ghost before = path@;
    path.append("/");
    path.append(name);
    path.append("/");
    let encoded = encode(value.as_bytes());
    path.append(encoded.as_str());
    assert(path@ =~= before + path_entry(name@, value@));
}

fn append_entries(path: &mut String, prefix: &str, pairs: &StringMap)
    ensures
        final(path)@ == old(path)@ + path_entries(prefix@, pairs.deep_view()),
{
    let ghost before = path@;
    let ghost all = pairs.deep_view();
    let mut i: usize = 0;
    assert(all.take(0) =~= Pairs::empty());
    assert(path@ =~= before + path_entries(prefix@, all.take(0)));
    while i < pairs.len()
        invariant
            i <= all.len(),
            all == pairs.deep_view(),
            path@ == before + path_entries(prefix@, all.take(i as int)),
        decreases all.len() - i,
    {
        let entry = pairs.entry(i);
        let mut name = prefix.to_owned();
        name.append(entry.name.as_str());
        append_entry(path, name.as_str(), entry.value.as_str());
        proof {
            let next = all.take(i + 1);
            assert(next.drop_last() =~= all.take(i as int));
            assert(next.last() == all[i as int]);
            assert(path@ =~= before + path_entries(prefix@, next));
        }
        i += 1;
    }
    assert(all.take(i as int) =~= all);
}

/// Builds the path that makes an object from its blocks.
pub fn make_mkfile_path(
    total: u64,
    key: Option<&str>,
    mime: Option<&str>,
    file_name: &str,
    vars: &StringMap,
    metadata: &StringMap,
) -> (r: String)
    ensures
        r@ == mkfile_path(
            total as nat,
            key.deep_view(),
            mime.deep_view(),
            file_name@,
            vars.deep_view(),
            metadata.deep_view(),
        ),
{
    let mut path = "/mkfile/".to_owned();
    let digits = u64_to_decimal(total);
    path.append(digits.as_str());
    match key {
        Some(key) => {
            append_entry(&mut path, "key", key);
        },
        None => {},
    }
    match mime {
        Some(mime) => {
            if !mime.is_empty() {
                append_entry(&mut path, "mimeType", mime);
            }
        },
        None => {},
    }
    if !file_name.is_empty() {
        append_entry(&mut path, "fname", file_name);
    }
    append_entries(&mut path, "x:", vars);
    append_entries(&mut path, "x-qn-meta-", metadata);
    assert(path@ =~= mkfile_path(
        total as nat,
        key.deep_view(),
        mime.deep_view(),
        file_name@,
        vars.deep_view(),
        metadata.deep_view(),
    ));
    path
}

/// Builds the body of the request that makes the object.
pub fn make_mkfile_body(contexts: &Vec<BlockContext>) -> (r: String)
    ensures
        r@ == mkfile_body(contexts@),
{
    let mut body = String::new();
    let mut i: usize = 0;
    let ghost tokens = tokens_of(contexts@);
    proof {
        reveal_strlit(",");
        assert(","@ =~= seq![',']);
        assert(tokens.take(0) =~= Seq::<Seq<char>>::empty());
    }
    while i < contexts.len()
        invariant
            i <= contexts.len(),
            tokens == tokens_of(contexts@),
            body@ == comma_joined(tokens.take(i as int)),
            ","@ == seq![','],
        decreases contexts.len() - i,
    {
        if i > 0 {
            body.append(",");
        }
        body.append(contexts[i].ctx.as_str());
        proof {
            let next = tokens.take(i + 1);
            assert(next.drop_last() =~= tokens.take(i as int));
            assert(next.last() == contexts@[i as int].ctx@);
            if i == 0 {
                assert(next.len() == 1);
                assert(next[0] == tokens[0]);
                assert(tokens.take(0).len() == 0);
            }
            assert(body@ =~= comma_joined(next));
        }
        i += 1;
    }
    assert(tokens.take(i as int) =~= tokens);
    body
}

/// The query of a chunk request: the CRC-32 of the chunk where checksums
/// are on, nothing otherwise.
pub open spec fn chunk_query(chunk: Seq<u8>, checksum_enabled: bool) -> Pairs {
    if checksum_enabled {
        seq![("crc32"@, decimal(checksum_of(chunk) as nat))]
    } else {
        Seq::empty()
    }
}

/// Builds the query of a chunk request.
pub fn make_chunk_query(chunk: &[u8], checksum_enabled: bool) -> (r: Vec<Header>)
    ensures
        r.deep_view() == chunk_query(chunk@, checksum_enabled),
{
    let mut query: Vec<Header> = Vec::new();
    if checksum_enabled {
        let crc32 = checksum(chunk);
        query.push(Header { name: "crc32".to_owned(), value: u64_to_decimal(crc32 as u64) });
    }
    assert(query.deep_view() =~= chunk_query(chunk@, checksum_enabled));
    query
}

/// Builds the path of the request for the chunk that follows `sent` bytes
/// of a block of `block_size` bytes, of which the service knows `ctx`.
pub fn make_chunk_path(block_size: usize, sent: usize, ctx: &str) -> (r: String)
    ensures
        r@ == if sent == 0 {
            mkblk_path(block_size as nat)
        } else {
            bput_path(ctx@, sent as nat)
        },
{
    if sent == 0 {
        let mut path = "/mkblk/".to_owned();
        path.append(u64_to_decimal(block_size as u64).as_str());
        path
    } else {
        proof {
            reveal_strlit("/");
            assert("/"@ =~= seq!['/']);
        }
        let mut path = "/bput/".to_owned();
        path.append(ctx);
        path.append("/");
        path.append(u64_to_decimal(sent as u64).as_str());
        path
    }
}

/// Whether a failure says that the checksum of a chunk did not match: a
/// status code from 400 to 499 with the message `crc32 error`.
pub open spec fn is_checksum_failure(error: HTTPError) -> bool {
    error.error_kind matches HTTPErrorKind::ResponseStatusCodeError(code, message) && 400 <= code
        <= 499 && message@ == "crc32 error"@
}

/// Tells whether a failure says that the checksum of a chunk did not match.
pub fn is_checksum_error(error: &HTTPError) -> (r: bool)
    ensures
        r == is_checksum_failure(*error),
{
    match &error.error_kind {
        HTTPErrorKind::ResponseStatusCodeError(code, message) => 400 <= *code && *code <= 499
            && str_equal(message.as_str(), "crc32 error"),
        _ => false,
    }
}

/// What a request of an upload asked the service to do.
#[derive(Debug)]
pub enum Asked {
    /// To take a chunk of a block: where the block starts in the data, how
    /// long the block is, how much of it went before the chunk, and how long
    /// the chunk is.
    Chunk { block_offset: u64, block_size: usize, sent: usize, length: usize },
    /// To make the object from blocks: the tokens of the blocks as the
    /// request carried them.
    Object { blocks: String },
    /// To take all of the data in one form.
    Form,
}

/// One request of an upload: the region that it went to, its path, what it
/// asked for, and the attempts that it took.
#[derive(Debug)]
pub struct RequestTrace {
    /// The index of the region among the regions of the upload.
    pub region: usize,
    /// The path of the request.
    pub path: String,
    /// What the request asked for.
    pub asked: Asked,
    /// The attempts.
    pub attempts: Vec<Attempt>,
}

/// The chunk of `length` bytes that follows `sent` bytes of the block at
/// `block_offset`.
pub open spec fn chunk_of(data: Seq<u8>, block_offset: u64, sent: usize, length: usize) -> Seq<u8> {
    data.subrange(block_offset + sent, block_offset + sent + length)
}

/// Whether every attempt of a request went to a host of `hosts` with the
/// path of the request and this query.
pub open spec fn all_sent(hosts: Seq<String>, query: Option<Seq<char>>, trace: RequestTrace) -> bool {
    forall|k: int|
        0 <= k < trace.attempts@.len() ==> is_sent_to(
            hosts,
            trace.path@,
            query,
            #[trigger] trace.attempts@[k],
        )
}

/// Whether every attempt of a request was a `POST` of `body` under
/// `content_type` that proved its right with the upload token `token`.
pub open spec fn all_posted(
    body: Seq<u8>,
    content_type: Seq<char>,
    token: Seq<char>,
    trace: RequestTrace,
) -> bool {
    forall|k: int|
        0 <= k < trace.attempts@.len() ==> {
            let request = (#[trigger] trace.attempts@[k]).request;
            &&& request.method == Method::POST
            &&& request.body@ == body
            &&& request.headers.deep_view() == headers_of(content_type, Some("UpToken "@ + token))
        }
}

/// Whether a request is one of an upload of `data` to `hosts` under the
/// upload token `token`.
///
/// A chunk lies within its block and its block within the data; the first
/// chunk of a block starts the block and every other is added to it; and
/// every attempt carried exactly the bytes of the chunk and, as its query,
/// their CRC-32 where checksums are on, and nothing where they are off.
/// The request that makes the object carried the list of the blocks, and
/// it and a form have no query.
pub open spec fn asks_for(
    data: Seq<u8>,
    checksum_enabled: bool,
    token: Seq<char>,
    hosts: Seq<String>,
    trace: RequestTrace,
) -> bool {
    match trace.asked {
        Asked::Chunk { block_offset, block_size, sent, length } => {
            &&& 0 < length
            &&& sent + length <= block_size
            &&& block_offset + block_size <= data.len()
            &&& sent == 0 ==> trace.path@ == mkblk_path(block_size as nat)
            &&& sent > 0 ==> exists|ctx: Seq<char>|
                trace.path@ == #[trigger] bput_path(ctx, sent as nat)
            &&& all_sent(
                hosts,
                query_of(chunk_query(chunk_of(data, block_offset, sent, length), checksum_enabled)),
                trace,
            )
            &&& all_posted(
                chunk_of(data, block_offset, sent, length),
                "application/octet-stream"@,
                token,
                trace,
            )
        },
        Asked::Object { blocks } => all_sent(hosts, None, trace) && all_posted(
            encode_utf8(blocks@),
            "text/plain"@,
            token,
            trace,
        ),
        Asked::Form => trace.path@ == "/"@ && all_sent(hosts, None, trace),
    }
}

/// Whether every request is one of an upload of `data` to the region that
/// it names.
pub open spec fn requests_fit(
    data: Seq<u8>,
    checksum_enabled: bool,
    token: Seq<char>,
    up_urls_list: Seq<Vec<String>>,
    traces: Seq<RequestTrace>,
) -> bool {
    forall|i: int|
        0 <= i < traces.len() ==> {
            let trace = #[trigger] traces[i];
            trace.region < up_urls_list.len() && asks_for(
                data,
                checksum_enabled,
                token,
                up_urls_list[trace.region as int]@,
                trace,
            )
        }
}

/// Whether none of the requests is a form.
pub open spec fn no_forms(traces: Seq<RequestTrace>) -> bool {
    forall|i: int| 0 <= i < traces.len() ==> !((#[trigger] traces[i]).asked is Form)
}

/// Whether the requests went to the regions in turn: the first to the
/// first region, and each to the region of the one before it or to the
/// region that follows that one.
pub open spec fn regions_in_turn(traces: Seq<RequestTrace>) -> bool {
    &&& traces.len() > 0 ==> traces[0].region == 0
    &&& forall|i: int|
        0 <= i < traces.len() - 1 ==> {
            ||| (#[trigger] traces[i + 1]).region == traces[i].region
            ||| traces[i + 1].region == traces[i].region + 1
        }
}

/// Whether a request made an object of `total` bytes from `contexts`: its
/// path says how long the object is and what is told of it, and it carried
/// the tokens of the blocks in the order of the blocks.
pub open spec fn makes_object_of(
    key: Option<Seq<char>>,
    mime: Option<Seq<char>>,
    file_name: Seq<char>,
    vars: Pairs,
    metadata: Pairs,
    total: nat,
    contexts: Seq<BlockContext>,
    trace: RequestTrace,
) -> bool {
    &&& trace.asked matches Asked::Object { blocks } && blocks@ == mkfile_body(contexts)
    &&& trace.path@ == mkfile_path(total, key, mime, file_name, vars, metadata)
}

/// Whether a request made the object of `job` from `contexts`.
pub open spec fn makes_object(
    job: UploadJob,
    total: nat,
    contexts: Seq<BlockContext>,
    trace: RequestTrace,
) -> bool {
    makes_object_of(
        job.key.deep_view(),
        job.mime.deep_view(),
        job.file_name@,
        job.vars.deep_view(),
        job.metadata.deep_view(),
        total,
        contexts,
        trace,
    )
}

/// Whether each trace is a whole run over the hosts of its region.
pub open spec fn traces_fit(config: Config, sizes: Seq<nat>, traces: Seq<RequestTrace>) -> bool {
    forall|i: int|
        0 <= i < traces.len() ==> {
            let trace = #[trigger] traces[i];
            &&& trace.region < sizes.len()
            &&& is_run_of(region_policy(config, sizes[trace.region as int]), trace.attempts@)
            &&& forall|k: int|
                0 <= k < trace.attempts@.len() ==> is_recorded(#[trigger] trace.attempts@[k])
        }
}

/// Whether a result is that of the last request: a result is there only
/// after its last attempt succeeded; an error is that of its last attempt,
/// or it says that the answer of its last attempt could not be read or was
/// not to be believed.
pub open spec fn last_request_fits<T>(result: Result<T, HTTPError>, traces: Seq<RequestTrace>) -> bool {
    traces.len() > 0 && answer_fits(result, traces.last().attempts@)
}

/// What steers the upload of every block of one upload.
pub struct BlockSettings<'a> {
    /// The configuration.
    pub config: &'a Config,
    /// The text of the upload token.
    pub token: &'a str,
    /// Whether the CRC-32 of each chunk goes with it.
    pub checksum_enabled: bool,
    /// The time of the upload, in seconds since the Unix epoch.
    pub now: u64,
    /// The size of the data.
    pub total: u64,
}

fn malformed(kind: HTTPErrorKind) -> (r: HTTPError)
    ensures
        r.retry_kind == RetryKind::HostUnretryableError,
        r.error_kind == kind,
{
    HTTPError {
        retry_kind: RetryKind::HostUnretryableError,
        error_kind: kind,
        request_id: None,
        host: None,
        method: Method::POST,
        url: String::new(),
    }
}

/// Whether a token that expires at `expires_at` is too old at `now` to
/// build on: it has less than the margin left.
pub open spec fn expires_soon(expires_at: u64, now: u64, margin: u64) -> bool {
    expires_at < now + margin
}

fn is_expiring(expires_at: u64, now: u64, margin: u64) -> (r: bool)
    ensures
        r == expires_soon(expires_at, now, margin),
{
    if now > u64::MAX - margin {
        true
    } else {
        expires_at < now + margin
    }
}

/// Uploads one block to the hosts of one region, chunk by chunk.
///
/// The first chunk starts the block, every further chunk is added under
/// the token that the chunk before it was answered with. When the service
/// finds the checksum of a chunk wrong, or answers with a token that is
/// about to expire, the block is started again, once. Every chunk that the
/// service takes is reported as progress.
///
/// The block that comes back stands for exactly the bytes that were given:
/// it starts at `block_offset`, is as long as `block`, and bears the
/// CRC-32 of `block`.
fn upload_block<C: HTTPCaller, H: Hooks, P: UploadProgress>(
    caller: &C,
    hooks: &mut H,
    observer: &mut P,
    settings: &BlockSettings,
    up_urls_list: &Vec<Vec<String>>,
    region: usize,
    block: &[u8],
    block_offset: u64,
    log: &mut ProgressLog,
    traces: &mut Vec<RequestTrace>,
    Ghost(data): Ghost<Seq<u8>>,
) -> (r: Result<BlockContext, HTTPError>)
    requires
        0 < block@.len() <= u32::MAX,
        block_offset + block@.len() <= settings.total,
        settings.total == data.len(),
        block@ == data.subrange(block_offset as int, block_offset + block@.len()),
        last_or_zero(old(log).reports()) <= settings.total,
        region < up_urls_list@.len(),
        traces_fit(*settings.config, sizes_of(*up_urls_list), old(traces)@),
        requests_fit(data, settings.checksum_enabled, settings.token@, up_urls_list@, old(traces)@),
        chained(old(traces)@),
    ensures
        chained(final(traces)@),
        last_or_zero(final(log).reports()) <= settings.total,
        last_or_zero(final(log).reports()) >= last_or_zero(old(log).reports()),
        old(log).reports().is_prefix_of(final(log).reports()),
        traces_fit(*settings.config, sizes_of(*up_urls_list), final(traces)@),
        requests_fit(data, settings.checksum_enabled, settings.token@, up_urls_list@, final(traces)@),
        old(traces)@.is_prefix_of(final(traces)@),
        old(traces)@.len() < final(traces)@.len(),
        forall|i: int|
            old(traces)@.len() <= i < final(traces)@.len() ==> (#[trigger] final(traces)@[i]).region
                == region && !(final(traces)@[i].asked is Form) && starts_at(
                final(traces)@[i],
                block_offset,
            ),
        match r {
            Ok(context) => {
                &&& completes(final(traces)@.last(), context)
                &&& context.offset == block_offset
                &&& context.size == block@.len()
                &&& context.crc32 == checksum_of(block@)
                &&& last_or_zero(final(log).reports()) >= block_offset + block@.len()
            },
            Err(error) => last_request_fits(Err::<(), HTTPError>(error), final(traces)@),
        },
{
    let config = settings.config;
    let hosts = &up_urls_list[region];
    let ghost sizes = sizes_of(*up_urls_list);
    let chunk_size: usize = if config.upload_chunk_size() == 0 {
        block.len()
    } else {
        config.upload_chunk_size() as usize
    };
    let mut restarted = false;
    let mut sent: usize = 0;
    let mut ctx = String::new();
    let mut expires_at: u64 = 0;
    while sent < block.len()
        invariant
            sent <= block@.len(),
            0 < block@.len() <= u32::MAX,
            0 < chunk_size,
            block_offset + block@.len() <= settings.total,
            config == settings.config,
            last_or_zero(log.reports()) <= settings.total,
            last_or_zero(log.reports()) >= last_or_zero(old(log).reports()),
            sent > 0 ==> last_or_zero(log.reports()) >= block_offset + sent,
            old(log).reports().is_prefix_of(log.reports()),
            region < sizes.len(),
            sizes == sizes_of(*up_urls_list),
            sizes[region as int] == hosts@.len(),
            hosts@ == up_urls_list@[region as int]@,
            settings.total == data.len(),
            block@ == data.subrange(block_offset as int, block_offset + block@.len()),
            traces_fit(*settings.config, sizes, traces@),
            requests_fit(data, settings.checksum_enabled, settings.token@, up_urls_list@, traces@),
            old(traces)@.is_prefix_of(traces@),
            chained(traces@),
            sent > 0 ==> traces@.len() > 0 && traces@.last().region == region && taken_upto(
                traces@.last(),
                block_offset,
                block.len(),
                sent,
                ctx@,
                expires_at,
            ),
            sent > 0 ==> old(traces)@.len() < traces@.len(),
            forall|i: int|
                old(traces)@.len() <= i < traces@.len() ==> (#[trigger] traces@[i]).region == region
                    && !(traces@[i].asked is Form) && starts_at(traces@[i], block_offset),
        decreases
                (if restarted {
                    0int
                } else {
                    1int
                }),
                block@.len() - sent,
    {
        let length: usize = if block.len() - sent < chunk_size {
            block.len() - sent
        } else {
            chunk_size
        };
        let chunk = vstd::slice::slice_subrange(block, sent, sent + length);
        let path = make_chunk_path(block.len(), sent, ctx.as_str());
        let query = make_chunk_query(chunk, settings.checksum_enabled);
        let call = Call {
            method: Method::POST,
            path: path.as_str(),
            query: &query,
            content_type: "application/octet-stream",
            body: chunk,
            idempotent: true,
            token: Token::UpToken(settings.token),
        };
        let outcome = send(caller, hooks, config, hosts, &call);
        let ghost before = traces@;
        let ghost target = query_of(
            chunk_query(chunk_of(data, block_offset, sent, length), settings.checksum_enabled),
        );
        proof {
            assert(chunk@ =~= chunk_of(data, block_offset, sent, length));
            assert forall|k: int| 0 <= k < outcome.attempts@.len() implies is_sent_to(
                hosts@,
                path@,
                target,
                #[trigger] outcome.attempts@[k],
            ) by {
                assert(is_addressed(call, hosts@, outcome.attempts@[k]));
            }
            assert forall|k: int| 0 <= k < outcome.attempts@.len() implies {
                let request = (#[trigger] outcome.attempts@[k]).request;
                &&& request.method == Method::POST
                &&& request.body@ == chunk_of(data, block_offset, sent, length)
                &&& request.headers.deep_view() == headers_of(
                    "application/octet-stream"@,
                    Some("UpToken "@ + settings.token@),
                )
            } by {
                assert(carries(call, hosts@, *config, outcome.attempts@[k]));
            }
            if sent > 0 {
                assert(path@ == bput_path(ctx@, sent as nat));
            }
        }
        traces.push(
            RequestTrace {
                region,
                path,
                asked: Asked::Chunk { block_offset, block_size: block.len(), sent, length },
                attempts: outcome.attempts,
            },
        );
        proof {
            assert forall|i: int| 0 <= i < traces@.len() implies #[trigger] in_place(traces@, i) by {
                if i < before.len() {
                    assert(traces@[i] == before[i]);
                    if i > 0 {
                        assert(traces@[i - 1] == before[i - 1]);
                    }
                    assert(in_place(before, i));
                } else if i > 0 {
                    assert(traces@[i - 1] == before.last());
                }
            }
            assert forall|i: int| 0 <= i < traces@.len() implies {
                let trace = #[trigger] traces@[i];
                &&& trace.region < sizes.len()
                &&& is_run_of(
                    region_policy(*settings.config, sizes[trace.region as int]),
                    trace.attempts@,
                )
                &&& forall|k: int|
                    0 <= k < trace.attempts@.len() ==> is_recorded(#[trigger] trace.attempts@[k])
            } by {
                if i < before.len() {
                    assert(traces@[i] == before[i]);
                }
            }
            assert forall|i: int| 0 <= i < traces@.len() implies {
                let trace = #[trigger] traces@[i];
                trace.region < up_urls_list@.len() && asks_for(
                    data,
                    settings.checksum_enabled,
                    settings.token@,
                    up_urls_list@[trace.region as int]@,
                    trace,
                )
            } by {
                if i < before.len() {
                    assert(traces@[i] == before[i]);
                }
            }
        }
        let restart = match outcome.result {
            Ok(response) => {
                let answer = match read_chunk_answer(response.body.as_slice()) {
                    Some(answer) => answer,
                    None => {
                        return Err(malformed(HTTPErrorKind::JSONDecodeError));
                    },
                };
                if answer.offset != (sent + length) as u64 {
                    return Err(malformed(HTTPErrorKind::MaliciousResponse));
                }
                if !restarted && is_expiring(
                    answer.expires_at,
                    settings.now,
                    BLOCK_LIFETIME_MARGIN,
                ) {
                    true
                } else {
                    sent = sent + length;
                    ctx = answer.ctx;
                    expires_at = answer.expires_at;
                    log.report(observer, block_offset + sent as u64, settings.total);
                    false
                }
            },
            Err(error) => {
                if !restarted && is_checksum_error(&error) {
                    true
                } else {
                    return Err(error);
                }
            },
        };
        if restart {
            restarted = true;
            sent = 0;
            ctx = String::new();
        }
    }
    Ok(
        BlockContext {
            ctx,
            expires_at,
            crc32: checksum(block),
            offset: block_offset,
            size: block.len() as u32,
        },
    )
}

/// The size of the blocks that data is cut into under `config`: the block
/// size it names, or four mebibytes where it names none.
pub open spec fn block_size_of(config: Config) -> nat {
    if config@.upload_block_size == 0 {
        crate::config::FOUR_MEBIBYTES as nat
    } else {
        config@.upload_block_size as nat
    }
}

/// Whether a token that expires at `expires_at` is good for more than the
/// margin at `now`.
pub open spec fn outlasts(expires_at: u64, now: u64, margin: u64) -> bool {
    expires_at > now + margin
}

fn is_lasting(expires_at: u64, now: u64, margin: u64) -> (r: bool)
    ensures
        r == outlasts(expires_at, now, margin),
{
    if now > u64::MAX - margin {
        false
    } else {
        expires_at > now + margin
    }
}

/// Whether every block is good for more than the margin at `now`.
pub open spec fn all_fresh(contexts: Seq<BlockContext>, now: u64, margin: u64) -> bool {
    forall|i: int|
        0 <= i < contexts.len() ==> outlasts((#[trigger] contexts[i]).expires_at, now, margin)
}

/// Whether recorded blocks can be built on: they are the first blocks of
/// the data, in order, and each is good for more than two hours.
pub open spec fn is_usable(contexts: Seq<BlockContext>, total: nat, block_size: nat, now: u64) -> bool {
    &&& spans_of(contexts).is_prefix_of(pieces(total, block_size))
    &&& all_fresh(contexts, now, RESUME_LIFETIME_MARGIN)
}

/// Where the blocks end: behind the last of them, or at the start where
/// there is none.
pub open spec fn end_of(contexts: Seq<BlockContext>) -> nat {
    if contexts.len() == 0 {
        0
    } else {
        (contexts.last().offset + contexts.last().size) as nat
    }
}

/// The recorded blocks that an upload builds on: all of them where they
/// can be built on, none otherwise.
pub open spec fn resumed_of(
    recorded: Seq<BlockContext>,
    total: nat,
    block_size: nat,
    now: u64,
) -> Seq<BlockContext> {
    if is_usable(recorded, total, block_size, now) {
        recorded
    } else {
        Seq::empty()
    }
}

/// What the service answered to a request in the end, read as the answer
/// to a chunk; nothing unless the last attempt succeeded.
pub open spec fn answer_of(trace: RequestTrace) -> Option<ChunkAnswerView> {
    if trace.attempts@.len() > 0 && trace.attempts@.last().outcome == Outcome::Success {
        chunk_answer_of_body(trace.attempts@.last().body@)
    } else {
        None
    }
}

/// Whether `next`, where it adds a chunk to a block, follows the chunk
/// before it: `prev` carried the chunk that ends where that of `next`
/// starts, in the same block and to the same region, the service took it,
/// and `next` names the block by the token that the service answered `prev`
/// with.
pub open spec fn follows(prev: RequestTrace, next: RequestTrace) -> bool {
    match next.asked {
        Asked::Chunk { block_offset, block_size, sent, length } => sent > 0 ==> match prev.asked {
            Asked::Chunk { block_offset: b, block_size: s, sent: before, length: taken } => {
                &&& b == block_offset
                &&& s == block_size
                &&& before + taken == sent
                &&& prev.region == next.region
                &&& match answer_of(prev) {
                    Some(answer) => next.path@ == bput_path(answer.ctx, sent as nat),
                    None => false,
                }
            },
            _ => false,
        },
        _ => true,
    }
}

/// Whether the request at `i` is in its place: one that adds to a block
/// follows the chunk before it.
pub open spec fn in_place(traces: Seq<RequestTrace>, i: int) -> bool {
    if i == 0 {
        !(traces[0].asked matches Asked::Chunk { block_offset, block_size, sent, length } && sent
            > 0)
    } else {
        follows(traces[i - 1], traces[i])
    }
}

/// Whether the chunks of every block were sent one after the other, each
/// only after the service had taken the one before it.
pub open spec fn chained(traces: Seq<RequestTrace>) -> bool {
    forall|i: int| 0 <= i < traces.len() ==> #[trigger] in_place(traces, i)
}

/// Whether a request carried the chunk that ends `upto` bytes into the
/// block of `block_size` bytes at `block_offset`, and the service answered
/// it with the token `ctx` that expires at `expires_at`.
pub open spec fn taken_upto(
    trace: RequestTrace,
    block_offset: u64,
    block_size: usize,
    upto: usize,
    ctx: Seq<char>,
    expires_at: u64,
) -> bool {
    match trace.asked {
        Asked::Chunk { block_offset: b, block_size: s, sent, length } => {
            &&& b == block_offset
            &&& s == block_size
            &&& sent + length == upto
            &&& match answer_of(trace) {
                Some(answer) => answer.ctx == ctx && answer.expires_at == expires_at,
                None => false,
            }
        },
        _ => false,
    }
}

/// Whether a request completed the block that `context` stands for: it
/// carried the last chunk of the block, and the service answered it with
/// the token of the block.
pub open spec fn completes(trace: RequestTrace, context: BlockContext) -> bool {
    taken_upto(
        trace,
        context.offset,
        context.size as usize,
        context.size as usize,
        context.ctx@,
        context.expires_at,
    )
}

/// Whether one of the requests completed the block.
pub open spec fn taken(context: BlockContext, traces: Seq<RequestTrace>) -> bool {
    exists|i: int| 0 <= i < traces.len() && #[trigger] completes(traces[i], context)
}

/// Whether every block from the one at `from` on was completed by one of
/// the requests.
pub open spec fn all_taken(contexts: Seq<BlockContext>, from: int, traces: Seq<RequestTrace>) -> bool {
    forall|k: int| 0 <= k && from <= k < contexts.len() ==> taken(#[trigger] contexts[k], traces)
}

/// Blocks that were completed by requests stay completed when more
/// requests follow.
pub proof fn lemma_taken_stays(
    contexts: Seq<BlockContext>,
    from: int,
    before: Seq<RequestTrace>,
    after: Seq<RequestTrace>,
)
    requires
        all_taken(contexts, from, before),
        before.is_prefix_of(after),
    ensures
        all_taken(contexts, from, after),
{
    assert forall|k: int| 0 <= k && from <= k < contexts.len() implies taken(
        #[trigger] contexts[k],
        after,
    ) by {
        assert(taken(contexts[k], before));
        let i = choose|i: int| 0 <= i < before.len() && #[trigger] completes(before[i], contexts[k]);
        assert(after.subrange(0, before.len() as int)[i] == after[i]);
        assert(after[i] == before[i]);
        assert(completes(after[i], contexts[k]));
    }
}

/// A block that the last request completed joins the blocks that were
/// completed.
pub proof fn lemma_taken_grows(
    contexts: Seq<BlockContext>,
    from: int,
    traces: Seq<RequestTrace>,
    context: BlockContext,
)
    requires
        all_taken(contexts, from, traces),
        traces.len() > 0,
        completes(traces.last(), context),
    ensures
        all_taken(contexts.push(context), from, traces),
{
    let grown = contexts.push(context);
    assert forall|k: int| 0 <= k && from <= k < grown.len() implies taken(
        #[trigger] grown[k],
        traces,
    ) by {
        if k < contexts.len() {
            assert(grown[k] == contexts[k]);
            assert(taken(contexts[k], traces));
        } else {
            assert(completes(traces[traces.len() - 1], grown[k]));
        }
    }
}

/// Whether a request carried a chunk of the block at `block_offset`.
pub open spec fn starts_at(trace: RequestTrace, block_offset: u64) -> bool {
    trace.asked matches Asked::Chunk { block_offset: at, block_size, sent, length } && at
        == block_offset
}

/// Whether a request carried no chunk of a block that starts before
/// `start`.
pub open spec fn not_before(trace: RequestTrace, start: nat) -> bool {
    trace.asked matches Asked::Chunk { block_offset, block_size, sent, length } ==> block_offset
        >= start
}

/// Whether no chunk that went to the first region lies before `start`:
/// what was built on is not sent again.
pub open spec fn starts_behind(start: nat, traces: Seq<RequestTrace>) -> bool {
    forall|i: int|
        0 <= i < traces.len() ==> ((#[trigger] traces[i]).region == 0 ==> not_before(
            traces[i],
            start,
        ))
}

/// Checks whether recorded blocks can be built on, and finds where the
/// data that they leave out starts. `None` where they cannot be built on.
pub fn usable_blocks(recorded: &Vec<BlockContext>, total: u64, block_size: u32, now: u64) -> (r:
    Option<u64>)
    ensures
        match r {
            Some(end) => {
                &&& is_usable(recorded@, total as nat, block_size as nat, now)
                &&& end == end_of(recorded@)
                &&& end <= total
                &&& pieces(total as nat, block_size as nat) == spans_of(recorded@) + pieces_from(
                    end as nat,
                    total as nat,
                    block_size as nat,
                )
            },
            None => !is_usable(recorded@, total as nat, block_size as nat, now),
        },
{
    let ghost all = pieces(total as nat, block_size as nat);
    let ghost spans = spans_of(recorded@);
    if block_size == 0 {
        // data cannot be cut into blocks of no size: only nothing is a prefix of nothing
        proof {
            assert(all.len() == 0);
            assert(spans + all =~= spans);
        }
        return if recorded.len() == 0 {
            Some(0)
        } else {
            None
        };
    }
    let mut end: u64 = 0;
    let mut i: usize = 0;
    proof {
        assert(spans.take(0) =~= Seq::<Piece>::empty());
        assert(all =~= spans.take(0) + pieces_from(0, total as nat, block_size as nat));
    }
    while i < recorded.len()
        invariant
            i <= recorded.len(),
            block_size > 0,
            end <= total,
            all == pieces(total as nat, block_size as nat),
            spans == spans_of(recorded@),
            all == spans.take(i as int) + pieces_from(end as nat, total as nat, block_size as nat),
            end == end_of(recorded@.take(i as int)),
            forall|k: int|
                0 <= k < i ==> outlasts(
                    (#[trigger] recorded@[k]).expires_at,
                    now,
                    RESUME_LIFETIME_MARGIN,
                ),
        decreases recorded.len() - i,
    {
        let record = &recorded[i];
        if end >= total {
            proof {
                assert(pieces_from(end as nat, total as nat, block_size as nat).len() == 0);
                assert(all.len() == i);
                assert(spans.len() > all.len());
            }
            return None;
        }
        let size: u64 = if total - end < block_size as u64 {
            total - end
        } else {
            block_size as u64
        };
        proof {
            crate::blocks::lemma_pieces_extend(
                spans.take(i as int),
                end as nat,
                total as nat,
                block_size as nat,
            );
            assert(size == piece_size(end as nat, total as nat, block_size as nat));
            assert(spans[i as int] == (Piece {
                offset: record.offset as nat,
                size: record.size as nat,
            }));
        }
        if record.offset != end || record.size as u64 != size {
            proof {
                assert(all[i as int] != spans[i as int]);
            }
            return None;
        }
        if !is_lasting(record.expires_at, now, RESUME_LIFETIME_MARGIN) {
            return None;
        }
        proof {
            assert(spans.take(i + 1) =~= spans.take(i as int).push(spans[i as int]));
            assert(recorded@.take(i + 1).last() == recorded@[i as int]);
        }
        end = end + size;
        i += 1;
    }
    proof {
        assert(spans.take(i as int) =~= spans);
        assert(recorded@.take(i as int) =~= recorded@);
    }
    Some(end)
}

/// What an upload is told about the object that it makes.
pub struct UploadJob<'a> {
    /// The text of the upload token.
    pub token: &'a str,
    /// The name of the object, if the upload names it.
    pub key: Option<&'a str>,
    /// The custom variables.
    pub vars: &'a StringMap,
    /// The custom metadata.
    pub metadata: &'a StringMap,
    /// The content type, if the upload states it.
    pub mime: Option<&'a str>,
    /// The name of the file that the data comes from; empty for none.
    pub file_name: &'a str,
    /// Whether checksums go with the data.
    pub checksum_enabled: bool,
    /// The time of the upload, in seconds since the Unix epoch.
    pub now: u64,
}

/// Whether the blocks bear the checksums of the stretches of `data` that
/// they stand for.
pub open spec fn checksums_fit(contexts: Seq<BlockContext>, data: Seq<u8>) -> bool {
    forall|i: int|
        0 <= i < contexts.len() ==> {
            let context = #[trigger] contexts[i];
            context.offset + context.size <= data.len() && context.crc32 == checksum_of(
                data.subrange(context.offset as int, context.offset + context.size),
            )
        }
}

fn copy_contexts(contexts: &Vec<BlockContext>) -> (r: Vec<BlockContext>)
    ensures
        spans_of(r@) == spans_of(contexts@),
        tokens_of(r@) == tokens_of(contexts@),
        r@.len() == contexts@.len(),
        end_of(r@) == end_of(contexts@),
        forall|i: int|
            0 <= i < r@.len() ==> (#[trigger] r@[i]).crc32 == contexts@[i].crc32 && r@[i].offset
                == contexts@[i].offset && r@[i].size == contexts@[i].size,
{
    let mut r: Vec<BlockContext> = Vec::new();
    let mut i: usize = 0;
    while i < contexts.len()
        invariant
            i <= contexts.len(),
            r@.len() == i,
            forall|k: int|
                0 <= k < i ==> {
                    &&& (#[trigger] r@[k]).ctx@ == contexts@[k].ctx@
                    &&& r@[k].crc32 == contexts@[k].crc32
                    &&& r@[k].offset == contexts@[k].offset
                    &&& r@[k].size == contexts@[k].size
                },
        decreases contexts.len() - i,
    {
        r.push(contexts[i].clone());
        i += 1;
    }
    assert(spans_of(r@) =~= spans_of(contexts@));
    assert(tokens_of(r@) =~= tokens_of(contexts@));
    r
}

/// Uploads `data` to the hosts of one region: every block that `resumed`
/// does not hold, in order, then the request that makes the object from
/// all blocks.
///
/// On success the blocks cover the data in order, each bears the CRC-32 of
/// its stretch unless it was resumed, and all of the data has been reported
/// as taken.
fn upload_to_region<C: HTTPCaller, H: Hooks, P: UploadProgress>(
    caller: &C,
    hooks: &mut H,
    observer: &mut P,
    config: &Config,
    job: &UploadJob,
    up_urls_list: &Vec<Vec<String>>,
    region: usize,
    data: &[u8],
    resumed: Vec<BlockContext>,
    resumed_end: u64,
    log: &mut ProgressLog,
    traces: &mut Vec<RequestTrace>,
) -> (r: (Result<UploadResponse, HTTPError>, Vec<BlockContext>))
    requires
        data@.len() <= u64::MAX,
        region < up_urls_list@.len(),
        resumed_end <= data@.len(),
        pieces(data@.len(), block_size_of(*config)) == spans_of(resumed@) + pieces_from(
            resumed_end as nat,
            data@.len(),
            block_size_of(*config),
        ),
        last_or_zero(old(log).reports()) <= data@.len(),
        traces_fit(*config, sizes_of(*up_urls_list), old(traces)@),
        requests_fit(data@, job.checksum_enabled, job.token@, up_urls_list@, old(traces)@),
        chained(old(traces)@),
    ensures
        chained(final(traces)@),
        all_taken(r.1@, resumed@.len() as int, final(traces)@),
        last_or_zero(final(log).reports()) <= data@.len(),
        old(log).reports().is_prefix_of(final(log).reports()),
        traces_fit(*config, sizes_of(*up_urls_list), final(traces)@),
        requests_fit(data@, job.checksum_enabled, job.token@, up_urls_list@, final(traces)@),
        old(traces)@.is_prefix_of(final(traces)@),
        old(traces)@.len() < final(traces)@.len(),
        forall|i: int|
            old(traces)@.len() <= i < final(traces)@.len() ==> (#[trigger] final(traces)@[i]).region
                == region && !(final(traces)@[i].asked is Form),
        last_request_fits(r.0, final(traces)@),
        forall|i: int|
            old(traces)@.len() <= i < final(traces)@.len() ==> not_before(
                #[trigger] final(traces)@[i],
                resumed_end as nat,
            ),
        tokens_of(resumed@).is_prefix_of(tokens_of(r.1@)),
        r.0 is Ok ==> {
            &&& says_what_was_answered(r.0, final(traces)@.last().attempts@)
            &&& makes_object(*job, data@.len(), r.1@, final(traces)@.last())
            &&& covers(r.1@, data@.len(), block_size_of(*config))
            &&& last_or_zero(final(log).reports()) == data@.len()
            &&& resumed@.len() <= r.1@.len()
            &&& checksums_fit(r.1@.skip(resumed@.len() as int), data@)
        },
{
    let block_size: usize = if config.upload_block_size() == 0 {
        crate::config::FOUR_MEBIBYTES as usize
    } else {
        config.upload_block_size() as usize
    };
    let total: usize = data.len();
    let settings = BlockSettings {
        config,
        token: job.token,
        checksum_enabled: job.checksum_enabled,
        now: job.now,
        total: total as u64,
    };
    let ghost unit = block_size_of(*config);
    let ghost kept = resumed@.len();
    let ghost built_on = tokens_of(resumed@);
    let mut contexts = resumed;
    let mut offset: usize = resumed_end as usize;
    if offset > 0 {
        log.report(observer, offset as u64, total as u64);
    }
    proof {
        assert(contexts@.skip(kept as int) =~= Seq::<BlockContext>::empty());
    }
    while offset < total
        invariant
            offset <= total,
            total == data@.len(),
            data@.len() <= u64::MAX,
            0 < block_size <= u32::MAX,
            block_size == unit,
            unit == block_size_of(*config),
            settings.config == config,
            settings.total == total,
            settings.checksum_enabled == job.checksum_enabled,
            settings.token@ == job.token@,
            region < up_urls_list@.len(),
            kept <= contexts@.len(),
            pieces(total as nat, unit) == spans_of(contexts@) + pieces_from(
                offset as nat,
                total as nat,
                unit,
            ),
            checksums_fit(contexts@.skip(kept as int), data@),
            last_or_zero(log.reports()) <= total,
            offset > 0 ==> last_or_zero(log.reports()) >= offset,
            old(log).reports().is_prefix_of(log.reports()),
            traces_fit(*config, sizes_of(*up_urls_list), traces@),
            requests_fit(data@, job.checksum_enabled, job.token@, up_urls_list@, traces@),
            old(traces)@.is_prefix_of(traces@),
            forall|i: int|
                old(traces)@.len() <= i < traces@.len() ==> (#[trigger] traces@[i]).region == region
                    && !(traces@[i].asked is Form),
            resumed_end <= offset,
            forall|i: int|
                old(traces)@.len() <= i < traces@.len() ==> not_before(
                    #[trigger] traces@[i],
                    resumed_end as nat,
                ),
            built_on == tokens_of(resumed@),
            kept == resumed@.len(),
            chained(traces@),
            all_taken(contexts@, kept as int, traces@),
            built_on.is_prefix_of(tokens_of(contexts@)),
        decreases total - offset,
    {
        let length: usize = if total - offset < block_size {
            total - offset
        } else {
            block_size
        };
        let block = vstd::slice::slice_subrange(data, offset, offset + length);
        let ghost before = traces@;
        let taken = upload_block(
            caller,
            hooks,
            observer,
            &settings,
            up_urls_list,
            region,
            block,
            offset as u64,
            log,
            traces,
            Ghost(data@),
        );
        proof {
            lemma_taken_stays(contexts@, kept as int, before, traces@);
            assert forall|i: int| old(traces)@.len() <= i < traces@.len() implies (
            #[trigger] traces@[i]).region == region && !(traces@[i].asked is Form) by {
                if i < before.len() {
                    assert(traces@[i] == before[i]);
                }
            }
            assert forall|i: int| old(traces)@.len() <= i < traces@.len() implies not_before(
                #[trigger] traces@[i],
                resumed_end as nat,
            ) by {
                if i < before.len() {
                    assert(traces@[i] == before[i]);
                } else {
                    assert(starts_at(traces@[i], offset as u64));
                }
            }
        }
        let context = match taken {
            Ok(context) => context,
            Err(error) => {
                return (Err(error), contexts);
            },
        };
        proof {
            crate::blocks::lemma_pieces_extend(
                spans_of(contexts@),
                offset as nat,
                total as nat,
                unit,
            );
            let piece = Piece { offset: offset as nat, size: length as nat };
            assert(spans_of(contexts@.push(context)) =~= spans_of(contexts@).push(piece));
            lemma_taken_grows(contexts@, kept as int, traces@, context);
            let tail = contexts@.skip(kept as int);
            assert(contexts@.push(context).skip(kept as int) =~= tail.push(context));
            assert(tokens_of(contexts@.push(context)) =~= tokens_of(contexts@).push(context.ctx@));
        }
        contexts.push(context);
        offset = offset + length;
    }
    proof {
        assert(pieces_from(offset as nat, total as nat, unit).len() == 0);
        assert(spans_of(contexts@) + Seq::<Piece>::empty() =~= spans_of(contexts@));
    }
    let path = make_mkfile_path(
        total as u64,
        job.key,
        job.mime,
        job.file_name,
        job.vars,
        job.metadata,
    );
    let body = make_mkfile_body(&contexts);
    let query: Vec<Header> = Vec::new();
    let call = Call {
        method: Method::POST,
        path: path.as_str(),
        query: &query,
        content_type: "text/plain",
        body: body.as_str().as_bytes(),
        idempotent: true,
        token: Token::UpToken(job.token),
    };
    let outcome = send(caller, hooks, config, &up_urls_list[region], &call);
    let ghost before = traces@;
    proof {
        assert(query.deep_view() =~= Seq::<(Seq<char>, Seq<char>)>::empty());
        assert forall|k: int| 0 <= k < outcome.attempts@.len() implies is_sent_to(
            up_urls_list@[region as int]@,
            path@,
            None,
            #[trigger] outcome.attempts@[k],
        ) by {
            assert(is_addressed(call, up_urls_list@[region as int]@, outcome.attempts@[k]));
        }
        assert forall|k: int| 0 <= k < outcome.attempts@.len() implies {
            let request = (#[trigger] outcome.attempts@[k]).request;
            &&& request.method == Method::POST
            &&& request.body@ == encode_utf8(body@)
            &&& request.headers.deep_view() == headers_of(
                "text/plain"@,
                Some("UpToken "@ + job.token@),
            )
        } by {
            assert(carries(call, up_urls_list@[region as int]@, *config, outcome.attempts@[k]));
        }
    }
    traces.push(
        RequestTrace {
            region,
            path,
            asked: Asked::Object { blocks: body },
            attempts: outcome.attempts,
        },
    );
    proof {
        assert forall|i: int| 0 <= i < traces@.len() implies #[trigger] in_place(traces@, i) by {
            if i < before.len() {
                assert(traces@[i] == before[i]);
                if i > 0 {
                    assert(traces@[i - 1] == before[i - 1]);
                }
                assert(in_place(before, i));
            }
        }
        lemma_taken_stays(contexts@, kept as int, before, traces@);
        assert forall|i: int| 0 <= i < traces@.len() implies {
            let trace = #[trigger] traces@[i];
            trace.region < up_urls_list@.len() && asks_for(
                data@,
                job.checksum_enabled,
                job.token@,
                up_urls_list@[trace.region as int]@,
                trace,
            )
        } by {
            if i < before.len() {
                assert(traces@[i] == before[i]);
            }
        }
        assert forall|i: int| old(traces)@.len() <= i < traces@.len() implies not_before(
            #[trigger] traces@[i],
            resumed_end as nat,
        ) by {
            if i < before.len() {
                assert(traces@[i] == before[i]);
            }
        }
        let sizes = sizes_of(*up_urls_list);
        assert forall|i: int| 0 <= i < traces@.len() implies {
            let trace = #[trigger] traces@[i];
            &&& trace.region < sizes.len()
            &&& is_run_of(region_policy(*config, sizes[trace.region as int]), trace.attempts@)
            &&& forall|k: int|
                0 <= k < trace.attempts@.len() ==> is_recorded(#[trigger] trace.attempts@[k])
        } by {
            if i < before.len() {
                assert(traces@[i] == before[i]);
            }
        }
    }
    match outcome.result {
        Ok(response) => (Ok(UploadResponse::from_body(response.body)), contexts),
        Err(error) => (Err(error), contexts),
    }
}

/// What became of a resumable upload.
pub struct ResumableUploaded {
    /// The answer of the service, or the error that ended the upload.
    pub result: Result<UploadResponse, HTTPError>,
    /// The blocks that the object was made from, in the order of the data,
    /// where the upload succeeded; the blocks that the last region took
    /// before the upload failed, otherwise.
    pub contexts: Vec<BlockContext>,
    /// Every request with its attempts, in the order in which they were
    /// made.
    pub traces: Vec<RequestTrace>,
    /// What was reported as progress, in order.
    pub progress: Vec<u64>,
    /// One record for each attempt, in order, where logging is on.
    pub records: Vec<UploadLoggerRecord>,
}

/// The number of attempts of all requests together.
pub open spec fn attempts_of(traces: Seq<RequestTrace>) -> nat
    decreases traces.len(),
{
    if traces.len() == 0 {
        0
    } else {
        attempts_of(traces.drop_last()) + traces.last().attempts@.len()
    }
}

fn record_traces(
    traces: &Vec<RequestTrace>,
    up_urls_list: &Vec<Vec<String>>,
    config: &Config,
    total_size: u64,
    now: u64,
) -> (r: Vec<UploadLoggerRecord>)
    requires
        traces_fit(*config, sizes_of(*up_urls_list), traces@),
    ensures
        r@.len() == if config@.upload_logger_enabled {
            attempts_of(traces@)
        } else {
            0
        },
        forall|i: int|
            0 <= i < r@.len() ==> (#[trigger] r@[i]).wf() && r@[i].up_type == UpType::ChunkedV1,
{
    let mut records: Vec<UploadLoggerRecord> = Vec::new();
    let mut i: usize = 0;
    proof {
        assert(traces@.take(0) =~= Seq::<RequestTrace>::empty());
    }
    while i < traces.len()
        invariant
            i <= traces.len(),
            traces_fit(*config, sizes_of(*up_urls_list), traces@),
            records@.len() == if config@.upload_logger_enabled {
                attempts_of(traces@.take(i as int))
            } else {
                0
            },
            forall|k: int|
                0 <= k < records@.len() ==> (#[trigger] records@[k]).wf() && records@[k].up_type
                    == UpType::ChunkedV1,
        decreases traces.len() - i,
    {
        let trace = &traces[i];
        proof {
            assert(traces@[i as int].region < sizes_of(*up_urls_list).len());
            assert(traces@.take(i + 1).drop_last() =~= traces@.take(i as int));
            assert(traces@.take(i + 1).last() == traces@[i as int]);
        }
        record_run(
            &mut records,
            &trace.attempts,
            &up_urls_list[trace.region],
            config,
            UpType::ChunkedV1,
            total_size,
            now,
        );
        i += 1;
    }
    proof {
        assert(traces@.take(i as int) =~= traces@);
    }
    records
}

/// Uploads `data` in blocks, to the regions in order until one takes it.
///
/// Blocks that were recorded by an earlier run are built on in the first
/// region, if they are the first blocks of the data and each is good for
/// more than two hours; otherwise they are left aside. A region that fails in a way
/// that another region may mend is followed by the next, which starts from
/// the first block; a success and a final failure end the upload.
///
/// Whatever the service answers: the requests went to the regions in turn,
/// each took a whole run over the hosts of its region, every chunk went
/// with the CRC-32 of exactly its bytes where checksums are on, and what
/// was reported as progress rises and never passes the size of the data. An
/// upload that fails in a way that another region might mend has tried the
/// last region. The chunks of a block go one after the other, each under
/// the token that the service answered the one before it with, and blocks
/// that are built on are not sent to the first region again. Where the
/// upload succeeds, the last request made the object from blocks that
/// cover the data, named in the order of their offsets; every block that
/// was not built on was completed by one of the requests and bears the
/// CRC-32 of its stretch; the answer is what the body of the last attempt
/// says; and the last report is the size of the data.
#[verifier::rlimit(60)]
#[verifier::spinoff_prover]
pub fn upload<C: HTTPCaller, H: Hooks, P: UploadProgress>(
    caller: &C,
    hooks: &mut H,
    observer: &mut P,
    config: &Config,
    job: &UploadJob,
    up_urls_list: &Vec<Vec<String>>,
    data: &[u8],
    recorded: &Vec<BlockContext>,
) -> (r: ResumableUploaded)
    ensures
        traces_fit(*config, sizes_of(*up_urls_list), r.traces@),
        requests_fit(data@, job.checksum_enabled, job.token@, up_urls_list@, r.traces@),
        no_forms(r.traces@),
        chained(r.traces@),
        r.result is Ok ==> all_taken(
            r.contexts@,
            if r.traces@.last().region == 0 {
                resumed_of(recorded@, data@.len(), block_size_of(*config), job.now).len() as int
            } else {
                0
            },
            r.traces@,
        ),
        starts_behind(
            end_of(resumed_of(recorded@, data@.len(), block_size_of(*config), job.now)),
            r.traces@,
        ),
        r.result is Ok && r.traces@.last().region == 0 ==> tokens_of(
            resumed_of(recorded@, data@.len(), block_size_of(*config), job.now),
        ).is_prefix_of(tokens_of(r.contexts@)),
        is_rising(r.progress@),
        forall|i: int| 0 <= i < r.progress@.len() ==> 0 < #[trigger] r.progress@[i] <= data@.len(),
        r.result is Ok ==> {
            &&& says_what_was_answered(r.result, r.traces@.last().attempts@)
            &&& makes_object(*job, data@.len(), r.contexts@, r.traces@.last())
            &&& covers(r.contexts@, data@.len(), block_size_of(*config))
            &&& last_or_zero(r.progress@) == data@.len()
            &&& checksums_fit(
                r.contexts@.skip(
                    if r.traces@.last().region == 0 {
                        resumed_of(recorded@, data@.len(), block_size_of(*config), job.now).len() as int
                    } else {
                        0
                    },
                ),
                data@,
            )
        },
        up_urls_list@.len() == 0 ==> r.traces@.len() == 0 && (r.result matches Err(error)
            && error.error_kind is NoHostAvailable),
        up_urls_list@.len() > 0 ==> last_request_fits(r.result, r.traces@),
        regions_in_turn(r.traces@),
        up_urls_list@.len() > 0 && (r.result matches Err(error) && error.retry_kind
            != RetryKind::UnretryableError) ==> r.traces@.last().region == up_urls_list@.len() - 1,
        r.records@.len() == if config@.upload_logger_enabled {
            attempts_of(r.traces@)
        } else {
            0
        },
        forall|i: int|
            0 <= i < r.records@.len() ==> (#[trigger] r.records@[i]).wf() && r.records@[i].up_type
                == UpType::ChunkedV1,
{
    let block_size: u32 = if config.upload_block_size() == 0 {
        crate::config::FOUR_MEBIBYTES
    } else {
        config.upload_block_size()
    };
    let total: u64 = data.len() as u64;
    let mut log = ProgressLog::new();
    let mut traces: Vec<RequestTrace> = Vec::new();
    let mut contexts: Vec<BlockContext> = Vec::new();
    let mut prev_err = HTTPError {
        retry_kind: RetryKind::HostUnretryableError,
        error_kind: HTTPErrorKind::NoHostAvailable,
        request_id: None,
        host: None,
        method: Method::POST,
        url: String::new(),
    };
    let mut region: usize = 0;
    let mut done: Option<UploadResponse> = None;
    let mut stopped = false;
    let ghost mut kept_blocks: int = 0;
    while region < up_urls_list.len() && done.is_none() && !stopped
        invariant
            region <= up_urls_list@.len(),
            regions_in_turn(traces@),
            region == 0 ==> traces@.len() == 0 && !stopped && done is None,
            region > 0 ==> traces@.len() > 0 && traces@.last().region == region - 1,
            stopped ==> done is None && prev_err.retry_kind == RetryKind::UnretryableError,
            done is None && !stopped ==> prev_err.retry_kind != RetryKind::UnretryableError,
            total == data@.len(),
            block_size == block_size_of(*config),
            last_or_zero(log.reports()) <= total,
            traces_fit(*config, sizes_of(*up_urls_list), traces@),
            requests_fit(data@, job.checksum_enabled, job.token@, up_urls_list@, traces@),
            no_forms(traces@),
            chained(traces@),
            done is Some ==> all_taken(
                contexts@,
                if traces@.last().region == 0 {
                    resumed_of(recorded@, data@.len(), block_size_of(*config), job.now).len() as int
                } else {
                    0
                },
                traces@,
            ),
            starts_behind(
                end_of(resumed_of(recorded@, data@.len(), block_size_of(*config), job.now)),
                traces@,
            ),
            done is Some && traces@.last().region == 0 ==> tokens_of(
                resumed_of(recorded@, data@.len(), block_size_of(*config), job.now),
            ).is_prefix_of(tokens_of(contexts@)),
            region == 0 ==> prev_err.error_kind is NoHostAvailable,
            up_urls_list@.len() == 0 ==> done is None,
            region > 0 && done is None ==> last_request_fits(
                Err::<UploadResponse, HTTPError>(prev_err),
                traces@,
            ),
            done matches Some(response) ==> last_request_fits(
                Ok::<UploadResponse, HTTPError>(response),
                traces@,
            ),
            done is Some ==> {
                &&& says_what_was_answered(
                    Ok::<UploadResponse, HTTPError>(done->0),
                    traces@.last().attempts@,
                )
                &&& makes_object(*job, data@.len(), contexts@, traces@.last())
                &&& covers(contexts@, data@.len(), block_size_of(*config))
                &&& last_or_zero(log.reports()) == data@.len()
                &&& 0 <= kept_blocks <= contexts@.len()
                &&& kept_blocks == if traces@.last().region == 0 {
                    resumed_of(recorded@, data@.len(), block_size_of(*config), job.now).len() as int
                } else {
                    0
                }
                &&& checksums_fit(contexts@.skip(kept_blocks), data@)
            },
        decreases up_urls_list@.len() - region,
    {
        let ghost before = traces@;
        let (resumed, resumed_end) = if region == 0 {
            match usable_blocks(recorded, total, block_size, job.now) {
                Some(end) => (copy_contexts(recorded), end),
                None => (Vec::new(), 0),
            }
        } else {
            (Vec::new(), 0)
        };
        proof {
            if region == 0 {
                assert(resumed@.len() == resumed_of(
                    recorded@,
                    data@.len(),
                    block_size_of(*config),
                    job.now,
                ).len());
                assert(tokens_of(resumed@) == tokens_of(
                    resumed_of(recorded@, data@.len(), block_size_of(*config), job.now),
                ));
                assert(resumed_end == end_of(
                    resumed_of(recorded@, data@.len(), block_size_of(*config), job.now),
                ));
            }
            if resumed@.len() == 0 {
                assert(spans_of(resumed@) =~= Seq::<Piece>::empty());
                assert(resumed_end == 0 || spans_of(recorded@).len() == 0);
                if resumed_end == 0 {
                    assert(pieces(total as nat, block_size as nat) =~= spans_of(resumed@)
                        + pieces_from(0, total as nat, block_size as nat));
                }
            }
            kept_blocks = resumed@.len() as int;
        }
        let (result, taken) = upload_to_region(
            caller,
            hooks,
            observer,
            config,
            job,
            up_urls_list,
            region,
            data,
            resumed,
            resumed_end,
            &mut log,
            &mut traces,
        );
        contexts = taken;
        match result {
            Ok(response) => {
                done = Some(response);
            },
            Err(error) => {
                stopped = error.retry_kind() == RetryKind::UnretryableError;
                prev_err = error;
            },
        }
        proof {
            assert forall|i: int| 0 <= i < traces@.len() - 1 implies {
                ||| (#[trigger] traces@[i + 1]).region == traces@[i].region
                ||| traces@[i + 1].region == traces@[i].region + 1
            } by {
                if i + 1 < before.len() {
                    assert(traces@[i] == before[i]);
                    assert(traces@[i + 1] == before[i + 1]);
                } else if i < before.len() {
                    assert(traces@[i] == before[i]);
                    assert(before.last() == before[i]);
                }
            }
            if before.len() > 0 {
                assert(traces@[0] == before[0]);
            }
            assert forall|i: int| 0 <= i < traces@.len() implies !((
            #[trigger] traces@[i]).asked is Form) by {
                if i < before.len() {
                    assert(traces@[i] == before[i]);
                }
            }
            assert forall|i: int| 0 <= i < traces@.len() && (#[trigger] traces@[i]).region
                == 0 implies not_before(
                traces@[i],
                end_of(resumed_of(recorded@, data@.len(), block_size_of(*config), job.now)),
            ) by {
                if i < before.len() {
                    assert(traces@[i] == before[i]);
                }
            }
        }
        region += 1;
    }
    let records = record_traces(&traces, up_urls_list, config, total, job.now);
    let result = match done {
        Some(response) => Ok(response),
        None => Err(prev_err),
    };
    let progress = log.into_reports();
    proof {
        assert(starts_behind(
            end_of(resumed_of(recorded@, data@.len(), block_size_of(*config), job.now)),
            traces@,
        ));
        if result is Ok {
            assert(all_taken(
                contexts@,
                if traces@.last().region == 0 {
                    resumed_of(recorded@, data@.len(), block_size_of(*config), job.now).len() as int
                } else {
                    0
                },
                traces@,
            ));
            assert(says_what_was_answered(result, traces@.last().attempts@));
            assert(makes_object(*job, data@.len(), contexts@, traces@.last()));
            assert(covers(contexts@, data@.len(), block_size_of(*config)));
            assert(last_or_zero(progress@) == data@.len());
            assert(checksums_fit(contexts@.skip(kept_blocks), data@));
        }
    }
    ResumableUploaded { result, contexts, traces, progress, records }
}

} // verus!
