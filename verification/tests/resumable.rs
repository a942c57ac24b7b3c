use qiniu_ng::blocks::BlockContext;
use qiniu_ng::config::{Config, ConfigBuilder};
use qiniu_ng::http::{HTTPCaller, HTTPErrorKind, Header, NoHooks, Request, Response, TransportError};
use qiniu_ng::object_uploader::{choose_method, ObjectUploader, ResumablePolicy, UploadError, UploadMethod};
use qiniu_ng::resumable_uploader::{
    make_chunk_path, make_chunk_query, make_mkfile_body, make_mkfile_path, read_chunk_answer, upload,
    usable_blocks, Asked, NoProgress, UploadJob, UploadProgress,
};
use qiniu_ng::retry::RetryKind;
use qiniu_ng::string_map::StringMap;
use qiniu_ng::upload_logger::UpType;
use std::cell::{Cell, RefCell};

const NOW: u64 = 1_600_000_000;
const WEEK: u64 = 7 * 24 * 3600;

/// A service that takes blocks as the first version of the chunked protocol
/// says, and checks the checksum that comes with each chunk.
struct BlockService {
    requests: RefCell<Vec<(String, Vec<u8>)>>,
    next_ctx: Cell<usize>,
    wrong_checksums: Cell<usize>,
    wrong_zone_host: Option<&'static str>,
    expires_in: Cell<u64>,
}

impl BlockService {
    fn new() -> Self {
        BlockService {
            requests: RefCell::new(Vec::new()),
            next_ctx: Cell::new(0),
            wrong_checksums: Cell::new(0),
            wrong_zone_host: None,
            expires_in: Cell::new(WEEK),
        }
    }

    fn answer(status_code: u16, body: String) -> Result<Response, TransportError> {
        Ok(Response {
            status_code,
            headers: vec![Header { name: "X-Reqid".to_string(), value: "fake-req-id".to_string() }],
            body: body.into_bytes(),
            elapsed: 2,
        })
    }

    fn paths(&self) -> Vec<String> {
        self.requests.borrow().iter().map(|r| r.0.clone()).collect()
    }
}

impl HTTPCaller for BlockService {
    fn call(&self, request: &Request) -> Result<Response, TransportError> {
        let (host, target) = {
            let rest = &request.url["http://".len()..];
            let slash = rest.find('/').unwrap();
            (&rest[..slash], &rest[slash..])
        };
        self.requests.borrow_mut().push((target.to_string(), request.body.clone()));
        let authorization = request.headers.iter().find(|h| h.name == "Authorization").unwrap();
        assert_eq!(authorization.value, "UpToken the-token");
        if Some(host) == self.wrong_zone_host {
            return Self::answer(400, "{\"error\":\"incorrect zone, please use up2\"}".to_string());
        }
        if target.starts_with("/mkfile/") {
            return Self::answer(200, "{\"key\":\"abc\",\"hash\":\"def\"}".to_string());
        }
        let (path, query) = match target.split_once('?') {
            Some((path, query)) => (path, Some(query)),
            None => (target, None),
        };
        if let Some(query) = query {
            let sent: u32 = query.strip_prefix("crc32=").unwrap().parse().unwrap();
            assert_eq!(sent, crc32fast::hash(&request.body));
            if self.wrong_checksums.get() > 0 {
                self.wrong_checksums.set(self.wrong_checksums.get() - 1);
                return Self::answer(406, "{\"error\":\"crc32 error\"}".to_string());
            }
        }
        let before: usize = if path.starts_with("/mkblk/") {
            0
        } else {
            path.rsplit('/').next().unwrap().parse().unwrap()
        };
        let ctx = self.next_ctx.get();
        self.next_ctx.set(ctx + 1);
        Self::answer(
            200,
            format!(
                "{{\"ctx\":\"ctx{}\",\"offset\":{},\"expired_at\":{},\"crc32\":{}}}",
                ctx,
                before + request.body.len(),
                NOW + self.expires_in.get(),
                crc32fast::hash(&request.body)
            ),
        )
    }
}

struct Recorder {
    seen: Vec<(u64, Option<u64>)>,
}

impl UploadProgress for Recorder {
    fn on_progress(&mut self, uploaded: u64, total: Option<u64>) {
        self.seen.push((uploaded, total));
    }
}

fn small_blocks() -> Config {
    ConfigBuilder::default()
        .upload_block_size(8)
        .upload_chunk_size(3)
        .http_request_retries(0)
        .build()
}

fn job<'a>(vars: &'a StringMap, metadata: &'a StringMap, checksum_enabled: bool) -> UploadJob<'a> {
    UploadJob {
        token: "the-token",
        key: Some("the key"),
        vars,
        metadata,
        mime: Some("text/plain"),
        file_name: "",
        checksum_enabled,
        now: NOW,
    }
}

fn data(length: usize) -> Vec<u8> {
    (0..length).map(|i| (i * 7 + 3) as u8).collect()
}

fn one_region() -> Vec<Vec<String>> {
    vec![vec!["http://up1".to_string()]]
}

#[test]
fn blocks_are_uploaded_in_chunks_and_made_into_a_file_in_order() {
    let service = BlockService::new();
    let config = small_blocks();
    let (vars, metadata) = (StringMap::new(), StringMap::new());
    let content = data(20);
    let mut progress = Recorder { seen: Vec::new() };
    let uploaded = upload(
        &service,
        &mut NoHooks,
        &mut progress,
        &config,
        &job(&vars, &metadata, true),
        &one_region(),
        &content,
        &Vec::new(),
    );
    let response = uploaded.result.unwrap();
    assert_eq!(response.key(), Some("abc"));
    assert_eq!(response.hash(), Some("def"));
    let crc = |from: usize, to: usize| crc32fast::hash(&content[from..to]);
    assert_eq!(
        service.paths(),
        vec![
            format!("/mkblk/8?crc32={}", crc(0, 3)),
            format!("/bput/ctx0/3?crc32={}", crc(3, 6)),
            format!("/bput/ctx1/6?crc32={}", crc(6, 8)),
            format!("/mkblk/8?crc32={}", crc(8, 11)),
            format!("/bput/ctx3/3?crc32={}", crc(11, 14)),
            format!("/bput/ctx4/6?crc32={}", crc(14, 16)),
            format!("/mkblk/4?crc32={}", crc(16, 19)),
            format!("/bput/ctx6/3?crc32={}", crc(19, 20)),
            "/mkfile/20/key/dGhlIGtleQ==/mimeType/dGV4dC9wbGFpbg==".to_string(),
        ]
    );
    assert_eq!(service.requests.borrow().last().unwrap().1, b"ctx2,ctx5,ctx7".to_vec());
    let contexts: Vec<(String, u64, u32, u32)> = uploaded
        .contexts
        .iter()
        .map(|c| (c.ctx.clone(), c.offset, c.size, c.crc32))
        .collect();
    assert_eq!(
        contexts,
        vec![
            ("ctx2".to_string(), 0, 8, crc(0, 8)),
            ("ctx5".to_string(), 8, 8, crc(8, 16)),
            ("ctx7".to_string(), 16, 4, crc(16, 20)),
        ]
    );
    assert_eq!(uploaded.progress, vec![3, 6, 8, 11, 14, 16, 19, 20]);
    assert_eq!(
        progress.seen,
        uploaded.progress.iter().map(|p| (*p, Some(20))).collect::<Vec<_>>()
    );
    assert_eq!(uploaded.traces.len(), 9);
    assert!(uploaded.traces.iter().all(|t| t.region == 0 && t.attempts.len() == 1));
    let addressed: Vec<String> = uploaded.traces.iter().map(|t| t.attempts[0].request.url.clone()).collect();
    let expected: Vec<String> = service.paths().iter().map(|p| format!("http://up1{}", p)).collect();
    assert_eq!(addressed, expected);
    assert_eq!(uploaded.traces[0].path, "/mkblk/8");
    assert_eq!(uploaded.traces[4].path, "/bput/ctx3/3");
    let chunks: Vec<(u64, usize, usize, usize)> = uploaded
        .traces
        .iter()
        .filter_map(|t| match &t.asked {
            Asked::Chunk { block_offset, block_size, sent, length } => {
                Some((*block_offset, *block_size, *sent, *length))
            }
            _ => None,
        })
        .collect();
    assert_eq!(
        chunks,
        vec![
            (0, 8, 0, 3),
            (0, 8, 3, 3),
            (0, 8, 6, 2),
            (8, 8, 0, 3),
            (8, 8, 3, 3),
            (8, 8, 6, 2),
            (16, 4, 0, 3),
            (16, 4, 3, 1),
        ]
    );
    match &uploaded.traces[8].asked {
        Asked::Object { blocks } => assert_eq!(blocks, "ctx2,ctx5,ctx7"),
        other => panic!("the last request made no object: {:?}", other),
    }
    assert_eq!(uploaded.traces[8].path, "/mkfile/20/key/dGhlIGtleQ==/mimeType/dGV4dC9wbGFpbg==");
    assert_eq!(uploaded.records.len(), 9);
    assert!(uploaded.records.iter().all(|r| r.up_type == UpType::ChunkedV1
        && r.status_code == Some(200)
        && r.total_size == 20));
}

#[test]
fn chunks_go_without_checksum_when_checksums_are_off() {
    let service = BlockService::new();
    let config = ConfigBuilder::default().upload_logger(false).build();
    let (vars, metadata) = (StringMap::new(), StringMap::new());
    let content = data(10);
    let uploaded = upload(
        &service,
        &mut NoHooks,
        &mut NoProgress,
        &config,
        &job(&vars, &metadata, false),
        &one_region(),
        &content,
        &Vec::new(),
    );
    assert!(uploaded.result.is_ok());
    assert_eq!(
        service.paths(),
        vec![
            "/mkblk/10".to_string(),
            "/mkfile/10/key/dGhlIGtleQ==/mimeType/dGV4dC9wbGFpbg==".to_string(),
        ]
    );
    assert_eq!(uploaded.progress, vec![10]);
    assert!(uploaded.records.is_empty());
}

#[test]
fn empty_data_is_made_into_a_file_without_blocks() {
    let service = BlockService::new();
    let (vars, metadata) = (StringMap::new(), StringMap::new());
    let uploaded = upload(
        &service,
        &mut NoHooks,
        &mut NoProgress,
        &small_blocks(),
        &job(&vars, &metadata, true),
        &one_region(),
        &[],
        &Vec::new(),
    );
    assert!(uploaded.result.is_ok());
    assert_eq!(service.paths().len(), 1);
    assert!(uploaded.contexts.is_empty());
    assert!(uploaded.progress.is_empty());
}

#[test]
fn a_wrong_checksum_starts_the_block_again_once() {
    let service = BlockService::new();
    service.wrong_checksums.set(1);
    let (vars, metadata) = (StringMap::new(), StringMap::new());
    let content = data(8);
    let uploaded = upload(
        &service,
        &mut NoHooks,
        &mut NoProgress,
        &small_blocks(),
        &job(&vars, &metadata, true),
        &one_region(),
        &content,
        &Vec::new(),
    );
    assert!(uploaded.result.is_ok());
    let paths = service.paths();
    assert_eq!(paths.len(), 5);
    assert!(paths[0].starts_with("/mkblk/8?"));
    assert!(paths[1].starts_with("/mkblk/8?"));
    assert_eq!(uploaded.progress, vec![3, 6, 8]);

    let twice = BlockService::new();
    twice.wrong_checksums.set(2);
    let failed = upload(
        &twice,
        &mut NoHooks,
        &mut NoProgress,
        &small_blocks(),
        &job(&vars, &metadata, true),
        &one_region(),
        &content,
        &Vec::new(),
    );
    let error = failed.result.unwrap_err();
    assert!(matches!(error.error_kind(), HTTPErrorKind::ResponseStatusCodeError(406, _)));
    assert_eq!(error.retry_kind(), RetryKind::UnretryableError);
    assert_eq!(twice.paths().len(), 2);
    assert!(failed.progress.is_empty());
}

#[test]
fn a_wrong_zone_moves_the_upload_to_the_next_region_from_the_start() {
    let mut service = BlockService::new();
    service.wrong_zone_host = Some("up1");
    let (vars, metadata) = (StringMap::new(), StringMap::new());
    let content = data(8);
    let regions = vec![
        vec!["http://up1".to_string(), "http://up1b".to_string()],
        vec!["http://up2".to_string()],
    ];
    let uploaded = upload(
        &service,
        &mut NoHooks,
        &mut NoProgress,
        &small_blocks(),
        &job(&vars, &metadata, true),
        &regions,
        &content,
        &Vec::new(),
    );
    assert!(uploaded.result.is_ok());
    let regions_tried: Vec<usize> = uploaded.traces.iter().map(|t| t.region).collect();
    assert_eq!(regions_tried, vec![0, 1, 1, 1, 1]);
    assert_eq!(uploaded.traces[0].attempts.len(), 1);
    assert_eq!(uploaded.progress, vec![3, 6, 8]);
}

#[test]
fn an_upload_without_regions_has_no_host() {
    let service = BlockService::new();
    let (vars, metadata) = (StringMap::new(), StringMap::new());
    let uploaded = upload(
        &service,
        &mut NoHooks,
        &mut NoProgress,
        &small_blocks(),
        &job(&vars, &metadata, true),
        &Vec::new(),
        &data(4),
        &Vec::new(),
    );
    let error = uploaded.result.unwrap_err();
    assert!(matches!(error.error_kind(), HTTPErrorKind::NoHostAvailable));
    assert!(service.paths().is_empty());
}

fn recorded(ctx: &str, offset: u64, size: u32, expires_at: u64) -> BlockContext {
    BlockContext { ctx: ctx.to_string(), expires_at, crc32: 0, offset, size }
}

#[test]
fn recorded_blocks_are_built_on_when_they_are_a_fresh_prefix() {
    let first = vec![recorded("old0", 0, 8, NOW + WEEK), recorded("old1", 8, 8, NOW + WEEK)];
    assert_eq!(usable_blocks(&first, 20, 8, NOW), Some(16));
    assert_eq!(usable_blocks(&Vec::new(), 20, 8, NOW), Some(0));
    let all = vec![
        recorded("old0", 0, 8, NOW + WEEK),
        recorded("old1", 8, 8, NOW + WEEK),
        recorded("old2", 16, 4, NOW + WEEK),
    ];
    assert_eq!(usable_blocks(&all, 20, 8, NOW), Some(20));
    // not a prefix: a gap, a wrong size, too many
    assert_eq!(usable_blocks(&vec![recorded("x", 8, 8, NOW + WEEK)], 20, 8, NOW), None);
    assert_eq!(usable_blocks(&vec![recorded("x", 0, 7, NOW + WEEK)], 20, 8, NOW), None);
    assert_eq!(usable_blocks(&all, 16, 8, NOW), None);
    // about to expire: no more than two hours left
    assert_eq!(usable_blocks(&vec![recorded("x", 0, 8, NOW + 7199)], 20, 8, NOW), None);
    assert_eq!(usable_blocks(&vec![recorded("x", 0, 8, NOW + 7200)], 20, 8, NOW), None);
    assert_eq!(usable_blocks(&vec![recorded("x", 0, 8, NOW + 7201)], 20, 8, NOW), Some(8));

    let service = BlockService::new();
    let (vars, metadata) = (StringMap::new(), StringMap::new());
    let content = data(20);
    let uploaded = upload(
        &service,
        &mut NoHooks,
        &mut NoProgress,
        &small_blocks(),
        &job(&vars, &metadata, false),
        &one_region(),
        &content,
        &first,
    );
    assert!(uploaded.result.is_ok());
    assert_eq!(
        service.paths(),
        vec![
            "/mkblk/4".to_string(),
            "/bput/ctx0/3".to_string(),
            "/mkfile/20/key/dGhlIGtleQ==/mimeType/dGV4dC9wbGFpbg==".to_string(),
        ]
    );
    assert_eq!(service.requests.borrow().last().unwrap().1, b"old0,old1,ctx1".to_vec());
    assert_eq!(uploaded.progress, vec![16, 19, 20]);

    let stale = vec![recorded("old0", 0, 8, NOW + 10)];
    let again = BlockService::new();
    let fresh = upload(
        &again,
        &mut NoHooks,
        &mut NoProgress,
        &small_blocks(),
        &job(&vars, &metadata, false),
        &one_region(),
        &content,
        &stale,
    );
    assert!(fresh.result.is_ok());
    assert_eq!(again.paths().len(), 9);
}

#[test]
fn a_token_that_expires_soon_starts_the_block_again_once() {
    let service = BlockService::new();
    service.expires_in.set(3600);
    let (vars, metadata) = (StringMap::new(), StringMap::new());
    let uploaded = upload(
        &service,
        &mut NoHooks,
        &mut NoProgress,
        &small_blocks(),
        &job(&vars, &metadata, false),
        &one_region(),
        &data(3),
        &Vec::new(),
    );
    assert!(uploaded.result.is_ok());
    assert_eq!(
        service.paths(),
        vec![
            "/mkblk/3".to_string(),
            "/mkblk/3".to_string(),
            "/mkfile/3/key/dGhlIGtleQ==/mimeType/dGV4dC9wbGFpbg==".to_string(),
        ]
    );
    assert_eq!(uploaded.contexts[0].ctx, "ctx1");
}

#[test]
fn paths_and_bodies_of_the_chunked_protocol() {
    assert_eq!(make_chunk_path(4096, 0, ""), "/mkblk/4096");
    assert_eq!(make_chunk_path(4096, 1024, "abc"), "/bput/abc/1024");
    let query = make_chunk_query(b"123456789", true);
    assert_eq!(query.len(), 1);
    assert_eq!((query[0].name.as_str(), query[0].value.as_str()), ("crc32", "3421780262"));
    assert!(make_chunk_query(b"123456789", false).is_empty());
    let mut vars = StringMap::new();
    vars.insert("a", "1");
    vars.insert("b", "2");
    let mut metadata = StringMap::new();
    metadata.insert("m", "x");
    assert_eq!(
        make_mkfile_path(1 << 32, Some("k"), Some("image/png"), "f.png", &vars, &metadata),
        "/mkfile/4294967296/key/aw==/mimeType/aW1hZ2UvcG5n/fname/Zi5wbmc=/x:a/MQ==/x:b/Mg==/x-qn-meta-m/eA=="
    );
    assert_eq!(
        make_mkfile_path(0, None, None, "", &StringMap::new(), &StringMap::new()),
        "/mkfile/0"
    );
    assert_eq!(make_mkfile_body(&Vec::new()), "");
    assert_eq!(
        make_mkfile_body(&vec![recorded("a", 0, 1, 0), recorded("b", 1, 1, 0)]),
        "a,b"
    );
    let answer = read_chunk_answer(b"{\"ctx\":\"c\",\"offset\":5,\"expired_at\":9}").unwrap();
    assert_eq!((answer.ctx.as_str(), answer.offset, answer.expires_at), ("c", 5, 9));
    assert!(read_chunk_answer(b"{\"ctx\":\"c\",\"offset\":5}").is_none());
    assert!(read_chunk_answer(b"[]").is_none());
}

#[test]
fn the_policy_chooses_between_form_and_blocks() {
    assert_eq!(choose_method(ResumablePolicy::Never, Some(1 << 40)), Some(UploadMethod::Form));
    assert_eq!(choose_method(ResumablePolicy::Never, None), None);
    assert_eq!(choose_method(ResumablePolicy::Always, Some(0)), Some(UploadMethod::Resumable));
    assert_eq!(choose_method(ResumablePolicy::Always, None), Some(UploadMethod::Resumable));
    assert_eq!(choose_method(ResumablePolicy::Threshold(10), Some(10)), Some(UploadMethod::Form));
    assert_eq!(choose_method(ResumablePolicy::Threshold(10), Some(11)), Some(UploadMethod::Resumable));
    assert_eq!(choose_method(ResumablePolicy::Threshold(10), None), Some(UploadMethod::Resumable));
}

struct FormService {
    bodies: RefCell<Vec<(String, Vec<u8>)>>,
}

impl HTTPCaller for FormService {
    fn call(&self, request: &Request) -> Result<Response, TransportError> {
        let content_type = request.headers.iter().find(|h| h.name == "Content-Type").unwrap();
        self.bodies.borrow_mut().push((content_type.value.clone(), request.body.clone()));
        Ok(Response {
            status_code: 200,
            headers: Vec::new(),
            body: b"plain answer of a callback".to_vec(),
            elapsed: 1,
        })
    }
}

#[test]
fn object_uploader_sends_a_form_below_the_threshold_and_blocks_above() {
    let config = ConfigBuilder::default().upload_block_size(8).upload_chunk_size(8).build();
    let uploader = ObjectUploader::new("bucket", "the-token", one_region(), &config)
        .key("the key")
        .var("v", "1")
        .metadata("m", "2")
        .upload_threshold(4);
    let form = FormService { bodies: RefCell::new(Vec::new()) };
    let mut progress = Recorder { seen: Vec::new() };
    let small = uploader.upload_stream(
        &form,
        &mut NoHooks,
        &mut progress,
        b"abcd",
        Some(4),
        "a.txt",
        Some("text/plain"),
        "BOUNDARY",
        &Vec::new(),
        NOW,
    );
    assert_eq!(small.method, Some(UploadMethod::Form));
    let response = small.result.unwrap();
    assert!(!response.is_json());
    assert_eq!(response.key(), None);
    assert_eq!(response.as_bytes(), b"plain answer of a callback");
    // a form is all sent when its body is: the data with all that goes with it
    let all = uploader.make_form(b"abcd", "a.txt", Some("text/plain"), "BOUNDARY").body().len() as u64;
    assert_eq!(all, 463);
    assert_eq!(small.progress, vec![all]);
    assert_eq!(progress.seen, vec![(all, Some(all))]);
    assert_eq!(small.traces[0].attempts[0].reported, vec![(all, all)]);
    assert_eq!(small.traces.len(), 1);
    assert_eq!(small.records.len(), 1);
    assert_eq!(small.records[0].up_type, UpType::Form);
    let bodies = form.bodies.borrow();
    assert_eq!(bodies[0].0, "multipart/form-data; boundary=BOUNDARY");
    let expected = "--BOUNDARY\r\nContent-Disposition: form-data; name=\"token\"\r\n\r\nthe-token\r\n\
--BOUNDARY\r\nContent-Disposition: form-data; name=\"key\"\r\n\r\nthe key\r\n\
--BOUNDARY\r\nContent-Disposition: form-data; name=\"x:v\"\r\n\r\n1\r\n\
--BOUNDARY\r\nContent-Disposition: form-data; name=\"x-qn-meta-m\"\r\n\r\n2\r\n\
--BOUNDARY\r\nContent-Disposition: form-data; name=\"file\"; filename=\"a.txt\"\r\nContent-Type: text/plain\r\n\r\nabcd\r\n\
--BOUNDARY\r\nContent-Disposition: form-data; name=\"crc32\"\r\n\r\n3984772369\r\n\
--BOUNDARY--\r\n";
    assert_eq!(String::from_utf8(bodies[0].1.clone()).unwrap(), expected);
    let made = uploader.make_form(b"abcd", "a.txt", Some("text/plain"), "BOUNDARY");
    assert_eq!(made.content_type(), "multipart/form-data; boundary=BOUNDARY");
    assert_eq!(made.body(), expected.as_bytes());
    assert_eq!(small.traces[0].path, "/");
    assert!(matches!(small.traces[0].asked, Asked::Form));
    assert_eq!(small.traces[0].attempts[0].request.url, "http://up1/");

    let service = BlockService::new();
    let large = uploader.upload_stream(
        &service,
        &mut NoHooks,
        &mut NoProgress,
        b"abcde",
        Some(5),
        "",
        None,
        "BOUNDARY",
        &Vec::new(),
        NOW,
    );
    assert_eq!(large.method, Some(UploadMethod::Resumable));
    assert!(large.result.is_ok());
    assert_eq!(service.paths().len(), 2);
    assert!(service.paths()[1].starts_with("/mkfile/5/key/dGhlIGtleQ==/x:v/MQ==/x-qn-meta-m/Mg=="));

    let never = ObjectUploader::new("bucket", "the-token", one_region(), &config).never_be_resumable();
    let unknown = never.upload_stream(
        &service,
        &mut NoHooks,
        &mut NoProgress,
        b"abcde",
        None,
        "",
        None,
        "BOUNDARY",
        &Vec::new(),
        NOW,
    );
    assert_eq!(unknown.method, None);
    assert!(matches!(unknown.result, Err(UploadError::IOError(_))));
    assert!(unknown.traces.is_empty());
    assert_eq!(service.paths().len(), 2);
}
