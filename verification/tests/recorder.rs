use qiniu_ng::blocks::BlockContext;
use qiniu_ng::credential::Credential;
use qiniu_ng::http::Header;
use qiniu_ng::recorder::{
    read_block, read_header, read_recording, split_lines, to_hex, upload_id, write_block, write_header,
    RecordingHeader,
};
use qiniu_ng::signed_headers::{compare_bytes, is_signed, make_header_lines, pick_signed_headers};

fn block(ctx: &str, offset: u64, size: u32) -> BlockContext {
    BlockContext { ctx: ctx.to_string(), expires_at: 1_700_000_000, crc32: 4_000_000_000, offset, size }
}

#[test]
fn a_recording_is_read_back_as_it_was_written() {
    let header = RecordingHeader { upload_id: "id \"1\"".to_string(), block_size: 4194304, created_at: 5 };
    let mut text = write_header(&header);
    assert_eq!(text, "{\"upload_id\":\"id \\\"1\\\"\",\"block_size\":4194304,\"created_at\":5}\n");
    text += &write_block(&block("first", 0, 4194304));
    text += &write_block(&block("second", 4194304, 100));
    assert!(text.ends_with(
        "{\"ctx\":\"second\",\"expires_at\":1700000000,\"crc32\":4000000000,\"offset\":4194304,\"size\":100}\n"
    ));
    let (read, blocks) = read_recording(text.as_bytes()).unwrap();
    assert_eq!(read.upload_id, "id \"1\"");
    assert_eq!((read.block_size, read.created_at), (4194304, 5));
    assert_eq!(blocks.len(), 2);
    assert_eq!(blocks[1].ctx, "second");
    assert_eq!(
        (blocks[1].expires_at, blocks[1].crc32, blocks[1].offset, blocks[1].size),
        (1_700_000_000, 4_000_000_000, 4194304, 100)
    );
}

#[test]
fn half_a_line_at_the_end_is_left_aside() {
    let header = RecordingHeader { upload_id: "id".to_string(), block_size: 8, created_at: 5 };
    let mut text = write_header(&header);
    text += &write_block(&block("first", 0, 8));
    let whole = write_block(&block("second", 8, 8));
    text += &whole[..whole.len() - 10];
    let (_, blocks) = read_recording(text.as_bytes()).unwrap();
    assert_eq!(blocks.len(), 1);
    assert_eq!(blocks[0].ctx, "first");
    // a whole line that is no block ends the blocks
    let mut broken = write_header(&header);
    broken += &write_block(&block("first", 0, 8));
    broken += "{\"ctx\":5}\n";
    broken += &write_block(&block("third", 16, 8));
    assert_eq!(read_recording(broken.as_bytes()).unwrap().1.len(), 1);
    // without a whole header there is no recording
    assert!(read_recording(b"").is_none());
    assert!(read_recording(b"{\"upload_id\":\"id\",\"block_size\":8,\"created_at\":5}").is_none());
    assert!(read_recording(b"{\"upload_id\":\"id\"}\n").is_none());
    assert!(read_recording(b"\n").is_none());
    let only = read_recording(b"{\"upload_id\":\"id\",\"block_size\":8,\"created_at\":5}\n").unwrap();
    assert!(only.1.is_empty());
}

#[test]
fn lines_headers_and_blocks() {
    assert_eq!(split_lines(b"a\n\nbc\nd"), vec![&b"a"[..], &b""[..], &b"bc"[..]]);
    assert!(split_lines(b"abc").is_empty());
    assert!(read_header(b"{\"upload_id\":\"id\",\"block_size\":4294967296,\"created_at\":5}").is_none());
    assert!(read_header(b"{\"upload_id\":\"id\",\"block_size\":4294967295,\"created_at\":5}").is_some());
    assert!(read_block(
        b"{\"ctx\":\"c\",\"expires_at\":1,\"crc32\":4294967296,\"offset\":0,\"size\":1}"
    )
    .is_none());
    assert!(read_block(b"{\"ctx\":\"c\",\"expires_at\":1,\"crc32\":2,\"offset\":0}").is_none());
    assert!(read_block(b"not json").is_none());
}

#[test]
fn upload_ids_are_digests_in_hexadecimal() {
    assert_eq!(to_hex(&[0x00, 0x0f, 0xa5, 0xff]), "000fa5ff");
    assert_eq!(to_hex(&[]), "");
    assert_eq!(
        upload_id("ak", "bucket", "key", "/tmp/file", 4194304),
        "122acdb83cf8740868a60200ec0d3feaf025fd71"
    );
    assert_eq!(
        upload_id("ak", "bucket", "key", "/tmp/file", 4194304),
        upload_id("ak", "bucket", "key", "/tmp/file", 4194304)
    );
    assert_ne!(
        upload_id("ak", "bucket", "key", "/tmp/file", 4194304),
        upload_id("ak", "bucket", "key", "/tmp/file", 4194305)
    );
}

fn header(name: &str, value: &str) -> Header {
    Header { name: name.to_string(), value: value.to_string() }
}

#[test]
fn headers_that_take_part_in_signatures_are_put_in_order() {
    assert!(is_signed("X-Qiniu-A"));
    assert!(is_signed("X-Qiniu-"));
    assert!(!is_signed("X-Qiniu"));
    assert!(!is_signed("x-qiniu-a"));
    assert!(!is_signed("Content-Type"));
    assert!(compare_bytes(b"", b""));
    assert!(compare_bytes(b"a", b"a"));
    assert!(compare_bytes(b"a", b"ab"));
    assert!(!compare_bytes(b"ab", b"a"));
    assert!(compare_bytes(b"ab", b"b"));
    assert!(!compare_bytes(b"b", b"ab"));
    let headers = vec![
        header("X-Qiniu-B", "3"),
        header("Accept", "*/*"),
        header("X-Qiniu-Ab", "2"),
        header("X-Qiniu-B", "4"),
        header("X-Qiniu-A", "1"),
    ];
    let picked: Vec<(String, String)> =
        pick_signed_headers(&headers).into_iter().map(|h| (h.name, h.value)).collect();
    assert_eq!(
        picked,
        vec![
            ("X-Qiniu-A".to_string(), "1".to_string()),
            ("X-Qiniu-Ab".to_string(), "2".to_string()),
            ("X-Qiniu-B".to_string(), "3".to_string()),
            ("X-Qiniu-B".to_string(), "4".to_string()),
        ]
    );
    assert_eq!(make_header_lines(&vec![header("A", "1"), header("B", "2")]), "\nA: 1\nB: 2");
    assert_eq!(make_header_lines(&Vec::new()), "");
    let credential = Credential::new("abcdefghklmnopq", "1234567890");
    assert_eq!(
        credential.authorization_v2("POST", "h", "/p", Some("q=1"), "application/json", &headers, b"{}"),
        "Qiniu abcdefghklmnopq:Cae-3_SrUCKh3L5YYc_sVPK9QEc="
    );
    assert_eq!(
        credential.authorization_v2("POST", "h", "/p", Some("q=1"), "application/json", &Vec::new(), b"{}"),
        credential.authorization_v2_for_parts("POST", "h", "/p", Some("q=1"), "application/json", b"{}")
    );
}
