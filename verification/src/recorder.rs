//! What is written down of a resumable upload so that it can be taken up
//! again: a header line and one line for each block that the service has
//! taken, each a JSON object.

use crate::blocks::BlockContext;
use crate::digest::{sha1, sha1_code};
use crate::json::{
    get_string,
    get_unsigned,
    parse,
    quote,
    quoted_text,
    string_at,
    text_nodes,
    unsigned_at,
};
use crate::text::{decimal, str_equal, u64_to_decimal};
use vstd::prelude::*;
use vstd::string::*;
use vstd::utf8::encode_utf8;

verus! {

/// The byte that ends a line.
pub const LINE_FEED: u8 = 10u8;

/// The index of the first `byte` in `bytes`, or the length of `bytes` when
/// `byte` does not occur.
pub open spec fn find_byte(bytes: Seq<u8>, byte: u8) -> int
    decreases bytes.len(),
{
    if bytes.len() == 0 {
        0
    } else if bytes[0] == byte {
        0
    } else {
        1 + find_byte(bytes.drop_first(), byte)
    }
}

/// What [`find_byte`] returns is in range, nothing before it is `byte`,
/// and `byte` stands there unless it is the length.
pub proof fn lemma_find_byte(bytes: Seq<u8>, byte: u8)
    ensures
        0 <= find_byte(bytes, byte) <= bytes.len(),
        forall|j: int| 0 <= j < find_byte(bytes, byte) ==> bytes[j] != byte,
        find_byte(bytes, byte) < bytes.len() ==> bytes[find_byte(bytes, byte)] == byte,
    decreases bytes.len(),
{
    if bytes.len() > 0 && bytes[0] != byte {
        let rest = bytes.drop_first();
        lemma_find_byte(rest, byte);
        assert forall|j: int| 0 <= j < find_byte(bytes, byte) implies bytes[j] != byte by {
            if j > 0 {
                assert(bytes[j] == rest[j - 1]);
            }
        }
        if find_byte(rest, byte) < rest.len() {
            assert(bytes[find_byte(bytes, byte)] == rest[find_byte(rest, byte)]);
        }
    }
}

/// A place that nothing equal to `byte` precedes, and where `byte` stands
/// or `bytes` ends, is the place [`find_byte`] returns.
pub proof fn lemma_find_byte_is(bytes: Seq<u8>, byte: u8, k: int)
    requires
        0 <= k <= bytes.len(),
        forall|j: int| 0 <= j < k ==> bytes[j] != byte,
        k < bytes.len() ==> bytes[k] == byte,
    ensures
        find_byte(bytes, byte) == k,
{
    lemma_find_byte(bytes, byte);
    let f = find_byte(bytes, byte);
    if f < k {
        assert(bytes[f] == byte);
    } else if f > k {
        assert(bytes[k] != byte);
    }
}

/// The lines of `bytes` that are ended by a line feed, without their line
/// feeds. What follows the last line feed is no line: it may be the half
/// of a line that was being written when the power failed.
pub open spec fn complete_lines(bytes: Seq<u8>) -> Seq<Seq<u8>>
    decreases bytes.len(),
{
    let end = find_byte(bytes, LINE_FEED);
    if 0 <= end < bytes.len() {
        seq![bytes.take(end)] + complete_lines(bytes.skip(end + 1))
    } else {
        Seq::empty()
    }
}

/// The lines as values.
pub open spec fn lines_view(lines: Vec<&[u8]>) -> Seq<Seq<u8>> {
    Seq::new(lines@.len(), |i: int| lines@[i]@)
}

/// Cuts `bytes` into its complete lines.
pub fn split_lines<'a>(bytes: &'a [u8]) -> (r: Vec<&'a [u8]>)
    ensures
        lines_view(r) == complete_lines(bytes@),
{
    let mut lines: Vec<&'a [u8]> = Vec::new();
    let mut start: usize = 0;
    let mut i: usize = 0;
    proof {
        assert(bytes@.skip(0) =~= bytes@);
        assert(lines_view(lines) + complete_lines(bytes@.skip(0)) =~= complete_lines(bytes@));
    }
    while i < bytes.len()
        invariant
            start <= i <= bytes@.len(),
            forall|k: int| start <= k < i ==> bytes@[k] != LINE_FEED,
            complete_lines(bytes@) == lines_view(lines) + complete_lines(bytes@.skip(start as int)),
        decreases bytes@.len() - i,
    {
        if bytes[i] == LINE_FEED {
            let line = vstd::slice::slice_subrange(bytes, start, i);
            let ghost before = lines_view(lines);
            proof {
                let rest = bytes@.skip(start as int);
                assert forall|j: int| 0 <= j < i - start implies rest[j] != LINE_FEED by {
                    assert(rest[j] == bytes@[start + j]);
                }
                assert(rest[i - start] == bytes@[i as int]);
                lemma_find_byte_is(rest, LINE_FEED, i - start);
                assert(rest.take(i - start) =~= line@);
                assert(rest.skip(i - start + 1) =~= bytes@.skip(i + 1));
            }
            lines.push(line);
            proof {
                assert(lines_view(lines) =~= before.push(line@));
                assert(before + (seq![line@] + complete_lines(bytes@.skip(i + 1)))
                    =~= lines_view(lines) + complete_lines(bytes@.skip(i + 1)));
            }
            start = i + 1;
        }
        i += 1;
    }
    proof {
        let rest = bytes@.skip(start as int);
        assert forall|j: int| 0 <= j < rest.len() implies rest[j] != LINE_FEED by {
            assert(rest[j] == bytes@[start + j]);
        }
        lemma_find_byte_is(rest, LINE_FEED, rest.len() as int);
        assert(lines_view(lines) + Seq::<Seq<u8>>::empty() =~= lines_view(lines));
    }
    lines
}

/// What the first line of a recording says: which upload it is of, the
/// size of its blocks, and when it was begun.
#[derive(Debug)]
pub struct RecordingHeader {
    pub upload_id: String,
    pub block_size: u32,
    pub created_at: u64,
}

/// The mathematical value of a [`RecordingHeader`].
pub struct HeaderView {
    pub upload_id: Seq<char>,
    pub block_size: u32,
    pub created_at: u64,
}

impl DeepView for RecordingHeader {
    type V = HeaderView;

    open spec fn deep_view(&self) -> HeaderView {
        HeaderView {
            upload_id: self.upload_id@,
            block_size: self.block_size,
            created_at: self.created_at,
        }
    }
}

/// The mathematical value of a [`BlockContext`].
pub struct BlockView {
    pub ctx: Seq<char>,
    pub expires_at: u64,
    pub crc32: u32,
    pub offset: u64,
    pub size: u32,
}

/// The value of a block.
pub open spec fn block_view(block: BlockContext) -> BlockView {
    BlockView {
        ctx: block.ctx@,
        expires_at: block.expires_at,
        crc32: block.crc32,
        offset: block.offset,
        size: block.size,
    }
}

/// The values of the blocks in order.
pub open spec fn blocks_view(blocks: Seq<BlockContext>) -> Seq<BlockView> {
    Seq::new(blocks.len(), |i: int| block_view(blocks[i]))
}

/// What a line says as a header: `None` unless it is a JSON object with
/// the text `upload_id` and the numbers `block_size`, which fits 32 bits,
/// and `created_at`.
pub open spec fn header_of_line(line: Seq<u8>) -> Option<HeaderView> {
    match text_nodes(line) {
        Some(nodes) => match (
            string_at(nodes, "/upload_id"@),
            unsigned_at(nodes, "/block_size"@),
            unsigned_at(nodes, "/created_at"@),
        ) {
            (Some(upload_id), Some(block_size), Some(created_at)) => if block_size <= u32::MAX {
                Some(HeaderView { upload_id, block_size: block_size as u32, created_at })
            } else {
                None
            },
            _ => None,
        },
        None => None,
    }
}

/// What a line says as a block: `None` unless it is a JSON object with
/// the text `ctx` and the numbers `expires_at`, `crc32`, `offset` and
/// `size`, of which `crc32` and `size` fit 32 bits.
pub open spec fn block_of_line(line: Seq<u8>) -> Option<BlockView> {
    match text_nodes(line) {
        Some(nodes) => match (
            string_at(nodes, "/ctx"@),
            unsigned_at(nodes, "/expires_at"@),
            unsigned_at(nodes, "/crc32"@),
            unsigned_at(nodes, "/offset"@),
            unsigned_at(nodes, "/size"@),
        ) {
            (Some(ctx), Some(expires_at), Some(crc32), Some(offset), Some(size)) => if crc32
                <= u32::MAX && size <= u32::MAX {
                Some(
                    BlockView { ctx, expires_at, crc32: crc32 as u32, offset, size: size as u32 },
                )
            } else {
                None
            },
            _ => None,
        },
        None => None,
    }
}

/// The blocks that the lines say, up to the first line that is no block.
pub open spec fn leading_blocks(lines: Seq<Seq<u8>>) -> Seq<BlockView>
    decreases lines.len(),
{
    if lines.len() == 0 {
        Seq::empty()
    } else {
        match block_of_line(lines[0]) {
            Some(block) => seq![block] + leading_blocks(lines.drop_first()),
            None => Seq::empty(),
        }
    }
}

/// What a recording says: the header of its first line and the blocks of
/// the lines that follow, up to the first that is no block. `None` unless
/// the first complete line is a header.
pub open spec fn recording_of(bytes: Seq<u8>) -> Option<(HeaderView, Seq<BlockView>)> {
    let lines = complete_lines(bytes);
    if lines.len() == 0 {
        None
    } else {
        match header_of_line(lines[0]) {
            Some(header) => Some((header, leading_blocks(lines.drop_first()))),
            None => None,
        }
    }
}

/// Reads a line as a header.
pub fn read_header(line: &[u8]) -> (r: Option<RecordingHeader>)
    ensures
        r.deep_view() == header_of_line(line@),
{
    let document = match parse(line) {
        Some(document) => document,
        None => {
            return None;
        },
    };
    let upload_id = get_string(&document, "/upload_id");
    let block_size = get_unsigned(&document, "/block_size");
    let created_at = get_unsigned(&document, "/created_at");
    match (upload_id, block_size, created_at) {
        (Some(upload_id), Some(block_size), Some(created_at)) => if block_size <= u32::MAX as u64 {
            Some(RecordingHeader { upload_id, block_size: block_size as u32, created_at })
        } else {
            None
        },
        _ => None,
    }
}

/// Reads a line as a block.
pub fn read_block(line: &[u8]) -> (r: Option<BlockContext>)
    ensures
        match r {
            Some(block) => block_of_line(line@) == Some(block_view(block)),
            None => block_of_line(line@) is None,
        },
{
    let document = match parse(line) {
        Some(document) => document,
        None => {
            return None;
        },
    };
    let ctx = get_string(&document, "/ctx");
    let expires_at = get_unsigned(&document, "/expires_at");
    let crc32 = get_unsigned(&document, "/crc32");
    let offset = get_unsigned(&document, "/offset");
    let size = get_unsigned(&document, "/size");
    match (ctx, expires_at, crc32, offset, size) {
        (Some(ctx), Some(expires_at), Some(crc32), Some(offset), Some(size)) => if crc32
            <= u32::MAX as u64 && size <= u32::MAX as u64 {
            Some(
                BlockContext { ctx, expires_at, crc32: crc32 as u32, offset, size: size as u32 },
            )
        } else {
            None
        },
        _ => None,
    }
}

/// The blocks that a recording holds of the upload `upload_id` with blocks
/// of `block_size` bytes: those of the recording where its header names
/// that upload and that size, none where the bytes are no recording or the
/// recording is of something else.
pub open spec fn recorded_of(bytes: Seq<u8>, upload_id: Seq<char>, block_size: u32) -> Seq<
    BlockView,
> {
    match recording_of(bytes) {
        Some((header, blocks)) => if header.upload_id == upload_id && header.block_size
            == block_size {
            blocks
        } else {
            Seq::empty()
        },
        None => Seq::empty(),
    }
}

/// Reads the blocks that a recording holds of the upload `upload_id` with
/// blocks of `block_size` bytes.
pub fn read_recorded(bytes: &[u8], upload_id: &str, block_size: u32) -> (r: Vec<BlockContext>)
    ensures
        blocks_view(r@) == recorded_of(bytes@, upload_id@, block_size),
{
    match read_recording(bytes) {
        Some((header, blocks)) => {
            if str_equal(header.upload_id.as_str(), upload_id) && header.block_size == block_size {
                blocks
            } else {
                let none: Vec<BlockContext> = Vec::new();
                assert(blocks_view(none@) =~= Seq::<BlockView>::empty());
                none
            }
        },
        None => {
            let none: Vec<BlockContext> = Vec::new();
            assert(blocks_view(none@) =~= Seq::<BlockView>::empty());
            none
        },
    }
}

/// Reads a recording: its header and its blocks. What follows the last
/// line feed is left aside, and so is everything from the first line on
/// that is no block. `None` unless the first complete line is a header.
pub fn read_recording(bytes: &[u8]) -> (r: Option<(RecordingHeader, Vec<BlockContext>)>)
    ensures
        match r {
            Some((header, blocks)) => recording_of(bytes@) == Some(
                (header.deep_view(), blocks_view(blocks@)),
            ),
            None => recording_of(bytes@) is None,
        },
{
    let lines = split_lines(bytes);
    if lines.len() == 0 {
        return None;
    }
    let ghost all = complete_lines(bytes@);
    assert(all[0] == lines@[0]@);
    let header = match read_header(lines[0]) {
        Some(header) => header,
        None => {
            return None;
        },
    };
    let mut blocks: Vec<BlockContext> = Vec::new();
    let mut i: usize = 1;
    proof {
        assert(all.drop_first() =~= all.skip(1));
        assert(blocks_view(blocks@) + leading_blocks(all.skip(1)) =~= leading_blocks(
            all.drop_first(),
        ));
    }
    while i < lines.len()
        invariant
            1 <= i <= lines@.len(),
            all == lines_view(lines),
            all == complete_lines(bytes@),
            header_of_line(all[0]) == Some(header.deep_view()),
            leading_blocks(all.drop_first()) == blocks_view(blocks@) + leading_blocks(
                all.skip(i as int),
            ),
        decreases lines@.len() - i,
    {
        let ghost rest = all.skip(i as int);
        proof {
            assert(rest[0] == lines@[i as int]@);
            assert(rest.drop_first() =~= all.skip(i + 1));
        }
        match read_block(lines[i]) {
            Some(block) => {
                let ghost before = blocks_view(blocks@);
                blocks.push(block);
                proof {
                    assert(blocks_view(blocks@) =~= before.push(block_view(block)));
                    assert(before + (seq![block_view(block)] + leading_blocks(all.skip(i + 1)))
                        =~= blocks_view(blocks@) + leading_blocks(all.skip(i + 1)));
                }
            },
            None => {
                proof {
                    assert(blocks_view(blocks@) + Seq::<BlockView>::empty() =~= blocks_view(
                        blocks@,
                    ));
                }
                return Some((header, blocks));
            },
        }
        i += 1;
    }
    proof {
        assert(all.skip(i as int).len() == 0);
        assert(blocks_view(blocks@) + Seq::<BlockView>::empty() =~= blocks_view(blocks@));
    }
    Some((header, blocks))
}

/// The line of a header: a JSON object with the members `upload_id`,
/// `block_size` and `created_at`, and a line feed.
pub open spec fn header_line(header: HeaderView) -> Seq<char> {
    "{\"upload_id\":"@ + quoted_text(header.upload_id) + ",\"block_size\":"@ + decimal(
        header.block_size as nat,
    ) + ",\"created_at\":"@ + decimal(header.created_at as nat) + "}\n"@
}

/// The line of a block: a JSON object with the members `ctx`,
/// `expires_at`, `crc32`, `offset` and `size`, and a line feed.
pub open spec fn block_line(block: BlockView) -> Seq<char> {
    "{\"ctx\":"@ + quoted_text(block.ctx) + ",\"expires_at\":"@ + decimal(
        block.expires_at as nat,
    ) + ",\"crc32\":"@ + decimal(block.crc32 as nat) + ",\"offset\":"@ + decimal(
        block.offset as nat,
    ) + ",\"size\":"@ + decimal(block.size as nat) + "}\n"@
}

/// Writes the line of a header.
pub fn write_header(header: &RecordingHeader) -> (r: String)
    ensures
        r@ == header_line(header.deep_view()),
{
    let mut line = "{\"upload_id\":".to_owned();
    line.append(quote(header.upload_id.as_str()).as_str());
    line.append(",\"block_size\":");
    line.append(u64_to_decimal(header.block_size as u64).as_str());
    line.append(",\"created_at\":");
    line.append(u64_to_decimal(header.created_at).as_str());
    line.append("}\n");
    line
}

/// Writes the line of a block.
pub fn write_block(block: &BlockContext) -> (r: String)
    ensures
        r@ == block_line(block_view(*block)),
{
    let mut line = "{\"ctx\":".to_owned();
    line.append(quote(block.ctx.as_str()).as_str());
    line.append(",\"expires_at\":");
    line.append(u64_to_decimal(block.expires_at).as_str());
    line.append(",\"crc32\":");
    line.append(u64_to_decimal(block.crc32 as u64).as_str());
    line.append(",\"offset\":");
    line.append(u64_to_decimal(block.offset).as_str());
    line.append(",\"size\":");
    line.append(u64_to_decimal(block.size as u64).as_str());
    line.append("}\n");
    line
}

/// The two lower-case hexadecimal digits of a byte.
pub open spec fn hex_of_byte(byte: u8) -> Seq<char> {
    seq![hex_digit((byte / 16) as nat), hex_digit((byte % 16) as nat)]
}

/// The lower-case hexadecimal digit of a number below sixteen.
pub open spec fn hex_digit(n: nat) -> char {
    if n < 10 {
        crate::text::digit_char(n)
    } else if n == 10 {
        'a'
    } else if n == 11 {
        'b'
    } else if n == 12 {
        'c'
    } else if n == 13 {
        'd'
    } else if n == 14 {
        'e'
    } else {
        'f'
    }
}

/// The bytes in lower-case hexadecimal digits, two for each byte.
pub open spec fn hex(bytes: Seq<u8>) -> Seq<char>
    decreases bytes.len(),
{
    if bytes.len() == 0 {
        Seq::empty()
    } else {
        hex(bytes.drop_last()) + hex_of_byte(bytes.last())
    }
}

fn hex_text(n: u8) -> (r: &'static str)
    requires
        n < 16,
    ensures
        r@ == seq![hex_digit(n as nat)],
{
    proof {
        reveal_strlit("0");
        reveal_strlit("1");
        reveal_strlit("2");
        reveal_strlit("3");
        reveal_strlit("4");
        reveal_strlit("5");
        reveal_strlit("6");
        reveal_strlit("7");
        reveal_strlit("8");
        reveal_strlit("9");
        reveal_strlit("a");
        reveal_strlit("b");
        reveal_strlit("c");
        reveal_strlit("d");
        reveal_strlit("e");
        reveal_strlit("f");
    }
    let r = if n == 0 {
        "0"
    } else if n == 1 {
        "1"
    } else if n == 2 {
        "2"
    } else if n == 3 {
        "3"
    } else if n == 4 {
        "4"
    } else if n == 5 {
        "5"
    } else if n == 6 {
        "6"
    } else if n == 7 {
        "7"
    } else if n == 8 {
        "8"
    } else if n == 9 {
        "9"
    } else if n == 10 {
        "a"
    } else if n == 11 {
        "b"
    } else if n == 12 {
        "c"
    } else if n == 13 {
        "d"
    } else if n == 14 {
        "e"
    } else {
        "f"
    };
    assert(r@ =~= seq![hex_digit(n as nat)]);
    r
}

/// Writes bytes in lower-case hexadecimal digits.
pub fn to_hex(bytes: &[u8]) -> (r: String)
    ensures
        r@ == hex(bytes@),
{
    let mut text = String::new();
    let mut i: usize = 0;
    proof {
        assert(bytes@.take(0) =~= Seq::<u8>::empty());
    }
    while i < bytes.len()
        invariant
            i <= bytes@.len(),
            text@ == hex(bytes@.take(i as int)),
        decreases bytes@.len() - i,
    {
        let byte = bytes[i];
        text.append(hex_text(byte / 16));
        text.append(hex_text(byte % 16));
        proof {
            let next = bytes@.take(i + 1);
            assert(next.drop_last() =~= bytes@.take(i as int));
            assert(next.last() == byte);
            assert(text@ =~= hex(next));
        }
        i += 1;
    }
    proof {
        assert(bytes@.take(i as int) =~= bytes@);
    }
    text
}

/// What the id of an upload is the digest of: the access key, the bucket,
/// the key, what names the source of the data, and the size of the blocks,
/// with bars between them.
pub open spec fn upload_id_source(
    access_key: Seq<char>,
    bucket: Seq<char>,
    key: Seq<char>,
    source: Seq<char>,
    block_size: u32,
) -> Seq<char> {
    access_key + seq!['|'] + bucket + seq!['|'] + key + seq!['|'] + source + seq!['|'] + decimal(
        block_size as nat,
    )
}

/// The id under which an upload is recorded: the SHA-1 digest of
/// [`upload_id_source`] in hexadecimal digits. The same upload always has
/// the same id.
pub fn upload_id(access_key: &str, bucket: &str, key: &str, source: &str, block_size: u32) -> (r:
    String)
    ensures
        r@ == hex(
            sha1_code(encode_utf8(upload_id_source(access_key@, bucket@, key@, source@, block_size))),
        ),
{
    proof {
        reveal_strlit("|");
        assert("|"@ =~= seq!['|']);
    }
    let mut text = access_key.to_owned();
    text.append("|");
    text.append(bucket);
    text.append("|");
    text.append(key);
    text.append("|");
    text.append(source);
    text.append("|");
    text.append(u64_to_decimal(block_size as u64).as_str());
    let digest = sha1(text.as_str().as_bytes());
    to_hex(digest.as_slice())
}

} // verus!
