//! How data is cut into blocks and chunks, and what is kept of a block that
//! the service has taken.

use vstd::prelude::*;

verus! {

/// A stretch of data as numbers without bounds.
pub struct Piece {
    pub offset: nat,
    pub size: nat,
}

/// The length of the piece that starts at `offset` in data of `total`
/// bytes cut into pieces of `unit` bytes: `unit`, or what is left.
pub open spec fn piece_size(offset: nat, total: nat, unit: nat) -> nat {
    if total - offset < unit {
        (total - offset) as nat
    } else {
        unit
    }
}

/// The pieces of `unit` bytes that the data from `offset` to `total` is
/// cut into; the last is as long as what is left.
pub open spec fn pieces_from(offset: nat, total: nat, unit: nat) -> Seq<Piece>
    decreases total - offset,
{
    if offset >= total || unit == 0 {
        Seq::empty()
    } else {
        seq![Piece { offset, size: piece_size(offset, total, unit) }] + pieces_from(
            offset + piece_size(offset, total, unit),
            total,
            unit,
        )
    }
}

/// The pieces of `unit` bytes that data of `total` bytes is cut into.
pub open spec fn pieces(total: nat, unit: nat) -> Seq<Piece> {
    pieces_from(0, total, unit)
}

/// Whether the pieces lie end to end from `offset` on, none of them empty
/// and none longer than `unit`.
pub open spec fn is_chain(pieces: Seq<Piece>, offset: nat, unit: nat) -> bool
    decreases pieces.len(),
{
    if pieces.len() == 0 {
        true
    } else {
        &&& pieces[0].offset == offset
        &&& 0 < pieces[0].size <= unit
        &&& is_chain(pieces.drop_first(), offset + pieces[0].size, unit)
    }
}

/// The sum of the sizes of the pieces.
pub open spec fn total_size(pieces: Seq<Piece>) -> nat
    decreases pieces.len(),
{
    if pieces.len() == 0 {
        0
    } else {
        pieces[0].size + total_size(pieces.drop_first())
    }
}

/// The pieces that data is cut into lie end to end, none is empty or longer
/// than the unit, and together they are as long as the data.
pub proof fn lemma_pieces_cover(offset: nat, total: nat, unit: nat)
    requires
        offset <= total,
        unit > 0,
    ensures
        is_chain(pieces_from(offset, total, unit), offset, unit),
        total_size(pieces_from(offset, total, unit)) == total - offset,
    decreases total - offset,
{
    if offset < total {
        let size = piece_size(offset, total, unit);
        let all = pieces_from(offset, total, unit);
        let rest = pieces_from(offset + size, total, unit);
        lemma_pieces_cover(offset + size, total, unit);
        assert(all.drop_first() =~= rest);
    }
}

/// In a chain every piece starts where the pieces before it end, and so
/// every piece starts after the piece before it.
pub proof fn lemma_chain_offsets(pieces: Seq<Piece>, offset: nat, unit: nat, i: int)
    requires
        is_chain(pieces, offset, unit),
        0 <= i < pieces.len(),
    ensures
        pieces[i].offset == offset + total_size(pieces.take(i)),
        0 < pieces[i].size <= unit,
        i > 0 ==> pieces[i - 1].offset < pieces[i].offset,
    decreases pieces.len(),
{
    if i == 0 {
        assert(pieces.take(0) =~= Seq::<Piece>::empty());
    } else {
        let rest = pieces.drop_first();
        lemma_chain_offsets(rest, offset + pieces[0].size, unit, i - 1);
        assert(pieces.take(i).drop_first() =~= rest.take(i - 1));
        assert(pieces.take(i)[0] == pieces[0]);
        assert(rest[i - 1] == pieces[i]);
        if i > 1 {
            assert(rest[i - 2] == pieces[i - 1]);
        } else {
            assert(pieces[0].offset == offset);
            assert(rest.take(0) =~= Seq::<Piece>::empty());
        }
    }
}

/// Cutting from an offset gives the piece there, followed by the cut from
/// where that piece ends.
pub proof fn lemma_pieces_step(offset: nat, total: nat, unit: nat)
    requires
        offset < total,
        unit > 0,
    ensures
        pieces_from(offset, total, unit) == seq![
            Piece { offset, size: piece_size(offset, total, unit) },
        ] + pieces_from(offset + piece_size(offset, total, unit), total, unit),
        0 < piece_size(offset, total, unit) <= unit,
        offset + piece_size(offset, total, unit) <= total,
{
}

/// The cut of data is the cut of any stretch at its start, followed by the
/// cut of what follows the stretch.
pub proof fn lemma_pieces_extend(
    done: Seq<Piece>,
    offset: nat,
    total: nat,
    unit: nat,
)
    requires
        offset < total,
        unit > 0,
        pieces(total, unit) == done + pieces_from(offset, total, unit),
    ensures
        pieces(total, unit) == done.push(
            Piece { offset, size: piece_size(offset, total, unit) },
        ) + pieces_from(offset + piece_size(offset, total, unit), total, unit),
        pieces(total, unit)[done.len() as int] == (Piece {
            offset,
            size: piece_size(offset, total, unit),
        }),
        done.len() < pieces(total, unit).len(),
{
    lemma_pieces_step(offset, total, unit);
    let piece = Piece { offset, size: piece_size(offset, total, unit) };
    let rest = pieces_from(offset + piece_size(offset, total, unit), total, unit);
    assert(done + (seq![piece] + rest) =~= done.push(piece) + rest);
}

/// What is kept of a block that the service has taken.
#[derive(Debug)]
pub struct BlockContext {
    /// The token by which the service knows the block.
    pub ctx: String,
    /// When the token expires, in seconds since the Unix epoch.
    pub expires_at: u64,
    /// The CRC-32 of the block.
    pub crc32: u32,
    /// Where the block starts in the data.
    pub offset: u64,
    /// The length of the block.
    pub size: u32,
}

impl Clone for BlockContext {
    fn clone(&self) -> (r: Self)
        ensures
            r.ctx@ == self.ctx@,
            r.expires_at == self.expires_at,
            r.crc32 == self.crc32,
            r.offset == self.offset,
            r.size == self.size,
    {
        BlockContext {
            ctx: self.ctx.clone(),
            expires_at: self.expires_at,
            crc32: self.crc32,
            offset: self.offset,
            size: self.size,
        }
    }
}

/// The stretches of data that the blocks stand for, in order.
pub open spec fn spans_of(contexts: Seq<BlockContext>) -> Seq<Piece> {
    Seq::new(
        contexts.len(),
        |i: int| Piece { offset: contexts[i].offset as nat, size: contexts[i].size as nat },
    )
}

/// The tokens of the blocks, in order.
pub open spec fn tokens_of(contexts: Seq<BlockContext>) -> Seq<Seq<char>> {
    Seq::new(contexts.len(), |i: int| contexts[i].ctx@)
}

/// Whether the blocks are all blocks of data of `total` bytes cut into
/// blocks of `block_size` bytes, in order.
pub open spec fn covers(contexts: Seq<BlockContext>, total: nat, block_size: nat) -> bool {
    spans_of(contexts) == pieces(total, block_size)
}

/// Blocks that cover the data stand in the order of their offsets, each
/// starts where the blocks before it end, and together they are as long
/// as the data.
pub proof fn lemma_covering_blocks_are_ordered(
    contexts: Seq<BlockContext>,
    total: nat,
    block_size: nat,
)
    requires
        block_size > 0,
        covers(contexts, total, block_size),
    ensures
        total_size(spans_of(contexts)) == total,
        forall|i: int|
            0 <= i < contexts.len() ==> (#[trigger] contexts[i]).offset == total_size(
                spans_of(contexts).take(i),
            ),
        forall|i: int, j: int|
            0 <= i < j < contexts.len() ==> (#[trigger] contexts[i]).offset < (
            #[trigger] contexts[j]).offset,
{
    let spans = spans_of(contexts);
    lemma_pieces_cover(0, total, block_size);
    assert forall|i: int| 0 <= i < contexts.len() implies (#[trigger] contexts[i]).offset
        == total_size(spans.take(i)) by {
        lemma_chain_offsets(spans, 0, block_size, i);
        assert(spans[i].offset == contexts[i].offset);
    }
    assert forall|i: int, j: int| 0 <= i < j < contexts.len() implies (
    #[trigger] contexts[i]).offset < (#[trigger] contexts[j]).offset by {
        lemma_offsets_increase(spans, 0, block_size, i, j);
        assert(spans[i].offset == contexts[i].offset);
        assert(spans[j].offset == contexts[j].offset);
    }
}

/// In a chain a later piece starts after an earlier one.
pub proof fn lemma_offsets_increase(pieces: Seq<Piece>, offset: nat, unit: nat, i: int, j: int)
    requires
        is_chain(pieces, offset, unit),
        0 <= i < j < pieces.len(),
    ensures
        pieces[i].offset < pieces[j].offset,
    decreases j - i,
{
    lemma_chain_offsets(pieces, offset, unit, j);
    if i < j - 1 {
        lemma_offsets_increase(pieces, offset, unit, i, j - 1);
    }
}

} // verus!
