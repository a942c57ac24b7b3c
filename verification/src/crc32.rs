//! CRC-32 (IEEE 802.3, reflected polynomial `0xEDB88320`) over byte strings.

use vstd::prelude::*;

verus! {

/// The register before any byte has been absorbed.
pub const INITIAL_STATE: u32 = 0xFFFF_FFFFu32;

/// One shift of the register: the low bit decides whether the polynomial is
/// folded in.
pub open spec fn shift_once(state: u32) -> u32 {
    if state & 1u32 == 1u32 {
        (state >> 1u32) ^ 0xEDB8_8320u32
    } else {
        state >> 1u32
    }
}

/// The register after absorbing one byte: the byte is folded into the low
/// eight bits, then the register is shifted eight times.
pub open spec fn absorb_byte(state: u32, byte: u8) -> u32 {
    shift_once(
        shift_once(
            shift_once(
                shift_once(
                    shift_once(shift_once(shift_once(shift_once(state ^ (byte as u32))))),
                ),
            ),
        ),
    )
}

/// The register after absorbing `data` byte by byte, first byte first.
pub open spec fn absorb(state: u32, data: Seq<u8>) -> u32
    decreases data.len(),
{
    if data.len() == 0 {
        state
    } else {
        absorb_byte(absorb(state, data.drop_last()), data.last())
    }
}

/// The CRC-32 checksum of `data`.
pub open spec fn checksum_of(data: Seq<u8>) -> u32 {
    absorb(INITIAL_STATE, data) ^ 0xFFFF_FFFFu32
}

/// Absorbing a concatenation is absorbing the first part, then the second.
pub proof fn lemma_absorb_concat(state: u32, first: Seq<u8>, second: Seq<u8>)
    ensures
        absorb(state, first + second) == absorb(absorb(state, first), second),
    decreases second.len(),
{
    if second.len() == 0 {
        assert(first + second =~= first);
    } else {
        lemma_absorb_concat(state, first, second.drop_last());
        assert((first + second).drop_last() =~= first + second.drop_last());
        assert((first + second).last() == second.last());
    }
}

fn shift(state: u32) -> (r: u32)
    ensures
        r == shift_once(state),
{
    if state & 1u32 == 1u32 {
        (state >> 1u32) ^ 0xEDB8_8320u32
    } else {
        state >> 1u32
    }
}

fn absorb_one(state: u32, byte: u8) -> (r: u32)
    ensures
        r == absorb_byte(state, byte),
{
    let s0: u32 = state ^ (byte as u32);
    shift(shift(shift(shift(shift(shift(shift(shift(s0))))))))
}

/// A running CRC-32 computation that can be fed in pieces.
#[derive(Clone, Copy, Debug)]
pub struct Digest {
    state: u32,
}

impl Digest {
    /// The register as it stands.
    pub closed spec fn state(&self) -> u32 {
        self.state
    }

    /// A computation that has absorbed nothing.
    pub fn new() -> (r: Self)
        ensures
            r.state() == INITIAL_STATE,
    {
        Digest { state: INITIAL_STATE }
    }

    /// Absorbs `data`.
    pub fn update(&mut self, data: &[u8])
        ensures
            final(self).state() == absorb(old(self).state(), data@),
    {
        let mut i: usize = 0;
        let ghost start = self.state;
        while i < data.len()
            invariant
                i <= data.len(),
                self.state == absorb(start, data@.take(i as int)),
            decreases data.len() - i,
        {
            proof {
                assert(data@.take(i + 1).drop_last() =~= data@.take(i as int));
                assert(data@.take(i + 1).last() == data@[i as int]);
            }
            self.state = absorb_one(self.state, data[i]);
            i += 1;
        }
        proof {
            assert(data@.take(i as int) =~= data@);
        }
    }

    /// The checksum of everything absorbed so far.
    pub fn finalize(&self) -> (r: u32)
        ensures
            r == self.state() ^ 0xFFFF_FFFFu32,
    {
        self.state ^ 0xFFFF_FFFFu32
    }
}

/// Computes the CRC-32 checksum of `data`.
pub fn checksum(data: &[u8]) -> (r: u32)
    ensures
        r == checksum_of(data@),
{
    let mut digest = Digest::new();
    digest.update(data);
    digest.finalize()
}

/// The checksum of a concatenation can be computed piecewise: feeding
/// `first` and then `second` to one [`Digest`] gives the checksum of
/// `first + second`.
pub proof fn lemma_checksum_piecewise(first: Seq<u8>, second: Seq<u8>)
    ensures
        checksum_of(first + second) == absorb(absorb(INITIAL_STATE, first), second)
            ^ 0xFFFF_FFFFu32,
{
    lemma_absorb_concat(INITIAL_STATE, first, second);
}

} // verus!
