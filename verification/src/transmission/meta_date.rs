//! Session and chunk headers of a chunked transfer.

use vstd::prelude::*;
use vstd::slice::slice_subrange;
use super::wire::{get_u32, put_u32, u32_le, le_u32, lemma_u32_round_trip};
use super::DecodeError;

verus! {

/// Encoded width of a [`MetaData`].
pub const META_DATA_SIZE: usize = 8;

/// Encoded width of a [`ChunkMetaData`].
pub const CHUNK_META_DATA_SIZE: usize = 12;

/// Names one chunk of a session: the session it belongs to, the offset of
/// its first byte and the number of payload bytes it announces.
#[derive(Debug, Clone, Copy, PartialEq, Eq, Structural)]
pub struct ChunkMetaData {
    pub id: u32,
    pub start: u32,
    pub chunk_size: u32,
}

impl ChunkMetaData {
    /// The twelve bytes that stand for this header: `id`, `start`,
    /// `chunk_size`, each little-endian.
    pub open spec fn encoded(self) -> Seq<u8> {
        u32_le(self.id) + u32_le(self.start) + u32_le(self.chunk_size)
    }

    /// The header whose twelve bytes start at `at` in `s`.
    pub open spec fn decoded_at(s: Seq<u8>, at: int) -> ChunkMetaData {
        ChunkMetaData { id: le_u32(s, at), start: le_u32(s, at + 4), chunk_size: le_u32(s, at + 8) }
    }

    /// What decoding `s` gives: the header and the bytes after it, or
    /// `Truncated` where fewer than twelve bytes are there.
    pub open spec fn decoded(s: Seq<u8>) -> Result<(ChunkMetaData, Seq<u8>), DecodeError> {
        if s.len() < 12 {
            Err(DecodeError::Truncated)
        } else {
            Ok((Self::decoded_at(s, 0), s.skip(12)))
        }
    }

    /// An encoded header is read back from wherever it stands in a buffer.
    pub proof fn lemma_round_trip_at(self, before: Seq<u8>, after: Seq<u8>)
        ensures
            self.encoded().len() == 12,
            Self::decoded_at(before + self.encoded() + after, before.len() as int) == self,
    {
        let s = before + self.encoded() + after;
        lemma_u32_round_trip(self.id, before, u32_le(self.start) + u32_le(self.chunk_size) + after);
        lemma_u32_round_trip(self.start, before + u32_le(self.id), u32_le(self.chunk_size) + after);
        lemma_u32_round_trip(self.chunk_size, before + u32_le(self.id) + u32_le(self.start), after);
        assert(s =~= before + u32_le(self.id) + (u32_le(self.start) + u32_le(self.chunk_size)
            + after));
        assert(s =~= (before + u32_le(self.id)) + u32_le(self.start) + (u32_le(self.chunk_size)
            + after));
        assert(s =~= (before + u32_le(self.id) + u32_le(self.start)) + u32_le(self.chunk_size)
            + after);
    }

    /// Decoding an encoded header gives the header back, and as the rest
    /// what was appended to it.
    pub proof fn lemma_round_trip(self, after: Seq<u8>)
        ensures
            Self::decoded(self.encoded() + after) == Ok::<_, DecodeError>((self, after)),
    {
        let e = Seq::<u8>::empty();
        self.lemma_round_trip_at(e, after);
        assert(e + self.encoded() + after =~= self.encoded() + after);
        assert((self.encoded() + after).skip(12) =~= after);
    }

    /// Reads a header from the front of `value` and hands back what
    /// follows it.
    pub fn from_data<'a>(value: &'a [u8]) -> (r: Result<(ChunkMetaData, &'a [u8]), DecodeError>)
        ensures
            match r {
                Ok((meta, rest)) => Self::decoded(value@) == Ok::<_, DecodeError>((meta, rest@)),
                Err(e) => Self::decoded(value@) == Err::<(ChunkMetaData, Seq<u8>), _>(e),
            },
    {
        if value.len() < CHUNK_META_DATA_SIZE {
            return Err(DecodeError::Truncated);
        }
        let res = ChunkMetaData {
            id: get_u32(value, 0),
            start: get_u32(value, 4),
            chunk_size: get_u32(value, 8),
        };
        let rest = slice_subrange(value, CHUNK_META_DATA_SIZE, value.len());
        assert(rest@ =~= value@.skip(12));
        Ok((res, rest))
    }

    /// The encoded header.
    pub fn bytes(&self) -> (data: Vec<u8>)
        ensures
            data@ == self.encoded(),
    {
        let mut data: Vec<u8> = Vec::new();
        put_u32(&mut data, self.id);
        put_u32(&mut data, self.start);
        put_u32(&mut data, self.chunk_size);
        assert(data@ =~= self.encoded());
        data
    }
}

/// Names one session: a nonce chosen when it starts, and the number of
/// bytes that the session transfers.
#[derive(Debug, Clone, Copy, PartialEq, Eq, Structural)]
pub struct MetaData {
    pub id: u32,
    pub total_size: u32,
}

impl MetaData {
    /// The eight bytes that stand for this header: `id`, `total_size`, each
    /// little-endian.
    pub open spec fn encoded(self) -> Seq<u8> {
        u32_le(self.id) + u32_le(self.total_size)
    }

    /// The header whose eight bytes start at `at` in `s`.
    pub open spec fn decoded_at(s: Seq<u8>, at: int) -> MetaData {
        MetaData { id: le_u32(s, at), total_size: le_u32(s, at + 4) }
    }

    /// What decoding `s` gives: the header and the bytes after it, or
    /// `Truncated` where fewer than eight bytes are there.
    pub open spec fn decoded(s: Seq<u8>) -> Result<(MetaData, Seq<u8>), DecodeError> {
        if s.len() < 8 {
            Err(DecodeError::Truncated)
        } else {
            Ok((Self::decoded_at(s, 0), s.skip(8)))
        }
    }

    /// An encoded header is read back from wherever it stands in a buffer.
    pub proof fn lemma_round_trip_at(self, before: Seq<u8>, after: Seq<u8>)
        ensures
            self.encoded().len() == 8,
            Self::decoded_at(before + self.encoded() + after, before.len() as int) == self,
    {
        let s = before + self.encoded() + after;
        lemma_u32_round_trip(self.id, before, u32_le(self.total_size) + after);
        lemma_u32_round_trip(self.total_size, before + u32_le(self.id), after);
        assert(s =~= before + u32_le(self.id) + (u32_le(self.total_size) + after));
        assert(s =~= (before + u32_le(self.id)) + u32_le(self.total_size) + after);
    }

    /// Decoding an encoded header gives the header back, and as the rest
    /// what was appended to it.
    pub proof fn lemma_round_trip(self, after: Seq<u8>)
        ensures
            Self::decoded(self.encoded() + after) == Ok::<_, DecodeError>((self, after)),
    {
        let e = Seq::<u8>::empty();
        self.lemma_round_trip_at(e, after);
        assert(e + self.encoded() + after =~= self.encoded() + after);
        assert((self.encoded() + after).skip(8) =~= after);
    }

    /// Reads a header from the front of `value` and hands back what
    /// follows it.
    pub fn from_data<'a>(value: &'a [u8]) -> (r: Result<(MetaData, &'a [u8]), DecodeError>)
        ensures
            match r {
                Ok((meta, rest)) => Self::decoded(value@) == Ok::<_, DecodeError>((meta, rest@)),
                Err(e) => Self::decoded(value@) == Err::<(MetaData, Seq<u8>), _>(e),
            },
    {
        if value.len() < META_DATA_SIZE {
            return Err(DecodeError::Truncated);
        }
        let res = MetaData { id: get_u32(value, 0), total_size: get_u32(value, 4) };
        let rest = slice_subrange(value, META_DATA_SIZE, value.len());
        assert(rest@ =~= value@.skip(8));
        Ok((res, rest))
    }

    /// The encoded header.
    pub fn bytes(&self) -> (data: Vec<u8>)
        ensures
            data@ == self.encoded(),
    {
        let mut data: Vec<u8> = Vec::new();
        put_u32(&mut data, self.id);
        put_u32(&mut data, self.total_size);
        assert(data@ =~= self.encoded());
        data
    }
}

} // verus!
