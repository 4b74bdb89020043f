//! The two message alphabets of the channel: what a client writes to the
//! device, and what the device notifies to a client.
//!
//! Every message is one tag byte, then its fixed-width fields in
//! little-endian order, then (for some) trailing bytes.

use vstd::prelude::*;
use vstd::slice::slice_subrange;
use vstd::utf8::{decode_utf8, encode_utf8, valid_utf8, encode_utf8_valid_utf8, encode_utf8_decode_utf8};
use super::meta_date::{ChunkMetaData, MetaData};
use super::wire::{append_bytes, get_u16, get_u32, put_u16, put_u32, u16_le, u32_le, le_u16, le_u32,
    lemma_u16_round_trip, lemma_u32_round_trip};
use super::DecodeError;

verus! {

/// A message from a client to the device.
#[derive(Debug, Clone, Copy, PartialEq, Eq, Structural)]
pub enum ReadMessage {
    /// Opens a read session.
    StartRead,
    /// Acknowledges what was read: the next chunk starts at `next_start`.
    ReadReceive { next_start: u32 },
    /// Closes the read session.
    ReadFinish,
    /// Opens a write session of the given identity and size.
    StartWrite(MetaData),
    /// One chunk of a write session; its payload trails the message.
    Write(ChunkMetaData),
}

impl ReadMessage {
    /// The bytes that stand for this message.
    pub open spec fn encoded(self) -> Seq<u8> {
        match self {
            ReadMessage::StartRead => seq![0u8],
            ReadMessage::ReadReceive { next_start } => seq![1u8] + u32_le(next_start),
            ReadMessage::ReadFinish => seq![2u8],
            ReadMessage::StartWrite(meta) => seq![3u8] + meta.encoded(),
            ReadMessage::Write(chunk) => seq![4u8] + chunk.encoded(),
        }
    }

    /// What decoding `s` gives: the message and the bytes after it, or why
    /// `s` is no message.
    pub open spec fn decoded(s: Seq<u8>) -> Result<(ReadMessage, Seq<u8>), DecodeError> {
        if s.len() == 0 {
            Err(DecodeError::Truncated)
        } else if s[0] == 0 {
            Ok((ReadMessage::StartRead, s.skip(1)))
        } else if s[0] == 1 {
            if s.len() < 5 {
                Err(DecodeError::Truncated)
            } else {
                Ok((ReadMessage::ReadReceive { next_start: le_u32(s, 1) }, s.skip(5)))
            }
        } else if s[0] == 2 {
            Ok((ReadMessage::ReadFinish, s.skip(1)))
        } else if s[0] == 3 {
            if s.len() < 9 {
                Err(DecodeError::Truncated)
            } else {
                Ok((ReadMessage::StartWrite(MetaData::decoded_at(s, 1)), s.skip(9)))
            }
        } else if s[0] == 4 {
            if s.len() < 13 {
                Err(DecodeError::Truncated)
            } else {
                Ok((ReadMessage::Write(ChunkMetaData::decoded_at(s, 1)), s.skip(13)))
            }
        } else {
            Err(DecodeError::UnknownTag(s[0]))
        }
    }

    /// Decoding an encoded message gives the message back, and as the rest
    /// exactly what was appended to it: nothing, where nothing was.
    pub proof fn lemma_round_trip(self, after: Seq<u8>)
        ensures
            Self::decoded(self.encoded() + after) == Ok::<_, DecodeError>((self, after)),
            Self::decoded(self.encoded()) == Ok::<_, DecodeError>((self, Seq::<u8>::empty())),
        decreases after.len(),
    {
        let s = self.encoded() + after;
        match self {
            ReadMessage::StartRead => {
                assert(s.skip(1) =~= after);
            },
            ReadMessage::ReadReceive { next_start } => {
                lemma_u32_round_trip(next_start, seq![1u8], after);
                assert(s.skip(5) =~= after);
            },
            ReadMessage::ReadFinish => {
                assert(s.skip(1) =~= after);
            },
            ReadMessage::StartWrite(meta) => {
                meta.lemma_round_trip_at(seq![3u8], after);
                assert(s.skip(9) =~= after);
            },
            ReadMessage::Write(chunk) => {
                chunk.lemma_round_trip_at(seq![4u8], after);
                assert(s.skip(13) =~= after);
            },
        }
        if after.len() == 0 {
            assert(after =~= Seq::<u8>::empty());
            assert(self.encoded() + after =~= self.encoded());
        } else {
            self.lemma_round_trip(Seq::<u8>::empty());
        }
    }

    /// Reads one message from the front of `bytes` and hands back what
    /// follows it.
    pub fn from_data<'a>(bytes: &'a [u8]) -> (r: Result<(ReadMessage, &'a [u8]), DecodeError>)
        ensures
            match r {
                Ok((msg, rest)) => Self::decoded(bytes@) == Ok::<_, DecodeError>((msg, rest@)),
                Err(e) => Self::decoded(bytes@) == Err::<(ReadMessage, Seq<u8>), _>(e),
            },
    {
        let len = bytes.len();
        if len == 0 {
            return Err(DecodeError::Truncated);
        }
        let tag = bytes[0];
        if tag == 0 {
            let rest = slice_subrange(bytes, 1, len);
            assert(rest@ =~= bytes@.skip(1));
            Ok((ReadMessage::StartRead, rest))
        } else if tag == 1 {
            if len < 5 {
                return Err(DecodeError::Truncated);
            }
            let next_start = get_u32(bytes, 1);
            let rest = slice_subrange(bytes, 5, len);
            assert(rest@ =~= bytes@.skip(5));
            Ok((ReadMessage::ReadReceive { next_start }, rest))
        } else if tag == 2 {
            let rest = slice_subrange(bytes, 1, len);
            assert(rest@ =~= bytes@.skip(1));
            Ok((ReadMessage::ReadFinish, rest))
        } else if tag == 3 {
            if len < 9 {
                return Err(DecodeError::Truncated);
            }
            let meta = MetaData { id: get_u32(bytes, 1), total_size: get_u32(bytes, 5) };
            let rest = slice_subrange(bytes, 9, len);
            assert(rest@ =~= bytes@.skip(9));
            Ok((ReadMessage::StartWrite(meta), rest))
        } else if tag == 4 {
            if len < 13 {
                return Err(DecodeError::Truncated);
            }
            let chunk = ChunkMetaData {
                id: get_u32(bytes, 1),
                start: get_u32(bytes, 5),
                chunk_size: get_u32(bytes, 9),
            };
            let rest = slice_subrange(bytes, 13, len);
            assert(rest@ =~= bytes@.skip(13));
            Ok((ReadMessage::Write(chunk), rest))
        } else {
            Err(DecodeError::UnknownTag(tag))
        }
    }

    /// The encoded message.
    pub fn bytes(&self) -> (out: Vec<u8>)
        ensures
            out@ == self.encoded(),
    {
        let mut out: Vec<u8> = Vec::new();
        match self {
            ReadMessage::StartRead => {
                out.push(0u8);
            },
            ReadMessage::ReadReceive { next_start } => {
                out.push(1u8);
                put_u32(&mut out, *next_start);
            },
            ReadMessage::ReadFinish => {
                out.push(2u8);
            },
            ReadMessage::StartWrite(meta) => {
                out.push(3u8);
                put_u32(&mut out, meta.id);
                put_u32(&mut out, meta.total_size);
            },
            ReadMessage::Write(chunk) => {
                out.push(4u8);
                put_u32(&mut out, chunk.id);
                put_u32(&mut out, chunk.start);
                put_u32(&mut out, chunk.chunk_size);
            },
        }
        assert(out@ =~= self.encoded());
        out
    }
}

/// A message from the device to a subscribed client.
#[derive(Debug, Clone, PartialEq, Eq)]
pub enum NotifyMessage {
    /// The buffer changed outside any session.
    DataUpdate,
    /// A read session is open under the given identity and size.
    ReadReady(MetaData),
    /// A write session is open; chunks may be as large as `mtu` allows.
    WriteReady { mtu: u16 },
    /// A chunk was taken; the next one starts at `next_start`.
    WriteReceive { next_start: u32 },
    /// The last chunk of the write session was taken.
    WriteFinish,
    /// A request failed, with the reason as text.
    Error(String),
}

/// The value of a [`NotifyMessage`], with text as a sequence of characters.
pub ghost enum NotifyModel {
    DataUpdate,
    ReadReady(MetaData),
    WriteReady { mtu: u16 },
    WriteReceive { next_start: u32 },
    WriteFinish,
    Error(Seq<char>),
}

impl View for NotifyMessage {
    type V = NotifyModel;

    open spec fn view(&self) -> NotifyModel {
        match self {
            NotifyMessage::DataUpdate => NotifyModel::DataUpdate,
            NotifyMessage::ReadReady(meta) => NotifyModel::ReadReady(*meta),
            NotifyMessage::WriteReady { mtu } => NotifyModel::WriteReady { mtu: *mtu },
            NotifyMessage::WriteReceive { next_start } => NotifyModel::WriteReceive {
                next_start: *next_start,
            },
            NotifyMessage::WriteFinish => NotifyModel::WriteFinish,
            NotifyMessage::Error(text) => NotifyModel::Error(text@),
        }
    }
}

/// The text that `String::from_utf8_lossy` makes of bytes that are not
/// valid UTF-8.
pub uninterp spec fn lossy_text(bytes: Seq<u8>) -> Seq<char>;

/// The text carried by the trailing bytes of an error message: the text
/// they encode where they are valid UTF-8, else what lossy conversion makes
/// of them.
pub open spec fn text_of(bytes: Seq<u8>) -> Seq<char> {
    if valid_utf8(bytes) {
        decode_utf8(bytes)
    } else {
        lossy_text(bytes)
    }
}

/// `String::from_utf8_lossy`, as an owned string. Trusted: valid UTF-8 is
/// decoded as it stands; of other input the result is only given its name.
#[verifier::external_body]
fn lossy_string(bytes: &[u8]) -> (text: String)
    ensures
        valid_utf8(bytes@) ==> text@ == decode_utf8(bytes@),
        !valid_utf8(bytes@) ==> text@ == lossy_text(bytes@),
{
    String::from_utf8_lossy(bytes).into_owned()
}

impl NotifyModel {
    /// The bytes that stand for this message.
    pub open spec fn encoded(self) -> Seq<u8> {
        match self {
            NotifyModel::WriteFinish => seq![0u8],
            NotifyModel::DataUpdate => seq![1u8],
            NotifyModel::ReadReady(meta) => seq![2u8] + meta.encoded(),
            NotifyModel::WriteReady { mtu } => seq![3u8] + u16_le(mtu),
            NotifyModel::WriteReceive { next_start } => seq![4u8] + u32_le(next_start),
            NotifyModel::Error(text) => seq![5u8] + encode_utf8(text),
        }
    }

    /// What decoding `s` gives: the message and the bytes after it, or why
    /// `s` is no message. An error message takes all that follows its tag
    /// as its text.
    pub open spec fn decoded(s: Seq<u8>) -> Result<(NotifyModel, Seq<u8>), DecodeError> {
        if s.len() == 0 {
            Err(DecodeError::Truncated)
        } else if s[0] == 0 {
            Ok((NotifyModel::WriteFinish, s.skip(1)))
        } else if s[0] == 1 {
            Ok((NotifyModel::DataUpdate, s.skip(1)))
        } else if s[0] == 2 {
            if s.len() < 9 {
                Err(DecodeError::Truncated)
            } else {
                Ok((NotifyModel::ReadReady(MetaData::decoded_at(s, 1)), s.skip(9)))
            }
        } else if s[0] == 3 {
            if s.len() < 3 {
                Err(DecodeError::Truncated)
            } else {
                Ok((NotifyModel::WriteReady { mtu: le_u16(s, 1) }, s.skip(3)))
            }
        } else if s[0] == 4 {
            if s.len() < 5 {
                Err(DecodeError::Truncated)
            } else {
                Ok((NotifyModel::WriteReceive { next_start: le_u32(s, 1) }, s.skip(5)))
            }
        } else if s[0] == 5 {
            Ok((NotifyModel::Error(text_of(s.skip(1))), Seq::<u8>::empty()))
        } else {
            Err(DecodeError::UnknownTag(s[0]))
        }
    }

    /// Decoding an encoded message gives the message back and leaves
    /// nothing over.
    pub proof fn lemma_round_trip(self)
        ensures
            Self::decoded(self.encoded()) == Ok::<_, DecodeError>((self, Seq::<u8>::empty())),
    {
        let after = Seq::<u8>::empty();
        let s = self.encoded();
        match self {
            NotifyModel::WriteFinish => {
                assert(s.skip(1) =~= after);
            },
            NotifyModel::DataUpdate => {
                assert(s.skip(1) =~= after);
            },
            NotifyModel::ReadReady(meta) => {
                meta.lemma_round_trip_at(seq![2u8], after);
                assert(seq![2u8] + meta.encoded() + after =~= s);
                assert(s.skip(9) =~= after);
            },
            NotifyModel::WriteReady { mtu } => {
                lemma_u16_round_trip(mtu, seq![3u8], after);
                assert(seq![3u8] + u16_le(mtu) + after =~= s);
                assert(s.skip(3) =~= after);
            },
            NotifyModel::WriteReceive { next_start } => {
                lemma_u32_round_trip(next_start, seq![4u8], after);
                assert(seq![4u8] + u32_le(next_start) + after =~= s);
                assert(s.skip(5) =~= after);
            },
            NotifyModel::Error(text) => {
                encode_utf8_valid_utf8(text);
                encode_utf8_decode_utf8(text);
                assert(s.skip(1) =~= encode_utf8(text));
            },
        }
    }

    /// Before the tag of an error message, a decoded message is followed by
    /// exactly what was appended to its encoding.
    pub proof fn lemma_round_trip_with_rest(self, after: Seq<u8>)
        requires
            !(self is Error),
        ensures
            Self::decoded(self.encoded() + after) == Ok::<_, DecodeError>((self, after)),
    {
        let s = self.encoded() + after;
        match self {
            NotifyModel::WriteFinish => {
                assert(s.skip(1) =~= after);
            },
            NotifyModel::DataUpdate => {
                assert(s.skip(1) =~= after);
            },
            NotifyModel::ReadReady(meta) => {
                meta.lemma_round_trip_at(seq![2u8], after);
                assert(s.skip(9) =~= after);
            },
            NotifyModel::WriteReady { mtu } => {
                lemma_u16_round_trip(mtu, seq![3u8], after);
                assert(s.skip(3) =~= after);
            },
            NotifyModel::WriteReceive { next_start } => {
                lemma_u32_round_trip(next_start, seq![4u8], after);
                assert(s.skip(5) =~= after);
            },
            NotifyModel::Error(text) => {},
        }
    }
}

impl NotifyMessage {
    /// Reads one message from the front of `bytes` and hands back what
    /// follows it.
    pub fn from_data<'a>(bytes: &'a [u8]) -> (r: Result<(NotifyMessage, &'a [u8]), DecodeError>)
        ensures
            match r {
                Ok((msg, rest)) => NotifyModel::decoded(bytes@) == Ok::<_, DecodeError>(
                    (msg@, rest@),
                ),
                Err(e) => NotifyModel::decoded(bytes@) == Err::<(NotifyModel, Seq<u8>), _>(e),
            },
    {
        let len = bytes.len();
        if len == 0 {
            return Err(DecodeError::Truncated);
        }
        let tag = bytes[0];
        if tag == 0 {
            let rest = slice_subrange(bytes, 1, len);
            assert(rest@ =~= bytes@.skip(1));
            Ok((NotifyMessage::WriteFinish, rest))
        } else if tag == 1 {
            let rest = slice_subrange(bytes, 1, len);
            assert(rest@ =~= bytes@.skip(1));
            Ok((NotifyMessage::DataUpdate, rest))
        } else if tag == 2 {
            if len < 9 {
                return Err(DecodeError::Truncated);
            }
            let meta = MetaData { id: get_u32(bytes, 1), total_size: get_u32(bytes, 5) };
            let rest = slice_subrange(bytes, 9, len);
            assert(rest@ =~= bytes@.skip(9));
            Ok((NotifyMessage::ReadReady(meta), rest))
        } else if tag == 3 {
            if len < 3 {
                return Err(DecodeError::Truncated);
            }
            let mtu = get_u16(bytes, 1);
            let rest = slice_subrange(bytes, 3, len);
            assert(rest@ =~= bytes@.skip(3));
            Ok((NotifyMessage::WriteReady { mtu }, rest))
        } else if tag == 4 {
            if len < 5 {
                return Err(DecodeError::Truncated);
            }
            let next_start = get_u32(bytes, 1);
            let rest = slice_subrange(bytes, 5, len);
            assert(rest@ =~= bytes@.skip(5));
            Ok((NotifyMessage::WriteReceive { next_start }, rest))
        } else if tag == 5 {
            let tail = slice_subrange(bytes, 1, len);
            assert(tail@ =~= bytes@.skip(1));
            let text = lossy_string(tail);
            let rest = slice_subrange(bytes, len, len);
            assert(rest@ =~= Seq::<u8>::empty());
            Ok((NotifyMessage::Error(text), rest))
        } else {
            Err(DecodeError::UnknownTag(tag))
        }
    }

    /// The encoded message.
    pub fn bytes(&self) -> (out: Vec<u8>)
        ensures
            out@ == self@.encoded(),
    {
        let mut out: Vec<u8> = Vec::new();
        match self {
            NotifyMessage::WriteFinish => {
                out.push(0u8);
            },
            NotifyMessage::DataUpdate => {
                out.push(1u8);
            },
            NotifyMessage::ReadReady(meta) => {
                out.push(2u8);
                put_u32(&mut out, meta.id);
                put_u32(&mut out, meta.total_size);
            },
            NotifyMessage::WriteReady { mtu } => {
                out.push(3u8);
                put_u16(&mut out, *mtu);
            },
            NotifyMessage::WriteReceive { next_start } => {
                out.push(4u8);
                put_u32(&mut out, *next_start);
            },
            NotifyMessage::Error(text) => {
                out.push(5u8);
                append_bytes(&mut out, text.as_str().as_bytes());
            },
        }
        assert(out@ =~= self@.encoded());
        out
    }
}

} // verus!
