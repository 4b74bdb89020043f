//! What holds of every session on a channel: what a reader gathers, what a
//! writer can change, and what local code sees meanwhile.

use vstd::prelude::*;
use super::meta_date::{ChunkMetaData, MetaData};
use super::msg::{NotifyModel, ReadMessage};
use super::{write_failed_text, Channel, DecodeError, OutcomeModel, State, READ_HEADER_SIZE};

verus! {

impl Channel {
    /// The channel after a reader acknowledged the chunk with header
    /// `meta`: it asks for what follows that chunk.
    pub open spec fn acknowledged(self, meta: ChunkMetaData) -> Channel {
        self.after(
            ReadMessage::ReadReceive { next_start: (meta.start + meta.chunk_size) as u32 },
            Seq::empty(),
            0,
        )
    }

    /// The payload that a reader has gathered after one read access for
    /// each transfer unit of `mtus`, in order, each served chunk
    /// acknowledged before the next access.
    pub open spec fn gathered(self, mtus: Seq<u16>) -> Seq<u8>
        decreases mtus.len(),
    {
        if mtus.len() == 0 {
            Seq::empty()
        } else {
            match ChunkMetaData::decoded(self.read_chunk(mtus[0])) {
                Ok((meta, payload)) => payload + self.acknowledged(meta).gathered(
                    mtus.drop_first(),
                ),
                Err(_) => self.gathered(mtus.drop_first()),
            }
        }
    }

    /// The channel after the read accesses and acknowledgements of
    /// [`Channel::gathered`].
    pub open spec fn drained(self, mtus: Seq<u16>) -> Channel
        decreases mtus.len(),
    {
        if mtus.len() == 0 {
            self
        } else {
            match ChunkMetaData::decoded(self.read_chunk(mtus[0])) {
                Ok((meta, payload)) => self.acknowledged(meta).drained(mtus.drop_first()),
                Err(_) => self.drained(mtus.drop_first()),
            }
        }
    }

    /// The channel after one step of a write session.
    pub open spec fn stepped(self, step: SessionStep) -> Channel {
        match step {
            SessionStep::Chunk { meta, payload } => self.after(
                ReadMessage::Write(meta),
                payload,
                0,
            ),
            SessionStep::LocalGet => self,
            SessionStep::LocalSet { value } => self.after_set(value),
        }
    }

    /// The channel after a run of steps, one after the other.
    pub open spec fn ran(self, steps: Seq<SessionStep>) -> Channel
        decreases steps.len(),
    {
        if steps.len() == 0 {
            self
        } else {
            self.ran(steps.drop_last()).stepped(steps.last())
        }
    }
}

/// One thing that happens to a channel while a write session is open: the
/// remote side writes a chunk, or local code asks for the buffer or asks
/// to replace it.
pub ghost enum SessionStep {
    Chunk { meta: ChunkMetaData, payload: Seq<u8> },
    LocalGet,
    LocalSet { value: Seq<u8> },
}

/// The payloads of the chunks in a run of steps, one after the other.
pub open spec fn payloads(steps: Seq<SessionStep>) -> Seq<u8>
    decreases steps.len(),
{
    if steps.len() == 0 {
        Seq::empty()
    } else {
        match steps.last() {
            SessionStep::Chunk { meta, payload } => payloads(steps.drop_last()) + payload,
            _ => payloads(steps.drop_last()),
        }
    }
}

/// A step that leaves the session of `meta` open: a local access, or a
/// chunk of that session that ends before the announced size.
pub open spec fn continues(meta: MetaData, step: SessionStep) -> bool {
    step matches SessionStep::Chunk { meta: chunk, .. } ==> chunk.id == meta.id && chunk.start
        + chunk.chunk_size < meta.total_size
}

/// Whatever message arrives and whatever local code asks, a channel stays
/// well formed.
pub proof fn lemma_channel_stays_well_formed(
    c: Channel,
    msg: ReadMessage,
    payload: Seq<u8>,
    id: u32,
    value: Seq<u8>,
)
    requires
        c.wf(),
    ensures
        c.after(msg, payload, id).wf(),
        c.after_set(value).wf(),
{
}

/// While a read session is open the buffer stays as the session found it:
/// local code cannot touch it, and of the remote messages only the opening
/// of a write session does.
pub proof fn lemma_read_session_keeps_buffer(
    c: Channel,
    msg: ReadMessage,
    payload: Seq<u8>,
    id: u32,
    value: Seq<u8>,
)
    requires
        c.state == Some(State::Reading),
        !(msg is StartWrite),
    ensures
        c.after(msg, payload, id).data == c.data,
        c.after_set(value).data == c.data,
{
}

/// A served chunk decodes to its header and its payload: the bytes of the
/// buffer from the cursor on, as many as the header announces.
pub proof fn lemma_chunk_decodes(c: Channel, mtu: u16)
    requires
        c.wf(),
        c.serves(mtu),
    ensures
        ChunkMetaData::decoded(c.read_chunk(mtu)) == Ok::<_, DecodeError>(
            (c.chunk_meta(mtu), c.data.subrange(c.start as int, c.start + c.chunk_len(mtu))),
        ),
        0 <= c.chunk_len(mtu) <= mtu - READ_HEADER_SIZE,
        c.start + c.chunk_len(mtu) <= c.read_meta.unwrap().total_size,
        mtu > READ_HEADER_SIZE ==> c.chunk_len(mtu) > 0,
{
    c.chunk_meta(mtu).lemma_round_trip(
        c.data.subrange(c.start as int, c.start + c.chunk_len(mtu)),
    );
}

/// Whatever transfer units a reader chooses, the payloads of the chunks it
/// is served, each acknowledged in turn and joined in order, are the bytes
/// of the buffer from where the cursor stood to where it stands then.
pub proof fn lemma_chunks_rebuild_buffer(c: Channel, mtus: Seq<u16>)
    requires
        c.wf(),
        c.state == Some(State::Reading),
        c.start <= c.read_meta.unwrap().total_size,
    ensures
        c.start <= c.drained(mtus).start <= c.read_meta.unwrap().total_size,
        c.gathered(mtus) == c.data.subrange(c.start as int, c.drained(mtus).start as int),
        c.drained(mtus) == (Channel { start: c.drained(mtus).start, ..c }),
    decreases mtus.len(),
{
    if mtus.len() == 0 {
        assert(c.gathered(mtus) =~= c.data.subrange(c.start as int, c.start as int));
    } else {
        let rest = mtus.drop_first();
        if c.serves(mtus[0]) {
            lemma_chunk_decodes(c, mtus[0]);
            let meta = c.chunk_meta(mtus[0]);
            let next = c.acknowledged(meta);
            assert(next == Channel { start: (c.start + c.chunk_len(mtus[0])) as u32, ..c });
            lemma_chunks_rebuild_buffer(next, rest);
            assert(c.gathered(mtus) =~= c.data.subrange(
                c.start as int,
                c.drained(mtus).start as int,
            ));
        } else {
            assert(c.read_chunk(mtus[0]).len() == 0);
            lemma_chunks_rebuild_buffer(c, rest);
        }
    }
}

/// A read session rebuilds the buffer: once the acknowledged offset has
/// reached the announced size, the reader holds the buffer as it was when
/// the session opened, byte for byte.
pub proof fn lemma_read_session_rebuilds_buffer(c: Channel, id: u32, mtus: Seq<u16>)
    requires
        c.wf(),
        c.data.len() <= u32::MAX,
        ({
            let open = c.after(ReadMessage::StartRead, Seq::empty(), id);
            open.drained(mtus).start == open.read_meta.unwrap().total_size
        }),
    ensures
        c.reply(ReadMessage::StartRead, Seq::empty(), id) == OutcomeModel::notifying(
            NotifyModel::ReadReady(MetaData { id, total_size: c.data.len() as u32 }),
        ),
        c.after(ReadMessage::StartRead, Seq::empty(), id).gathered(mtus) == c.data,
{
    let open = c.after(ReadMessage::StartRead, Seq::empty(), id);
    lemma_chunks_rebuild_buffer(open, mtus);
    assert(c.data.subrange(0, c.data.len() as int) =~= c.data);
}

/// A reader whose transfer units all have room beyond the header gets
/// ahead with every access: after `mtus.len()` of them the cursor has
/// reached the end of the session or moved by at least that many bytes.
pub proof fn lemma_reader_progresses(c: Channel, mtus: Seq<u16>)
    requires
        c.wf(),
        c.state == Some(State::Reading),
        c.start <= c.read_meta.unwrap().total_size,
        forall|i: int| 0 <= i < mtus.len() ==> mtus[i] > READ_HEADER_SIZE,
    ensures
        c.drained(mtus).start == c.read_meta.unwrap().total_size || c.drained(mtus).start
            >= c.start + mtus.len(),
    decreases mtus.len(),
{
    lemma_chunks_rebuild_buffer(c, mtus);
    if mtus.len() != 0 {
        let rest = mtus.drop_first();
        assert forall|i: int| 0 <= i < rest.len() implies rest[i] > READ_HEADER_SIZE by {
            assert(rest[i] == mtus[i + 1]);
        }
        if c.serves(mtus[0]) {
            lemma_chunk_decodes(c, mtus[0]);
            let next = c.acknowledged(c.chunk_meta(mtus[0]));
            assert(next == Channel { start: (c.start + c.chunk_len(mtus[0])) as u32, ..c });
            lemma_reader_progresses(next, rest);
        } else {
            assert(c.read_chunk(mtus[0]).len() == 0);
            lemma_chunks_rebuild_buffer(c, rest);
            lemma_reader_progresses(c, rest);
        }
    }
}

/// A chunk that the open write session does not accept changes nothing and
/// is answered with the error for a failed write. This is so in particular
/// for a chunk under another identity than the session's, and for any chunk
/// while no write session is open.
pub proof fn lemma_foreign_chunk_is_rejected(
    c: Channel,
    chunk: ChunkMetaData,
    payload: Seq<u8>,
    id: u32,
)
    requires
        c.state != Some(State::Writing) || c.write_meta is None || c.write_meta.unwrap().id
            != chunk.id,
    ensures
        c.after(ReadMessage::Write(chunk), payload, id) == c,
        c.reply(ReadMessage::Write(chunk), payload, id) == OutcomeModel::notifying(
            NotifyModel::Error(write_failed_text()),
        ),
{
}

/// While a session is open, local code neither sees the buffer nor
/// changes it.
pub proof fn lemma_open_session_excludes_local_access(c: Channel, value: Seq<u8>)
    requires
        c.state is Some,
    ensures
        c.local_value() is None,
        c.after_set(value) == c,
{
}

/// A write session stays open, and the buffer hidden from local code,
/// through every interleaving of local accesses with chunks of the session
/// that end before the announced size. The buffer meanwhile holds the
/// payloads written so far and nothing that local code asked to set.
pub proof fn lemma_write_session_stays_open(c: Channel, meta: MetaData, steps: Seq<SessionStep>)
    requires
        forall|i: int| 0 <= i < steps.len() ==> continues(meta, #[trigger] steps[i]),
    ensures
        ({
            let end = c.after(ReadMessage::StartWrite(meta), Seq::empty(), 0).ran(steps);
            &&& end.state == Some(State::Writing)
            &&& end.write_meta == Some(meta)
            &&& end.data == payloads(steps)
            &&& end.local_value() is None
        }),
    decreases steps.len(),
{
    if steps.len() != 0 {
        let head = steps.drop_last();
        assert forall|i: int| 0 <= i < head.len() implies continues(meta, #[trigger] head[i]) by {
            assert(head[i] == steps[i]);
        }
        lemma_write_session_stays_open(c, meta, head);
        assert(continues(meta, steps[steps.len() - 1]));
    }
}

/// Local code never sees a partly written buffer. However its accesses are
/// interleaved with the chunks of a write session, each access before the
/// last chunk sees nothing and changes nothing; once the chunk that
/// reaches the announced size is in, the channel is idle and local code
/// sees all the payloads in order, the same bytes that are handed on as the
/// finished write.
pub proof fn lemma_local_code_sees_whole_writes(
    c: Channel,
    meta: MetaData,
    steps: Seq<SessionStep>,
    last: ChunkMetaData,
    payload: Seq<u8>,
)
    requires
        forall|i: int| 0 <= i < steps.len() ==> continues(meta, #[trigger] steps[i]),
        last.id == meta.id,
        last.start + last.chunk_size >= meta.total_size,
    ensures
        ({
            let open = c.after(ReadMessage::StartWrite(meta), Seq::empty(), 0);
            let before = open.ran(steps);
            let end = before.after(ReadMessage::Write(last), payload, 0);
            &&& forall|n: int|
                0 <= n <= steps.len() ==> {
                    let then = #[trigger] open.ran(steps.take(n));
                    then.local_value() is None && forall|value: Seq<u8>|
                        then.after_set(value) == then
                }
            &&& end.state is None
            &&& end.local_value() == Some(payloads(steps) + payload)
            &&& before.reply(ReadMessage::Write(last), payload, 0) == (OutcomeModel {
                notify: Some(NotifyModel::WriteFinish),
                finished: Some(payloads(steps) + payload),
            })
        }),
{
    let open = c.after(ReadMessage::StartWrite(meta), Seq::empty(), 0);
    lemma_write_session_stays_open(c, meta, steps);
    assert forall|n: int| 0 <= n <= steps.len() implies ({
        let then = #[trigger] open.ran(steps.take(n));
        then.local_value() is None && forall|value: Seq<u8>| then.after_set(value) == then
    }) by {
        let part = steps.take(n);
        assert forall|i: int| 0 <= i < part.len() implies continues(meta, #[trigger] part[i]) by {
            assert(part[i] == steps[i]);
        }
        lemma_write_session_stays_open(c, meta, part);
    }
}

} // verus!
