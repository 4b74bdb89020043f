//! Chunked transfer of one buffer over a narrow read/write/notify channel.
//!
//! A [`Transmission`] owns the buffer and the state of its single session.
//! Messages written by the remote side drive it one at a time through
//! [`Transmission::handle_write`]; read accesses are served by
//! [`Transmission::on_read`]; code on the device reaches the buffer through
//! [`Transmission::get_value`] and [`Transmission::set_value`], which give
//! way while a session is open.

use vstd::prelude::*;
use vstd::slice::{slice_subrange, slice_to_vec};
use meta_date::{ChunkMetaData, MetaData};
use msg::{NotifyMessage, NotifyModel, ReadMessage};
use wire::append_bytes;

pub mod meta_date;
pub mod msg;
pub mod session;
pub mod wire;

verus! {

/// Why a byte buffer is no message.
#[derive(Debug, Clone, Copy, PartialEq, Eq, Structural)]
pub enum DecodeError {
    /// The buffer ends before the fields that its tag announces (an empty
    /// buffer has no tag at all).
    Truncated,
    /// The first byte is no tag of the alphabet.
    UnknownTag(u8),
}

/// The session that is open on a channel. A channel with no open session
/// is idle.
#[derive(Debug, Clone, Copy, PartialEq, Eq, Structural)]
pub enum State {
    Reading,
    Writing,
}

/// Bytes of a transfer unit that do not carry payload when a chunk is
/// served to a reader: the twelve of an encoded chunk header and the one
/// tag byte of the exchange.
pub const READ_HEADER_SIZE: u16 = 13;

/// The text of the error that answers a chunk which no open write session
/// accepts.
pub open spec fn write_failed_text() -> Seq<char> {
    "write failed"@
}

/// The text of the error that answers bytes which are no message.
pub open spec fn invalid_message_text() -> Seq<char> {
    "invalid message"@
}

/// What a channel is, as plain values.
pub ghost struct Channel {
    /// The buffer.
    pub data: Seq<u8>,
    /// The open session, if any.
    pub state: Option<State>,
    /// Offset of the next chunk that a read access serves.
    pub start: u32,
    /// Identity and size of the read session opened last.
    pub read_meta: Option<MetaData>,
    /// Identity and size of the write session opened last.
    pub write_meta: Option<MetaData>,
    /// The transfer unit seen with the latest remote write.
    pub mtu: u16,
}

/// What the device owes after one message, as plain values.
pub ghost struct OutcomeModel {
    pub notify: Option<NotifyModel>,
    pub finished: Option<Seq<u8>>,
}

/// What the device owes after one message.
#[derive(Debug)]
pub struct Outcome {
    /// The message to notify to the client, if any.
    pub notify: Option<NotifyMessage>,
    /// After the last chunk of a write session: a copy of the buffer as the
    /// session left it, for whoever consumes completed writes. It is taken
    /// before local access to the buffer is possible again.
    pub finished: Option<Vec<u8>>,
}

impl View for Outcome {
    type V = OutcomeModel;

    open spec fn view(&self) -> OutcomeModel {
        OutcomeModel {
            notify: match self.notify {
                Some(m) => Some(m@),
                None => None,
            },
            finished: match self.finished {
                Some(v) => Some(v@),
                None => None,
            },
        }
    }
}

impl OutcomeModel {
    /// Nothing to notify, nothing finished.
    pub open spec fn silent() -> OutcomeModel {
        OutcomeModel { notify: None, finished: None }
    }

    /// One message to notify, nothing finished.
    pub open spec fn notifying(m: NotifyModel) -> OutcomeModel {
        OutcomeModel { notify: Some(m), finished: None }
    }
}

impl Channel {
    /// The channel before anything happened: idle, with an empty buffer.
    pub open spec fn fresh() -> Channel {
        Channel {
            data: Seq::empty(),
            state: None,
            start: 0,
            read_meta: None,
            write_meta: None,
            mtu: 0,
        }
    }

    /// While a read session is open it has an identity, and its size is
    /// covered by the buffer.
    pub open spec fn wf(self) -> bool {
        self.state == Some(State::Reading) ==> self.read_meta is Some
            && self.read_meta.unwrap().total_size <= self.data.len()
    }

    /// The size that a read session opened now announces: the length of the
    /// buffer as far as 32 bits hold it.
    pub open spec fn snapshot_size(self) -> u32 {
        (self.data.len() % 0x1_0000_0000) as u32
    }

    /// A chunk is accepted only by an open write session of its identity.
    pub open spec fn accepts(self, chunk: ChunkMetaData) -> bool {
        &&& self.state == Some(State::Writing)
        &&& self.write_meta is Some
        &&& self.write_meta.unwrap().id == chunk.id
    }

    /// An accepted chunk is the last of its session when it ends at or
    /// beyond the size that the session announced.
    pub open spec fn completes(self, chunk: ChunkMetaData) -> bool {
        chunk.start + chunk.chunk_size >= self.write_meta.unwrap().total_size
    }

    /// The channel after `msg`, whose trailing bytes are `payload`; `id` is
    /// the nonce drawn for a read session that `msg` may open.
    pub open spec fn after(self, msg: ReadMessage, payload: Seq<u8>, id: u32) -> Channel {
        match msg {
            ReadMessage::StartRead => Channel {
                state: Some(State::Reading),
                start: 0,
                read_meta: Some(MetaData { id, total_size: self.snapshot_size() }),
                ..self
            },
            ReadMessage::ReadReceive { next_start } => if self.state == Some(State::Reading) {
                Channel { start: next_start, ..self }
            } else {
                self
            },
            ReadMessage::ReadFinish => if self.state == Some(State::Reading) {
                Channel { state: None, ..self }
            } else {
                self
            },
            ReadMessage::StartWrite(meta) => Channel {
                state: Some(State::Writing),
                write_meta: Some(meta),
                data: Seq::empty(),
                ..self
            },
            ReadMessage::Write(chunk) => if self.accepts(chunk) {
                Channel {
                    data: self.data + payload,
                    state: if self.completes(chunk) {
                        None
                    } else {
                        self.state
                    },
                    ..self
                }
            } else {
                self
            },
        }
    }

    /// What the device owes after `msg`.
    pub open spec fn reply(self, msg: ReadMessage, payload: Seq<u8>, id: u32) -> OutcomeModel {
        match msg {
            ReadMessage::StartRead => OutcomeModel::notifying(
                NotifyModel::ReadReady(MetaData { id, total_size: self.snapshot_size() }),
            ),
            ReadMessage::ReadReceive { next_start } => OutcomeModel::silent(),
            ReadMessage::ReadFinish => OutcomeModel::silent(),
            ReadMessage::StartWrite(meta) => OutcomeModel::notifying(
                NotifyModel::WriteReady { mtu: self.mtu },
            ),
            ReadMessage::Write(chunk) => if !self.accepts(chunk) {
                OutcomeModel::notifying(NotifyModel::Error(write_failed_text()))
            } else if self.completes(chunk) {
                OutcomeModel {
                    notify: Some(NotifyModel::WriteFinish),
                    finished: Some(self.data + payload),
                }
            } else {
                OutcomeModel::notifying(
                    NotifyModel::WriteReceive {
                        next_start: (chunk.start + chunk.chunk_size) as u32,
                    },
                )
            },
        }
    }

    /// The channel after the bytes of one remote write: bytes that are no
    /// message leave it as it is.
    pub open spec fn after_bytes(self, bytes: Seq<u8>, id: u32) -> Channel {
        match ReadMessage::decoded(bytes) {
            Ok((msg, payload)) => self.after(msg, payload, id),
            Err(_) => self,
        }
    }

    /// What the device owes after the bytes of one remote write: bytes that
    /// are no message are answered with an error.
    pub open spec fn reply_bytes(self, bytes: Seq<u8>, id: u32) -> OutcomeModel {
        match ReadMessage::decoded(bytes) {
            Ok((msg, payload)) => self.reply(msg, payload, id),
            Err(_) => OutcomeModel::notifying(NotifyModel::Error(invalid_message_text())),
        }
    }

    /// A read access is served while a read session is open, its cursor is
    /// before its end, and the transfer unit has room for the header.
    pub open spec fn serves(self, mtu: u16) -> bool {
        &&& self.state == Some(State::Reading)
        &&& self.read_meta is Some
        &&& self.start < self.read_meta.unwrap().total_size
        &&& mtu >= READ_HEADER_SIZE
    }

    /// Payload bytes of the chunk that a read access with `mtu` serves: as
    /// many as the unit holds beside the header, and no more than are left.
    pub open spec fn chunk_len(self, mtu: u16) -> int {
        let left = self.read_meta.unwrap().total_size - self.start;
        if mtu - READ_HEADER_SIZE < left {
            mtu - READ_HEADER_SIZE
        } else {
            left
        }
    }

    /// The header of the chunk that a read access with `mtu` serves.
    pub open spec fn chunk_meta(self, mtu: u16) -> ChunkMetaData {
        ChunkMetaData {
            id: self.read_meta.unwrap().id,
            start: self.start,
            chunk_size: self.chunk_len(mtu) as u32,
        }
    }

    /// The bytes that answer a read access with `mtu`: a chunk header and
    /// the payload it announces, or nothing.
    pub open spec fn read_chunk(self, mtu: u16) -> Seq<u8> {
        if self.serves(mtu) {
            self.chunk_meta(mtu).encoded() + self.data.subrange(
                self.start as int,
                self.start + self.chunk_len(mtu),
            )
        } else {
            Seq::empty()
        }
    }

    /// What local code sees of the buffer: all of it while the channel is
    /// idle, nothing while a session is open.
    pub open spec fn local_value(self) -> Option<Seq<u8>> {
        if self.state is None {
            Some(self.data)
        } else {
            None
        }
    }

    /// The channel after local code asked to replace the buffer by `value`:
    /// replaced while idle, untouched while a session is open.
    pub open spec fn after_set(self, value: Seq<u8>) -> Channel {
        if self.state is None {
            Channel { data: value, ..self }
        } else {
            self
        }
    }
}

/// One buffer and the state of its single transfer session.
#[derive(Debug)]
pub struct Transmission {
    data: Vec<u8>,
    state: Option<State>,
    start: u32,
    read_meta_data: Option<MetaData>,
    write_meta_data: Option<MetaData>,
    write_mtu: u16,
}

impl View for Transmission {
    type V = Channel;

    closed spec fn view(&self) -> Channel {
        Channel {
            data: self.data@,
            state: self.state,
            start: self.start,
            read_meta: self.read_meta_data,
            write_meta: self.write_meta_data,
            mtu: self.write_mtu,
        }
    }
}

/// `rand::random::<u32>`: a nonce for a new read session. Trusted, and
/// nothing is claimed of the number drawn.
#[verifier::external_body]
fn random_id() -> (id: u32) {
    rand::random::<u32>()
}

impl Transmission {
    /// An idle channel with an empty buffer.
    pub fn new() -> (t: Transmission)
        ensures
            t@ == Channel::fresh(),
            t@.wf(),
    {
        Transmission {
            data: Vec::new(),
            state: None,
            start: 0,
            read_meta_data: None,
            write_meta_data: None,
            write_mtu: 0,
        }
    }

    /// The open session, `None` while idle.
    pub fn state(&self) -> (s: Option<State>)
        ensures
            s == self@.state,
    {
        self.state
    }

    /// The offset of the next chunk that a read access serves.
    pub fn cursor(&self) -> (start: u32)
        ensures
            start == self@.start,
    {
        self.start
    }

    /// Remembers the transfer unit that came with a remote write; the next
    /// `WriteReady` announces it.
    pub fn record_mtu(&mut self, mtu: u16)
        ensures
            final(self)@ == (Channel { mtu, ..old(self)@ }),
    {
        self.write_mtu = mtu;
    }

    /// Applies one decoded message, with `id` as the nonce of the read
    /// session that it may open.
    pub fn step(&mut self, msg: ReadMessage, payload: &[u8], id: u32) -> (out: Outcome)
        requires
            old(self)@.wf(),
        ensures
            final(self)@ == old(self)@.after(msg, payload@, id),
            out@ == old(self)@.reply(msg, payload@, id),
            final(self)@.wf(),
    {
        match msg {
            ReadMessage::StartRead => {
                let total_size = (self.data.len() as u64 % 0x1_0000_0000u64) as u32;
                let meta = MetaData { id, total_size };
                self.state = Some(State::Reading);
                self.read_meta_data = Some(meta);
                self.start = 0;
                Outcome { notify: Some(NotifyMessage::ReadReady(meta)), finished: None }
            },
            ReadMessage::ReadReceive { next_start } => {
                if let Some(State::Reading) = self.state {
                    self.start = next_start;
                }
                Outcome { notify: None, finished: None }
            },
            ReadMessage::ReadFinish => {
                if let Some(State::Reading) = self.state {
                    self.state = None;
                }
                Outcome { notify: None, finished: None }
            },
            ReadMessage::StartWrite(meta) => {
                self.write_meta_data = Some(meta);
                self.data = Vec::new();
                self.state = Some(State::Writing);
                Outcome {
                    notify: Some(NotifyMessage::WriteReady { mtu: self.write_mtu }),
                    finished: None,
                }
            },
            ReadMessage::Write(chunk) => {
                if let Some(State::Writing) = self.state {
                    if let Some(meta) = self.write_meta_data {
                        if meta.id == chunk.id {
                            append_bytes(&mut self.data, payload);
                            let next: u64 = chunk.start as u64 + chunk.chunk_size as u64;
                            if next < meta.total_size as u64 {
                                return Outcome {
                                    notify: Some(
                                        NotifyMessage::WriteReceive { next_start: next as u32 },
                                    ),
                                    finished: None,
                                };
                            }
                            let copy = slice_to_vec(self.data.as_slice());
                            self.state = None;
                            return Outcome {
                                notify: Some(NotifyMessage::WriteFinish),
                                finished: Some(copy),
                            };
                        }
                    }
                }
                Outcome {
                    notify: Some(NotifyMessage::Error("write failed".to_owned())),
                    finished: None,
                }
            },
        }
    }

    /// Applies the bytes of one remote write, with `id` as the nonce of the
    /// read session that they may open.
    pub fn apply(&mut self, bytes: &[u8], id: u32) -> (out: Outcome)
        requires
            old(self)@.wf(),
        ensures
            final(self)@ == old(self)@.after_bytes(bytes@, id),
            out@ == old(self)@.reply_bytes(bytes@, id),
            final(self)@.wf(),
    {
        match ReadMessage::from_data(bytes) {
            Ok((msg, payload)) => self.step(msg, payload, id),
            Err(_) => Outcome {
                notify: Some(NotifyMessage::Error("invalid message".to_owned())),
                finished: None,
            },
        }
    }

    /// Applies the bytes of one remote write. A read session that they open
    /// gets a random nonce, so the channel and the answer are those of
    /// [`Transmission::apply`] for some nonce.
    pub fn handle_write(&mut self, bytes: &[u8]) -> (out: Outcome)
        requires
            old(self)@.wf(),
        ensures
            exists|id: u32|
                final(self)@ == old(self)@.after_bytes(bytes@, id)
                    && out@ == #[trigger] old(self)@.reply_bytes(bytes@, id),
            final(self)@.wf(),
    {
        let id = random_id();
        self.apply(bytes, id)
    }

    /// Answers one read access. Never waits: what it serves depends on the
    /// channel as it is.
    pub fn on_read(&self, mtu: u16) -> (out: Vec<u8>)
        requires
            self@.wf(),
        ensures
            out@ == self@.read_chunk(mtu),
    {
        if let Some(State::Reading) = self.state {
            if let Some(meta) = self.read_meta_data {
                if self.start < meta.total_size && mtu >= READ_HEADER_SIZE {
                    let room: u32 = (mtu - READ_HEADER_SIZE) as u32;
                    let left: u32 = meta.total_size - self.start;
                    let chunk_size: u32 = if room < left {
                        room
                    } else {
                        left
                    };
                    let chunk = ChunkMetaData { id: meta.id, start: self.start, chunk_size };
                    let mut out = chunk.bytes();
                    let from = self.start as usize;
                    let to = from + chunk_size as usize;
                    append_bytes(&mut out, slice_subrange(self.data.as_slice(), from, to));
                    return out;
                }
            }
        }
        Vec::new()
    }

    /// A copy of the buffer for local code: `Some` while the channel is
    /// idle, `None` while a session is open.
    pub fn get_value(&self) -> (value: Option<Vec<u8>>)
        ensures
            match value {
                Some(v) => self@.local_value() == Some(v@),
                None => self@.local_value() is None,
            },
    {
        match self.state {
            None => Some(slice_to_vec(self.data.as_slice())),
            Some(_) => None,
        }
    }

    /// Replaces the buffer on behalf of local code. While the channel is
    /// idle the buffer becomes `value` and the update is to be notified;
    /// while a session is open nothing changes and `value` comes back.
    pub fn set_value(&mut self, value: Vec<u8>) -> (r: Result<NotifyMessage, Vec<u8>>)
        requires
            old(self)@.wf(),
        ensures
            final(self)@ == old(self)@.after_set(value@),
            final(self)@.wf(),
            match r {
                Ok(m) => old(self)@.state is None && m@ == NotifyModel::DataUpdate,
                Err(v) => old(self)@.state is Some && v == value,
            },
    {
        match self.state {
            None => {
                self.data = value;
                Ok(NotifyMessage::DataUpdate)
            },
            Some(_) => Err(value),
        }
    }

    /// What is owed to the client once the consumer of a completed write has
    /// answered: nothing where it took the buffer, its reason as an error
    /// where it did not.
    pub fn write_finish_reply(result: Result<(), String>) -> (m: Option<NotifyMessage>)
        ensures
            match result {
                Ok(_) => m is None,
                Err(reason) => m == Some(NotifyMessage::Error(reason)),
            },
    {
        match result {
            Ok(_) => None,
            Err(reason) => Some(NotifyMessage::Error(reason)),
        }
    }

    /// The message that tells a subscribed client to read the value again.
    pub fn notify_update(&self) -> (m: NotifyMessage)
        ensures
            m@ == NotifyModel::DataUpdate,
    {
        NotifyMessage::DataUpdate
    }
}

} // verus!
