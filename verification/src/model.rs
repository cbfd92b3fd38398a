//! What the two engines are, as mathematics: the state of each with the
//! record of what has passed through it, the invariant that ties the two
//! together, and the step that each call takes.
//!
//! The session is the one thing that the model does not compute. Where a
//! step asks the session to open or to seal a frame, the model says what was
//! handed over, takes the session's own answer by its name, and says how
//! long what came back is.
//!
//! The write engine also keeps a record of what its caller did. The batches
//! are a function of that record alone: the transport, with its short writes
//! and its waits, has no part in them.

use crate::buffer::{MAX_NOISE_PKG_LEN, MAX_WRITE_BUF_LEN, WRITE_CRYPTO_LEN};
use crate::session::{opened_len, sealed_len, SnowState};
use crate::state::{Fault, FlushPoll, ReadPoll, ReadState, WritePoll, WriteState};
use crate::wire::{all_fit, be_u16, encode, frames, has_frame, len_prefix, tail};
use vstd::prelude::*;

verus! {

/// The read engine: its state, and what has passed through it.
pub struct ReadView {
    /// The state of the engine.
    pub state: ReadState,
    /// Whether the session is in transport mode.
    pub transport: bool,
    /// Every byte that the transport gave, in order.
    pub wire: Seq<u8>,
    /// The frames that the session was asked to open, in order.
    pub opened: Seq<Seq<u8>>,
    /// The plaintexts that the session gave back, in order.
    pub plains: Seq<Seq<u8>>,
    /// Every byte that was handed to the caller, in order.
    pub delivered: Seq<u8>,
}

/// The write engine: its state, and what has passed through it.
pub struct WriteView {
    /// The state of the engine.
    pub state: WriteState,
    /// Whether the session is in transport mode.
    pub transport: bool,
    /// What the caller did, in order, as far as it bears on the batches.
    pub script: Seq<WriteOp>,
    /// Every byte that was taken from the caller, in order.
    pub accepted: Seq<u8>,
    /// The plaintexts that the session sealed, in order.
    pub batches: Seq<Seq<u8>>,
    /// The frames that the session made of them, in the same order.
    pub sealed: Seq<Seq<u8>>,
    /// Every byte that the transport took, in order.
    pub sent: Seq<u8>,
}

/// What a caller does to the write engine, as far as it bears on the
/// batches. What the transport does meanwhile is not among it.
pub enum WriteOp {
    /// A write came to an end, and these bytes were taken.
    Take(Seq<u8>),
    /// A flush found bytes waiting, and closed their batch.
    Flush,
}

/// The batches that a caller's doings make, and the bytes that wait behind
/// them: bytes join the open batch, which closes when it is full or when a
/// flush finds bytes in it.
pub open spec fn batched(script: Seq<WriteOp>) -> (Seq<Seq<u8>>, Seq<u8>)
    decreases script.len(),
{
    if script.len() == 0 {
        (Seq::empty(), Seq::empty())
    } else {
        let (closed, open) = batched(script.drop_last());
        match script.last() {
            WriteOp::Take(bytes) => if open.len() + bytes.len() >= MAX_WRITE_BUF_LEN {
                (closed.push(open + bytes), Seq::empty())
            } else {
                (closed, open + bytes)
            },
            WriteOp::Flush => if open.len() > 0 {
                (closed.push(open), Seq::empty())
            } else {
                (closed, open)
            },
        }
    }
}

/// The smaller of two numbers.
pub open spec fn least(a: int, b: int) -> int {
    if a <= b {
        a
    } else {
        b
    }
}

impl ReadView {
    /// The engine before anything has happened, around a session in the
    /// given mode.
    pub open spec fn start(transport: bool) -> ReadView {
        ReadView {
            state: ReadState::Init,
            transport,
            wire: Seq::empty(),
            opened: Seq::empty(),
            plains: Seq::empty(),
            delivered: Seq::empty(),
        }
    }

    /// Every frame that was opened gave a plaintext, and the caller has all
    /// of it.
    pub open spec fn settled(self) -> bool {
        self.plains.len() == self.opened.len() && self.delivered == self.plains.flatten()
    }

    /// The plaintext that the caller has not been given yet.
    pub open spec fn undelivered(self) -> Seq<u8> {
        self.plains.flatten().skip(self.delivered.len() as int)
    }

    /// How many bytes the engine waits for from the transport; zero where it
    /// waits for none.
    pub open spec fn wants(self) -> int {
        match self.state {
            ReadState::ReadLen { buf, off } => 2 - off,
            ReadState::ReadData { len, off } => len - off,
            _ => 0,
        }
    }

    /// Every plaintext is as long as the session's mode has it for the frame
    /// that it was taken out of.
    pub open spec fn plains_fit(self) -> bool {
        forall|i: int|
            0 <= i < self.plains.len() && i < self.opened.len() ==> opened_len(
                self.transport,
                self.opened[i].len(),
                MAX_NOISE_PKG_LEN as nat,
                (#[trigger] self.plains[i]).len(),
            )
    }

    /// What holds of the engine between any two calls.
    pub open spec fn inv(self) -> bool {
        &&& self.opened == frames(self.wire)
        &&& self.delivered.is_prefix_of(self.plains.flatten())
        &&& self.plains_fit()
        &&& match self.state {
            ReadState::Init => tail(self.wire).len() == 0 && self.settled(),
            ReadState::ReadLen { buf, off } => {
                &&& off < 2
                &&& tail(self.wire) == buf@.take(off as int)
                &&& forall|k: int| off <= k < 2 ==> buf@[k] == 0u8
                &&& self.settled()
            },
            ReadState::ReadData { len, off } => {
                &&& 0 < len <= MAX_NOISE_PKG_LEN
                &&& off < len
                &&& tail(self.wire).len() == 2 + off
                &&& tail(self.wire).take(2) == len_prefix(len as nat)
                &&& self.settled()
            },
            ReadState::CopyData { len, off } => {
                &&& off <= len <= MAX_NOISE_PKG_LEN
                &&& tail(self.wire).len() == 0
                &&& self.plains.len() == self.opened.len()
                &&& self.plains.len() > 0
                &&& self.plains.last().len() == len
                &&& self.undelivered().len() == len - off
            },
            ReadState::Eof(Ok(())) => tail(self.wire).len() == 0 && self.settled(),
            ReadState::Eof(Err(())) => tail(self.wire).len() > 0 && self.settled(),
            ReadState::DecErr => {
                &&& tail(self.wire).len() == 0
                &&& self.plains.len() + 1 == self.opened.len()
                &&& self.delivered == self.plains.flatten()
            },
        }
    }

    /// How many bytes a poll hands to a caller who has room for `room`.
    pub open spec fn serves(self, room: int) -> int {
        match self.state {
            ReadState::CopyData { len, off } => least(len - off, room),
            _ => 0,
        }
    }

    /// The bytes that a poll hands to a caller who has room for `room`: the
    /// plaintext that waits, as far as there is room for it.
    pub open spec fn hands_out(self, room: int) -> Seq<u8> {
        self.undelivered().take(self.serves(room))
    }

    /// The engine after a poll by a caller who has room for `room` bytes.
    pub open spec fn polled(self, room: int) -> ReadView {
        match self.state {
            ReadState::Init => ReadView { state: ReadState::fresh_len(), ..self },
            ReadState::CopyData { len, off } => {
                let n = self.serves(room);
                ReadView {
                    state: if off + n == len {
                        ReadState::fresh_len()
                    } else {
                        ReadState::CopyData { len, off: (off + n) as usize }
                    },
                    delivered: self.delivered + self.hands_out(room),
                    ..self
                }
            },
            _ => self,
        }
    }

    /// What a poll comes to for a caller who has room for `room` bytes.
    pub open spec fn poll_result(self, room: int) -> ReadPoll {
        match self.state {
            ReadState::Init => ReadPoll::Fetch(2),
            ReadState::ReadLen { buf, off } => ReadPoll::Fetch((2 - off) as usize),
            ReadState::ReadData { len, off } => ReadPoll::Fetch((len - off) as usize),
            ReadState::CopyData { len, off } => ReadPoll::Ready(self.serves(room) as usize),
            ReadState::Eof(Ok(())) => ReadPoll::Ready(0),
            ReadState::Eof(Err(())) => ReadPoll::Failed(Fault::UnexpectedEof),
            ReadState::DecErr => ReadPoll::Failed(Fault::InvalidData),
        }
    }

    /// The engine after the transport has ended.
    pub open spec fn ended(self) -> ReadView {
        ReadView {
            state: ReadState::Eof(
                if tail(self.wire).len() == 0 {
                    Ok(())
                } else {
                    Err(())
                },
            ),
            ..self
        }
    }

    /// Whether bytes from the transport have the session asked: they
    /// complete the frame under way, and the frame is not empty.
    pub open spec fn asks(self, chunk: Seq<u8>) -> bool {
        has_frame(tail(self.wire) + chunk) && tail(self.wire).len() + chunk.len() > 2
    }

    /// Whether `post` is the engine after the transport gave `chunk`, at
    /// least one byte and no more than the engine waited for, with `session`
    /// being the session as it stood.
    ///
    /// The bytes join the wire. Where they leave the frame under way
    /// incomplete, the state says how far it has come. Where they complete
    /// it, an empty frame is dropped, and any other is handed to the session:
    /// if the session refuses it, the engine stops for good; else the
    /// plaintext that the session takes out of it waits to be copied out.
    pub open spec fn absorbs(self, session: SnowState, chunk: Seq<u8>, post: ReadView) -> bool {
        let under_way = tail(self.wire) + chunk;
        &&& post.transport == self.transport
        &&& post.wire == self.wire + chunk
        &&& post.opened == frames(post.wire)
        &&& post.delivered == self.delivered
        &&& if !has_frame(under_way) {
            &&& post.plains == self.plains
            &&& post.state == if under_way.len() < 2 {
                ReadState::ReadLen { buf: [under_way[0], 0u8], off: 1 }
            } else {
                ReadState::ReadData {
                    len: be_u16(under_way[0], under_way[1]) as usize,
                    off: (under_way.len() - 2) as usize,
                }
            }
        } else if under_way.len() == 2 {
            &&& post.plains == self.plains
            &&& post.opened == self.opened
            &&& post.state == ReadState::Init
        } else {
            &&& post.opened == self.opened.push(under_way.skip(2))
            &&& match session.opens(under_way.skip(2), MAX_NOISE_PKG_LEN as nat) {
                None => post.state == ReadState::DecErr && post.plains == self.plains,
                Some(plain) => {
                    &&& post.plains == self.plains.push(plain)
                    &&& opened_len(
                        self.transport,
                        (under_way.len() - 2) as nat,
                        MAX_NOISE_PKG_LEN as nat,
                        plain.len(),
                    )
                    &&& post.state == ReadState::CopyData { len: plain.len() as usize, off: 0 }
                },
            }
        }
    }
}

impl WriteView {
    /// The engine before anything has happened, around a session in the
    /// given mode.
    pub open spec fn start(transport: bool) -> WriteView {
        WriteView {
            state: WriteState::Init,
            transport,
            script: Seq::empty(),
            accepted: Seq::empty(),
            batches: Seq::empty(),
            sealed: Seq::empty(),
            sent: Seq::empty(),
        }
    }

    /// The bytes that were taken from the caller and wait to be sealed.
    pub open spec fn buffered(self) -> Seq<u8> {
        self.accepted.skip(self.batches.flatten().len() as int)
    }

    /// The bytes of sealed frames that the transport has not taken yet.
    pub open spec fn unsent(self) -> Seq<u8> {
        encode(self.sealed).skip(self.sent.len() as int)
    }

    /// The bytes that the engine offers to the transport: the rest of the
    /// length prefix, or the rest of the frame's body.
    pub open spec fn offer(self) -> Seq<u8> {
        match self.state {
            WriteState::WriteLen { len, buf, off } => self.unsent().take(2 - off),
            WriteState::WriteData { len, off } => self.unsent(),
            _ => Seq::empty(),
        }
    }

    /// How many bytes wait to be sealed.
    pub open spec fn fill(self) -> int {
        match self.state {
            WriteState::BufferData { off } => off as int,
            _ => 0,
        }
    }

    /// The engine holds nothing back: all that was taken from the caller has
    /// been sealed, and the transport has taken every frame.
    pub open spec fn drained(self) -> bool {
        self.state is Init || self.state == (WriteState::BufferData { off: 0 })
    }

    /// No sealed plaintext is empty, and none is longer than the batch size.
    pub open spec fn batches_fit(self) -> bool {
        forall|i: int|
            0 <= i < self.batches.len() ==> 0 < (#[trigger] self.batches[i]).len()
                <= MAX_WRITE_BUF_LEN
    }

    /// Every frame is as long as the session's mode has it for the plaintext
    /// that it was made of: no shorter, and longer by a bounded overhead.
    pub open spec fn frames_fit(self) -> bool {
        forall|i: int|
            0 <= i < self.sealed.len() && i < self.batches.len() ==> sealed_len(
                self.transport,
                self.batches[i].len(),
                WRITE_CRYPTO_LEN as nat,
                (#[trigger] self.sealed[i]).len(),
            )
    }

    /// The batches, and the bytes that wait, are what the caller's doings
    /// make them; the transport has no say in them.
    pub open spec fn scripted(self) -> bool {
        batched(self.script) == (self.batches, self.buffered())
    }

    /// What holds of the engine between any two calls.
    pub open spec fn inv(self) -> bool {
        self.sound() && self.scripted()
    }

    /// What holds of the engine at any time, but for the record of the
    /// caller's doings, which a call brings up to date when it ends.
    pub open spec fn sound(self) -> bool {
        &&& self.batches.len() == self.sealed.len()
        &&& all_fit(self.sealed)
        &&& self.batches_fit()
        &&& self.frames_fit()
        &&& self.sent.is_prefix_of(encode(self.sealed))
        &&& self.batches.flatten().is_prefix_of(self.accepted)
        &&& match self.state {
            WriteState::Init => self.unsent().len() == 0 && self.buffered().len() == 0,
            WriteState::BufferData { off } => {
                &&& off <= MAX_WRITE_BUF_LEN
                &&& self.unsent().len() == 0
                &&& self.buffered().len() == off
            },
            WriteState::WriteLen { len, buf, off } => {
                &&& off < 2
                &&& len <= MAX_NOISE_PKG_LEN
                &&& buf@ == len_prefix(len as nat)
                &&& self.sealed.len() > 0
                &&& self.sealed.last().len() == len
                &&& self.unsent().len() == 2 - off + len
                &&& self.buffered().len() == 0
            },
            WriteState::WriteData { len, off } => {
                &&& off <= len <= MAX_NOISE_PKG_LEN
                &&& off == len ==> len == 0
                &&& self.sealed.len() > 0
                &&& self.sealed.last().len() == len
                &&& self.unsent().len() == len - off
                &&& self.buffered().len() == 0
            },
            WriteState::Eof => true,
            WriteState::EncErr => self.unsent().len() == 0,
        }
    }

    /// Whether `post` can be the engine after `session` has sealed `batch`:
    /// one more frame, which is what the session makes of `batch` and is as
    /// long as the session's mode has it, with its prefix still to go out.
    pub open spec fn seals(self, session: SnowState, batch: Seq<u8>, post: WriteView) -> bool {
        &&& post.transport == self.transport
        &&& session.makes(batch, WRITE_CRYPTO_LEN as nat, post.sealed.last())
        &&& post.batches == self.batches.push(batch)
        &&& post.sealed.len() == self.sealed.len() + 1
        &&& post.sealed.drop_last() == self.sealed
        &&& sealed_len(
            self.transport,
            batch.len(),
            WRITE_CRYPTO_LEN as nat,
            post.sealed.last().len(),
        )
        &&& post.sent == self.sent
        &&& post.state == WriteState::WriteLen {
            len: post.sealed.last().len() as usize,
            buf: [
                (post.sealed.last().len() / 256) as u8,
                (post.sealed.last().len() % 256) as u8,
            ],
            off: 0,
        }
    }

    /// How many bytes a poll takes from a caller who offers `have`.
    pub open spec fn takes(self, have: int) -> int {
        match self.state {
            WriteState::Init => least(MAX_WRITE_BUF_LEN as int, have),
            WriteState::BufferData { off } => least(MAX_WRITE_BUF_LEN - off, have),
            _ => 0,
        }
    }

    /// Whether a poll by a caller who offers `have` bytes has the session
    /// asked: the engine is buffering, and the bytes fill the batch.
    pub open spec fn write_asks(self, have: int) -> bool {
        &&& self.state is Init || self.state is BufferData
        &&& self.fill() + self.takes(have) >= MAX_WRITE_BUF_LEN
    }

    /// Whether a poll for a flush has the session asked: bytes wait.
    pub open spec fn flush_asks(self) -> bool {
        self.state is BufferData && self.fill() > 0
    }

    /// Whether `post` and `r` can be the engine and the outcome after a poll
    /// by a caller who offers `data`, with `session` being the session as it
    /// stood.
    ///
    /// Where the engine is buffering, it takes what fits. If that fills the
    /// batch, the batch is handed to the session: if the session refuses it,
    /// the engine stops for good; else the frame is ready to go out. Where a
    /// frame is on its way out, the transport must be written first.
    pub open spec fn writes(
        self,
        session: SnowState,
        data: Seq<u8>,
        post: WriteView,
        r: WritePoll,
    ) -> bool {
        match self.state {
            WriteState::Init | WriteState::BufferData { .. } => {
                let n = self.takes(data.len() as int);
                if self.fill() + n < MAX_WRITE_BUF_LEN {
                    &&& r == WritePoll::Ready(n as usize)
                    &&& post == WriteView {
                        state: WriteState::BufferData { off: (self.fill() + n) as usize },
                        accepted: self.accepted + data.take(n),
                        script: self.script.push(WriteOp::Take(data.take(n))),
                        ..self
                    }
                } else if session.seals(
                    self.buffered() + data.take(n),
                    WRITE_CRYPTO_LEN as nat,
                ) is None {
                    &&& r == WritePoll::Failed(Fault::InvalidData)
                    &&& post == WriteView { state: WriteState::EncErr, ..self }
                } else {
                    &&& r == WritePoll::Ready(n as usize)
                    &&& post.accepted == self.accepted + data.take(n)
                    &&& post.script == self.script.push(WriteOp::Take(data.take(n)))
                    &&& self.seals(session, self.buffered() + data.take(n), post)
                }
            },
            WriteState::WriteLen { .. } | WriteState::WriteData { .. } => {
                r == WritePoll::Send && post == self
            },
            WriteState::Eof => r == WritePoll::Failed(Fault::WriteZero) && post == self,
            WriteState::EncErr => r == WritePoll::Failed(Fault::InvalidData) && post == self,
        }
    }

    /// Whether `post` and `r` can be the engine and the outcome after a poll
    /// for a flush, with `session` being the session as it stood.
    ///
    /// Bytes that wait are handed to the session as a batch of their own,
    /// with either answer as in `writes`. A frame on its way out must be
    /// written first. Where nothing is held back, the transport must be
    /// flushed.
    pub open spec fn flushes(self, session: SnowState, post: WriteView, r: FlushPoll) -> bool {
        match self.state {
            WriteState::Init => r == FlushPoll::Flush && post == self,
            WriteState::BufferData { off } => {
                if off == 0 {
                    r == FlushPoll::Flush && post == self
                } else if session.seals(self.buffered(), WRITE_CRYPTO_LEN as nat) is None {
                    &&& r == FlushPoll::Failed(Fault::InvalidData)
                    &&& post == WriteView { state: WriteState::EncErr, ..self }
                } else {
                    &&& r == FlushPoll::Send
                    &&& post.accepted == self.accepted
                    &&& post.script == self.script.push(WriteOp::Flush)
                    &&& self.seals(session, self.buffered(), post)
                }
            },
            WriteState::WriteLen { .. } | WriteState::WriteData { .. } => {
                r == FlushPoll::Send && post == self
            },
            WriteState::Eof => r == FlushPoll::Failed(Fault::WriteZero) && post == self,
            WriteState::EncErr => r == FlushPoll::Failed(Fault::InvalidData) && post == self,
        }
    }

    /// The engine after the transport took `n` of the bytes it was offered.
    ///
    /// Zero bytes end the engine for good. Otherwise the bytes join what was
    /// sent; with the prefix out the body follows, and with the body out the
    /// engine starts afresh.
    pub open spec fn wrote(self, n: int) -> WriteView {
        if n == 0 {
            WriteView { state: WriteState::Eof, ..self }
        } else {
            WriteView {
                state: match self.state {
                    WriteState::WriteLen { len, buf, off } => if off + n == 2 {
                        WriteState::WriteData { len, off: 0 }
                    } else {
                        WriteState::WriteLen { len, buf, off: (off + n) as usize }
                    },
                    WriteState::WriteData { len, off } => if off + n == len {
                        WriteState::Init
                    } else {
                        WriteState::WriteData { len, off: (off + n) as usize }
                    },
                    other => other,
                },
                sent: self.sent + self.offer().take(n),
                ..self
            }
        }
    }
}

} // verus!
