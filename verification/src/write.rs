//! The write engine: from the caller, through the session, to the transport.

use crate::buffer::{
    copy_bytes, Buffer, MAX_NOISE_PKG_LEN, MAX_WRITE_BUF_LEN, WRITE_CRYPTO_LEN,
};
use crate::codec::{encode_len, write_frame_len, LenWrite};
use crate::model::{least, WriteOp, WriteView};
use crate::output::NoiseOutput;
use crate::state::{
    ClosePoll, Fault, FlushEvent, FlushPoll, Reply, WriteEvent, WritePoll, WriteState,
};
use crate::wire::{encode, frame, lemma_encode_push, lemma_len_prefix, len_prefix};
use vstd::prelude::*;
use vstd::slice::slice_subrange;

verus! {

impl WriteState {
    /// The state that follows a batch, from what the session answered when
    /// it was asked to seal it: with a frame of `n` bytes, its length prefix
    /// goes out next; without one, the engine stops for good.
    pub fn sealed(answer: &Result<usize, snow::Error>) -> (s: WriteState)
        requires
            *answer matches Ok(n) ==> n <= MAX_NOISE_PKG_LEN,
        ensures
            s == match *answer {
                Ok(n) => WriteState::WriteLen {
                    len: n,
                    buf: [(n / 256) as u8, (n % 256) as u8],
                    off: 0,
                },
                Err(_) => WriteState::EncErr,
            },
            s matches WriteState::WriteLen { len, buf, off } ==> buf@ == len_prefix(len as nat),
    {
        match answer {
            Ok(n) => {
                let buf: [u8; 2] = encode_len(*n as u16);
                assert(buf =~= [(*n / 256) as u8, (*n % 256) as u8]);
                WriteState::WriteLen { len: *n, buf, off: 0 }
            },
            Err(_) => WriteState::EncErr,
        }
    }
}

/// What a close comes to, from what the transport answered to the flush
/// that the poll asked for. A transport that could not be flushed is not
/// closed: its failure is the outcome.
pub fn close_event<E>(event: FlushEvent<E>) -> (r: ClosePoll<E>)
    ensures
        r == match event {
            FlushEvent::Pending => ClosePoll::<E>::Pending,
            FlushEvent::Failed(e) => ClosePoll::<E>::Failed(e),
            FlushEvent::Flushed => ClosePoll::<E>::Close,
        },
{
    match event {
        FlushEvent::Pending => ClosePoll::Pending,
        FlushEvent::Failed(e) => ClosePoll::Failed(e),
        FlushEvent::Flushed => ClosePoll::Close,
    }
}

impl NoiseOutput {
    /// Hands the bytes that wait to the session, as one batch. The record
    /// takes down what was handed over and what came back; the record of the
    /// caller's doings is left to the caller of this function.
    fn seal(&mut self) -> (ok: bool)
        requires
            old(self).read_view().inv(),
            old(self).write_view().sound(),
            old(self).held(),
            old(self).write_view().state is BufferData,
            old(self).write_view().fill() > 0,
        ensures
            final(self).read_view().inv(),
            final(self).write_view().sound(),
            final(self).held(),
            ok == (old(self).session_view().seals(
                old(self).write_view().buffered(),
                WRITE_CRYPTO_LEN as nat,
            ) is Some),
            ok ==> {
                &&& final(self).write_view().accepted == old(self).write_view().accepted
                &&& final(self).write_view().script == old(self).write_view().script
                &&& old(self).write_view().seals(
                    old(self).session_view(),
                    old(self).write_view().buffered(),
                    final(self).write_view(),
                )
            },
            !ok ==> final(self).write_view() == (WriteView {
                state: WriteState::EncErr,
                ..old(self).write_view()
            }),
            final(self).read_view() == old(self).read_view(),
            final(self).buffer_view().read() == old(self).buffer_view().read(),
            final(self).buffer_view().read_crypto() == old(self).buffer_view().read_crypto(),
            final(self).in_transport_mode() == old(self).in_transport_mode(),
    {
        let fill: usize = match self.write_state {
            WriteState::BufferData { off } => off,
            _ => 0,
        };
        let ghost view = self.write_view();
        let ghost before = self.buffer;
        proof {
            before.lemma_regions();
        }
        let b = self.buffer.borrow_mut();
        let batch: &[u8] = &b.write[0..fill];
        let answer = self.session.write_message(batch, b.write_crypto);
        self.write_state = WriteState::sealed(&answer);
        proof {
            Buffer::lemma_rebuilt(
                before,
                self.buffer,
                b.read@,
                b.read_crypto@,
                b.write@,
                b.write_crypto@,
            );
        }
        match answer {
            Ok(len) => {
                proof {
                    let sealed = b.write_crypto@.take(len as int);
                    assert(batch@ =~= view.buffered());
                    assert(view.sent =~= encode(view.sealed));
                    assert(view.accepted =~= view.batches.flatten() + batch@);
                    lemma_encode_push(view.sealed, sealed);
                    view.batches.lemma_flatten_push(batch@);
                    self.write_log@ = WriteView {
                        batches: view.batches.push(batch@),
                        sealed: view.sealed.push(sealed),
                        ..self.write_log@
                    };
                    assert(view.sealed.push(sealed).drop_last() =~= view.sealed);
                }
                true
            },
            Err(_) => false,
        }
    }

    /// Polls the write engine with bytes of the caller.
    ///
    /// While the engine is buffering, it takes as many bytes from the front
    /// of `buf` as the batch has room for, and seals the batch once it is
    /// full. While a frame is on its way out, it takes none: the bytes that
    /// `pending_output` shows must be written to the transport, whose answer
    /// goes to `write_event`. A state that the engine never leaves gives the
    /// same outcome every time.
    pub fn poll_write(&mut self, buf: &[u8]) -> (r: WritePoll)
        requires
            old(self).wf(),
        ensures
            final(self).wf(),
            old(self).write_view().writes(
                old(self).session_view(),
                buf@,
                final(self).write_view(),
                r,
            ),
            !old(self).write_view().write_asks(buf@.len() as int) ==> final(self).session_view()
                == old(self).session_view(),
            final(self).read_view() == old(self).read_view(),
            final(self).buffer_view().read() == old(self).buffer_view().read(),
            final(self).buffer_view().read_crypto() == old(self).buffer_view().read_crypto(),
            final(self).in_transport_mode() == old(self).in_transport_mode(),
    {
        match self.write_state {
            WriteState::Init => {
                self.write_state = WriteState::BufferData { off: 0 };
                assert(self.buffer.write().take(0) =~= self.write_view().buffered());
                self.buffer_data(buf, 0)
            },
            WriteState::BufferData { off } => self.buffer_data(buf, off),
            WriteState::WriteLen { .. } => WritePoll::Send,
            WriteState::WriteData { .. } => WritePoll::Send,
            WriteState::Eof => WritePoll::Failed(Fault::WriteZero),
            WriteState::EncErr => WritePoll::Failed(Fault::InvalidData),
        }
    }

    /// Takes bytes of the caller into the batch, and seals the batch if that
    /// fills it.
    fn buffer_data(&mut self, buf: &[u8], off: usize) -> (r: WritePoll)
        requires
            old(self).wf(),
            old(self).write_view().state == (WriteState::BufferData { off }),
        ensures
            final(self).wf(),
            ({
                let view = old(self).write_view();
                let n = least(MAX_WRITE_BUF_LEN - off, buf@.len() as int);
                if off + n < MAX_WRITE_BUF_LEN {
                    &&& r == WritePoll::Ready(n as usize)
                    &&& final(self).write_view() == WriteView {
                        state: WriteState::BufferData { off: (off + n) as usize },
                        accepted: view.accepted + buf@.take(n),
                        script: view.script.push(WriteOp::Take(buf@.take(n))),
                        ..view
                    }
                } else if old(self).session_view().seals(
                    view.buffered() + buf@.take(n),
                    WRITE_CRYPTO_LEN as nat,
                ) is None {
                    &&& r == WritePoll::Failed(Fault::InvalidData)
                    &&& final(self).write_view() == WriteView { state: WriteState::EncErr, ..view }
                } else {
                    &&& r == WritePoll::Ready(n as usize)
                    &&& final(self).write_view().accepted == view.accepted + buf@.take(n)
                    &&& final(self).write_view().script == view.script.push(
                        WriteOp::Take(buf@.take(n)),
                    )
                    &&& view.seals(
                        old(self).session_view(),
                        view.buffered() + buf@.take(n),
                        final(self).write_view(),
                    )
                }
            }),
            off + least(MAX_WRITE_BUF_LEN - off, buf@.len() as int) < MAX_WRITE_BUF_LEN
                ==> final(self).session_view() == old(self).session_view(),
            final(self).read_view() == old(self).read_view(),
            final(self).buffer_view().read() == old(self).buffer_view().read(),
            final(self).buffer_view().read_crypto() == old(self).buffer_view().read_crypto(),
            final(self).in_transport_mode() == old(self).in_transport_mode(),
    {
        let ghost view = self.write_view();
        let have: usize = buf.len();
        let n: usize = if MAX_WRITE_BUF_LEN - off <= have {
            MAX_WRITE_BUF_LEN - off
        } else {
            have
        };
        let ghost before = self.buffer;
        let ghost taken = buf@.take(n as int);
        let ghost script = view.script.push(WriteOp::Take(taken));
        proof {
            before.lemma_regions();
            assert(script.drop_last() =~= view.script);
        }
        let b = self.buffer.borrow_mut();
        copy_bytes(b.write, off, buf, 0, n);
        proof {
            Buffer::lemma_rebuilt(
                before,
                self.buffer,
                b.read@,
                b.read_crypto@,
                b.write@,
                b.write_crypto@,
            );
            self.write_log@ = WriteView { accepted: view.accepted + taken, ..self.write_log@ };
        }
        self.write_state = WriteState::BufferData { off: off + n };
        proof {
            let prior = before.write().take(off as int);
            assert(prior == view.buffered());
            assert(self.buffer.write().take(off + n) =~= prior + taken);
            assert(self.write_view().buffered() =~= view.buffered() + taken);
        }
        if off + n == MAX_WRITE_BUF_LEN {
            if self.seal() {
                proof {
                    self.write_log@ = WriteView { script, ..self.write_log@ };
                    assert(self.write_view().buffered() =~= Seq::<u8>::empty());
                }
                WritePoll::Ready(n)
            } else {
                proof {
                    self.write_log@ = WriteView { accepted: view.accepted, ..self.write_log@ };
                }
                WritePoll::Failed(Fault::InvalidData)
            }
        } else {
            proof {
                self.write_log@ = WriteView { script, ..self.write_log@ };
            }
            WritePoll::Ready(n)
        }
    }

    /// Polls the write engine to let go of everything it holds.
    ///
    /// Bytes that wait are sealed as a batch of their own. While a frame is
    /// on its way out, the bytes that `pending_output` shows must be written
    /// to the transport, whose answer goes to `write_event`. Once nothing is
    /// held back, the transport must be flushed, and its answer is the
    /// outcome of the flush.
    pub fn poll_flush(&mut self) -> (r: FlushPoll)
        requires
            old(self).wf(),
        ensures
            final(self).wf(),
            old(self).write_view().flushes(
                old(self).session_view(),
                final(self).write_view(),
                r,
            ),
            !old(self).write_view().flush_asks() ==> final(self).session_view() == old(
                self,
            ).session_view(),
            final(self).read_view() == old(self).read_view(),
            final(self).buffer_view().read() == old(self).buffer_view().read(),
            final(self).buffer_view().read_crypto() == old(self).buffer_view().read_crypto(),
            final(self).in_transport_mode() == old(self).in_transport_mode(),
    {
        let ghost view = self.write_view();
        match self.write_state {
            WriteState::Init => FlushPoll::Flush,
            WriteState::BufferData { off } => {
                if off == 0 {
                    FlushPoll::Flush
                } else if self.seal() {
                    proof {
                        let script = view.script.push(WriteOp::Flush);
                        assert(script.drop_last() =~= view.script);
                        self.write_log@ = WriteView { script, ..self.write_log@ };
                        assert(self.write_view().buffered() =~= Seq::<u8>::empty());
                    }
                    FlushPoll::Send
                } else {
                    FlushPoll::Failed(Fault::InvalidData)
                }
            },
            WriteState::WriteLen { .. } => FlushPoll::Send,
            WriteState::WriteData { .. } => FlushPoll::Send,
            WriteState::Eof => FlushPoll::Failed(Fault::WriteZero),
            WriteState::EncErr => FlushPoll::Failed(Fault::InvalidData),
        }
    }

    /// Polls the write engine to let go of everything it holds, so that the
    /// transport can be closed.
    ///
    /// The engine does what it does for a flush. Once it asks for the
    /// transport to be flushed, the transport's answer goes to `close_event`,
    /// which says whether the transport is to be closed. Where the engine
    /// fails instead, or the transport cannot be flushed, the failure is the
    /// outcome and the transport is left open.
    pub fn poll_close(&mut self) -> (r: FlushPoll)
        requires
            old(self).wf(),
        ensures
            final(self).wf(),
            old(self).write_view().flushes(
                old(self).session_view(),
                final(self).write_view(),
                r,
            ),
            !old(self).write_view().flush_asks() ==> final(self).session_view() == old(
                self,
            ).session_view(),
            final(self).read_view() == old(self).read_view(),
            final(self).buffer_view().read() == old(self).buffer_view().read(),
            final(self).buffer_view().read_crypto() == old(self).buffer_view().read_crypto(),
            final(self).in_transport_mode() == old(self).in_transport_mode(),
    {
        self.poll_flush()
    }

    /// The bytes that the write engine offers to the transport: the rest of
    /// the length prefix, or the rest of the frame's body. There are none
    /// where no frame is on its way out.
    pub fn pending_output(&self) -> (bytes: &[u8])
        requires
            self.wf(),
        ensures
            bytes@ == self.write_view().offer(),
    {
        proof {
            self.buffer.lemma_regions();
            self.lemma_unsent();
        }
        match &self.write_state {
            WriteState::WriteLen { len: _, buf, off } => {
                let bytes = slice_subrange(buf.as_slice(), *off, 2);
                assert(bytes@ =~= self.write_view().offer());
                bytes
            },
            WriteState::WriteData { len, off } => {
                let base: usize = 2 * MAX_NOISE_PKG_LEN + MAX_WRITE_BUF_LEN;
                let bytes = slice_subrange(self.buffer.as_slice(), base + *off, base + *len);
                assert(bytes@ =~= self.write_view().offer());
                bytes
            },
            _ => {
                let bytes = slice_subrange(self.buffer.as_slice(), 0, 0);
                assert(bytes@ =~= self.write_view().offer());
                bytes
            },
        }
    }

    /// While a frame is on its way out, what the transport has not taken is
    /// the rest of the frame: of its prefix and its body, or of its body.
    pub proof fn lemma_unsent(&self)
        requires
            self.wf(),
        ensures
            self.write_view().state matches WriteState::WriteLen { len, buf, off }
                ==> self.write_view().unsent() == buf@.skip(off as int)
                + self.write_view().sealed.last(),
            self.write_view().state matches WriteState::WriteData { len, off }
                ==> self.write_view().unsent() == self.write_view().sealed.last().skip(off as int),
    {
        let view = self.write_view();
        match view.state {
            WriteState::WriteLen { len, buf, off } => {
                lemma_len_prefix(len as nat);
                assert(encode(view.sealed) == encode(view.sealed.drop_last()) + frame(
                    view.sealed.last(),
                ));
                assert(view.unsent() =~= buf@.skip(off as int) + view.sealed.last());
            },
            WriteState::WriteData { len, off } => {
                lemma_len_prefix(len as nat);
                assert(encode(view.sealed) == encode(view.sealed.drop_last()) + frame(
                    view.sealed.last(),
                ));
                assert(view.unsent() =~= view.sealed.last().skip(off as int));
            },
            _ => {},
        }
    }

    /// Takes in what the transport answered to the write that the last poll
    /// asked for.
    ///
    /// Where the transport would block or failed, the engine stays as it is
    /// and the answer is passed on. Where it took no byte, the engine stops
    /// for good. Bytes that it took are out: behind the prefix comes the
    /// body, and behind the body a fresh batch.
    pub fn write_event<E>(&mut self, event: WriteEvent<E>) -> (r: Reply<E>)
        requires
            old(self).wf(),
            old(self).write_view().state is WriteLen || old(self).write_view().state is WriteData,
            event matches WriteEvent::Wrote(n) ==> n <= old(self).write_view().offer().len(),
        ensures
            final(self).wf(),
            match event {
                WriteEvent::Pending => r is Pending && final(self).write_view() == old(
                    self,
                ).write_view(),
                WriteEvent::Failed(e) => r == Reply::Failed(e) && final(self).write_view() == old(
                    self,
                ).write_view(),
                WriteEvent::Wrote(n) => r is Again && final(self).write_view() == old(
                    self,
                ).write_view().wrote(n as int),
            },
            final(self).read_view() == old(self).read_view(),
            final(self).buffer_view().bytes() == old(self).buffer_view().bytes(),
            final(self).session_view() == old(self).session_view(),
            final(self).in_transport_mode() == old(self).in_transport_mode(),
    {
        let ghost view = self.write_view();
        proof {
            self.lemma_unsent();
        }
        match self.write_state {
            WriteState::WriteLen { len, buf, off } => {
                let mut off: usize = off;
                let ghost taken: int = match event {
                    WriteEvent::Wrote(n) => n as int,
                    _ => 0,
                };
                match write_frame_len(event, &mut off) {
                    LenWrite::Pending => Reply::Pending,
                    LenWrite::Failed(e) => Reply::Failed(e),
                    LenWrite::Ready(false) => {
                        self.write_state = WriteState::Eof;
                        Reply::Again
                    },
                    LenWrite::Ready(true) => {
                        proof {
                            self.write_log@ = WriteView {
                                sent: view.sent + view.offer().take(taken),
                                ..self.write_log@
                            };
                        }
                        self.write_state = WriteState::WriteData { len, off: 0 };
                        Reply::Again
                    },
                    LenWrite::More => {
                        proof {
                            self.write_log@ = WriteView {
                                sent: view.sent + view.offer().take(taken),
                                ..self.write_log@
                            };
                        }
                        self.write_state = WriteState::WriteLen { len, buf, off };
                        Reply::Again
                    },
                }
            },
            WriteState::WriteData { len, off } => {
                match event {
                    WriteEvent::Pending => Reply::Pending,
                    WriteEvent::Failed(e) => Reply::Failed(e),
                    WriteEvent::Wrote(n) => {
                        if n == 0 {
                            self.write_state = WriteState::Eof;
                            return Reply::Again;
                        }
                        proof {
                            self.write_log@ = WriteView {
                                sent: view.sent + view.offer().take(n as int),
                                ..self.write_log@
                            };
                        }
                        if off + n == len {
                            self.write_state = WriteState::Init;
                        } else {
                            self.write_state = WriteState::WriteData { len, off: off + n };
                        }
                        Reply::Again
                    },
                }
            },
            _ => Reply::Again,
        }
    }
}

} // verus!
