//! The read engine: from the transport, through the session, to the caller.

use crate::buffer::{copy_bytes, Buffer};
use crate::codec::{read_frame_len, LenRead};
use crate::model::ReadView;
use crate::output::NoiseOutput;
use crate::state::{Fault, ReadEvent, ReadPoll, ReadState, Reply};
use crate::wire::{
    frame, lemma_append_closing, lemma_append_partial, lemma_len_prefix, lemma_prefix_of_value,
    len_prefix, tail,
};
use vstd::prelude::*;

verus! {

impl ReadState {
    /// The state that follows a whole frame, from what the session answered
    /// when it was asked to open it: with a plaintext of `n` bytes, these are
    /// copied out next; without one, the engine stops for good.
    pub fn opened(answer: &Result<usize, snow::Error>) -> (s: ReadState)
        ensures
            s == match *answer {
                Ok(n) => ReadState::CopyData { len: n, off: 0 },
                Err(_) => ReadState::DecErr,
            },
    {
        match answer {
            Ok(n) => ReadState::CopyData { len: *n, off: 0 },
            Err(_) => ReadState::DecErr,
        }
    }
}

impl NoiseOutput {
    /// How many bytes the read engine waits for from the transport; zero
    /// where it waits for none.
    pub fn read_want(&self) -> (n: usize)
        requires
            self.wf(),
        ensures
            n == self.read_view().wants(),
    {
        match self.read_state {
            ReadState::ReadLen { buf: _, off } => 2 - off,
            ReadState::ReadData { len, off } => len - off,
            _ => 0,
        }
    }

    /// Polls the read engine for plaintext, to be copied to the front of
    /// `buf`.
    ///
    /// Plaintext that waits is copied out, as much as `buf` has room for.
    /// Where none waits, the poll says how many bytes the transport must be
    /// read for; its answer goes to `read_event`. A state that the engine
    /// never leaves gives the same outcome every time.
    pub fn poll_read(&mut self, buf: &mut [u8]) -> (r: ReadPoll)
        requires
            old(self).wf(),
        ensures
            final(self).wf(),
            final(self).read_view() == old(self).read_view().polled(old(buf)@.len() as int),
            r == old(self).read_view().poll_result(old(buf)@.len() as int),
            final(buf)@ == old(self).read_view().hands_out(old(buf)@.len() as int) + old(
                buf,
            )@.skip(old(self).read_view().serves(old(buf)@.len() as int)),
            final(self).write_view() == old(self).write_view(),
            final(self).buffer_view().bytes() == old(self).buffer_view().bytes(),
            final(self).session_view() == old(self).session_view(),
            final(self).in_transport_mode() == old(self).in_transport_mode(),
    {
        // where nothing is copied out, `buf` stays as it is
        assert(buf@ =~= self.read_view().undelivered().take(0) + buf@.skip(0));
        match self.read_state {
            ReadState::Init => {
                self.read_state = ReadState::ReadLen { buf: [0, 0], off: 0 };
                assert(tail(self.read_log@.wire) =~= [0u8, 0u8]@.take(0));
                ReadPoll::Fetch(2)
            },
            ReadState::ReadLen { buf: _, off } => ReadPoll::Fetch(2 - off),
            ReadState::ReadData { len, off } => ReadPoll::Fetch(len - off),
            ReadState::CopyData { len, off } => {
                let room: usize = buf.len();
                let n: usize = if len - off <= room {
                    len - off
                } else {
                    room
                };
                let ghost before = self.buffer;
                let ghost view = self.read_view();
                let ghost plain = view.plains.last();
                proof {
                    before.lemma_regions();
                }
                let b = self.buffer.borrow_mut();
                copy_bytes(buf, 0, b.read_crypto, off, n);
                proof {
                    Buffer::lemma_rebuilt(
                        before,
                        self.buffer,
                        b.read@,
                        b.read_crypto@,
                        b.write@,
                        b.write_crypto@,
                    );
                    view.plains.drop_last().lemma_flatten_push(plain);
                    assert(view.plains.drop_last().push(plain) =~= view.plains);
                    // what waits is the rest of the last plaintext
                    assert(view.undelivered() =~= plain.skip(off as int));
                    assert(buf@ =~= view.undelivered().take(n as int) + old(buf)@.skip(n as int));
                    self.read_log@ = ReadView {
                        delivered: view.delivered + view.undelivered().take(n as int),
                        ..self.read_log@
                    };
                }
                if off + n == len {
                    self.read_state = ReadState::ReadLen { buf: [0, 0], off: 0 };
                    assert(tail(self.read_log@.wire) =~= [0u8, 0u8]@.take(0));
                } else {
                    self.read_state = ReadState::CopyData { len, off: off + n };
                }
                proof {
                    let post = self.read_view();
                    let all = view.plains.flatten();
                    assert(post.delivered =~= all.take(view.delivered.len() + n));
                    assert(post.undelivered() =~= view.undelivered().skip(n as int));
                    if off + n == len {
                        assert(post.delivered =~= all);
                    }
                }
                ReadPoll::Ready(n)
            },
            ReadState::Eof(Ok(())) => ReadPoll::Ready(0),
            ReadState::Eof(Err(())) => ReadPoll::Failed(Fault::UnexpectedEof),
            ReadState::DecErr => ReadPoll::Failed(Fault::InvalidData),
        }
    }

    /// Takes in what the transport answered to the read that the last poll
    /// asked for.
    ///
    /// Where the transport would block or failed, the engine stays as it is
    /// and the answer is passed on. Where it has ended, the engine stops for
    /// good: cleanly between two frames, with a fault inside one. Bytes join
    /// the frame under way; a frame that they complete is handed to the
    /// session, unless it is empty.
    pub fn read_event<E>(&mut self, event: ReadEvent<'_, E>) -> (r: Reply<E>)
        requires
            old(self).wf(),
            old(self).read_view().wants() > 0,
            event matches ReadEvent::Data(d) ==> d@.len() <= old(self).read_view().wants(),
        ensures
            final(self).wf(),
            match event {
                ReadEvent::Pending => r is Pending && final(self).read_view() == old(
                    self,
                ).read_view(),
                ReadEvent::Failed(e) => r == Reply::Failed(e) && final(self).read_view() == old(
                    self,
                ).read_view(),
                ReadEvent::Data(d) => {
                    &&& r is Again
                    &&& if d@.len() == 0 {
                        final(self).read_view() == old(self).read_view().ended()
                    } else {
                        old(self).read_view().absorbs(
                            old(self).session_view(),
                            d@,
                            final(self).read_view(),
                        )
                    }
                },
            },
            !(event matches ReadEvent::Data(d) && d@.len() > 0 && old(self).read_view().asks(d@))
                ==> final(self).session_view() == old(self).session_view(),
            final(self).write_view() == old(self).write_view(),
            final(self).buffer_view().write() == old(self).buffer_view().write(),
            final(self).buffer_view().write_crypto() == old(self).buffer_view().write_crypto(),
            final(self).in_transport_mode() == old(self).in_transport_mode(),
    {
        let ghost view = self.read_view();
        let ghost chunk: Seq<u8> = match event {
            ReadEvent::Data(d) => d@,
            _ => Seq::empty(),
        };
        let ghost under_way = tail(view.wire) + chunk;
        match self.read_state {
            ReadState::ReadLen { buf, off } => {
                let mut buf: [u8; 2] = buf;
                let mut off: usize = off;
                let ghost had = buf;
                match read_frame_len(event, &mut buf, &mut off) {
                    LenRead::Pending => Reply::Pending,
                    LenRead::Failed(e) => Reply::Failed(e),
                    LenRead::Ready(None) => {
                        self.read_state = ReadState::Eof(Ok(()));
                        Reply::Again
                    },
                    LenRead::Truncated => {
                        self.read_state = ReadState::Eof(Err(()));
                        Reply::Again
                    },
                    LenRead::More => {
                        proof {
                            assert(under_way =~= buf@.take(1));
                            lemma_append_partial(view.wire, chunk);
                            self.read_log@ = ReadView { wire: view.wire + chunk, ..self.read_log@ };
                            assert(buf =~= [under_way[0], 0u8]);
                        }
                        self.read_state = ReadState::ReadLen { buf, off };
                        Reply::Again
                    },
                    LenRead::Ready(Some(n)) => {
                        proof {
                            assert(under_way =~= buf@);
                            lemma_prefix_of_value(buf[0], buf[1]);
                            if n == 0 {
                                assert(under_way =~= frame(Seq::<u8>::empty()));
                                lemma_append_closing(view.wire, chunk, Seq::<u8>::empty());
                            } else {
                                lemma_append_partial(view.wire, chunk);
                                assert(under_way.take(2) =~= seq![buf[0], buf[1]]);
                                assert(tail(view.wire + chunk).take(2) == len_prefix(n as nat));
                            }
                            self.read_log@ = ReadView { wire: view.wire + chunk, ..self.read_log@ };
                        }
                        if n == 0 {
                            self.read_state = ReadState::Init;
                        } else {
                            self.read_state = ReadState::ReadData { len: n as usize, off: 0 };
                            assert(self.buffer.read().take(0) =~= under_way.skip(2));
                        }
                        Reply::Again
                    },
                }
            },
            ReadState::ReadData { len, off } => {
                match event {
                    ReadEvent::Pending => Reply::Pending,
                    ReadEvent::Failed(e) => Reply::Failed(e),
                    ReadEvent::Data(d) => {
                        let n: usize = d.len();
                        if n == 0 {
                            self.read_state = ReadState::Eof(Err(()));
                            return Reply::Again;
                        }
                        let ghost before = self.buffer;
                        proof {
                            before.lemma_regions();
                            lemma_len_prefix(len as nat);
                            assert(under_way.take(2) =~= tail(view.wire).take(2));
                            assert(under_way[0] == len_prefix(len as nat)[0]);
                            assert(under_way[1] == len_prefix(len as nat)[1]);
                        }
                        let b = self.buffer.borrow_mut();
                        copy_bytes(b.read, off, d, 0, n);
                        let reached: usize = off + n;
                        proof {
                            let prior = before.read().take(off as int);
                            assert(prior == tail(view.wire).skip(2));
                            assert(b.read@.take(reached as int) =~= prior + chunk);
                            assert(under_way.skip(2) =~= prior + chunk);
                        }
                        if reached == len {
                            let message: &[u8] = &b.read[0..len];
                            let answer = self.session.read_message(message, b.read_crypto);
                            self.read_state = ReadState::opened(&answer);
                            proof {
                                let body = message@;
                                assert(body =~= under_way.skip(2));
                                assert(under_way =~= frame(body));
                                lemma_append_closing(view.wire, chunk, body);
                                Buffer::lemma_rebuilt(
                                    before,
                                    self.buffer,
                                    b.read@,
                                    b.read_crypto@,
                                    b.write@,
                                    b.write_crypto@,
                                );
                                match answer {
                                    Ok(m) => {
                                        let plain = b.read_crypto@.take(m as int);
                                        view.plains.lemma_flatten_push(plain);
                                        self.read_log@ = ReadView {
                                            wire: view.wire + chunk,
                                            opened: view.opened.push(message@),
                                            plains: view.plains.push(plain),
                                            ..self.read_log@
                                        };
                                        assert(view.plains.push(plain).drop_last()
                                            =~= view.plains);
                                        assert(self.read_view().undelivered() =~= plain);
                                    },
                                    Err(_) => {
                                        self.read_log@ = ReadView {
                                            wire: view.wire + chunk,
                                            opened: view.opened.push(message@),
                                            ..self.read_log@
                                        };
                                    },
                                }
                            }
                        } else {
                            self.read_state = ReadState::ReadData { len, off: reached };
                            proof {
                                lemma_append_partial(view.wire, chunk);
                                Buffer::lemma_rebuilt(
                                    before,
                                    self.buffer,
                                    b.read@,
                                    b.read_crypto@,
                                    b.write@,
                                    b.write_crypto@,
                                );
                                self.read_log@ = ReadView {
                                    wire: view.wire + chunk,
                                    ..self.read_log@
                                };
                                assert(under_way.take(2) =~= len_prefix(len as nat));
                            }
                        }
                        Reply::Again
                    },
                }
            },
            _ => Reply::Again,
        }
    }
}

} // verus!
