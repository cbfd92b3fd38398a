//! What holds of the engines whatever the transport and the session do.
//!
//! Each law is stated of the engines' views, which every call of the adapter
//! keeps within their invariants.

use crate::buffer::{MAX_NOISE_PKG_LEN, MAX_WRITE_BUF_LEN};
use crate::model::{ReadView, WriteView};
use crate::session::{SnowState, MAX_OVERHEAD, TAG_LEN};
use crate::state::{Fault, FlushPoll, ReadPoll, ReadState, WritePoll, WriteState};
use crate::wire::{
    all_fit, be_u16, encode, frame, frames, has_frame, lemma_append_closing,
    lemma_append_partial, lemma_empty_frame_skipped, lemma_encode_push, lemma_frames_of_encode,
    lemma_len_prefix, lemma_non_empty_all, lemma_prefix_of_value, len_prefix, non_empty, tail,
};
use vstd::prelude::*;

verus! {

/// Round trip. Let a writer have let go of everything it took, and let a
/// reader have been given exactly the bytes that the writer sent, and have
/// copied out all that it opened. If the sessions match, so that each frame
/// opens to the plaintext it was sealed from, then what the reader handed to
/// its caller is what the writer took from its caller, byte for byte.
pub proof fn law_round_trip(w: WriteView, r: ReadView)
    requires
        w.inv(),
        r.inv(),
        w.drained(),
        r.wire == w.sent,
        !(r.state is CopyData),
        !(r.state is DecErr),
        forall|i: int|
            0 <= i < r.plains.len() && i < w.batches.len() && r.opened[i] == w.sealed[i]
                ==> #[trigger] r.plains[i] == w.batches[i],
    ensures
        r.opened == w.sealed,
        r.plains == w.batches,
        r.delivered == w.accepted,
{
    law_no_frame_empty(w);
    lemma_frames_of_encode(w.sealed);
    lemma_non_empty_all(w.sealed);
    assert(w.sent =~= encode(w.sealed));
    assert(r.opened == w.sealed);
    assert(r.settled());
    assert(r.plains =~= w.batches);
    assert(w.accepted =~= w.batches.flatten());
}

/// Fragmentation does not show, reading. Two readers that were given the
/// same bytes, in whatever pieces and with whatever waits between them, have
/// asked their sessions to open the same frames, and hold the same part of a
/// frame under way.
pub proof fn law_read_fragmentation(a: ReadView, b: ReadView)
    requires
        a.inv(),
        b.inv(),
        a.wire == b.wire,
    ensures
        a.opened == b.opened,
        a.opened == frames(a.wire),
        a.wants() > 0 && b.wants() > 0 ==> a.wants() == b.wants(),
{
    if a.wants() > 0 && b.wants() > 0 {
        lemma_wants(a);
        lemma_wants(b);
    }
}

/// What a reader waits for is told by the tail of its wire: the rest of a
/// prefix, or the rest of the body that the prefix announces.
pub proof fn lemma_wants(r: ReadView)
    requires
        r.inv(),
        r.wants() > 0,
    ensures
        r.wants() == if tail(r.wire).len() < 2 {
            2 - tail(r.wire).len()
        } else {
            2 + be_u16(tail(r.wire)[0], tail(r.wire)[1]) - tail(r.wire).len()
        },
{
    match r.state {
        ReadState::ReadData { len, off } => {
            lemma_len_prefix(len as nat);
            assert(tail(r.wire)[0] == tail(r.wire).take(2)[0]);
            assert(tail(r.wire)[1] == tail(r.wire).take(2)[1]);
        },
        _ => {},
    }
}

/// No batch is empty, and no frame is shorter than the batch it was made
/// of: so no frame is empty, and a reader skips none of them.
pub proof fn law_no_frame_empty(w: WriteView)
    requires
        w.inv(),
    ensures
        forall|i: int| 0 <= i < w.batches.len() ==> (#[trigger] w.batches[i]).len() > 0,
        forall|i: int|
            0 <= i < w.sealed.len() ==> (#[trigger] w.sealed[i]).len() >= w.batches[i].len(),
        forall|i: int| 0 <= i < w.sealed.len() ==> (#[trigger] w.sealed[i]).len() > 0,
        non_empty(w.sealed) == w.sealed,
{
    assert forall|i: int| 0 <= i < w.sealed.len() implies (#[trigger] w.sealed[i]).len()
        >= w.batches[i].len() && w.sealed[i].len() > 0 by {
        assert(w.batches[i].len() > 0);
    }
    lemma_non_empty_all(w.sealed);
}

/// The same calls make the same batches. Two writers whose callers did the
/// same hold the same batches and the same waiting bytes, and have taken the
/// same bytes, whatever their transports did meanwhile: how many writes each
/// needed, in what pieces it took them, and how often it made them wait.
pub proof fn law_same_calls_same_batches(a: WriteView, b: WriteView)
    requires
        a.inv(),
        b.inv(),
        a.script == b.script,
    ensures
        a.batches == b.batches,
        a.buffered() == b.buffered(),
        a.accepted == b.accepted,
{
    assert(a.accepted =~= a.batches.flatten() + a.buffered());
    assert(b.accepted =~= b.batches.flatten() + b.buffered());
}

/// The same write on two writers whose callers did the same so far, once
/// both take bytes, takes the same bytes: their callers have still done the
/// same. Before that, a writer with a frame on its way out asks for the
/// transport and changes nothing, and what the transport answers leaves what
/// the caller did as it is.
pub proof fn law_same_write_same_take(
    a: WriteView,
    a_session: SnowState,
    b: WriteView,
    b_session: SnowState,
    data: Seq<u8>,
    a_post: WriteView,
    a_out: WritePoll,
    b_post: WriteView,
    b_out: WritePoll,
    n: int,
)
    requires
        a.inv(),
        b.inv(),
        a.script == b.script,
        a.writes(a_session, data, a_post, a_out),
        b.writes(b_session, data, b_post, b_out),
        0 <= n <= a.offer().len(),
    ensures
        a_out is Ready && b_out is Ready ==> a_out == b_out && a_post.script == b_post.script,
        a_out is Send ==> a_post == a,
        a_out is Failed ==> a_post.script == a.script,
        a.wrote(n).script == a.script,
{
    law_same_calls_same_batches(a, b);
}

/// The same flush on two writers whose callers did the same so far, once
/// both have their frames out, does the same: both seal the waiting bytes,
/// or both find none and ask for the transport to be flushed.
pub proof fn law_same_flush_same_batch(
    a: WriteView,
    a_session: SnowState,
    b: WriteView,
    b_session: SnowState,
    a_post: WriteView,
    a_out: FlushPoll,
    b_post: WriteView,
    b_out: FlushPoll,
)
    requires
        a.inv(),
        b.inv(),
        a.script == b.script,
        a.state is Init || a.state is BufferData,
        b.state is Init || b.state is BufferData,
        a.flushes(a_session, a_post, a_out),
        b.flushes(b_session, b_post, b_out),
    ensures
        !(a_out is Failed) && !(b_out is Failed) ==> a_out == b_out && a_post.script
            == b_post.script,
        a_out is Failed ==> a_post.script == a.script,
{
    law_same_calls_same_batches(a, b);
}

/// Fragmentation does not show, writing. Let the callers of two writers have
/// done the same, and let the sessions seal alike, so that the same batch
/// makes the same frame. Then however the transports took the bytes, in
/// whatever pieces and with whatever waits between them, what each has taken
/// is the beginning of the same frames, each behind its length prefix; and
/// once the writers hold nothing back, the two wires are the same, byte for
/// byte.
pub proof fn law_write_fragmentation(a: WriteView, b: WriteView)
    requires
        a.inv(),
        b.inv(),
        a.script == b.script,
        forall|i: int|
            0 <= i < a.sealed.len() && i < b.sealed.len() && a.batches[i] == b.batches[i]
                ==> #[trigger] a.sealed[i] == b.sealed[i],
    ensures
        a.sealed == b.sealed,
        a.sent.is_prefix_of(encode(a.sealed)),
        b.sent.is_prefix_of(encode(a.sealed)),
        a.sent.len() <= b.sent.len() ==> a.sent.is_prefix_of(b.sent),
        a.drained() && b.drained() ==> a.sent == b.sent,
{
    law_same_calls_same_batches(a, b);
    assert(a.sealed =~= b.sealed);
    if a.drained() && b.drained() {
        assert(a.sent =~= encode(a.sealed));
        assert(b.sent =~= encode(a.sealed));
    }
}

/// A terminal read state is sticky. Once the reader has seen the end of the
/// transport, or a frame that its session refused, every poll leaves it as
/// it is and comes to the same outcome, whatever room the caller has: no
/// bytes after a clean end, and else the same fault.
pub proof fn law_read_terminal_sticky(r: ReadView, room: int)
    requires
        r.state.is_terminal(),
    ensures
        r.polled(room) == r,
        r.serves(room) == 0,
        r.wants() == 0,
        r.poll_result(room) == match r.state {
            ReadState::Eof(Ok(())) => ReadPoll::Ready(0),
            ReadState::Eof(Err(())) => ReadPoll::Failed(Fault::UnexpectedEof),
            _ => ReadPoll::Failed(Fault::InvalidData),
        },
{
}

/// A terminal write state is sticky. Once the transport has taken no more
/// bytes, or the session has refused a batch, every write and every flush
/// leaves the writer as it is and fails with the same fault, and the writer
/// offers the transport nothing.
pub proof fn law_write_terminal_sticky(
    w: WriteView,
    session: SnowState,
    data: Seq<u8>,
    post: WriteView,
    r: WritePoll,
    flushed: WriteView,
    f: FlushPoll,
)
    requires
        w.state.is_terminal(),
        w.writes(session, data, post, r),
        w.flushes(session, flushed, f),
    ensures
        post == w,
        flushed == w,
        r == WritePoll::Failed(
            if w.state is Eof {
                Fault::WriteZero
            } else {
                Fault::InvalidData
            },
        ),
        f == FlushPoll::Failed(
            if w.state is Eof {
                Fault::WriteZero
            } else {
                Fault::InvalidData
            },
        ),
        w.offer().len() == 0,
        !w.write_asks(data.len() as int),
        !w.flush_asks(),
{
}

/// Frame bound. No frame that was sealed has more than 65535 bytes, no
/// plaintext that was sealed in one piece has more than 16384, a frame is
/// longer than its plaintext by a bounded overhead, which in transport mode
/// is the tag, and the transport was given nothing but the sealed frames.
pub proof fn law_frame_bound(w: WriteView, i: int)
    requires
        w.inv(),
        0 <= i < w.sealed.len(),
    ensures
        w.sealed[i].len() <= MAX_NOISE_PKG_LEN,
        0 < w.batches[i].len() <= MAX_WRITE_BUF_LEN,
        w.batches[i].len() <= w.sealed[i].len() <= w.batches[i].len() + MAX_OVERHEAD,
        w.transport ==> w.sealed[i].len() == w.batches[i].len() + TAG_LEN,
        w.sent.is_prefix_of(encode(w.sealed)),
        w.fill() <= MAX_WRITE_BUF_LEN,
{
}

/// Length prefix correctness. The two bytes in front of a frame are the
/// big-endian encoding of the length of the body behind them; so a reader of
/// the sealed frames' bytes finds the frames again, their bodies whole, and
/// nothing is left over.
pub proof fn law_length_prefix(w: WriteView, i: int)
    requires
        w.inv(),
        0 <= i < w.sealed.len(),
    ensures
        frame(w.sealed[i]).take(2) == len_prefix(w.sealed[i].len()),
        frame(w.sealed[i]).skip(2) == w.sealed[i],
        be_u16(frame(w.sealed[i])[0], frame(w.sealed[i])[1]) == w.sealed[i].len(),
        frames(encode(w.sealed)) == non_empty(w.sealed),
        tail(encode(w.sealed)).len() == 0,
        w.state matches WriteState::WriteLen { len, buf, off } ==> buf@ == len_prefix(
            w.sealed.last().len(),
        ),
{
    let body = w.sealed[i];
    lemma_len_prefix(body.len());
    assert(frame(body).take(2) =~= len_prefix(body.len()));
    assert(frame(body).skip(2) =~= body);
    lemma_frames_of_encode(w.sealed);
}

/// Zero-length skip. Two readers whose wires differ by one empty frame,
/// two zero bytes where a frame may begin, have asked their sessions to open
/// the same frames, and are as far into the frame under way.
pub proof fn law_empty_frame_skipped(a: ReadView, b: ReadView, head: Seq<u8>, rest: Seq<u8>)
    requires
        a.inv(),
        b.inv(),
        tail(head).len() == 0,
        a.wire == head + seq![0u8, 0u8] + rest,
        b.wire == head + rest,
    ensures
        a.opened == b.opened,
        tail(a.wire) == tail(b.wire),
{
    lemma_empty_frame_skipped(head, rest);
}

/// Nothing is lost. What the caller was handed, with the plaintext that
/// still waits for it, is all the plaintext that the session gave back, in
/// order; and plaintext waits only while the reader is copying out. A wait
/// for the transport changes none of it, since it changes nothing.
pub proof fn law_nothing_lost(r: ReadView)
    requires
        r.inv(),
    ensures
        r.delivered + r.undelivered() == r.plains.flatten(),
        !(r.state is CopyData) ==> r.delivered == r.plains.flatten(),
        r.state matches ReadState::CopyData { len, off } ==> r.undelivered().len()
            == len - off,
{
    assert(r.delivered + r.undelivered() =~= r.plains.flatten());
}

/// Nothing is held back for good. What the writer took from its caller is
/// the plaintext that was sealed, in order, with the bytes that still wait
/// to be sealed behind it.
pub proof fn law_nothing_held_back(w: WriteView)
    requires
        w.inv(),
    ensures
        w.batches.flatten() + w.buffered() == w.accepted,
        !(w.state is EncErr || w.state is Eof) ==> w.buffered().len() == w.fill(),
        w.sent + w.unsent() == encode(w.sealed),
{
    assert(w.batches.flatten() + w.buffered() =~= w.accepted);
    assert(w.sent + w.unsent() =~= encode(w.sealed));
}

/// The read invariant is kept by a poll, whatever room the caller has.
pub proof fn law_poll_keeps_read_inv(r: ReadView, room: int)
    requires
        r.inv(),
        room >= 0,
    ensures
        r.polled(room).inv(),
{
    let post = r.polled(room);
    match r.state {
        ReadState::Init => {
            assert(tail(post.wire) =~= [0u8, 0u8]@.take(0));
        },
        ReadState::CopyData { len, off } => {
            let n = r.serves(room);
            let all = r.plains.flatten();
            assert(post.delivered =~= all.take(r.delivered.len() + n));
            assert(post.undelivered() =~= r.undelivered().skip(n));
            if off + n == len {
                assert(post.delivered =~= all);
                assert(tail(post.wire) =~= [0u8, 0u8]@.take(0));
            }
        },
        _ => {},
    }
}

/// The read invariant is kept when the transport ends.
pub proof fn law_end_keeps_read_inv(r: ReadView)
    requires
        r.inv(),
        r.wants() > 0,
    ensures
        r.ended().inv(),
{
}

/// The read invariant is kept when bytes come from the transport, at least
/// one and no more than the reader waited for, whatever the session answers
/// to a frame that they complete.
pub proof fn law_bytes_keep_read_inv(
    r: ReadView,
    session: SnowState,
    chunk: Seq<u8>,
    post: ReadView,
)
    requires
        r.inv(),
        0 < chunk.len() <= r.wants(),
        r.absorbs(session, chunk, post),
    ensures
        post.inv(),
{
    let under_way = tail(r.wire) + chunk;
    lemma_wants(r);
    if under_way.len() >= 2 {
        lemma_prefix_of_value(under_way[0], under_way[1]);
    }
    if !has_frame(under_way) {
        lemma_append_partial(r.wire, chunk);
        if under_way.len() < 2 {
            assert(under_way =~= [under_way[0], 0u8]@.take(1));
        } else {
            assert(under_way.take(2) =~= seq![under_way[0], under_way[1]]);
        }
    } else {
        let body = under_way.skip(2);
        assert(under_way.take(2) =~= seq![under_way[0], under_way[1]]);
        assert(under_way =~= frame(body));
        lemma_append_closing(r.wire, chunk, body);
        if !(post.state is DecErr) && under_way.len() > 2 {
            let plain = post.plains.last();
            assert(post.plains =~= r.plains.push(plain));
            r.plains.lemma_flatten_push(plain);
            assert(post.undelivered() =~= plain);
        }
    }
}

/// The write invariant is kept by a poll with bytes of the caller, whatever
/// the session answers to a batch that they fill.
pub proof fn law_write_keeps_inv(
    w: WriteView,
    session: SnowState,
    data: Seq<u8>,
    post: WriteView,
    r: WritePoll,
)
    requires
        w.inv(),
        w.writes(session, data, post, r),
    ensures
        post.inv(),
{
    match w.state {
        WriteState::Init | WriteState::BufferData { .. } => {
            let n = w.takes(data.len() as int);
            let taken = data.take(n);
            if post.state is EncErr {
            } else {
                assert(post.script.drop_last() =~= w.script);
                if w.fill() + n < MAX_WRITE_BUF_LEN {
                    assert(post.buffered() =~= w.buffered() + taken);
                } else {
                    assert(w.sent =~= encode(w.sealed));
                    assert(post.accepted =~= w.batches.flatten() + (w.buffered() + taken));
                    lemma_sealed_keeps_sound(
                        WriteView { accepted: post.accepted, ..w },
                        session,
                        w.buffered() + taken,
                        post,
                    );
                    assert(post.buffered() =~= Seq::<u8>::empty());
                }
            }
        },
        _ => {},
    }
}

/// The write invariant is kept by a poll for a flush, whatever the session
/// answers to the batch that it is asked to seal.
pub proof fn law_flush_keeps_inv(w: WriteView, session: SnowState, post: WriteView, r: FlushPoll)
    requires
        w.inv(),
        w.flushes(session, post, r),
    ensures
        post.inv(),
{
    match w.state {
        WriteState::BufferData { off } => {
            if off > 0 && !(post.state is EncErr) {
                assert(post.script.drop_last() =~= w.script);
                assert(w.sent =~= encode(w.sealed));
                assert(w.accepted =~= w.batches.flatten() + w.buffered());
                lemma_sealed_keeps_sound(w, session, w.buffered(), post);
                assert(post.buffered() =~= Seq::<u8>::empty());
            }
        },
        _ => {},
    }
}

/// A sound writer that has taken `batch` from its caller and has every
/// earlier frame out stays sound when the session seals `batch`.
pub proof fn lemma_sealed_keeps_sound(
    w: WriteView,
    session: SnowState,
    batch: Seq<u8>,
    post: WriteView,
)
    requires
        all_fit(w.sealed),
        w.batches_fit(),
        w.frames_fit(),
        w.batches.len() == w.sealed.len(),
        w.sent == encode(w.sealed),
        w.accepted == w.batches.flatten() + batch,
        0 < batch.len() <= MAX_WRITE_BUF_LEN,
        post.accepted == w.accepted,
        w.seals(session, batch, post),
    ensures
        post.sound(),
{
    let sealed = post.sealed.last();
    assert(post.sealed =~= w.sealed.push(sealed));
    lemma_encode_push(w.sealed, sealed);
    w.batches.lemma_flatten_push(batch);
    lemma_len_prefix(sealed.len());
    match post.state {
        WriteState::WriteLen { len, buf, off } => {
            assert(buf@ =~= len_prefix(len as nat));
        },
        _ => {},
    }
}

/// The write invariant is kept when the transport takes bytes: none, or as
/// many of those it was offered as it likes.
pub proof fn law_sent_keeps_write_inv(w: WriteView, n: int)
    requires
        w.inv(),
        w.state is WriteLen || w.state is WriteData,
        0 <= n <= w.offer().len(),
    ensures
        w.wrote(n).inv(),
        w.wrote(n).script == w.script,
        w.wrote(n).batches == w.batches,
        w.wrote(n).accepted == w.accepted,
{
    let post = w.wrote(n);
    if n > 0 {
        assert(post.sent =~= encode(w.sealed).take(w.sent.len() + n));
    }
}

} // verus!
