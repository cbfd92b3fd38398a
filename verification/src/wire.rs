//! The wire format, as mathematics.
//!
//! The wire carries frames back to back. A frame is two bytes, the length of
//! its body as a big-endian number, and then the body. A frame with an empty
//! body is legal and carries nothing.

use vstd::prelude::*;

verus! {

/// The number that the two bytes of a length prefix stand for.
pub open spec fn be_u16(hi: u8, lo: u8) -> int {
    (hi as int) * 256 + (lo as int)
}

/// The length prefix of a body of `n` bytes.
pub open spec fn len_prefix(n: nat) -> Seq<u8>
    recommends
        n <= 65535,
{
    seq![(n / 256) as u8, (n % 256) as u8]
}

/// One frame: the length prefix of `body`, then `body`.
pub open spec fn frame(body: Seq<u8>) -> Seq<u8>
    recommends
        body.len() <= 65535,
{
    len_prefix(body.len()) + body
}

/// The bytes that a run of frames takes on the wire.
pub open spec fn encode(bodies: Seq<Seq<u8>>) -> Seq<u8>
    decreases bodies.len(),
{
    if bodies.len() == 0 {
        Seq::empty()
    } else {
        encode(bodies.drop_last()) + frame(bodies.last())
    }
}

/// Whether `w` begins with a whole frame.
pub open spec fn has_frame(w: Seq<u8>) -> bool {
    w.len() >= 2 && w.len() >= 2 + be_u16(w[0], w[1])
}

/// How many bytes the first frame of `w` takes, prefix included.
pub open spec fn first_extent(w: Seq<u8>) -> int
    recommends
        w.len() >= 2,
{
    2 + be_u16(w[0], w[1])
}

/// The bodies of the whole frames in `w`, in order, the empty ones left out.
pub open spec fn frames(w: Seq<u8>) -> Seq<Seq<u8>>
    decreases w.len(),
{
    if !has_frame(w) {
        Seq::empty()
    } else {
        let k = first_extent(w);
        let rest = frames(w.skip(k));
        if k == 2 {
            rest
        } else {
            seq![w.subrange(2, k)] + rest
        }
    }
}

/// What is left of `w` behind its last whole frame: nothing, a part of a
/// prefix, or a prefix with a part of its body.
pub open spec fn tail(w: Seq<u8>) -> Seq<u8>
    decreases w.len(),
{
    if !has_frame(w) {
        w
    } else {
        tail(w.skip(first_extent(w)))
    }
}

/// `bodies` without its empty members.
pub open spec fn non_empty(bodies: Seq<Seq<u8>>) -> Seq<Seq<u8>>
    decreases bodies.len(),
{
    if bodies.len() == 0 {
        Seq::empty()
    } else if bodies.last().len() == 0 {
        non_empty(bodies.drop_last())
    } else {
        non_empty(bodies.drop_last()).push(bodies.last())
    }
}

/// Whether every body fits a frame.
pub open spec fn all_fit(bodies: Seq<Seq<u8>>) -> bool {
    forall|i: int| 0 <= i < bodies.len() ==> (#[trigger] bodies[i]).len() <= 65535
}

/// A length prefix has two bytes and stands for the length it was made from.
pub proof fn lemma_len_prefix(n: nat)
    requires
        n <= 65535,
    ensures
        len_prefix(n).len() == 2,
        be_u16(len_prefix(n)[0], len_prefix(n)[1]) == n,
{
}

/// Two bytes are the length prefix of the number they stand for.
pub proof fn lemma_prefix_of_value(hi: u8, lo: u8)
    ensures
        0 <= be_u16(hi, lo) <= 65535,
        len_prefix(be_u16(hi, lo) as nat) == seq![hi, lo],
{
    assert(len_prefix(be_u16(hi, lo) as nat) =~= seq![hi, lo]);
}

/// Bytes that arrive behind `w` are parsed as if they arrived behind the
/// tail of `w`: what was a whole frame stays one.
pub proof fn lemma_append(w: Seq<u8>, c: Seq<u8>)
    ensures
        frames(w + c) == frames(w) + frames(tail(w) + c),
        tail(w + c) == tail(tail(w) + c),
    decreases w.len(),
{
    if has_frame(w) {
        let k = first_extent(w);
        assert((w + c)[0] == w[0] && (w + c)[1] == w[1]);
        assert((w + c).skip(k) =~= w.skip(k) + c);
        assert((w + c).subrange(2, k) =~= w.subrange(2, k));
        lemma_append(w.skip(k), c);
        if k == 2 {
        } else {
            assert(seq![w.subrange(2, k)] + (frames(w.skip(k)) + frames(tail(w.skip(k)) + c))
                =~= (seq![w.subrange(2, k)] + frames(w.skip(k))) + frames(tail(w.skip(k)) + c));
        }
    } else {
        assert(frames(w) + frames(w + c) =~= frames(w + c));
    }
}

/// Bytes that do not complete the frame under way only lengthen the tail.
pub proof fn lemma_append_partial(w: Seq<u8>, c: Seq<u8>)
    requires
        !has_frame(tail(w) + c),
    ensures
        frames(w + c) == frames(w),
        tail(w + c) == tail(w) + c,
{
    lemma_append(w, c);
    assert(frames(w) + frames(tail(w) + c) =~= frames(w));
}

/// One frame alone on the wire: its body if it has one, and no tail.
pub proof fn lemma_single_frame(body: Seq<u8>)
    requires
        body.len() <= 65535,
    ensures
        has_frame(frame(body)),
        first_extent(frame(body)) == 2 + body.len(),
        frames(frame(body)) == if body.len() == 0 {
            Seq::<Seq<u8>>::empty()
        } else {
            seq![body]
        },
        tail(frame(body)).len() == 0,
{
    let f = frame(body);
    lemma_len_prefix(body.len());
    assert(f.len() == 2 + body.len());
    assert(f[0] == len_prefix(body.len())[0] && f[1] == len_prefix(body.len())[1]);
    let k = first_extent(f);
    assert(k == 2 + body.len());
    assert(f.skip(k) =~= Seq::<u8>::empty());
    assert(!has_frame(f.skip(k)));
    assert(frames(f.skip(k)) =~= Seq::<Seq<u8>>::empty());
    assert(tail(f.skip(k)) == f.skip(k));
    if body.len() > 0 {
        assert(f.subrange(2, k) =~= body);
        assert(seq![f.subrange(2, k)] + frames(f.skip(k)) =~= seq![body]);
    }
}

/// Bytes that complete the frame under way add its body to the frames,
/// unless it is empty, and leave no tail.
pub proof fn lemma_append_closing(w: Seq<u8>, c: Seq<u8>, body: Seq<u8>)
    requires
        body.len() <= 65535,
        tail(w) + c == frame(body),
    ensures
        tail(w + c).len() == 0,
        frames(w + c) == if body.len() == 0 {
            frames(w)
        } else {
            frames(w).push(body)
        },
{
    lemma_append(w, c);
    lemma_single_frame(body);
    if body.len() == 0 {
        assert(frames(w) + frames(frame(body)) =~= frames(w));
    } else {
        assert(frames(w) + seq![body] =~= frames(w).push(body));
    }
}

/// An empty frame between whole frames is skipped: the wire parses as it does
/// with the two zero bytes taken out.
pub proof fn lemma_empty_frame_skipped(a: Seq<u8>, b: Seq<u8>)
    requires
        tail(a).len() == 0,
    ensures
        frames(a + seq![0u8, 0u8] + b) == frames(a + b),
        tail(a + seq![0u8, 0u8] + b) == tail(a + b),
{
    let z = seq![0u8, 0u8];
    let zb = z + b;
    assert(a + z + b =~= a + zb);
    lemma_append(a, zb);
    lemma_append(a, b);
    assert(tail(a) + zb =~= zb);
    assert(tail(a) + b =~= b);
    assert(has_frame(zb));
    assert(first_extent(zb) == 2);
    assert(zb.skip(2) =~= b);
}

/// What was framed is what the wire parses to: the bodies that are not empty,
/// in order, with nothing left over.
pub proof fn lemma_frames_of_encode(bodies: Seq<Seq<u8>>)
    requires
        all_fit(bodies),
    ensures
        frames(encode(bodies)) == non_empty(bodies),
        tail(encode(bodies)).len() == 0,
    decreases bodies.len(),
{
    if bodies.len() > 0 {
        let init = bodies.drop_last();
        let last = bodies.last();
        lemma_frames_of_encode(init);
        assert(tail(encode(init)) + frame(last) =~= frame(last));
        lemma_append_closing(encode(init), frame(last), last);
    }
}

/// Where no body is empty, leaving out the empty ones changes nothing.
pub proof fn lemma_non_empty_all(bodies: Seq<Seq<u8>>)
    requires
        forall|i: int| 0 <= i < bodies.len() ==> (#[trigger] bodies[i]).len() > 0,
    ensures
        non_empty(bodies) == bodies,
    decreases bodies.len(),
{
    if bodies.len() > 0 {
        lemma_non_empty_all(bodies.drop_last());
        assert(bodies.drop_last().push(bodies.last()) =~= bodies);
    }
}

/// Framing one more body appends its frame to the wire.
pub proof fn lemma_encode_push(bodies: Seq<Seq<u8>>, body: Seq<u8>)
    ensures
        encode(bodies.push(body)) == encode(bodies) + frame(body),
{
    assert(bodies.push(body).drop_last() =~= bodies);
}

} // verus!
