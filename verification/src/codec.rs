//! The frame-length codec: two bytes, big-endian, taken from or given to the
//! transport in as many pieces as it likes.

use crate::buffer::overwritten;
use crate::state::{ReadEvent, WriteEvent};
use crate::wire::{be_u16, len_prefix};
use vstd::prelude::*;

verus! {

/// How far the reading of a length prefix has come.
#[derive(Debug, PartialEq, Eq)]
pub enum LenRead<E> {
    /// Done. `Some` holds the length; `None` says that the transport ended
    /// before the first byte of a prefix.
    Ready(Option<u16>),
    /// The transport ended between the two bytes.
    Truncated,
    /// A byte came and one is missing: the transport must be read again.
    More,
    /// The transport would block.
    Pending,
    /// The transport failed.
    Failed(E),
}

/// How far the writing of a length prefix has come.
#[derive(Debug, PartialEq, Eq)]
pub enum LenWrite<E> {
    /// Done. `true`: both bytes are out; `false`: the transport takes no
    /// more.
    Ready(bool),
    /// A byte went out and one is left: the transport must be written again.
    More,
    /// The transport would block.
    Pending,
    /// The transport failed.
    Failed(E),
}

/// The length that a prefix stands for.
pub fn decode_len(buf: &[u8; 2]) -> (n: u16)
    ensures
        n == be_u16(buf[0], buf[1]),
{
    let hi: u16 = buf[0] as u16;
    let lo: u16 = buf[1] as u16;
    hi * 256 + lo
}

/// The prefix of a frame of `n` bytes.
pub fn encode_len(n: u16) -> (buf: [u8; 2])
    ensures
        buf@ == len_prefix(n as nat),
{
    let buf: [u8; 2] = [(n / 256) as u8, (n % 256) as u8];
    assert(buf@ =~= len_prefix(n as nat));
    buf
}

/// Read 2 bytes as frame length into the given buffer, from what the
/// transport answered to a read of at most `2 - off` bytes.
///
/// `buf` and `off` hold what has come so far. Whatever the answer, they are
/// what the next invocation must be given.
pub fn read_frame_len<E>(event: ReadEvent<'_, E>, buf: &mut [u8; 2], off: &mut usize) -> (r:
    LenRead<E>)
    requires
        *old(off) < 2,
        event matches ReadEvent::Data(d) ==> d@.len() <= 2 - *old(off),
    ensures
        match event {
            ReadEvent::Pending => {
                &&& r is Pending
                &&& *final(buf) == *old(buf)
                &&& *final(off) == *old(off)
            },
            ReadEvent::Failed(e) => {
                &&& r == LenRead::Failed(e)
                &&& *final(buf) == *old(buf)
                &&& *final(off) == *old(off)
            },
            ReadEvent::Data(d) => {
                &&& *final(off) == *old(off) + d@.len()
                &&& final(buf)@ == overwritten(old(buf)@, *old(off) as int, d@, 0, d@.len() as int)
                &&& r == if d@.len() == 0 {
                    if *old(off) == 0 {
                        LenRead::<E>::Ready(None)
                    } else {
                        LenRead::<E>::Truncated
                    }
                } else if *final(off) == 2 {
                    LenRead::<E>::Ready(Some(be_u16(final(buf)[0], final(buf)[1]) as u16))
                } else {
                    LenRead::<E>::More
                }
            },
        },
{
    match event {
        ReadEvent::Pending => LenRead::Pending,
        ReadEvent::Failed(e) => LenRead::Failed(e),
        ReadEvent::Data(d) => {
            let n: usize = d.len();
            if n == 0 {
                assert(buf@ =~= overwritten(old(buf)@, *old(off) as int, d@, 0, 0));
                return if *off == 0 {
                    LenRead::Ready(None)
                } else {
                    LenRead::Truncated
                };
            }
            let start: usize = *off;
            let mut i: usize = 0;
            while i < n
                invariant
                    i <= n,
                    n == d@.len(),
                    start + n <= 2,
                    forall|k: int|
                        0 <= k < 2 ==> buf@[k] == if start <= k < start + i {
                            d@[k - start]
                        } else {
                            old(buf)@[k]
                        },
                decreases n - i,
            {
                buf[start + i] = d[i];
                i += 1;
            }
            assert(buf@ =~= overwritten(old(buf)@, start as int, d@, 0, n as int));
            *off = start + n;
            if *off == 2 {
                LenRead::Ready(Some(decode_len(buf)))
            } else {
                LenRead::More
            }
        },
    }
}

/// Write 2 bytes as frame length, from what the transport answered when it
/// was offered the last `2 - off` of them.
///
/// `off` holds how many bytes are out. Whatever the answer, it is what the
/// next invocation must be given.
pub fn write_frame_len<E>(event: WriteEvent<E>, off: &mut usize) -> (r: LenWrite<E>)
    requires
        *old(off) < 2,
        event matches WriteEvent::Wrote(n) ==> n <= 2 - *old(off),
    ensures
        match event {
            WriteEvent::Pending => r is Pending && *final(off) == *old(off),
            WriteEvent::Failed(e) => r == LenWrite::Failed(e) && *final(off) == *old(off),
            WriteEvent::Wrote(n) => {
                &&& *final(off) == *old(off) + n
                &&& r == if n == 0 {
                    LenWrite::<E>::Ready(false)
                } else if *final(off) == 2 {
                    LenWrite::<E>::Ready(true)
                } else {
                    LenWrite::<E>::More
                }
            },
        },
{
    match event {
        WriteEvent::Pending => LenWrite::Pending,
        WriteEvent::Failed(e) => LenWrite::Failed(e),
        WriteEvent::Wrote(n) => {
            if n == 0 {
                return LenWrite::Ready(false);
            }
            *off = *off + n;
            if *off == 2 {
                LenWrite::Ready(true)
            } else {
                LenWrite::More
            }
        },
    }
}

} // verus!
