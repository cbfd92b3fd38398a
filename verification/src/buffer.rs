//! The one fixed allocation that both engines work in, and its four regions.

use vstd::prelude::*;

verus! {

/// Largest Noise message, which is also the largest frame body on the wire.
pub const MAX_NOISE_PKG_LEN: usize = 65535;

/// Plaintext is sealed into a frame as soon as this many bytes are buffered.
pub const MAX_WRITE_BUF_LEN: usize = 16384;

/// Size of the allocation: two regions for reading, of `MAX_NOISE_PKG_LEN`
/// bytes each, and three times `MAX_WRITE_BUF_LEN` for writing.
pub const TOTAL_BUFFER_LEN: usize = 2 * MAX_NOISE_PKG_LEN + 3 * MAX_WRITE_BUF_LEN;

/// Size of the region that sealed frames are written to. It leaves as much
/// room again as the plaintext may take, for what the cipher adds.
pub const WRITE_CRYPTO_LEN: usize = 2 * MAX_WRITE_BUF_LEN;

/// A single `Buffer` contains multiple non-overlapping byte buffers.
pub struct Buffer {
    inner: Vec<u8>,
}

/// A mutable borrow of all byte buffers, backed by `Buffer`.
pub struct BufferBorrow<'a> {
    /// Ciphertext of the frame that is being read.
    pub read: &'a mut [u8],
    /// Plaintext of the frame that was read last.
    pub read_crypto: &'a mut [u8],
    /// Plaintext that waits to be sealed.
    pub write: &'a mut [u8],
    /// Ciphertext of the frame that is being written.
    pub write_crypto: &'a mut [u8],
}

impl Buffer {
    /// The allocation has its fixed size.
    pub closed spec fn wf(&self) -> bool {
        self.inner@.len() == TOTAL_BUFFER_LEN
    }

    /// All bytes of the allocation.
    pub closed spec fn bytes(&self) -> Seq<u8> {
        self.inner@
    }

    /// The region that holds the ciphertext of the frame that is being read.
    pub open spec fn read(&self) -> Seq<u8> {
        self.bytes().subrange(0, MAX_NOISE_PKG_LEN as int)
    }

    /// The region that holds the plaintext of the frame that was read last.
    pub open spec fn read_crypto(&self) -> Seq<u8> {
        self.bytes().subrange(MAX_NOISE_PKG_LEN as int, 2 * MAX_NOISE_PKG_LEN)
    }

    /// The region that holds the plaintext that waits to be sealed.
    pub open spec fn write(&self) -> Seq<u8> {
        self.bytes().subrange(2 * MAX_NOISE_PKG_LEN, 2 * MAX_NOISE_PKG_LEN + MAX_WRITE_BUF_LEN)
    }

    /// The region that holds the ciphertext of the frame that is being written.
    pub open spec fn write_crypto(&self) -> Seq<u8> {
        self.bytes().subrange(2 * MAX_NOISE_PKG_LEN + MAX_WRITE_BUF_LEN, TOTAL_BUFFER_LEN as int)
    }

    /// The regions lie side by side: they cover the allocation and no two
    /// share a byte.
    pub proof fn lemma_regions(&self)
        requires
            self.wf(),
        ensures
            self.bytes().len() == TOTAL_BUFFER_LEN,
            self.read().len() == MAX_NOISE_PKG_LEN,
            self.read_crypto().len() == MAX_NOISE_PKG_LEN,
            self.write().len() == MAX_WRITE_BUF_LEN,
            self.write_crypto().len() == WRITE_CRYPTO_LEN,
            self.bytes() == self.read() + self.read_crypto() + self.write() + self.write_crypto(),
    {
        assert(self.bytes() =~= self.read() + self.read_crypto() + self.write()
            + self.write_crypto());
    }

    /// A buffer whose bytes are four parts of the regions' sizes, side by
    /// side, has these parts as its regions.
    pub proof fn lemma_rebuilt(
        before: Buffer,
        after: Buffer,
        read: Seq<u8>,
        read_crypto: Seq<u8>,
        write: Seq<u8>,
        write_crypto: Seq<u8>,
    )
        requires
            before.wf(),
            read.len() == before.read().len(),
            read_crypto.len() == before.read_crypto().len(),
            write.len() == before.write().len(),
            write_crypto.len() == before.write_crypto().len(),
            after.bytes() == read + read_crypto + write + write_crypto,
        ensures
            after.wf(),
            after.read() == read,
            after.read_crypto() == read_crypto,
            after.write() == write,
            after.write_crypto() == write_crypto,
    {
        before.lemma_regions();
        assert(after.read() =~= read);
        assert(after.read_crypto() =~= read_crypto);
        assert(after.write() =~= write);
        assert(after.write_crypto() =~= write_crypto);
    }

    /// Allocates the buffer, every byte zero.
    pub fn new() -> (buffer: Buffer)
        ensures
            buffer.wf(),
            forall|i: int| 0 <= i < TOTAL_BUFFER_LEN ==> buffer.bytes()[i] == 0u8,
    {
        Buffer { inner: vec![0u8; TOTAL_BUFFER_LEN] }
    }

    /// Create a mutable borrow by splitting the buffer slice.
    pub fn borrow_mut(&mut self) -> (b: BufferBorrow<'_>)
        requires
            old(self).wf(),
        ensures
            b.read@ == old(self).read(),
            b.read_crypto@ == old(self).read_crypto(),
            b.write@ == old(self).write(),
            b.write_crypto@ == old(self).write_crypto(),
            final(self).bytes() == final(b.read)@ + final(b.read_crypto)@ + final(b.write)@
                + final(b.write_crypto)@,
    {
        let (r, w) = self.inner.as_mut_slice().split_at_mut(2 * MAX_NOISE_PKG_LEN);
        let (read, read_crypto) = r.split_at_mut(MAX_NOISE_PKG_LEN);
        let (write, write_crypto) = w.split_at_mut(MAX_WRITE_BUF_LEN);
        BufferBorrow { read, read_crypto, write, write_crypto }
    }

    /// A look at the allocation, for the parts that only read.
    pub fn as_slice(&self) -> (s: &[u8])
        ensures
            s@ == self.bytes(),
    {
        self.inner.as_slice()
    }
}

/// `dst` with `src[from .. from + n]` written over `dst[at .. at + n]`.
pub open spec fn overwritten(dst: Seq<u8>, at: int, src: Seq<u8>, from: int, n: int) -> Seq<u8> {
    Seq::new(
        dst.len(),
        |k: int|
            if at <= k < at + n {
                src[k - at + from]
            } else {
                dst[k]
            },
    )
}

/// Copies `n` bytes from `src`, starting at `from`, over `dst`, starting at
/// `at`. The rest of `dst` stays as it is.
pub fn copy_bytes(dst: &mut [u8], at: usize, src: &[u8], from: usize, n: usize)
    requires
        at + n <= old(dst)@.len(),
        from + n <= src@.len(),
    ensures
        final(dst)@ == overwritten(old(dst)@, at as int, src@, from as int, n as int),
{
    let total: usize = dst.len();
    let avail: usize = src.len();
    let mut i: usize = 0;
    while i < n
        invariant
            i <= n,
            at + n <= total,
            from + n <= avail,
            avail == src@.len(),
            dst@.len() == total,
            old(dst)@.len() == total,
            forall|k: int|
                0 <= k < total ==> dst@[k] == if at <= k < at + i {
                    src@[k - at + from]
                } else {
                    old(dst)@[k]
                },
        decreases n - i,
    {
        dst[at + i] = src[from + i];
        i += 1;
    }
    assert(dst@ =~= overwritten(old(dst)@, at as int, src@, from as int, n as int));
}

} // verus!
