//! The states of the two engines, what the transport tells them and what
//! they tell their driver.
//!
//! The engines never touch the transport. Where one needs it, it says so; the
//! driver performs the read, write, flush or close and hands back what the
//! transport answered.

use vstd::prelude::*;

verus! {

/// The various states of reading a noise session transitions through.
#[derive(Clone, Copy, Debug, PartialEq, Eq)]
pub enum ReadState {
    /// initial state
    Init,
    /// read frame length
    ReadLen { buf: [u8; 2], off: usize },
    /// read encrypted frame data
    ReadData { len: usize, off: usize },
    /// copy decrypted frame data
    CopyData { len: usize, off: usize },
    /// end of file has been reached (terminal state)
    /// The associated result signals if the EOF was unexpected or not.
    Eof(Result<(), ()>),
    /// decryption error (terminal state)
    DecErr,
}

/// The various states of writing a noise session transitions through.
#[derive(Clone, Copy, Debug, PartialEq, Eq)]
pub enum WriteState {
    /// initial state
    Init,
    /// accumulate write data
    BufferData { off: usize },
    /// write frame length
    WriteLen { len: usize, buf: [u8; 2], off: usize },
    /// write out encrypted data
    WriteData { len: usize, off: usize },
    /// end of file has been reached (terminal state)
    Eof,
    /// encryption error (terminal state)
    EncErr,
}

/// The failures that the adapter itself reports. A failure of the transport
/// is not among them: it is handed through as it came.
#[derive(Clone, Copy, Debug, PartialEq, Eq)]
pub enum Fault {
    /// The transport ended in the middle of a frame.
    UnexpectedEof,
    /// The session could not open a frame, or could not seal one.
    InvalidData,
    /// The transport takes no more bytes.
    WriteZero,
}

/// What the transport answered to one read.
pub enum ReadEvent<'a, E> {
    /// It would block.
    Pending,
    /// It failed.
    Failed(E),
    /// It gave these bytes; none means that it has ended.
    Data(&'a [u8]),
}

/// What the transport answered to one write.
pub enum WriteEvent<E> {
    /// It would block.
    Pending,
    /// It failed.
    Failed(E),
    /// It took this many of the bytes it was offered; zero means that it
    /// takes no more.
    Wrote(usize),
}

/// What the transport answered to a flush.
pub enum FlushEvent<E> {
    /// It would block.
    Pending,
    /// It failed.
    Failed(E),
    /// All that was written has gone out.
    Flushed,
}

/// What the driver does once an engine has taken in the transport's answer.
#[derive(Debug, PartialEq, Eq)]
pub enum Reply<E> {
    /// Poll the engine again.
    Again,
    /// Report that the call would block.
    Pending,
    /// Report this failure of the transport.
    Failed(E),
}

/// What a poll of the read engine comes to.
#[derive(Clone, Copy, Debug, PartialEq, Eq)]
pub enum ReadPoll {
    /// This many bytes were copied to the front of the caller's buffer.
    Ready(usize),
    /// The call fails.
    Failed(Fault),
    /// The transport must be read, for at most this many bytes.
    Fetch(usize),
}

/// What a poll of the write engine comes to.
#[derive(Clone, Copy, Debug, PartialEq, Eq)]
pub enum WritePoll {
    /// This many bytes were taken from the front of the caller's buffer.
    Ready(usize),
    /// The call fails.
    Failed(Fault),
    /// The bytes that the engine offers must be written to the transport.
    Send,
}

/// What a poll for a flush or a close comes to.
#[derive(Clone, Copy, Debug, PartialEq, Eq)]
pub enum FlushPoll {
    /// The bytes that the engine offers must be written to the transport.
    Send,
    /// The engine holds nothing back: the transport must be flushed.
    Flush,
    /// The call fails.
    Failed(Fault),
}

/// What a close comes to once the transport has answered the flush.
#[derive(Debug, PartialEq, Eq)]
pub enum ClosePoll<E> {
    /// The transport must be closed; its answer is the answer of the call.
    Close,
    /// Report that the call would block.
    Pending,
    /// Report this failure of the transport. The transport is not closed.
    Failed(E),
}

impl ReadState {
    /// Whether the state is one that the engine never leaves.
    pub open spec fn is_terminal(self) -> bool {
        self is Eof || self is DecErr
    }

    /// The state in which the engine waits for the first byte of a length
    /// prefix.
    pub open spec fn fresh_len() -> ReadState {
        ReadState::ReadLen { buf: [0u8, 0u8], off: 0 }
    }

    /// Whether the state is one that the engine never leaves.
    pub fn terminal(&self) -> (b: bool)
        ensures
            b == self.is_terminal(),
    {
        match self {
            ReadState::Eof(_) => true,
            ReadState::DecErr => true,
            _ => false,
        }
    }
}

impl WriteState {
    /// Whether the state is one that the engine never leaves.
    pub open spec fn is_terminal(self) -> bool {
        self is Eof || self is EncErr
    }

    /// Whether the state is one that the engine never leaves.
    pub fn terminal(&self) -> (b: bool)
        ensures
            b == self.is_terminal(),
    {
        match self {
            WriteState::Eof => true,
            WriteState::EncErr => true,
            _ => false,
        }
    }
}

} // verus!
