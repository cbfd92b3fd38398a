//! The adapter: a Noise session with the buffer and the two engines that
//! carry a byte stream through it.

use crate::buffer::{Buffer, TOTAL_BUFFER_LEN};
use crate::model::{ReadView, WriteView};
use crate::session::SnowState;
use crate::state::{ReadState, WriteState};
use crate::wire::tail;
use vstd::prelude::*;

verus! {

/// A noise session to a remote.
///
/// The adapter holds everything but the transport. Whoever drives it owns
/// the transport, and performs on it what the polls ask for.
pub struct NoiseOutput {
    pub(crate) session: SnowState,
    pub(crate) buffer: Buffer,
    pub(crate) read_state: ReadState,
    pub(crate) write_state: WriteState,
    pub(crate) read_log: Ghost<ReadView>,
    pub(crate) write_log: Ghost<WriteView>,
}

impl NoiseOutput {
    /// The read engine, with all that has passed through it.
    pub open(crate) spec fn read_view(&self) -> ReadView {
        ReadView {
            state: self.read_state,
            transport: self.session is Transport,
            ..self.read_log@
        }
    }

    /// The write engine, with all that has passed through it.
    pub open(crate) spec fn write_view(&self) -> WriteView {
        WriteView {
            state: self.write_state,
            transport: self.session is Transport,
            ..self.write_log@
        }
    }

    /// The buffer holds what the engines' records say it holds: of the frame
    /// that is being read, the bytes that have come; of the frame that was
    /// opened last, its plaintext; the bytes that wait to be sealed; and the
    /// frame that is on its way out.
    pub open(crate) spec fn held(&self) -> bool {
        &&& self.buffer.wf()
        &&& match self.read_state {
            ReadState::ReadData { len, off } => self.buffer.read().take(off as int) == tail(
                self.read_log@.wire,
            ).skip(2),
            ReadState::CopyData { len, off } => self.buffer.read_crypto().take(len as int)
                == self.read_log@.plains.last(),
            _ => true,
        }
        &&& match self.write_state {
            WriteState::BufferData { off } => self.buffer.write().take(off as int)
                == self.write_view().buffered(),
            WriteState::WriteLen { len, .. } | WriteState::WriteData { len, .. } => {
                &&& len <= self.buffer.write_crypto().len()
                &&& self.buffer.write_crypto().take(len as int) == self.write_log@.sealed.last()
            },
            _ => true,
        }
    }

    /// The adapter is sound: both engines keep their invariants, and the
    /// buffer holds what their records say.
    pub open spec fn wf(&self) -> bool {
        &&& self.read_view().inv()
        &&& self.write_view().inv()
        &&& self.held()
    }

    /// The buffer that the adapter holds.
    pub open(crate) spec fn buffer_view(&self) -> Buffer {
        self.buffer
    }

    /// The session that the adapter holds.
    pub open(crate) spec fn session_view(&self) -> SnowState {
        self.session
    }

    /// Whether the session is in transport mode.
    pub open spec fn in_transport_mode(&self) -> bool {
        self.session_view() is Transport
    }

    /// An adapter around `session`, with both engines at their start and
    /// every byte of the buffer zero. The session is taken as it is: nothing
    /// is asked of it, and nothing is read or written.
    pub fn new(session: SnowState) -> (out: NoiseOutput)
        ensures
            out.wf(),
            out.read_view() == ReadView::start(session is Transport),
            out.write_view() == WriteView::start(session is Transport),
            out.session_view() == session,
            out.buffer_view().bytes().len() == TOTAL_BUFFER_LEN,
            forall|i: int| 0 <= i < TOTAL_BUFFER_LEN ==> out.buffer_view().bytes()[i] == 0u8,
    {
        let out = NoiseOutput {
            session,
            buffer: Buffer::new(),
            read_state: ReadState::Init,
            write_state: WriteState::Init,
            read_log: Ghost(ReadView::start(session is Transport)),
            write_log: Ghost(WriteView::start(session is Transport)),
        };
        proof {
            out.buffer.lemma_regions();
            assert(out.read_view().plains.flatten() =~= Seq::<u8>::empty());
            assert(out.write_view().batches.flatten() =~= Seq::<u8>::empty());
        }
        out
    }

    /// The state of the read engine.
    pub fn read_state(&self) -> (s: ReadState)
        ensures
            s == self.read_view().state,
    {
        self.read_state
    }

    /// The state of the write engine.
    pub fn write_state(&self) -> (s: WriteState)
        ensures
            s == self.write_view().state,
    {
        self.write_state
    }

    /// The buffer.
    pub fn buffer(&self) -> (b: &Buffer)
        ensures
            *b == self.buffer_view(),
    {
        &self.buffer
    }

    /// The session.
    pub fn session(&self) -> (s: &SnowState)
        ensures
            *s == self.session_view(),
    {
        &self.session
    }

    /// Gives up the adapter for its session.
    pub fn into_session(self) -> (s: SnowState)
        ensures
            s == self.session_view(),
    {
        self.session
    }
}

} // verus!
