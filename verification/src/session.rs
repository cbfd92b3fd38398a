//! The Noise session, in either of its two phases, behind one interface.

use vstd::prelude::*;

verus! {

/// Largest message that a Noise session reads or writes.
pub const MAX_MESSAGE_LEN: usize = 65535;

/// Room that a handshake session needs in the buffer it writes a message to,
/// whatever the payload: two public keys of at most 56 bytes each, the second
/// of them sealed with a tag of 16 bytes.
pub const MIN_HANDSHAKE_ROOM: usize = 128;

/// Largest public key that a session holds.
pub const MAX_KEY_LEN: usize = 56;

/// Size of the authentication tag behind whatever a session seals.
pub const TAG_LEN: usize = 16;

/// The most that a message may be longer than its payload: in a handshake
/// message, an ephemeral key, a static key with its tag, and the payload's
/// tag.
pub const MAX_OVERHEAD: usize = 2 * MAX_KEY_LEN + 2 * TAG_LEN;

/// What holds of `n`, the length of the plaintext that a session took out of
/// a message of `sealed` bytes and wrote to a buffer of `room` bytes.
///
/// The plaintext fits the buffer and is no longer than the message, which is
/// no longer than a Noise message may be. In transport mode the message is
/// the plaintext and its tag, and nothing else.
pub open spec fn opened_len(transport: bool, sealed: nat, room: nat, n: nat) -> bool {
    &&& n <= room
    &&& n <= sealed <= MAX_MESSAGE_LEN
    &&& transport ==> n + TAG_LEN == sealed
}

/// What holds of `n`, the length of the message that a session made of a
/// payload of `plain` bytes and wrote to a buffer of `room` bytes.
///
/// The buffer had room for the payload and a tag. The message fits the
/// buffer, is no longer than a Noise message may be, holds the payload and
/// exceeds it by a bounded overhead. In transport mode the overhead is the
/// tag, and nothing else.
pub open spec fn sealed_len(transport: bool, plain: nat, room: nat, n: nat) -> bool {
    &&& plain + TAG_LEN <= room
    &&& n <= room
    &&& n <= MAX_MESSAGE_LEN
    &&& plain <= n <= plain + MAX_OVERHEAD
    &&& transport ==> n == plain + TAG_LEN
}

/// `snow::TransportState`, a session in transport mode. Nothing inside it
/// is seen here.
#[verifier::external_type_specification]
#[verifier::external_body]
pub struct ExTransportState(snow::TransportState);

/// `snow::HandshakeState`, a session that is shaking hands. Nothing inside
/// it is seen here.
#[verifier::external_type_specification]
#[verifier::external_body]
pub struct ExHandshakeState(snow::HandshakeState);

/// `snow::Error`, why a session refused. Nothing inside it is seen here.
#[verifier::external_type_specification]
#[verifier::external_body]
pub struct ExSnowError(snow::Error);

/// The plaintext that a transport session takes out of the message `sealed`
/// when it has `room` bytes to write it to, if it opens the message. It is
/// what `snow::TransportState::read_message` returns and writes: the session
/// as it stands, the message and the room decide it.
pub uninterp spec fn transport_opens(
    session: snow::TransportState,
    sealed: Seq<u8>,
    room: nat,
) -> Option<Seq<u8>>;

/// The message that a transport session makes of the payload `plain` when it
/// has `room` bytes to write it to, if it seals the payload. It is what
/// `snow::TransportState::write_message` returns and writes: the session as
/// it stands, with its key and its count of messages, the payload and the
/// room decide it.
pub uninterp spec fn transport_seals(
    session: snow::TransportState,
    plain: Seq<u8>,
    room: nat,
) -> Option<Seq<u8>>;

/// The peer's static key as a transport session holds it, if it holds one.
/// It is what `snow::TransportState::get_remote_static` returns.
pub uninterp spec fn transport_remote_static(session: snow::TransportState) -> Option<Seq<u8>>;

/// The payload that a handshake session takes out of `message` when it has
/// `room` bytes to write it to, if it accepts the message. It is what
/// `snow::HandshakeState::read_message` returns and writes: the session as
/// it stands, the message and the room decide it.
pub uninterp spec fn handshake_opens(
    session: snow::HandshakeState,
    message: Seq<u8>,
    room: nat,
) -> Option<Seq<u8>>;

/// The length of the message that a handshake session makes of `payload`
/// when it has `room` bytes to write it to, if it makes one. It is the number
/// that `snow::HandshakeState::write_message` returns. The message itself has
/// no name: it may hold a key that the session draws at random.
pub uninterp spec fn handshake_seals(
    session: snow::HandshakeState,
    payload: Seq<u8>,
    room: nat,
) -> Option<nat>;

/// The peer's static key as a handshake session holds it, if it has learnt
/// it. It is what `snow::HandshakeState::get_remote_static` returns.
pub uninterp spec fn handshake_remote_static(session: snow::HandshakeState) -> Option<Seq<u8>>;

/// Whether a handshake session has read and written every message of its
/// pattern. It is whether `snow::HandshakeState::into_transport_mode`
/// succeeds.
pub uninterp spec fn handshake_complete(session: snow::HandshakeState) -> bool;

/// `snow::TransportState::read_message` opens the Noise message `payload`
/// and writes its plaintext to the front of `message`. It refuses a message
/// of more than 65535 bytes, one too short to hold a tag, and one whose
/// plaintext `message` has no room for. Assumed: whether it succeeds, and
/// the plaintext that it writes, are `transport_opens` of the session as it
/// stood; the number it returns on success is the plaintext's length, which
/// is the length of `payload` less the 16 bytes of the tag. The lengths are
/// those of the ciphers that snow ships; a session built on a cipher of the
/// caller's own making is not covered.
pub assume_specification[ snow::TransportState::read_message ](
    session: &mut snow::TransportState,
    payload: &[u8],
    message: &mut [u8],
) -> (r: Result<usize, snow::Error>)
    ensures
        final(message)@.len() == old(message)@.len(),
        r matches Ok(n) ==> opened_len(true, payload@.len(), old(message)@.len(), n as nat),
        transport_opens(*old(session), payload@, old(message)@.len()) == match r {
            Ok(n) => Some(final(message)@.take(n as int)),
            Err(_) => None,
        },
;

/// `snow::TransportState::write_message` seals `payload` and writes the Noise
/// message to the front of `message`. It refuses a payload that with its tag
/// would exceed 65535 bytes or the room in `message`. Assumed: whether it
/// succeeds, and the message that it writes, are `transport_seals` of the
/// session as it stood; the number it returns on success is the message's
/// length, which is the length of `payload` and the 16 bytes of the tag. The
/// lengths are those of the ciphers that snow ships.
pub assume_specification[ snow::TransportState::write_message ](
    session: &mut snow::TransportState,
    payload: &[u8],
    message: &mut [u8],
) -> (r: Result<usize, snow::Error>)
    ensures
        final(message)@.len() == old(message)@.len(),
        r matches Ok(n) ==> sealed_len(true, payload@.len(), old(message)@.len(), n as nat),
        transport_seals(*old(session), payload@, old(message)@.len()) == match r {
            Ok(n) => Some(final(message)@.take(n as int)),
            Err(_) => None,
        },
;

/// `snow::TransportState::get_remote_static` hands out the peer's static
/// public key where the session holds one. Assumed: what it hands out is
/// `transport_remote_static` of the session; a key has at most 56 bytes, the
/// size of the array it is stored in.
pub assume_specification[ snow::TransportState::get_remote_static ](
    session: &snow::TransportState,
) -> (r: Option<&[u8]>)
    ensures
        r matches Some(key) ==> key@.len() <= MAX_KEY_LEN,
        transport_remote_static(*session) == match r {
            Some(key) => Some(key@),
            None => None,
        },
;

/// `snow::HandshakeState::read_message` reads the handshake message `message`
/// and writes its payload to the front of `payload`. It refuses a message of
/// more than 65535 bytes, and one whose payload `payload` has no room for.
/// Assumed: whether it succeeds, and the payload that it writes, are
/// `handshake_opens` of the session as it stood; the number it returns on
/// success is the payload's length, which is the length of what is left of
/// `message` behind the keys, less a tag if the payload was sealed; so it is
/// at most the length of `message`. The lengths are those of the ciphers that
/// snow ships.
pub assume_specification[ snow::HandshakeState::read_message ](
    session: &mut snow::HandshakeState,
    message: &[u8],
    payload: &mut [u8],
) -> (r: Result<usize, snow::Error>)
    ensures
        final(payload)@.len() == old(payload)@.len(),
        r matches Ok(n) ==> opened_len(false, message@.len(), old(payload)@.len(), n as nat),
        handshake_opens(*old(session), message@, old(payload)@.len()) == match r {
            Ok(n) => Some(final(payload)@.take(n as int)),
            Err(_) => None,
        },
;

/// `snow::HandshakeState::write_message` writes the next handshake message,
/// with `payload` in it, to the front of `message`. It tests the room in
/// `message` before it writes, but for the tag behind a sealed public key:
/// the demand for 128 bytes keeps that write inside `message`. It refuses a
/// payload that `message` has no room for with a tag, and a message of more
/// than 65535 bytes. Assumed: whether it succeeds, and the number it returns
/// on success, are `handshake_seals` of the session as it stood; that number
/// is the message's length. The message is what the pattern puts in front, at
/// most one ephemeral key and one static key with its tag, each key of at
/// most 56 bytes, and then the payload, with a tag if it was sealed. Of the
/// message's bytes nothing is assumed: a key in it may be fresh from the
/// session's source of random numbers, which has no part in whether the
/// message is made or in its length. The lengths are those of the ciphers and
/// the key agreement that snow ships.
pub assume_specification[ snow::HandshakeState::write_message ](
    session: &mut snow::HandshakeState,
    payload: &[u8],
    message: &mut [u8],
) -> (r: Result<usize, snow::Error>)
    requires
        old(message)@.len() >= MIN_HANDSHAKE_ROOM,
    ensures
        final(message)@.len() == old(message)@.len(),
        r matches Ok(n) ==> sealed_len(false, payload@.len(), old(message)@.len(), n as nat),
        handshake_seals(*old(session), payload@, old(message)@.len()) == match r {
            Ok(n) => Some(n as nat),
            Err(_) => None,
        },
;

/// `snow::HandshakeState::get_remote_static` hands out the peer's static
/// public key where the session has learnt it. Assumed: what it hands out is
/// `handshake_remote_static` of the session; a key has at most 56 bytes, the
/// size of the array it is stored in.
pub assume_specification[ snow::HandshakeState::get_remote_static ](
    session: &snow::HandshakeState,
) -> (r: Option<&[u8]>)
    ensures
        r matches Some(key) ==> key@.len() <= MAX_KEY_LEN,
        handshake_remote_static(*session) == match r {
            Some(key) => Some(key@),
            None => None,
        },
;

/// `snow::HandshakeState::into_transport_mode` turns a session whose
/// handshake is complete into a transport session, and fails on any other.
/// Assumed: it succeeds where the session is `handshake_complete`, and
/// nowhere else.
pub assume_specification[ snow::HandshakeState::into_transport_mode ](
    session: snow::HandshakeState,
) -> (r: Result<snow::TransportState, snow::Error>)
    ensures
        r is Ok <==> handshake_complete(session),
;

/// A passthrough enum for the two kinds of state machines in `snow`
pub enum SnowState {
    /// A session whose handshake is over.
    Transport(snow::TransportState),
    /// A session that is still shaking hands.
    Handshake(snow::HandshakeState),
}

/// Why a session could not be taken to transport mode.
pub enum ModeError {
    /// The session was in transport mode already.
    HandshakeAlreadyFinished,
    /// The session refused.
    Session(snow::Error),
}

impl SnowState {
    /// The peer's static key as the session holds it, if it holds one.
    pub open spec fn remote_static(self) -> Option<Seq<u8>> {
        match self {
            SnowState::Transport(session) => transport_remote_static(session),
            SnowState::Handshake(session) => handshake_remote_static(session),
        }
    }

    /// The plaintext that the session takes out of `message` when it has
    /// `room` bytes to write it to, if it opens the message.
    pub open spec fn opens(self, message: Seq<u8>, room: nat) -> Option<Seq<u8>> {
        match self {
            SnowState::Transport(session) => transport_opens(session, message, room),
            SnowState::Handshake(session) => handshake_opens(session, message, room),
        }
    }

    /// The length of the message that the session makes of `payload` when it
    /// has `room` bytes to write it to, if it makes one.
    pub open spec fn seals(self, payload: Seq<u8>, room: nat) -> Option<nat> {
        match self {
            SnowState::Transport(session) => match transport_seals(session, payload, room) {
                Some(message) => Some(message.len()),
                None => None,
            },
            SnowState::Handshake(session) => handshake_seals(session, payload, room),
        }
    }

    /// Whether `message` is what the session makes of `payload` when it has
    /// `room` bytes to write it to. A transport session makes one message of
    /// a payload, and no other. Of a handshake session the length is told,
    /// and no more: its message may hold a key drawn at random.
    pub open spec fn makes(self, payload: Seq<u8>, room: nat, message: Seq<u8>) -> bool {
        &&& self.seals(payload, room) == Some(message.len())
        &&& self matches SnowState::Transport(session) ==> transport_seals(session, payload, room)
            == Some(message)
    }

    /// Whether the session can be taken to transport mode: it is shaking
    /// hands, and has read and written every message of its pattern.
    pub open spec fn complete(self) -> bool {
        match self {
            SnowState::Transport(_) => false,
            SnowState::Handshake(session) => handshake_complete(session),
        }
    }

    /// Opens the Noise message `message` and writes its plaintext to the
    /// front of `payload`. Whether the session opens the message, and what
    /// plaintext it writes, is the session's own answer, `opens`. On success
    /// the result is the plaintext's length, as `opened_len` has it for the
    /// session's mode. The mode stays as it is either way.
    pub fn read_message(&mut self, message: &[u8], payload: &mut [u8]) -> (r: Result<
        usize,
        snow::Error,
    >)
        ensures
            final(payload)@.len() == old(payload)@.len(),
            old(self).opens(message@, old(payload)@.len()) == match r {
                Ok(n) => Some(final(payload)@.take(n as int)),
                Err(_) => None,
            },
            r matches Ok(n) ==> opened_len(
                *old(self) is Transport,
                message@.len(),
                old(payload)@.len(),
                n as nat,
            ),
            (*final(self) is Transport) == (*old(self) is Transport),
    {
        match self {
            SnowState::Handshake(session) => session.read_message(message, payload),
            SnowState::Transport(session) => session.read_message(message, payload),
        }
    }

    /// Seals `payload` into a Noise message and writes it to the front of
    /// `message`. Whether the session makes a message, and how long it is, is
    /// the session's own answer, `seals`; in transport mode so is the message
    /// itself, as `makes` has it. On success the result is the message's
    /// length, as `sealed_len` has it for the session's mode. The mode stays
    /// as it is either way.
    pub fn write_message(&mut self, payload: &[u8], message: &mut [u8]) -> (r: Result<
        usize,
        snow::Error,
    >)
        requires
            *old(self) is Handshake ==> old(message)@.len() >= MIN_HANDSHAKE_ROOM,
        ensures
            final(message)@.len() == old(message)@.len(),
            old(self).seals(payload@, old(message)@.len()) == match r {
                Ok(n) => Some(n as nat),
                Err(_) => None,
            },
            r matches Ok(n) ==> old(self).makes(
                payload@,
                old(message)@.len(),
                final(message)@.take(n as int),
            ),
            r matches Ok(n) ==> sealed_len(
                *old(self) is Transport,
                payload@.len(),
                old(message)@.len(),
                n as nat,
            ),
            (*final(self) is Transport) == (*old(self) is Transport),
    {
        match self {
            SnowState::Handshake(session) => session.write_message(payload, message),
            SnowState::Transport(session) => session.write_message(payload, message),
        }
    }

    /// The peer's static public key, where the session holds one: the
    /// session's own answer, `remote_static`.
    pub fn get_remote_static(&self) -> (r: Option<&[u8]>)
        ensures
            r matches Some(key) ==> key@.len() <= MAX_KEY_LEN,
            self.remote_static() == match r {
                Some(key) => Some(key@),
                None => None,
            },
    {
        match self {
            SnowState::Handshake(session) => session.get_remote_static(),
            SnowState::Transport(session) => session.get_remote_static(),
        }
    }

    /// Takes a handshake session to transport mode. It succeeds where the
    /// session is `complete`, and nowhere else. A session that is in
    /// transport mode already is refused by the library; a handshake session
    /// that is not complete is refused by the session itself.
    pub fn into_transport_mode(self) -> (r: Result<snow::TransportState, ModeError>)
        ensures
            r is Ok <==> self.complete(),
            r matches Err(e) ==> (e is HandshakeAlreadyFinished <==> self is Transport),
    {
        match self {
            SnowState::Handshake(session) => match session.into_transport_mode() {
                Ok(transport) => Ok(transport),
                Err(e) => Err(ModeError::Session(e)),
            },
            SnowState::Transport(_) => Err(ModeError::HandshakeAlreadyFinished),
        }
    }

    /// Whether the session is in transport mode.
    pub fn is_transport(&self) -> (b: bool)
        ensures
            b == (self is Transport),
    {
        match self {
            SnowState::Handshake(_) => false,
            SnowState::Transport(_) => true,
        }
    }
}

} // verus!
