//! Noise protocol I/O: a byte stream carried in length-prefixed Noise
//! messages.
//!
//! `NoiseOutput` holds a Noise session, one fixed buffer and two engines. The
//! write engine batches the caller's bytes, has the session seal each batch
//! and frames what comes back; the read engine takes frames apart, has the
//! session open each and hands the plaintext out. Neither touches the
//! transport: a poll says what the transport must do, and the driver hands
//! back what the transport answered. So every step, and every interleaving of
//! steps with waits and short reads and writes, is a plain function call.
//!
//! `wire` states the format; `model` states what the engines do, with the
//! record of all that has passed through them; `laws` states what follows for
//! every run.

pub mod buffer;
pub mod codec;
pub mod laws;
pub mod model;
pub mod output;
pub mod read;
pub mod session;
pub mod state;
pub mod wire;
pub mod write;

pub use output::NoiseOutput;
pub use session::SnowState;
