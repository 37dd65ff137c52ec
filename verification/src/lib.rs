//! Core logic of a browser terminal multiplexer: a bounded scrollback ring,
//! a display-aware trimmer, the binary cast-event format, and the state
//! machines that drive the recorder, the PTY fan-out, the per-client session
//! and the log sidecar. All I/O is left to the caller; every function here
//! maps plain values to plain values and carries a verified contract.

pub mod bytes;
pub mod cast;
pub mod caster;
pub mod codec;
pub mod config;
pub mod error;
pub mod frame;
pub mod glyph;
pub mod pty;
pub mod registry;
pub mod ring;
pub mod session;
pub mod sidecar;
pub mod trim;
pub mod varint;

pub use cast::{decode_cast, decode_evt, encode_evt, EventKind, RawEvt};
pub use caster::Caster;
pub use config::{default_layout, default_theme, AppConfig, ChangeKind, ConfigWatcher};
pub use error::AppError;
pub use frame::Frame;
pub use pty::{PtyManager, ReadOutcome, ReaderStep};
pub use registry::Tailers;
pub use ring::RingBytes;
pub use session::{Action, ClientMsg, Planned, SttySize};
pub use sidecar::{ClientCmd, CmdStep, HeartbeatBucket, PollError, Tailer};
pub use trim::buf_trim;
