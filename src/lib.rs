//! Typed message exchange between processes over a local duplex byte stream.
//!
//! The library holds the logic of the exchange: the length-prefixed framing of
//! messages, the non-blocking poll cycle that always hands the transport back
//! in blocking mode, the log of events, and the naming of endpoints. The
//! transport and the payload codec are the caller's: they hand the library
//! bytes and outcomes, and take bytes and actions back.
pub mod event;
pub mod frame;
pub mod naming;
pub mod poll;

pub use event::{Event, EventHandler, EventKind};
pub use frame::{encode_frame, FrameError, FrameReader, ReadStep};
pub use naming::{choose_addressing, socket_name, Addressing};
pub use poll::{PollAction, PollInput, Poller, Probe};
