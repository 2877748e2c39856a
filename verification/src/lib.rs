//! Decoder core for Specific Area Message Encoding (SAME) broadcasts.
//!
//! A demodulator recovers a synchronized byte stream from the radio
//! signal; this crate turns that stream into validated alert messages.
//! SAME transmissions repeat one payload in up to three back-to-back
//! "bursts" for redundancy. The [`Framer`] finds burst boundaries in
//! the byte stream; the [`Transport`] collects the bursts of one
//! transmission cycle, reconciles their differences by bit-level
//! majority voting, and decides — by a deadline measured from the last
//! burst — when a final verdict can be reported. A [`Receiver`] wires
//! the two together and surfaces every reported state change as a
//! [`FrameOut`] event.
//!
//! Parsing the message fields themselves is outside this crate: the
//! caller supplies the message decoder as a plain function from
//! payload bytes to a [`MessageResult`], and the verdict of each cycle
//! carries whatever that decoder returned.

pub mod consensus;
pub mod framer;
pub mod message;
pub mod output;
pub mod receiver;
pub mod transport;

pub use framer::Framer;
pub use framer::FramerState;
pub use message::Message;
pub use message::MessageDecodeErr;
pub use message::MessageResult;
pub use output::FrameOut;
pub use output::TransportState;
pub use receiver::Receiver;
pub use transport::Burst;
pub use transport::Transport;
