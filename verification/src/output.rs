//! Receiver status events: the only way state is observed from outside.
//!
//! The receiver decodes data in three basic steps:
//!
//! 1. Synchronization: the demodulator estimates the bit and byte
//!    alignment of the incoming signal.
//! 2. Burst decoding: SAME transmissions are repeated up to three
//!    times; each "burst" is delimited individually by the framer.
//! 3. Message framing: the bursts are assembled into a single message,
//!    which receives basic validity checks before being emitted.
//!
//! [`FrameOut`] reports changes in the framing state to the caller,
//! one event per reported state change, in the order their triggering
//! inputs were processed. [`TransportState`] reports the burst
//! assembler's progress within one transmission cycle.

use vstd::prelude::*;

use crate::message::MessageResult;

verus! {

/// SAME receiver status, reported as an ordered event stream.
#[derive(Debug, PartialEq, Eq, Hash)]
pub enum FrameOut {
    /// No signal detected.
    NoCarrier,

    /// Searching for a burst prefix.
    ///
    /// The framer is synchronized to the byte boundaries and is
    /// looking for a message prefix like "`ZCZC`."
    Searching,

    /// Now reading a burst.
    ///
    /// A SAME burst has been detected and its payload bytes are being
    /// collected.
    Reading,

    /// A transmission cycle has concluded.
    ///
    /// The transport attempted to frame a complete message from the
    /// cycle's bursts. It succeeded if the value is `Ok`. An error
    /// means only that decoding failed *for the moment*: a future
    /// transmission cycle may yield a useful message.
    Ready(MessageResult),
}

impl FrameOut {
    /// Whether this status means the framer wants data: true exactly
    /// in `Searching` and `Reading`.
    pub open spec fn spec_is_active(&self) -> bool {
        self is Searching || self is Reading
    }

    /// True if the framer wants data.
    ///
    /// Returns `true` if the framer is either searching for a burst
    /// prefix or reading burst data. When this value is `false`, the
    /// framer needs to be restarted before it will do anything.
    pub fn is_active(&self) -> (r: bool)
        ensures
            r == self.spec_is_active(),
    {
        match self {
            FrameOut::Searching => true,
            FrameOut::Reading => true,
            _ => false,
        }
    }

    /// A short human-readable label for this status.
    pub fn as_str(&self) -> (r: &'static str)
        ensures
            self is NoCarrier ==> r@ == "no carrier"@,
            self is Searching ==> r@ == "searching"@,
            self is Reading ==> r@ == "reading"@,
            self is Ready ==> r@ == "message ready"@,
    {
        match self {
            FrameOut::NoCarrier => "no carrier",
            FrameOut::Searching => "searching",
            FrameOut::Reading => "reading",
            FrameOut::Ready(_) => "message ready",
        }
    }
}

/// SAME transport-layer status.
///
/// A message may be built from one, two, or three repetitions of
/// (hopefully) identical bursts. Each burst is passed to the transport
/// layer, which waits for a hold-off period after the last burst
/// before it commits to a verdict.
#[derive(Debug, PartialEq, Eq, Hash)]
pub enum TransportState {
    /// The assembler holds no bursts.
    Idle,

    /// The assembler is building a message.
    ///
    /// One or more bursts are stored in the history, and the assembler
    /// is still within the window where another may arrive.
    Assembling,

    /// A fully assembled message — or a decode error — is ready.
    Message(MessageResult),
}

} // verus!
