//! The decoded message and the decode-error classification.
//!
//! Field-level parsing (originator, event code, area codes, …) is the
//! message decoder's business, and the decoder is supplied by the
//! caller. This module only fixes the shapes that travel through the
//! core: a [`Message`] carrying the validated message text, and the
//! [`MessageDecodeErr`] taxonomy for payloads that did not parse.

use vstd::prelude::*;

verus! {

/// A fully decoded SAME message, ready for presentation.
///
/// The core never inspects the inside of a message; it is created by
/// the caller's message decoder and handed through unchanged.
#[derive(Clone, Debug, PartialEq, Eq, Hash)]
pub struct Message {
    text: Vec<u8>,
}

impl View for Message {
    type V = Seq<u8>;

    closed spec fn view(&self) -> Seq<u8> {
        self.text@
    }
}

impl Message {
    /// Wrap decoded message text.
    pub fn new(text: Vec<u8>) -> (m: Message)
        ensures
            m@ == text@,
    {
        Message { text }
    }

    /// The message text, as raw bytes.
    pub fn as_bytes(&self) -> (r: &Vec<u8>)
        ensures
            r@ == self@,
    {
        &self.text
    }
}

/// Why a burst payload failed to decode into a [`Message`].
///
/// A decode failure is routine on a noisy channel: it condemns only
/// the current transmission cycle, and a later cycle may succeed.
#[derive(Clone, Copy, Debug, PartialEq, Eq, Hash)]
pub enum MessageDecodeErr {
    /// The payload does not begin with a recognized message prefix.
    UnrecognizedPrefix,
    /// The payload is too short to hold a complete message.
    TooShort,
    /// A mandatory field is malformed.
    Malformed,
}

/// The verdict of one transmission cycle: a decoded message, or the
/// reason decoding failed.
pub type MessageResult = Result<Message, MessageDecodeErr>;

} // verus!
