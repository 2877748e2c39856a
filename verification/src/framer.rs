//! The framer: delimits bursts inside the demodulator's byte stream.
//!
//! The framer consumes one received byte at a time, together with a
//! carrier-present signal. From `NoCarrier` it moves to `Searching`
//! when the carrier appears; from `Searching` to `Reading` when the
//! last received bytes spell the burst-start prefix; and from
//! `Reading` back to `Searching` when a burst-end condition fires —
//! the terminating marker, the maximum payload length, or a gap
//! between bytes longer than the inter-byte timeout. On burst end the
//! accumulated payload (marker sequences excluded) is handed out so
//! the transport can take it; re-arming for the next burst of the same
//! transmission is not reported as an event. Carrier loss from any
//! state abandons an in-progress burst without forwarding it.

use vstd::prelude::*;

use crate::output::FrameOut;

verus! {

/// The longest payload a single burst may carry; a burst reaching it
/// is forwarded truncated.
pub const MAX_PAYLOAD: usize = 268;

/// The longest tolerated gap between two bytes of one burst, on the
/// caller's clock. A larger gap ends the burst at the earlier byte.
pub const INTER_BYTE_TIMEOUT: u64 = 100;

/// The burst-start prefix: the bytes of `"ZCZC"`.
pub open spec fn start_prefix() -> Seq<u8> {
    seq![0x5au8, 0x43u8, 0x5au8, 0x43u8]
}

/// The burst-end marker: the bytes of `"NNNN"`.
pub open spec fn end_marker() -> Seq<u8> {
    seq![0x4eu8, 0x4eu8, 0x4eu8, 0x4eu8]
}

/// The framer's state: where in a burst the byte stream stands.
#[derive(Clone, Copy, Debug, PartialEq, Eq, Hash, Structural)]
pub enum FramerState {
    /// No signal; the framer must see the carrier before it reads.
    NoCarrier,
    /// Synchronized and looking for the burst-start prefix.
    Searching,
    /// Inside a burst, collecting payload bytes.
    Reading,
}

/// The status event that reports a framer state.
pub open spec fn state_event(s: FramerState) -> FrameOut {
    match s {
        FramerState::NoCarrier => FrameOut::NoCarrier,
        FramerState::Searching => FrameOut::Searching,
        FramerState::Reading => FrameOut::Reading,
    }
}

/// The status reported for a framer state is active exactly when that
/// state is `Searching` or `Reading`: `is_active` answers whether the
/// framer wants data, and in every other state it must be restarted
/// first.
pub proof fn lemma_active_iff_wants_data(s: FramerState)
    ensures
        state_event(s).spec_is_active() <==> (s is Searching || s is Reading),
{
}

/// The mathematical value of a [`Framer`].
#[verifier::ext_equal]
pub struct FramerView {
    /// The current state.
    pub state: FramerState,
    /// The last bytes seen while searching, at most the prefix length.
    pub window: Seq<u8>,
    /// The payload collected so far while reading.
    pub buffer: Seq<u8>,
    /// When the last byte (or the carrier) arrived.
    pub last_byte: u64,
}

/// The sliding prefix window after one more byte: the previous window
/// extended by the byte, trimmed to the prefix length.
pub open spec fn push_window(w: Seq<u8>, byte: u8) -> Seq<u8> {
    if w.len() < 4 {
        w.push(byte)
    } else {
        w.drop_first().push(byte)
    }
}

/// What one byte does to the framer: the state afterwards, the event
/// reported, and the completed burst payload handed out, if any.
pub open spec fn spec_input(pre: FramerView, byte: u8, now: u64) -> (FramerView, Option<
    FrameOut,
>, Option<Seq<u8>>) {
    if pre.state is NoCarrier {
        // Without carrier the framer ignores data until restarted.
        (pre, None, None)
    } else if pre.state is Searching {
        let w = push_window(pre.window, byte);
        if w == start_prefix() {
            (
                FramerView {
                    state: FramerState::Reading,
                    window: Seq::empty(),
                    buffer: Seq::empty(),
                    last_byte: now,
                },
                Some(FrameOut::Reading),
                None,
            )
        } else {
            (FramerView { window: w, last_byte: now, ..pre }, None, None)
        }
    } else if now > pre.last_byte + INTER_BYTE_TIMEOUT {
        // The gap ended the burst at the previous byte; this byte is
        // already part of the search for the next prefix.
        (
            FramerView {
                state: FramerState::Searching,
                window: seq![byte],
                buffer: Seq::empty(),
                last_byte: now,
            },
            None,
            Some(pre.buffer),
        )
    } else {
        let buf = pre.buffer.push(byte);
        if buf.len() >= 4 && buf.skip(buf.len() - 4) == end_marker() {
            (
                FramerView {
                    state: FramerState::Searching,
                    window: Seq::empty(),
                    buffer: Seq::empty(),
                    last_byte: now,
                },
                None,
                Some(buf.take(buf.len() - 4)),
            )
        } else if buf.len() >= MAX_PAYLOAD {
            (
                FramerView {
                    state: FramerState::Searching,
                    window: Seq::empty(),
                    buffer: Seq::empty(),
                    last_byte: now,
                },
                None,
                Some(buf),
            )
        } else {
            (FramerView { buffer: buf, last_byte: now, ..pre }, None, None)
        }
    }
}

/// What a carrier edge does to the framer: the state afterwards and
/// the event reported.
pub open spec fn spec_carrier(pre: FramerView, present: bool, now: u64) -> (FramerView, Option<
    FrameOut,
>) {
    if present {
        if pre.state is NoCarrier {
            (
                FramerView {
                    state: FramerState::Searching,
                    window: Seq::empty(),
                    buffer: Seq::empty(),
                    last_byte: now,
                },
                Some(FrameOut::Searching),
            )
        } else {
            (pre, None)
        }
    } else {
        if pre.state is NoCarrier {
            (pre, None)
        } else {
            (
                FramerView {
                    state: FramerState::NoCarrier,
                    window: Seq::empty(),
                    buffer: Seq::empty(),
                    last_byte: pre.last_byte,
                },
                Some(FrameOut::NoCarrier),
            )
        }
    }
}

/// Finds burst boundaries inside a continuous byte stream.
pub struct Framer {
    state: FramerState,
    window: Vec<u8>,
    buffer: Vec<u8>,
    last_byte: u64,
}

impl View for Framer {
    type V = FramerView;

    closed spec fn view(&self) -> FramerView {
        FramerView {
            state: self.state,
            window: self.window@,
            buffer: self.buffer@,
            last_byte: self.last_byte,
        }
    }
}

impl Framer {
    /// The framer's internal bookkeeping stays within its bounds:
    /// the window never outgrows the prefix, a stored payload never
    /// reaches the maximum (it would have been forwarded), and each
    /// state clears the scratch space it does not use.
    pub open spec fn wf(&self) -> bool {
        &&& self@.window.len() <= 4
        &&& self@.buffer.len() < MAX_PAYLOAD
        &&& (self@.state is Searching ==> self@.buffer.len() == 0)
        &&& (self@.state is Reading ==> self@.window.len() == 0)
        &&& (self@.state is NoCarrier ==> self@.buffer.len() == 0 && self@.window.len() == 0)
    }

    /// Carrier loss from any well-formed state immediately yields
    /// `NoCarrier` and discards any in-progress burst — the transition
    /// forwards nothing, and the prefix search starts over.
    pub proof fn lemma_carrier_loss_discards(self, now: u64)
        requires
            self.wf(),
        ensures
            spec_carrier(self@, false, now).0.state is NoCarrier,
            spec_carrier(self@, false, now).0.buffer.len() == 0,
            spec_carrier(self@, false, now).0.window.len() == 0,
    {
    }

    /// A fresh framer: no carrier seen yet.
    pub fn new() -> (f: Framer)
        ensures
            f.wf(),
            f@.state is NoCarrier,
            f@.window.len() == 0,
            f@.buffer.len() == 0,
            f@.last_byte == 0,
    {
        Framer { state: FramerState::NoCarrier, window: Vec::new(), buffer: Vec::new(), last_byte: 0 }
    }

    /// The current state.
    pub fn state(&self) -> (s: FramerState)
        ensures
            s == self@.state,
    {
        self.state
    }

    /// The current state, as the status event that reports it.
    pub fn frame_out(&self) -> (r: FrameOut)
        ensures
            r == state_event(self@.state),
    {
        match self.state {
            FramerState::NoCarrier => FrameOut::NoCarrier,
            FramerState::Searching => FrameOut::Searching,
            FramerState::Reading => FrameOut::Reading,
        }
    }

    /// Report a carrier edge.
    ///
    /// A rising carrier starts the search for a burst prefix; a lost
    /// carrier forces `NoCarrier`, abandoning (not forwarding) any
    /// in-progress burst. The returned event reports the state
    /// change, if there was one.
    pub fn carrier(&mut self, present: bool, now: u64) -> (ev: Option<FrameOut>)
        requires
            old(self).wf(),
        ensures
            final(self).wf(),
            final(self)@ == spec_carrier(old(self)@, present, now).0,
            ev == spec_carrier(old(self)@, present, now).1,
    {
        if present {
            match self.state {
                FramerState::NoCarrier => {
                    self.state = FramerState::Searching;
                    self.window.clear();
                    self.buffer.clear();
                    self.last_byte = now;
                    proof {
                        assert(self@ =~= spec_carrier(old(self)@, present, now).0);
                    }
                    Some(FrameOut::Searching)
                },
                _ => None,
            }
        } else {
            match self.state {
                FramerState::NoCarrier => None,
                _ => {
                    self.state = FramerState::NoCarrier;
                    self.window.clear();
                    self.buffer.clear();
                    proof {
                        assert(self@ =~= spec_carrier(old(self)@, present, now).0);
                    }
                    Some(FrameOut::NoCarrier)
                },
            }
        }
    }

    /// Force the framer back to `NoCarrier`, as an external restart.
    ///
    /// Equivalent to reporting a lost carrier, except that no event is
    /// returned: the caller asked for the state, so it is not news.
    pub fn reset(&mut self)
        requires
            old(self).wf(),
        ensures
            final(self).wf(),
            final(self)@ == spec_carrier(old(self)@, false, 0).0,
    {
        self.state = FramerState::NoCarrier;
        self.window.clear();
        self.buffer.clear();
        proof {
            assert(self@ =~= spec_carrier(old(self)@, false, 0).0);
        }
    }

    /// Consume one received byte at time `now`.
    ///
    /// Returns the reported event, if any, and the completed burst
    /// payload to forward to the transport, if this byte ended one.
    /// Bytes must arrive in time order.
    pub fn input(&mut self, byte: u8, now: u64) -> (r: (Option<FrameOut>, Option<Vec<u8>>))
        requires
            old(self).wf(),
            !(old(self)@.state is NoCarrier) ==> old(self)@.last_byte <= now,
        ensures
            final(self).wf(),
            final(self)@ == spec_input(old(self)@, byte, now).0,
            r.0 == spec_input(old(self)@, byte, now).1,
            (match (r.1, spec_input(old(self)@, byte, now).2) {
                (Some(v), Some(s)) => v@ == s,
                (None, None) => true,
                _ => false,
            }),
    {
        match self.state {
            FramerState::NoCarrier => (None, None),
            FramerState::Searching => {
                if self.window.len() >= 4 {
                    self.window.remove(0);
                }
                self.window.push(byte);
                self.last_byte = now;
                proof {
                    assert(self@.window =~= push_window(old(self)@.window, byte));
                }
                let hit = self.window.len() == 4 && self.window[0] == 0x5au8 && self.window[1]
                    == 0x43u8 && self.window[2] == 0x5au8 && self.window[3] == 0x43u8;
                proof {
                    if hit {
                        assert(self@.window =~= start_prefix());
                    } else {
                        assert(self@.window != start_prefix());
                    }
                }
                if hit {
                    self.state = FramerState::Reading;
                    self.window.clear();
                    proof {
                        assert(self@ =~= spec_input(old(self)@, byte, now).0);
                    }
                    (Some(FrameOut::Reading), None)
                } else {
                    proof {
                        assert(self@ =~= spec_input(old(self)@, byte, now).0);
                    }
                    (None, None)
                }
            },
            FramerState::Reading => {
                if now - self.last_byte > INTER_BYTE_TIMEOUT {
                    let mut burst: Vec<u8> = Vec::new();
                    core::mem::swap(&mut burst, &mut self.buffer);
                    self.state = FramerState::Searching;
                    self.window.push(byte);
                    self.last_byte = now;
                    proof {
                        assert(self@.window =~= seq![byte]);
                        assert(self@ =~= spec_input(old(self)@, byte, now).0);
                    }
                    (None, Some(burst))
                } else {
                    self.buffer.push(byte);
                    self.last_byte = now;
                    let n = self.buffer.len();
                    let ends = n >= 4 && self.buffer[n - 4] == 0x4eu8 && self.buffer[n - 3] == 0x4eu8
                        && self.buffer[n - 2] == 0x4eu8 && self.buffer[n - 1] == 0x4eu8;
                    proof {
                        let buf = old(self)@.buffer.push(byte);
                        if ends {
                            assert(buf.skip(buf.len() - 4) =~= end_marker());
                        } else if buf.len() >= 4 {
                            assert(buf.skip(buf.len() - 4) != end_marker());
                        }
                    }
                    if ends {
                        self.state = FramerState::Searching;
                        let mut burst: Vec<u8> = Vec::new();
                        core::mem::swap(&mut burst, &mut self.buffer);
                        burst.truncate(n - 4);
                        proof {
                            let buf = old(self)@.buffer.push(byte);
                            assert(burst@ =~= buf.take(buf.len() - 4));
                            assert(self@ =~= spec_input(old(self)@, byte, now).0);
                        }
                        (None, Some(burst))
                    } else if n >= MAX_PAYLOAD {
                        self.state = FramerState::Searching;
                        let mut burst: Vec<u8> = Vec::new();
                        core::mem::swap(&mut burst, &mut self.buffer);
                        proof {
                            assert(self@ =~= spec_input(old(self)@, byte, now).0);
                        }
                        (None, Some(burst))
                    } else {
                        proof {
                            assert(self@ =~= spec_input(old(self)@, byte, now).0);
                        }
                        (None, None)
                    }
                }
            },
        }
    }
}

} // verus!
