//! The event surface: one framer and one transport, wired together.
//!
//! A [`Receiver`] owns a framer/transport pair for one channel and
//! delivers their state changes to the client as one ordered sequence
//! of [`FrameOut`] events, in the exact order the triggering inputs
//! were processed. Completed bursts flow from the framer into the
//! transport with the current time as their arrival tag; carrier loss
//! finalizes any pending cycle at once — the dropout marks the
//! transmission's end — so the cycle's verdict precedes the
//! `NoCarrier` event. Decoding a finalized payload is done by the
//! caller-supplied message decoder handed to the calls that can
//! conclude a cycle.
//!
//! Each receiver is an independent, single-threaded state machine:
//! decoding several channels concurrently takes one receiver each,
//! with no shared state between them.

use vstd::prelude::*;

use crate::consensus::is_consensus;
use crate::consensus::lemma_payloads_push;
use crate::consensus::payloads;
use crate::framer::spec_carrier;
use crate::framer::spec_input;
use crate::framer::state_event;
use crate::framer::Framer;
use crate::framer::FramerState;
use crate::message::MessageResult;
use crate::output::FrameOut;
use crate::output::TransportState;
use crate::transport::Burst;
use crate::transport::Transport;
use crate::transport::HOLD_OFF;
use crate::transport::MAX_BURSTS;

verus! {

/// Decodes one channel: delimits bursts, assembles cycles, reports
/// every state change as an event.
pub struct Receiver {
    framer: Framer,
    transport: Transport,
}

impl Receiver {
    /// The framer half.
    pub closed spec fn fr(&self) -> Framer {
        self.framer
    }

    /// The transport half.
    pub closed spec fn tr(&self) -> Transport {
        self.transport
    }

    /// Both halves keep their own invariants, and the transport's
    /// deadline never runs ahead of the framer's clock: it was set
    /// from an arrival the framer has already seen.
    pub open spec fn wf(&self) -> bool {
        &&& self.fr().wf()
        &&& self.tr().wf()
        &&& match self.tr().deadline_at() {
            Some(d) => d <= self.fr()@.last_byte + HOLD_OFF,
            None => true,
        }
    }

    /// A fresh receiver: no carrier, no bursts, nothing pending.
    pub fn new() -> (r: Receiver)
        ensures
            r.wf(),
            r.fr()@.state is NoCarrier,
            r.tr().hist().len() == 0,
            r.tr().deadline_at() is None,
            !r.tr().forced(),
    {
        Receiver { framer: Framer::new(), transport: Transport::new() }
    }

    /// The framer's current state, as the status event reporting it.
    ///
    /// `frame_out().is_active()` answers whether the receiver wants
    /// data or must see the carrier again first.
    pub fn frame_out(&self) -> (r: FrameOut)
        ensures
            r == state_event(self.fr()@.state),
    {
        self.framer.frame_out()
    }

    /// The transport's current state.
    pub fn transport_state(&self) -> (s: TransportState)
        ensures
            self.tr().hist().len() == 0 ==> s == TransportState::Idle,
            self.tr().hist().len() > 0 ==> s == TransportState::Assembling,
    {
        self.transport.state()
    }

    /// Feed one received byte at time `now`.
    ///
    /// The framer consumes the byte; a burst it completes joins the
    /// transport's history with `now` as its arrival time, restarting
    /// the completion deadline. The returned event reports the state
    /// change, if one is reported for this input. Bytes must arrive in
    /// time order.
    pub fn push_byte(&mut self, byte: u8, now: u64) -> (ev: Option<FrameOut>)
        requires
            old(self).wf(),
            !(old(self).fr()@.state is NoCarrier) ==> old(self).fr()@.last_byte <= now,
            now + HOLD_OFF <= u64::MAX,
        ensures
            final(self).wf(),
            final(self).fr()@ == spec_input(old(self).fr()@, byte, now).0,
            ev == spec_input(old(self).fr()@, byte, now).1,
            match spec_input(old(self).fr()@, byte, now).2 {
                Some(pl) => {
                    &&& old(self).tr().hist().len() < MAX_BURSTS ==> {
                        &&& payloads(final(self).tr().hist()) == payloads(
                            old(self).tr().hist(),
                        ).push(pl)
                        &&& final(self).tr().hist().len() == old(self).tr().hist().len() + 1
                        &&& final(self).tr().hist().last().arrival == now
                    }
                    &&& old(self).tr().hist().len() >= MAX_BURSTS ==> final(self).tr().hist()
                        == old(self).tr().hist()
                    &&& final(self).tr().deadline_at() == Some((now + HOLD_OFF) as u64)
                    &&& !final(self).tr().forced()
                },
                None => {
                    &&& final(self).tr().hist() == old(self).tr().hist()
                    &&& final(self).tr().deadline_at() == old(self).tr().deadline_at()
                    &&& final(self).tr().forced() == old(self).tr().forced()
                },
            },
    {
        let r = self.framer.input(byte, now);
        match r.1 {
            Some(burst) => {
                let ghost bvec = burst;
                proof {
                    if old(self).tr().hist().len() < MAX_BURSTS {
                        lemma_payloads_push(
                            old(self).tr().hist(),
                            (Burst { bytes: bvec, arrival: now }),
                        );
                    }
                }
                self.transport.accept_burst(burst, now);
            },
            None => {},
        }
        r.0
    }

    /// Report a carrier edge at time `now`.
    ///
    /// A rising carrier starts the search for a burst prefix. A lost
    /// carrier abandons any in-progress burst unforwarded and, if the
    /// transport holds bursts, finalizes that cycle at once — the
    /// dropout marks the transmission's end — handing the consensus
    /// payload to `decode`. The returned events report the state
    /// changes in order; the cycle's verdict, when there is one,
    /// precedes the `NoCarrier` event.
    pub fn set_carrier<F: Fn(Vec<u8>) -> MessageResult>(
        &mut self,
        present: bool,
        now: u64,
        decode: F,
    ) -> (evs: Vec<FrameOut>)
        requires
            old(self).wf(),
            (present && old(self).fr()@.state is NoCarrier) ==> old(self).fr()@.last_byte <= now,
            forall|v: Vec<u8>| call_requires(decode, (v,)),
        ensures
            final(self).wf(),
            final(self).fr()@ == spec_carrier(old(self).fr()@, present, now).0,
            (present || old(self).fr()@.state is NoCarrier) ==> {
                &&& final(self).tr().hist() == old(self).tr().hist()
                &&& final(self).tr().deadline_at() == old(self).tr().deadline_at()
                &&& final(self).tr().forced() == old(self).tr().forced()
                &&& evs@ == match spec_carrier(old(self).fr()@, present, now).1 {
                    Some(e) => seq![e],
                    None => Seq::<FrameOut>::empty(),
                }
            },
            (!present && !(old(self).fr()@.state is NoCarrier) && old(self).tr().hist().len() == 0)
                ==> {
                &&& final(self).tr().hist() == old(self).tr().hist()
                &&& final(self).tr().deadline_at() == old(self).tr().deadline_at()
                &&& final(self).tr().forced() == old(self).tr().forced()
                &&& evs@ == seq![FrameOut::NoCarrier]
            },
            (!present && !(old(self).fr()@.state is NoCarrier) && old(self).tr().hist().len() > 0)
                ==> {
                &&& final(self).tr().hist().len() == 0
                &&& final(self).tr().deadline_at() is None
                &&& !final(self).tr().forced()
                &&& evs@.len() == 2
                &&& evs@[1] == FrameOut::NoCarrier
                &&& match evs@[0] {
                    FrameOut::Ready(res) => exists|p: Vec<u8>|
                        is_consensus(payloads(old(self).tr().hist()), p@) && #[trigger] call_ensures(
                            decode,
                            (p,),
                            res,
                        ),
                    _ => false,
                }
            },
    {
        let active = match self.framer.state() {
            FramerState::NoCarrier => false,
            _ => true,
        };
        let mut evs: Vec<FrameOut> = Vec::new();
        if !present && active {
            self.transport.carrier_lost();
            let ts = self.transport.tick(now, decode);
            match ts {
                TransportState::Message(res) => {
                    evs.push(FrameOut::Ready(res));
                },
                _ => {},
            }
            let fev = self.framer.carrier(false, now);
            match fev {
                Some(e) => {
                    evs.push(e);
                },
                None => {},
            }
            proof {
                if old(self).tr().hist().len() == 0 {
                    assert(evs@ =~= seq![FrameOut::NoCarrier]);
                }
            }
        } else {
            let fev = self.framer.carrier(present, now);
            match fev {
                Some(e) => {
                    evs.push(e);
                },
                None => {},
            }
            proof {
                match spec_carrier(old(self).fr()@, present, now).1 {
                    Some(e) => {
                        assert(evs@ =~= seq![e]);
                    },
                    None => {
                        assert(evs@ =~= Seq::<FrameOut>::empty());
                    },
                }
            }
        }
        evs
    }

    /// Run a deadline check at time `now`.
    ///
    /// If the transport holds bursts and the wait for more is over,
    /// the cycle is finalized: the consensus payload goes to `decode`
    /// and the verdict comes back as a single `Ready` event. A tick
    /// with nothing pending is a no-op that returns no event.
    pub fn tick<F: Fn(Vec<u8>) -> MessageResult>(&mut self, now: u64, decode: F) -> (ev: Option<
        FrameOut,
    >)
        requires
            old(self).wf(),
            forall|v: Vec<u8>| call_requires(decode, (v,)),
        ensures
            final(self).wf(),
            final(self).fr() == old(self).fr(),
            !old(self).tr().will_finalize(now) ==> {
                &&& final(self).tr().hist() == old(self).tr().hist()
                &&& final(self).tr().deadline_at() == old(self).tr().deadline_at()
                &&& final(self).tr().forced() == old(self).tr().forced()
                &&& ev is None
            },
            old(self).tr().will_finalize(now) ==> {
                &&& final(self).tr().hist().len() == 0
                &&& final(self).tr().deadline_at() is None
                &&& !final(self).tr().forced()
                &&& match ev {
                    Some(FrameOut::Ready(res)) => exists|p: Vec<u8>|
                        is_consensus(payloads(old(self).tr().hist()), p@) && #[trigger] call_ensures(
                            decode,
                            (p,),
                            res,
                        ),
                    _ => false,
                }
            },
    {
        let ts = self.transport.tick(now, decode);
        match ts {
            TransportState::Message(res) => Some(FrameOut::Ready(res)),
            _ => None,
        }
    }
}

} // verus!
