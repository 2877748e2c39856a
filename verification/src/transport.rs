//! The transport layer: burst history, deadline policy, finalization.
//!
//! The transport owns the redundancy across the up-to-three bursts of
//! one transmission cycle. Every accepted burst restarts a completion
//! deadline; once the deadline has elapsed — or carrier loss has made
//! further bursts impossible — the cycle is finalized: the bursts are
//! reconciled into one consensus payload, the payload is handed to the
//! caller's message decoder, and the verdict is reported exactly once
//! before the history resets for the next cycle. A cycle that never
//! received a burst stays idle indefinitely.
//!
//! Decode failure is not retried: a finalized cycle's result is final,
//! and only a future transmission cycle can do better.

use vstd::prelude::*;

use crate::consensus::consensus;
use crate::consensus::is_consensus;
use crate::consensus::payloads;
use crate::message::MessageResult;
use crate::output::TransportState;

verus! {

/// How long after the last burst the transport waits for another, on
/// the caller's clock: the expected maximum inter-burst gap.
pub const HOLD_OFF: u64 = 2000;

/// How many bursts one transmission cycle may hold; later bursts of
/// the same cycle are ignored as anomalies.
pub const MAX_BURSTS: usize = 3;

/// One repetition of a SAME transmission's payload, tagged with the
/// time it was delimited.
///
/// A burst is created by the framer when a burst-start marker is
/// detected and handed to the transport once the burst ends; the
/// transport consumes it in the consensus step.
#[derive(Clone, Debug, PartialEq, Eq, Hash)]
pub struct Burst {
    /// The raw payload bytes, marker sequences excluded.
    pub bytes: Vec<u8>,
    /// When the burst arrived, on the caller's clock.
    pub arrival: u64,
}

/// Assembles the bursts of one transmission cycle into a verdict.
pub struct Transport {
    history: Vec<Burst>,
    deadline: Option<u64>,
    force: bool,
}

impl Transport {
    /// The bursts collected for the current cycle, in arrival order.
    pub closed spec fn hist(&self) -> Seq<Burst> {
        self.history@
    }

    /// The pending completion deadline, if a burst has been accepted.
    pub closed spec fn deadline_at(&self) -> Option<u64> {
        self.deadline
    }

    /// Whether carrier loss has asked for finalization at the next
    /// deadline check, without waiting for the deadline itself.
    pub closed spec fn forced(&self) -> bool {
        self.force
    }

    /// The history never outgrows the burst maximum, and an empty
    /// history has nothing pending: no deadline and no forced
    /// finalization.
    pub open spec fn wf(&self) -> bool {
        &&& self.hist().len() <= MAX_BURSTS
        &&& (self.hist().len() == 0 ==> self.deadline_at() is None && !self.forced())
    }

    /// Whether a deadline check at time `now` would consider the wait
    /// over: the deadline has elapsed, or carrier loss forced it.
    pub open spec fn deadline_elapsed(&self, now: u64) -> bool {
        self.forced() || match self.deadline_at() {
            Some(d) => now >= d,
            None => false,
        }
    }

    /// Whether a tick at time `now` finalizes the cycle: at least one
    /// burst is held and the wait is over.
    pub open spec fn will_finalize(&self, now: u64) -> bool {
        self.hist().len() > 0 && self.deadline_elapsed(now)
    }

    /// A transport holding no bursts never finalizes: a deadline check
    /// from `Idle` is a no-op, whatever the clock says — there is no
    /// spontaneous timeout from an empty cycle.
    pub proof fn lemma_idle_never_finalizes(self, now: u64)
        requires
            self.wf(),
            self.hist().len() == 0,
        ensures
            !self.will_finalize(now),
    {
    }

    /// A fresh transport: idle, nothing pending.
    pub fn new() -> (t: Transport)
        ensures
            t.wf(),
            t.hist().len() == 0,
            t.deadline_at() is None,
            !t.forced(),
    {
        Transport { history: Vec::new(), deadline: None, force: false }
    }

    /// The assembler's state: `Idle` with no bursts, `Assembling`
    /// otherwise. A `Message` is only ever returned by [`Self::tick`],
    /// never stored: reporting it resets the cycle at once.
    pub fn state(&self) -> (s: TransportState)
        ensures
            self.hist().len() == 0 ==> s == TransportState::Idle,
            self.hist().len() > 0 ==> s == TransportState::Assembling,
    {
        if self.history.len() == 0 {
            TransportState::Idle
        } else {
            TransportState::Assembling
        }
    }

    /// Accept one completed burst, delimited at time `arrival`.
    ///
    /// The burst joins the cycle's history unless the history is
    /// already full, in which case it is ignored as an anomaly. Either
    /// way the completion deadline restarts at `arrival` plus the
    /// hold-off, and a forced finalization from an earlier carrier
    /// loss is cancelled: the transmission is evidently still going.
    ///
    /// Bursts must arrive in time order: an arrival earlier than the
    /// previous burst's is a contract violation, not an input to
    /// absorb.
    pub fn accept_burst(&mut self, bytes: Vec<u8>, arrival: u64)
        requires
            old(self).wf(),
            arrival + HOLD_OFF <= u64::MAX,
            match old(self).deadline_at() {
                Some(d) => d <= arrival + HOLD_OFF,
                None => true,
            },
        ensures
            final(self).wf(),
            old(self).hist().len() < MAX_BURSTS ==> final(self).hist() == old(self).hist().push(
                (Burst { bytes, arrival }),
            ),
            old(self).hist().len() >= MAX_BURSTS ==> final(self).hist() == old(self).hist(),
            final(self).deadline_at() == Some((arrival + HOLD_OFF) as u64),
            !final(self).forced(),
    {
        if self.history.len() < MAX_BURSTS {
            self.history.push(Burst { bytes, arrival });
        }
        self.deadline = Some(arrival + HOLD_OFF);
        self.force = false;
    }

    /// Note that the carrier has been lost.
    ///
    /// Bursts already accepted stay eligible — a genuine dropout is
    /// also how a final burst's end is often signalled — but the next
    /// deadline check finalizes at once rather than waiting out the
    /// hold-off.
    pub fn carrier_lost(&mut self)
        requires
            old(self).wf(),
        ensures
            final(self).wf(),
            final(self).hist() == old(self).hist(),
            final(self).deadline_at() == old(self).deadline_at(),
            final(self).forced() == (old(self).forced() || old(self).hist().len() > 0),
    {
        if self.history.len() > 0 {
            self.force = true;
        }
    }

    /// Run a deadline check at time `now`, finalizing the cycle if the
    /// wait is over.
    ///
    /// On finalization the bursts are reconciled into their consensus
    /// payload, the payload goes to the caller's message decoder
    /// `decode`, and the verdict is returned as `Message(..)` exactly
    /// once: the history, the deadline and any forced finalization are
    /// reset so the next cycle starts idle. Otherwise nothing changes
    /// and the current state is returned — in particular, a tick with
    /// no bursts held is a no-op that reports `Idle`.
    pub fn tick<F: Fn(Vec<u8>) -> MessageResult>(&mut self, now: u64, decode: F) -> (r:
        TransportState)
        requires
            old(self).wf(),
            forall|v: Vec<u8>| call_requires(decode, (v,)),
        ensures
            final(self).wf(),
            !old(self).will_finalize(now) ==> {
                &&& final(self).hist() == old(self).hist()
                &&& final(self).deadline_at() == old(self).deadline_at()
                &&& final(self).forced() == old(self).forced()
                &&& (old(self).hist().len() == 0 ==> r == TransportState::Idle)
                &&& (old(self).hist().len() > 0 ==> r == TransportState::Assembling)
            },
            old(self).will_finalize(now) ==> {
                &&& final(self).hist().len() == 0
                &&& final(self).deadline_at() is None
                &&& !final(self).forced()
                &&& match r {
                    TransportState::Message(res) => exists|p: Vec<u8>|
                        is_consensus(payloads(old(self).hist()), p@) && #[trigger] call_ensures(
                            decode,
                            (p,),
                            res,
                        ),
                    _ => false,
                }
            },
    {
        let fire = self.history.len() > 0 && (self.force || match self.deadline {
            Some(d) => now >= d,
            None => false,
        });
        if fire {
            let payload = consensus(&self.history);
            let ghost chosen = payload;
            let res = decode(payload);
            self.history = Vec::new();
            self.deadline = None;
            self.force = false;
            proof {
                assert(is_consensus(payloads(old(self).hist()), chosen@) && call_ensures(
                    decode,
                    (chosen,),
                    res,
                ));
            }
            TransportState::Message(res)
        } else {
            if self.history.len() == 0 {
                TransportState::Idle
            } else {
                TransportState::Assembling
            }
        }
    }
}

} // verus!
