//! The decoder's control loop, one decision at a time.
//!
//! Pulling a packet, decoding it and sleeping are the caller's work. Between
//! them the caller asks [`DecoderSession::advance`] what to do next and reports
//! each packet with [`DecoderSession::deliver`]. The session moves decoded
//! samples into the ring buffer in order, backs off while the ring is full and
//! ends on a stop request, on the end of the stream or on a fatal error.

use vstd::prelude::*;
use crate::ring::{RingBuffer, RingModel};

verus! {

/// Where a decode session stands. A session exists only once its source has
/// been opened, so it starts out streaming; the other three phases are final.
#[derive(Clone, Copy, PartialEq, Eq, Structural, Debug)]
pub enum DecoderPhase {
    /// Packets are pulled, decoded and handed to the ring buffer.
    Streaming,
    /// The source had no further packet.
    EndOfStream,
    /// The source failed in a way that ends the track.
    Error,
    /// A stop request was seen.
    Stopped,
}

/// What one attempt to pull and decode a packet gave.
pub enum PacketOutcome {
    /// A block of interleaved samples.
    Decoded(Vec<u32>),
    /// The packet could not be decoded and is dropped; the stream goes on.
    Skipped,
    /// The source has no further packet.
    EndOfStream,
    /// The source failed for good.
    Failed,
}

/// [`PacketOutcome`] with its block as a sequence.
pub enum PacketEvent {
    Decoded(Seq<u32>),
    Skipped,
    EndOfStream,
    Failed,
}

impl View for PacketOutcome {
    type V = PacketEvent;

    open spec fn view(&self) -> PacketEvent {
        match *self {
            PacketOutcome::Decoded(block) => PacketEvent::Decoded(block@),
            PacketOutcome::Skipped => PacketEvent::Skipped,
            PacketOutcome::EndOfStream => PacketEvent::EndOfStream,
            PacketOutcome::Failed => PacketEvent::Failed,
        }
    }
}

/// What the caller of a session does next.
#[derive(Clone, Copy, PartialEq, Eq, Structural, Debug)]
pub enum DecoderAction {
    /// Pull and decode the next packet, then `deliver` the outcome.
    NextPacket,
    /// The ring buffer is full: sleep for this many microseconds, then
    /// `advance` again.
    Backoff(u64),
    /// The session is over: leave the loop.
    Exit,
}

/// A decode session as its contracts see it.
pub struct DecoderModel {
    pub phase: DecoderPhase,
    /// Decoded samples that have not reached the ring buffer yet, in order.
    pub unsent: Seq<u32>,
    /// Whether the last attempt to push found the ring buffer full.
    pub waiting: bool,
    /// The time to sleep on a full ring buffer, in microseconds.
    pub backoff: u64,
}

/// How many of `unsent` a ring takes before it is full.
pub open spec fn fits(ring: RingModel, unsent: Seq<u32>) -> nat {
    let free = ring.capacity - ring.items.len();
    if free <= 0 {
        0
    } else if unsent.len() <= free {
        unsent.len()
    } else {
        free as nat
    }
}

impl DecoderModel {
    pub open spec fn fresh(backoff: u64) -> DecoderModel {
        DecoderModel {
            phase: DecoderPhase::Streaming,
            unsent: Seq::empty(),
            waiting: false,
            backoff,
        }
    }

    pub open spec fn finished(self) -> bool {
        self.phase != DecoderPhase::Streaming
    }

    /// Whether the session has nothing left to push and is still streaming:
    /// only then does it take a packet.
    pub open spec fn awaiting_packet(self) -> bool {
        !self.finished() && self.unsent.len() == 0
    }

    pub open spec fn stopped(self) -> DecoderModel {
        DecoderModel { phase: DecoderPhase::Stopped, ..self }
    }

    /// The session after a packet was reported. A report that the session did
    /// not ask for is ignored.
    pub open spec fn deliver(self, event: PacketEvent) -> DecoderModel {
        if !self.awaiting_packet() {
            self
        } else {
            match event {
                PacketEvent::Decoded(block) => DecoderModel {
                    unsent: block,
                    waiting: false,
                    ..self
                },
                PacketEvent::Skipped => self,
                PacketEvent::EndOfStream => DecoderModel {
                    phase: DecoderPhase::EndOfStream,
                    ..self
                },
                PacketEvent::Failed => DecoderModel { phase: DecoderPhase::Error, ..self },
            }
        }
    }

    /// One decision of the loop: the session and the ring afterwards, and what
    /// the caller does next.
    ///
    /// A finished session exits. A session that slept on a full ring exits if
    /// a stop is requested. Otherwise as many unsent samples as fit go to the
    /// ring; if some are left the caller backs off, else the session exits on
    /// a stop request or asks for the next packet.
    pub open spec fn step(self, stop: bool, ring: RingModel) -> (
        DecoderModel,
        RingModel,
        DecoderAction,
    ) {
        if self.finished() {
            (self, ring, DecoderAction::Exit)
        } else if self.unsent.len() > 0 && self.waiting && stop {
            (self.stopped(), ring, DecoderAction::Exit)
        } else {
            let count = fits(ring, self.unsent) as int;
            let filled = RingModel {
                items: ring.items + self.unsent.take(count),
                capacity: ring.capacity,
            };
            let rest = self.unsent.skip(count);
            if rest.len() > 0 {
                (
                    DecoderModel { unsent: rest, waiting: true, ..self },
                    filled,
                    DecoderAction::Backoff(self.backoff),
                )
            } else if stop {
                (
                    DecoderModel {
                        phase: DecoderPhase::Stopped,
                        unsent: rest,
                        waiting: false,
                        ..self
                    },
                    filled,
                    DecoderAction::Exit,
                )
            } else {
                (
                    DecoderModel { unsent: rest, waiting: false, ..self },
                    filled,
                    DecoderAction::NextPacket,
                )
            }
        }
    }
}

/// The state of one decode session.
pub struct DecoderSession {
    phase: DecoderPhase,
    pending: Vec<u32>,
    cursor: usize,
    waiting: bool,
    backoff: u64,
}

impl View for DecoderSession {
    type V = DecoderModel;

    closed spec fn view(&self) -> DecoderModel {
        DecoderModel {
            phase: self.phase,
            unsent: self.pending@.skip(self.cursor as int),
            waiting: self.waiting,
            backoff: self.backoff,
        }
    }
}

impl DecoderSession {
    #[verifier::type_invariant]
    spec fn inv(self) -> bool {
        self.cursor <= self.pending@.len()
    }

    /// A session that streams, holds no samples and backs off for
    /// `backoff_micros` microseconds on a full ring buffer.
    pub fn new(backoff_micros: u64) -> (session: DecoderSession)
        ensures
            session@ == DecoderModel::fresh(backoff_micros),
    {
        let session = DecoderSession {
            phase: DecoderPhase::Streaming,
            pending: Vec::new(),
            cursor: 0,
            waiting: false,
            backoff: backoff_micros,
        };
        assert(session.pending@.skip(0) =~= Seq::<u32>::empty());
        session
    }

    pub fn phase(&self) -> (phase: DecoderPhase)
        ensures
            phase == self@.phase,
    {
        self.phase
    }

    /// Whether the session is over.
    pub fn is_finished(&self) -> (b: bool)
        ensures
            b == self@.finished(),
    {
        match self.phase {
            DecoderPhase::Streaming => false,
            _ => true,
        }
    }

    /// The number of decoded samples that wait for room in the ring buffer.
    pub fn unsent_len(&self) -> (n: usize)
        ensures
            n == self@.unsent.len(),
    {
        proof {
            use_type_invariant(self);
        }
        self.pending.len() - self.cursor
    }

    pub fn backoff_micros(&self) -> (micros: u64)
        ensures
            micros == self@.backoff,
    {
        self.backoff
    }

    /// Reports what pulling and decoding a packet gave.
    pub fn deliver(&mut self, outcome: PacketOutcome)
        ensures
            final(self)@ == old(self)@.deliver(outcome@),
    {
        proof {
            use_type_invariant(&*self);
        }
        if self.is_finished() || self.cursor < self.pending.len() {
            return ;
        }
        match outcome {
            PacketOutcome::Decoded(block) => {
                self.cursor = 0;
                self.pending = block;
                self.waiting = false;
                assert(self.pending@.skip(0) =~= block@);
            },
            PacketOutcome::Skipped => {},
            PacketOutcome::EndOfStream => {
                self.phase = DecoderPhase::EndOfStream;
            },
            PacketOutcome::Failed => {
                self.phase = DecoderPhase::Error;
            },
        }
    }

    /// Takes one decision of the loop. `stop_signal` is the stop request as
    /// the caller read it just before the call.
    pub fn advance(&mut self, stop_signal: bool, ring: &mut RingBuffer) -> (action: DecoderAction)
        ensures
            (final(self)@, final(ring)@, action) == old(self)@.step(stop_signal, old(ring)@),
    {
        proof {
            use_type_invariant(&*self);
        }
        if self.is_finished() {
            return DecoderAction::Exit;
        }
        let total = self.pending.len();
        if self.cursor < total && self.waiting && stop_signal {
            self.phase = DecoderPhase::Stopped;
            return DecoderAction::Exit;
        }
        let ghost before = self@;
        let ghost ring_before = ring@;
        let start = self.cursor;
        let mut next = start;
        let mut full = false;
        while next < total && !full
            invariant
                start <= next <= total,
                total == self.pending@.len(),
                ring@.capacity == ring_before.capacity,
                next > start || full ==> ring@.wf(),
                ring@.items == ring_before.items + self.pending@.subrange(
                    start as int,
                    next as int,
                ),
                full ==> ring@.is_full(),
            decreases total - next + (if full { 0int } else { 1int }),
        {
            let sample = self.pending[next];
            match ring.push(sample) {
                Ok(()) => {
                    assert(self.pending@.subrange(start as int, next as int).push(sample)
                        =~= self.pending@.subrange(start as int, next + 1));
                    next = next + 1;
                },
                Err(_) => {
                    full = true;
                },
            }
        }
        proof {
            let count = fits(ring_before, before.unsent) as int;
            assert(before.unsent.len() == total - start);
            assert(ring@.items.len() == ring_before.items.len() + (next - start));
            assert(count == next - start);
            assert(before.unsent.take(count) =~= self.pending@.subrange(
                start as int,
                next as int,
            ));
            assert(before.unsent.skip(count) =~= self.pending@.skip(next as int));
        }
        if next < total {
            self.cursor = next;
            self.waiting = true;
            DecoderAction::Backoff(self.backoff)
        } else {
            self.cursor = next;
            self.waiting = false;
            if stop_signal {
                self.phase = DecoderPhase::Stopped;
                DecoderAction::Exit
            } else {
                DecoderAction::NextPacket
            }
        }
    }
}

/// A step that does not end the session loses no sample, repeats none and
/// keeps their order: the ring's contents followed by the unsent samples are
/// the same sequence before and after. The ring stays within its capacity.
pub proof fn lemma_step_conserves(session: DecoderModel, stop: bool, ring: RingModel)
    requires
        ring.wf(),
    ensures
        ({
            let (after, filled, action) = session.step(stop, ring);
            &&& filled.wf()
            &&& filled.capacity == ring.capacity
            &&& ring.items.is_prefix_of(filled.items)
            &&& filled.items + after.unsent == ring.items + session.unsent
            &&& after.backoff == session.backoff
        }),
{
    let (after, filled, action) = session.step(stop, ring);
    let count = fits(ring, session.unsent) as int;
    assert(session.unsent.take(count) + session.unsent.skip(count) =~= session.unsent);
    assert(filled.items + after.unsent =~= ring.items + session.unsent);
}

/// A stop request ends the session within two decisions, whatever the ring
/// holds: the first may still find room for samples and ask for a back-off,
/// the second exits. A finished session stays finished.
pub proof fn lemma_stop_is_prompt(session: DecoderModel, ring: RingModel)
    ensures
        ({
            let (first, filled, action) = session.step(true, ring);
            let (second, refilled, last) = first.step(true, filled);
            &&& action != DecoderAction::NextPacket
            &&& action == DecoderAction::Exit ==> first.finished()
            &&& last == DecoderAction::Exit
            &&& second.finished()
            &&& session.finished() ==> first == session && filled == ring
        }),
{
}

/// A backed-off session resumes where it stopped: once the ring has room
/// again and no stop is requested, the next decision pushes the oldest unsent
/// sample first.
pub proof fn lemma_backoff_resumes_in_order(session: DecoderModel, ring: RingModel)
    requires
        ring.wf(),
        !session.finished(),
        session.unsent.len() > 0,
        !ring.is_full(),
    ensures
        session.step(false, ring).1.items.len() > ring.items.len(),
        session.step(false, ring).1.items[ring.items.len() as int] == session.unsent[0],
{
}

} // verus!
