//! The outbox and the relay fan-out.
//!
//! `RelayPool` owns the configured relay addresses and a mailbox of
//! not-yet-delivered events. Producers append to the mailbox; a drain takes
//! the whole mailbox atomically, so events enqueued while a drain cycle runs
//! land in the next cycle. A `DrainCycle` walks the taken batch in enqueue
//! order and, per event, the relays in configured order; every pair is
//! attempted exactly once, whatever the outcome of earlier attempts.
//!
//! The network exchange itself (connect, send the frame, await one reply)
//! is left to the caller, who reports each attempt's outcome back into the
//! cycle.

use vstd::prelude::*;
use vstd::string::StringExecFns;

use crate::encoding::dec_chars;
use crate::encoding::json_string_chars;
use crate::encoding::append_dec_u64;
use crate::encoding::append_json_string;
use crate::nostr::Event;
use crate::nostr::tags_chars;
use crate::nostr::append_tags;

verus! {

/// The JSON object for an event on the wire, keys in the documented order,
/// no whitespace.
pub open spec fn event_json_chars(e: Event) -> Seq<char> {
    "{\"id\":"@ + json_string_chars(e.id@) + ",\"pubkey\":"@ + json_string_chars(e.pubkey@)
        + ",\"created_at\":"@ + dec_chars(e.created_at as nat) + ",\"kind\":"@ + dec_chars(
        e.kind as nat,
    ) + ",\"tags\":"@ + tags_chars(e.tags.deep_view()) + ",\"content\":"@ + json_string_chars(
        e.content@,
    ) + ",\"sig\":"@ + json_string_chars(e.sig@) + "}"@
}

/// The single text frame sent to a relay to publish an event.
pub open spec fn event_frame_chars(e: Event) -> Seq<char> {
    "[\"EVENT\","@ + event_json_chars(e) + "]"@
}

/// Serializes an event as its wire JSON object.
pub fn event_json(e: &Event) -> (r: String)
    ensures
        r@ == event_json_chars(*e),
{
    let mut out = String::new();
    out.append("{\"id\":");
    append_json_string(&mut out, e.id.as_str());
    out.append(",\"pubkey\":");
    append_json_string(&mut out, e.pubkey.as_str());
    out.append(",\"created_at\":");
    append_dec_u64(&mut out, e.created_at);
    out.append(",\"kind\":");
    append_dec_u64(&mut out, e.kind as u64);
    out.append(",\"tags\":");
    append_tags(&mut out, &e.tags);
    out.append(",\"content\":");
    append_json_string(&mut out, e.content.as_str());
    out.append(",\"sig\":");
    append_json_string(&mut out, e.sig.as_str());
    out.append("}");
    proof {
        assert(out@ =~= event_json_chars(*e));
    }
    out
}

/// Builds the publish frame `["EVENT",<event object>]` for an event.
pub fn event_frame(e: &Event) -> (r: String)
    ensures
        r@ == event_frame_chars(*e),
{
    let mut out = String::new();
    out.append("[\"EVENT\",");
    let body = event_json(e);
    out.append(body.as_str());
    out.append("]");
    proof {
        assert(out@ =~= event_frame_chars(*e));
    }
    out
}

/// The recorded result of one publish attempt to one relay.
#[derive(Debug, Clone)]
pub enum PublishOutcome {
    /// The relay acknowledged the event as accepted, or sent a frame that
    /// is not an acknowledgment.
    Delivered,
    /// The relay acknowledged the event and refused it, with its reason.
    Rejected(String),
    /// The connection could not be made, or closed or timed out before an
    /// acknowledgment arrived.
    ConnectFailed,
}

/// The configured relay addresses and the outbox of undelivered events.
pub struct RelayPool {
    relays: Vec<String>,
    outbox: Vec<Event>,
}

/// One drain cycle: the batch taken from the outbox, walked in enqueue
/// order, each event fanned out to every relay in configured order.
pub struct DrainCycle {
    batch: Vec<Event>,
    relays: Vec<String>,
    next_event: usize,
    next_relay: usize,
    outcomes: Vec<PublishOutcome>,
}

impl RelayPool {
    /// The configured relay addresses.
    pub closed spec fn spec_relays(&self) -> Seq<Seq<char>> {
        self.relays.deep_view()
    }

    /// The queued, not yet drained events, in enqueue order.
    pub closed spec fn spec_outbox(&self) -> Seq<Event> {
        self.outbox@
    }

    /// A pool over the given relay addresses, with an empty outbox.
    pub fn new(relay_urls: Vec<String>) -> (r: RelayPool)
        ensures
            r.spec_relays() == relay_urls.deep_view(),
            r.spec_outbox() == Seq::<Event>::empty(),
    {
        RelayPool { relays: relay_urls, outbox: Vec::new() }
    }

    /// Appends an event at the tail of the outbox. Never fails, touches no
    /// network.
    pub fn add_to_outbox(&mut self, event: Event)
        ensures
            final(self).spec_outbox() == old(self).spec_outbox().push(event),
            final(self).spec_relays() == old(self).spec_relays(),
    {
        self.outbox.push(event);
    }

    /// Atomically takes the whole current outbox as a drain cycle's batch
    /// and clears it: events enqueued from here on belong to the next
    /// cycle, never to the returned one.
    pub fn start_drain(&mut self) -> (c: DrainCycle)
        ensures
            final(self).spec_outbox() == Seq::<Event>::empty(),
            final(self).spec_relays() == old(self).spec_relays(),
            c.wf(),
            c.spec_batch() == old(self).spec_outbox(),
            c.spec_relays() == old(self).spec_relays(),
            c.spec_outcomes() == Seq::<PublishOutcome>::empty(),
            c.spec_next_event() == 0,
            c.spec_next_relay() == 0,
    {
        let mut batch: Vec<Event> = Vec::new();
        core::mem::swap(&mut batch, &mut self.outbox);
        let relays = self.relays.clone();
        proof {
            assert forall|i: int| 0 <= i < self.relays@.len() implies relays@[i]
                == self.relays@[i] by {}
            assert(relays@ =~= self.relays@);
        }
        DrainCycle { batch, relays, next_event: 0, next_relay: 0, outcomes: Vec::new() }
    }
}

impl DrainCycle {
    /// The batch taken at the start of the cycle, in enqueue order.
    pub closed spec fn spec_batch(&self) -> Seq<Event> {
        self.batch@
    }

    /// The relay addresses the cycle fans out to, in configured order.
    pub closed spec fn spec_relays(&self) -> Seq<Seq<char>> {
        self.relays.deep_view()
    }

    /// The outcomes recorded so far, one per finished attempt, in attempt
    /// order.
    pub closed spec fn spec_outcomes(&self) -> Seq<PublishOutcome> {
        self.outcomes@
    }

    /// Index of the event of the current attempt.
    pub closed spec fn spec_next_event(&self) -> int {
        self.next_event as int
    }

    /// Index of the relay of the current attempt.
    pub closed spec fn spec_next_relay(&self) -> int {
        self.next_relay as int
    }

    /// The cycle's bookkeeping is consistent: the position walks the batch
    /// row by row, and exactly one outcome stands recorded per attempt
    /// already finished.
    pub open spec fn wf(&self) -> bool {
        &&& self.spec_next_event() <= self.spec_batch().len()
        &&& (self.spec_next_relay() < self.spec_relays().len() || self.spec_next_relay() == 0)
        &&& (self.spec_relays().len() == 0 ==> self.spec_next_event() == 0
            && self.spec_next_relay() == 0)
        &&& (self.spec_next_event() == self.spec_batch().len() ==> self.spec_next_relay() == 0)
        &&& self.spec_outcomes().len() == self.spec_next_event() * self.spec_relays().len()
            + self.spec_next_relay()
    }

    /// Every attempt has been made: the batch is walked, or there is no
    /// relay to fan out to.
    pub open spec fn complete(&self) -> bool {
        self.spec_next_event() == self.spec_batch().len() || self.spec_relays().len() == 0
    }

    /// Whether every attempt of the cycle has been made.
    pub fn is_done(&self) -> (r: bool)
        ensures
            r == self.complete(),
    {
        self.next_event == self.batch.len() || self.relays.len() == 0
    }

    /// The current attempt: the relay address to contact and the frame to
    /// send it, or `None` when the cycle is complete.
    pub fn current_attempt(&self) -> (r: Option<(String, String)>)
        requires
            self.wf(),
        ensures
            match r {
                Some(attempt) => !self.complete() && attempt.0@ == self.spec_relays()[
                    self.spec_next_relay()
                ] && attempt.1@ == event_frame_chars(
                    self.spec_batch()[self.spec_next_event()],
                ),
                None => self.complete(),
            },
    {
        if self.next_event == self.batch.len() || self.relays.len() == 0 {
            None
        } else {
            let url = self.relays[self.next_relay].clone();
            let frame = event_frame(&self.batch[self.next_event]);
            Some((url, frame))
        }
    }

    /// Records the outcome of the current attempt, whatever it is, and
    /// moves to the next attempt: the next relay for the same event, then
    /// the first relay of the next event. No outcome stops the walk.
    pub fn record_outcome(&mut self, outcome: PublishOutcome)
        requires
            old(self).wf(),
            !old(self).complete(),
        ensures
            final(self).wf(),
            final(self).spec_batch() == old(self).spec_batch(),
            final(self).spec_relays() == old(self).spec_relays(),
            final(self).spec_outcomes() == old(self).spec_outcomes().push(outcome),
            if old(self).spec_next_relay() + 1 < old(self).spec_relays().len() {
                final(self).spec_next_event() == old(self).spec_next_event()
                    && final(self).spec_next_relay() == old(self).spec_next_relay() + 1
            } else {
                final(self).spec_next_event() == old(self).spec_next_event() + 1
                    && final(self).spec_next_relay() == 0
            },
    {
        self.outcomes.push(outcome);
        let relay_count = self.relays.len();
        let batch_len = self.batch.len();
        proof {
            assert(self.next_relay < relay_count);
            assert(self.next_event < batch_len);
        }
        if self.next_relay + 1 < relay_count {
            self.next_relay = self.next_relay + 1;
        } else {
            proof {
                let e = self.next_event as int;
                let r = self.relays@.len() as int;
                assert((e + 1) * r == e * r + r) by (nonlinear_arith);
            }
            self.next_relay = 0;
            self.next_event = self.next_event + 1;
        }
    }

    /// Hands out the recorded outcomes, consuming the cycle.
    pub fn into_outcomes(self) -> (r: Vec<PublishOutcome>)
        ensures
            r@ == self.spec_outcomes(),
    {
        self.outcomes
    }

    /// How many attempts have been recorded so far.
    pub fn outcome_count(&self) -> (r: usize)
        ensures
            r == self.spec_outcomes().len(),
    {
        self.outcomes.len()
    }
}

/// A complete cycle has recorded exactly one outcome for every pair of a
/// batch event and a configured relay: no failure stops the fan-out early,
/// and nothing is attempted twice.
pub proof fn lemma_fanout_totality(c: DrainCycle)
    requires
        c.wf(),
        c.complete(),
    ensures
        c.spec_outcomes().len() == c.spec_batch().len() * c.spec_relays().len(),
{
    if c.spec_relays().len() == 0 {
        assert(c.spec_batch().len() * 0 == 0) by (nonlinear_arith);
    }
}

/// A drain of an empty outbox is a no-op: the cycle is complete at once,
/// offers no attempt, and records no outcome.
pub proof fn lemma_empty_drain_no_attempts(c: DrainCycle)
    requires
        c.wf(),
        c.spec_batch().len() == 0,
    ensures
        c.complete(),
        c.spec_outcomes().len() == 0,
{
}

/// An event enqueued while a drain is in progress lands in the next
/// cycle's batch exactly once, and leaves the running cycle's batch
/// untouched: it is neither delivered twice nor dropped.
///
/// The hypotheses are what `start_drain` and `add_to_outbox` ensure when a
/// drain of `pool` begins, the event arrives mid-cycle, and the next drain
/// begins.
pub proof fn lemma_enqueue_during_drain(
    pool: RelayPool,
    after_drain: RelayPool,
    running: DrainCycle,
    enqueued: Event,
    after_enqueue: RelayPool,
    next: DrainCycle,
)
    requires
        running.spec_batch() == pool.spec_outbox(),
        after_drain.spec_outbox() == Seq::<Event>::empty(),
        after_enqueue.spec_outbox() == after_drain.spec_outbox().push(enqueued),
        next.spec_batch() == after_enqueue.spec_outbox(),
    ensures
        next.spec_batch() == seq![enqueued],
        running.spec_batch() == pool.spec_outbox(),
{
    assert(next.spec_batch() =~= seq![enqueued]);
}

} // verus!
