//! The per-connection event order. For one connection the head of the inbound
//! pipeline sees `active`, then reads and exceptions in any number, and
//! `inactive` last, never anything after it. The driver below is the state
//! machine the event loop steps once per readable notification; its ghost
//! trace carries the proof that no other order can be produced.

use vstd::prelude::*;

use crate::channel::Channel;
use crate::errors::RettyErrorKind;

verus! {

/// What one poll of the selector produced for a connection, after the raw
/// read was classified: bytes, a clean end of stream, a retry, or an error.
pub enum ReadOutcome {
    Data(Vec<u8>),
    Eof,
    WouldBlock,
    Failed(RettyErrorKind),
}

/// An event fired into the head of a connection's inbound pipeline.
pub enum FiredEvent {
    Active,
    Read(Vec<u8>),
    Exception(RettyErrorKind),
    Inactive,
}

/// The shape of an event, with payloads forgotten.
#[derive(PartialEq, Eq, Structural)]
pub enum EventKind {
    Active,
    Read,
    Exception,
    Inactive,
}

pub open spec fn kind_of(ev: FiredEvent) -> EventKind {
    match ev {
        FiredEvent::Active => EventKind::Active,
        FiredEvent::Read(_) => EventKind::Read,
        FiredEvent::Exception(_) => EventKind::Exception,
        FiredEvent::Inactive => EventKind::Inactive,
    }
}

pub open spec fn kinds_of(evs: Seq<FiredEvent>) -> Seq<EventKind> {
    evs.map_values(|ev: FiredEvent| kind_of(ev))
}

/// The regular language `active ( read | exception )* inactive`, as a
/// predicate on its prefixes: an event sequence is well ordered when only its
/// first element is `active` and `inactive` stands nowhere but last.
pub open spec fn valid_trace(t: Seq<EventKind>) -> bool {
    &&& t.len() > 0 ==> t[0] == EventKind::Active
    &&& forall|i: int| 1 <= i < t.len() ==> #[trigger] t[i] != EventKind::Active
    &&& forall|i: int|
        0 <= i < t.len() && #[trigger] t[i] == EventKind::Inactive ==> i == t.len() - 1
}

/// Where a connection stands in its lifecycle.
#[derive(Clone, Copy, PartialEq, Eq, Structural, Debug)]
pub enum ConnPhase {
    Fresh,
    Active,
    Closed,
}

/// Drives one connection's inbound events in the only order the framework
/// allows. The ghost trace records every event kind ever emitted.
pub struct ConnDriver {
    phase: ConnPhase,
    trace: Ghost<Seq<EventKind>>,
}

impl ConnDriver {
    pub closed spec fn spec_phase(&self) -> ConnPhase {
        self.phase
    }

    pub closed spec fn spec_trace(&self) -> Seq<EventKind> {
        self.trace@
    }

    /// The driver's invariant: the emitted trace is well ordered, nothing is
    /// emitted before activation, `inactive` is emitted exactly when the
    /// connection is done.
    pub open spec fn inv(&self) -> bool {
        &&& valid_trace(self.spec_trace())
        &&& self.spec_phase() == ConnPhase::Fresh ==> self.spec_trace().len() == 0
        &&& self.spec_phase() == ConnPhase::Active ==> self.spec_trace().len() > 0 && (forall|
            i: int,
        |
            0 <= i < self.spec_trace().len() ==> #[trigger] self.spec_trace()[i]
                != EventKind::Inactive)
        &&& self.spec_phase() == ConnPhase::Closed ==> self.spec_trace().len() > 0
            && self.spec_trace().last() == EventKind::Inactive
    }

    pub fn new() -> (r: ConnDriver)
        ensures
            r.inv(),
            r.spec_phase() == ConnPhase::Fresh,
            r.spec_trace() == Seq::<EventKind>::empty(),
    {
        let r = ConnDriver { phase: ConnPhase::Fresh, trace: Ghost(Seq::empty()) };
        proof {
            assert(r.spec_trace() =~= Seq::<EventKind>::empty());
        }
        r
    }

    /// Activation: the event the loop fires when it attaches the connection.
    /// It is the first event, and the only `active` the connection ever sees.
    pub fn activate(&mut self) -> (ev: FiredEvent)
        requires
            old(self).inv(),
            old(self).spec_phase() == ConnPhase::Fresh,
        ensures
            final(self).inv(),
            final(self).spec_phase() == ConnPhase::Active,
            ev is Active,
            final(self).spec_trace() == old(self).spec_trace().push(EventKind::Active),
    {
        self.phase = ConnPhase::Active;
        proof {
            self.trace@ = self.trace@.push(EventKind::Active);
        }
        FiredEvent::Active
    }

    /// One reactor step for a readable notification. The outcome of the raw
    /// read and the channel's own state decide what the head of the inbound
    /// pipeline sees: nothing for a retry, a read for data, an exception for
    /// an error, and `inactive` — final, and alone — once the channel is
    /// closed, whether the peer closed it or a handler did.
    pub fn poll_step(&mut self, channel: &mut Channel, outcome: ReadOutcome) -> (evs: Vec<
        FiredEvent,
    >)
        requires
            old(self).inv(),
            old(self).spec_phase() == ConnPhase::Active,
        ensures
            final(self).inv(),
            final(self).spec_trace() == old(self).spec_trace() + kinds_of(evs@),
            final(channel).spec_id() == old(channel).spec_id(),
            final(channel).spec_last_read_time_ms() == old(channel).spec_last_read_time_ms(),
            final(channel).spec_read_idle_timeout_ms() == old(
                channel,
            ).spec_read_idle_timeout_ms(),
            old(channel).spec_closed() || outcome is Eof ==> {
                &&& evs@ =~= seq![FiredEvent::Inactive]
                &&& final(self).spec_phase() == ConnPhase::Closed
                &&& final(channel).spec_closed()
            },
            !old(channel).spec_closed() && !(outcome is Eof) ==> {
                &&& final(self).spec_phase() == ConnPhase::Active
                &&& final(channel).spec_closed() == old(channel).spec_closed()
                &&& match outcome {
                    ReadOutcome::Data(bytes) => evs@ =~= seq![FiredEvent::Read(bytes)],
                    ReadOutcome::WouldBlock => evs@ =~= Seq::<FiredEvent>::empty(),
                    ReadOutcome::Failed(err) => evs@ =~= seq![FiredEvent::Exception(err)],
                    ReadOutcome::Eof => true,
                }
            },
    {
        let mut evs: Vec<FiredEvent> = Vec::new();
        let was_closed = channel.is_closed();
        match outcome {
            ReadOutcome::Eof => {
                channel.close();
                self.phase = ConnPhase::Closed;
                proof {
                    self.trace@ = self.trace@.push(EventKind::Inactive);
                }
                evs.push(FiredEvent::Inactive);
            },
            ReadOutcome::Data(bytes) => {
                if was_closed {
                    self.phase = ConnPhase::Closed;
                    proof {
                        self.trace@ = self.trace@.push(EventKind::Inactive);
                    }
                    evs.push(FiredEvent::Inactive);
                } else {
                    proof {
                        self.trace@ = self.trace@.push(EventKind::Read);
                    }
                    evs.push(FiredEvent::Read(bytes));
                }
            },
            ReadOutcome::WouldBlock => {
                if was_closed {
                    self.phase = ConnPhase::Closed;
                    proof {
                        self.trace@ = self.trace@.push(EventKind::Inactive);
                    }
                    evs.push(FiredEvent::Inactive);
                }
            },
            ReadOutcome::Failed(err) => {
                if was_closed {
                    self.phase = ConnPhase::Closed;
                    proof {
                        self.trace@ = self.trace@.push(EventKind::Inactive);
                    }
                    evs.push(FiredEvent::Inactive);
                } else {
                    proof {
                        self.trace@ = self.trace@.push(EventKind::Exception);
                    }
                    evs.push(FiredEvent::Exception(err));
                }
            },
        }
        proof {
            assert(self.trace@ =~= old(self).spec_trace() + kinds_of(evs@));
        }
        evs
    }
}

/// The ordering law for a single connection: whatever interleaving of read
/// chunks, retries, errors and closes the loop observes, the head events the
/// driver has emitted form a prefix of `active ( read | exception )*
/// inactive`, and once `inactive` is emitted nothing follows it.
pub proof fn lemma_single_connection_ordering(d: ConnDriver)
    requires
        d.inv(),
    ensures
        valid_trace(d.spec_trace()),
        d.spec_trace().len() > 0 ==> d.spec_trace()[0] == EventKind::Active,
        forall|i: int|
            0 <= i < d.spec_trace().len() && #[trigger] d.spec_trace()[i] == EventKind::Inactive
                ==> i == d.spec_trace().len() - 1,
{
}

/// Close monotonicity on the event side: in a well-ordered trace nothing
/// follows `inactive` — once a connection's close has been observed, no
/// further inbound event fires for it.
pub proof fn lemma_no_events_after_inactive(t: Seq<EventKind>, i: int)
    requires
        valid_trace(t),
        0 <= i < t.len(),
        t[i] == EventKind::Inactive,
    ensures
        i == t.len() - 1,
{
}

} // verus!
