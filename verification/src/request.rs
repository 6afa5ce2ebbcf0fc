//! Reply correlation: one question, one result.
//!
//! A request sends a question to one member of a group and folds whatever
//! happens next (a reply, a dropped reply conduit, a timer that runs out, a
//! question that could not be sent) into exactly one result. The waiting is
//! done by whoever drives the request; each thing that happens is handed in as
//! an event, and the request says what to do next.
use std::time::Duration;
use vstd::prelude::*;
use crate::dispatcher::Delivery;
use crate::envelope::{Envelope, interpreted, same_reading};
use crate::error::SendError;

verus! {

/// How the caller collects the result: by awaiting it, or by blocking its
/// thread until it is there.
#[derive(Clone, Copy, Debug, PartialEq, Eq, Structural)]
pub enum Conduit {
    Awaited,
    Blocking,
}

/// Which of the three ways a request came to its result.
#[derive(Clone, Copy, Debug, PartialEq, Eq, Structural)]
pub enum Outcome {
    /// The reply conduit completed first, with a reply or by being dropped.
    Replied,
    /// The timer ran out first.
    TimedOut,
    /// The question could not be sent.
    AskFailed,
}

/// Where a request stands.
#[derive(Clone, Copy, Debug, PartialEq, Eq, Structural)]
pub enum Phase {
    /// Nothing was sent yet.
    Created,
    /// The question is on its way and the reply is awaited.
    AskSent,
    /// The result was handed over; nothing more will come of this request.
    Delivered { by: Outcome },
}

/// What can happen while a reply is awaited.
#[derive(Debug, PartialEq, Eq)]
pub enum Event {
    /// The responder completed the reply slot with this envelope.
    Reply { envelope: Envelope },
    /// The reply slot was dropped without a reply.
    ReplyDropped,
    /// The timer ran out.
    TimerElapsed,
}

/// What the driver of a request is to do next.
#[derive(Debug, PartialEq, Eq)]
pub enum Step {
    /// Hand the question to its target, then wait for the reply slot it names,
    /// and for the timer too if there is one.
    Await { delivery: Delivery, timeout: Option<Duration> },
    /// Hand this result to the caller.
    Deliver { result: Result<Vec<u8>, SendError> },
    /// Nothing: the event came too late, or was none that is waited for.
    Nothing,
}

/// One request-style call.
#[derive(Clone, Copy, Debug, PartialEq, Eq)]
pub struct Request {
    /// The tag of the type that the caller expects the reply to have.
    pub expected: u64,
    /// The time after which the reply is given up, if any.
    pub timeout: Option<Duration>,
    pub conduit: Conduit,
    pub phase: Phase,
}

/// The way in which `event` ends the wait of a request, if it does: a timer
/// ends it only for a request that set one.
pub open spec fn ends_wait(timed: bool, event: Event) -> Option<Outcome> {
    match event {
        Event::Reply { .. } => Some(Outcome::Replied),
        Event::ReplyDropped => Some(Outcome::Replied),
        Event::TimerElapsed => if timed {
            Some(Outcome::TimedOut)
        } else {
            None
        },
    }
}

/// The result that `event` gives to a request that expects a reply of the
/// type tagged `expected`.
pub open spec fn result_of(expected: u64, event: Event) -> Result<Seq<u8>, SendError> {
    match event {
        Event::Reply { envelope } => interpreted(envelope@, expected),
        Event::ReplyDropped => Err(SendError::ReplyFailed),
        Event::TimerElapsed => Err(SendError::Timeout),
    }
}

/// The phase that follows `phase` when `event` comes.
pub open spec fn phase_after(phase: Phase, timed: bool, event: Event) -> Phase {
    match (phase, ends_wait(timed, event)) {
        (Phase::AskSent, Some(by)) => Phase::Delivered { by },
        _ => phase,
    }
}

/// Whether `event`, coming in `phase`, makes the request deliver its result.
pub open spec fn delivers(phase: Phase, timed: bool, event: Event) -> bool {
    phase == Phase::AskSent && ends_wait(timed, event) is Some
}

/// How many results a request that starts in `phase` delivers over `events`.
pub open spec fn deliveries(phase: Phase, timed: bool, events: Seq<Event>) -> nat
    decreases events.len(),
{
    if events.len() == 0 {
        0
    } else {
        let now: nat = if delivers(phase, timed, events[0]) {
            1
        } else {
            0
        };
        now + deliveries(phase_after(phase, timed, events[0]), timed, events.drop_first())
    }
}

impl Request {
    /// Whether a timer runs against the reply.
    pub open spec fn timed(&self) -> bool {
        self.timeout is Some
    }

    /// A request that has sent nothing yet.
    pub fn new(expected: u64, timeout: Option<Duration>, conduit: Conduit) -> (request: Request)
        ensures
            request == (Request { expected, timeout, conduit, phase: Phase::Created }),
    {
        Request { expected, timeout, conduit, phase: Phase::Created }
    }

    /// Takes the outcome of sending the question. A question that was sent
    /// is awaited; one that was not is answered at once with its error, and no
    /// timer starts. On a request that has started already this does nothing.
    pub fn start(&mut self, asked: Result<Delivery, SendError>) -> (step: Step)
        ensures
            final(self).expected == old(self).expected,
            final(self).timeout == old(self).timeout,
            final(self).conduit == old(self).conduit,
            final(self).phase == match (old(self).phase, asked) {
                (Phase::Created, Ok(_)) => Phase::AskSent,
                (Phase::Created, Err(_)) => Phase::Delivered { by: Outcome::AskFailed },
                _ => old(self).phase,
            },
            step == match (old(self).phase, asked) {
                (Phase::Created, Ok(delivery)) => Step::Await { delivery, timeout: old(self).timeout },
                (Phase::Created, Err(e)) => Step::Deliver { result: Err(e) },
                _ => Step::Nothing,
            },
    {
        match self.phase {
            Phase::Created => match asked {
                Ok(delivery) => {
                    self.phase = Phase::AskSent;
                    Step::Await { delivery, timeout: self.timeout }
                },
                Err(e) => {
                    self.phase = Phase::Delivered { by: Outcome::AskFailed };
                    Step::Deliver { result: Err(e) }
                },
            },
            _ => Step::Nothing,
        }
    }

    /// Takes one event. The first event that ends the wait decides the
    /// result: a reply of the expected type gives its payload, a reply of
    /// another type `TypeMismatch`, a dropped reply slot `ReplyFailed`, the
    /// timer `Timeout`. Every other event, and every event after the result
    /// was delivered, is dropped and changes nothing.
    pub fn on_event(&mut self, event: Event) -> (step: Step)
        ensures
            final(self).expected == old(self).expected,
            final(self).timeout == old(self).timeout,
            final(self).conduit == old(self).conduit,
            final(self).phase == phase_after(old(self).phase, old(self).timed(), event),
            match step {
                Step::Deliver { result } => delivers(old(self).phase, old(self).timed(), event)
                    && same_reading(result, result_of(old(self).expected, event)),
                Step::Nothing => !delivers(old(self).phase, old(self).timed(), event),
                Step::Await { .. } => false,
            },
    {
        match self.phase {
            Phase::AskSent => match event {
                Event::Reply { envelope } => {
                    self.phase = Phase::Delivered { by: Outcome::Replied };
                    Step::Deliver { result: envelope.interpret(self.expected) }
                },
                Event::ReplyDropped => {
                    self.phase = Phase::Delivered { by: Outcome::Replied };
                    Step::Deliver { result: Err(SendError::ReplyFailed) }
                },
                Event::TimerElapsed => {
                    if self.timeout.is_some() {
                        self.phase = Phase::Delivered { by: Outcome::TimedOut };
                        Step::Deliver { result: Err(SendError::Timeout) }
                    } else {
                        Step::Nothing
                    }
                },
            },
            _ => Step::Nothing,
        }
    }
}

/// A request delivers at most one result, whatever happens and in whatever
/// order; once it has delivered, no event makes it deliver again.
pub proof fn lemma_at_most_one_result(phase: Phase, timed: bool, events: Seq<Event>)
    ensures
        deliveries(phase, timed, events) <= 1,
        phase is Delivered ==> deliveries(phase, timed, events) == 0,
        phase is Created ==> deliveries(phase, timed, events) == 0,
    decreases events.len(),
{
    if events.len() > 0 {
        lemma_at_most_one_result(phase_after(phase, timed, events[0]), timed, events.drop_first());
    }
}

/// A request that awaits its reply delivers exactly one result as soon as an
/// event comes that ends the wait, and that event alone decides the result:
/// of a reply and a timer, the first wins.
pub proof fn lemma_first_event_wins(timed: bool, events: Seq<Event>, i: int)
    requires
        0 <= i < events.len(),
        ends_wait(timed, events[i]) is Some,
        forall|j: int| 0 <= j < i ==> ends_wait(timed, #[trigger] events[j]) is None,
    ensures
        deliveries(Phase::AskSent, timed, events) == 1,
        deliveries(Phase::AskSent, timed, events.take(i)) == 0,
        delivers(Phase::AskSent, timed, events[i]),
    decreases i,
{
    if i == 0 {
        lemma_at_most_one_result(
            phase_after(Phase::AskSent, timed, events[0]),
            timed,
            events.drop_first(),
        );
        assert(events.take(0).len() == 0);
    } else {
        let rest = events.drop_first();
        assert forall|j: int| 0 <= j < i - 1 implies ends_wait(timed, #[trigger] rest[j]) is None by {
            assert(rest[j] == events[j + 1]);
        }
        lemma_first_event_wins(timed, rest, i - 1);
        assert(events.take(i).drop_first() =~= rest.take(i - 1));
        assert(events.take(i)[0] == events[0]);
    }
}

} // verus!
