//! `Distributor`: a named group as an address for messages.
use std::time::Duration;
use vstd::prelude::*;
use crate::dispatcher::{Delivery, Dispatcher, ask_error, ask_plan, chosen, plan_view, tell_plan};
use crate::envelope::{Endpoint, Envelope};
use crate::error::SendError;
use crate::interner::{Interner, handle_of, names_with};
use crate::registry::{with_member, without_member};
use crate::request::{Conduit, Outcome, Phase, Request, Step};

verus! {

/// The one shared state that distributors route through: the names and the
/// groups behind them. It is made once and handed to each call.
pub struct System {
    pub interner: Interner,
    pub dispatcher: Dispatcher,
}

impl System {
    /// No name is interned twice and no endpoint is in a group twice.
    pub open spec fn wf(&self) -> bool {
        self.interner.wf() && self.dispatcher.wf()
    }

    /// The names interned so far, oldest first.
    pub open spec fn names(&self) -> Seq<Seq<char>> {
        self.interner.names()
    }

    /// The subscribers of `group`, oldest subscription first.
    pub open spec fn subscribers(&self, group: Distributor) -> Seq<Endpoint> {
        self.dispatcher.members(group.handle())
    }

    /// A system without names and without subscribers.
    pub fn new() -> (system: System)
        ensures
            system.wf(),
            system.names() == Seq::<Seq<char>>::empty(),
            system.dispatcher.next_slot() == 0,
            forall|group: Distributor| (#[trigger] system.subscribers(group)) == Seq::<Endpoint>::empty(),
    {
        System { interner: Interner::new(), dispatcher: Dispatcher::new() }
    }
}

/// A handle to one named group: the means to send messages to its
/// subscribers and to add and remove them. It is a plain value that owns
/// nothing; two distributors made from the same name are equal.
#[derive(Clone, Copy, Debug, PartialEq, Eq, Hash, Structural)]
pub struct Distributor {
    key: usize,
}

/// What a request-style call on `group` leaves behind: the question is asked
/// of one subscriber and awaited with `timeout`, or, where it could not be
/// asked, the error is delivered at once.
pub open spec fn begun(
    before: System,
    after: System,
    group: Distributor,
    question: (u64, Seq<u8>),
    expected: u64,
    timeout: Option<Duration>,
    conduit: Conduit,
    request: Request,
    step: Step,
) -> bool {
    &&& before.wf() ==> after.wf()
    &&& after.interner == before.interner
    &&& forall|other: Distributor| (#[trigger] after.subscribers(other)) == before.subscribers(other)
    &&& request.expected == expected
    &&& request.timeout == timeout
    &&& request.conduit == conduit
    &&& match ask_error(before.subscribers(group), before.dispatcher.next_slot(), 1) {
        None => {
            &&& after.dispatcher.next_slot() == before.dispatcher.next_slot() + 1
            &&& request.phase == Phase::AskSent
            &&& match step {
                Step::Await { delivery, timeout: t } => t == timeout && delivery@ == (
                    before.subscribers(group)[0],
                    question,
                    Some(before.dispatcher.next_slot()),
                ),
                _ => false,
            }
        },
        Some(e) => {
            &&& after.dispatcher.next_slot() == before.dispatcher.next_slot()
            &&& request.phase == Phase::Delivered { by: Outcome::AskFailed }
            &&& step == Step::Deliver { result: Err(e) }
        },
    }
}

impl Distributor {
    /// The name handle that this distributor wraps.
    pub closed spec fn handle(&self) -> usize {
        self.key
    }

    /// Distributors are equal exactly when their handles are.
    pub proof fn lemma_equal_by_handle(a: Distributor, b: Distributor)
        ensures
            a == b <==> a.handle() == b.handle(),
    {
    }

    /// The distributor of the group called `name`. The name is interned if it
    /// is new; a name that is known already always succeeds and gives the
    /// distributor it gave before. Fails with `RegistryFault` only if a new
    /// name finds no room, and then nothing has changed.
    pub fn named(system: &mut System, name: &str) -> (r: Result<Distributor, SendError>)
        requires
            old(system).wf(),
        ensures
            final(system).wf(),
            final(system).dispatcher == old(system).dispatcher,
            forall|other: Distributor|
                (#[trigger] final(system).subscribers(other)) == old(system).subscribers(other),
            match r {
                Ok(group) => {
                    &&& final(system).names() == names_with(old(system).names(), name@)
                    &&& final(system).names().contains(name@)
                    &&& group.handle() == handle_of(final(system).names(), name@)
                    &&& group.handle() < final(system).names().len()
                    &&& final(system).names()[group.handle() as int] == name@
                },
                Err(e) => {
                    &&& e == SendError::RegistryFault
                    &&& final(system).names() == old(system).names()
                    &&& !old(system).names().contains(name@)
                },
            },
    {
        match system.interner.intern(name) {
            Ok(key) => Ok(Distributor { key }),
            Err(e) => Err(e),
        }
    }

    /// The name handle as a number.
    pub fn interned(&self) -> (key: usize)
        ensures
            key == self.handle(),
    {
        self.key
    }

    /// Makes `endpoint` a subscriber of this group. Subscribing twice is the
    /// same as subscribing once, and no other group changes.
    pub fn subscribe(&self, system: &mut System, endpoint: Endpoint) -> (r: Result<(), SendError>)
        requires
            old(system).wf(),
        ensures
            final(system).wf(),
            r is Ok,
            final(system).interner == old(system).interner,
            final(system).dispatcher.next_slot() == old(system).dispatcher.next_slot(),
            final(system).subscribers(*self) == with_member(old(system).subscribers(*self), endpoint),
            forall|other: Distributor|
                other != *self ==> (#[trigger] final(system).subscribers(other)) == old(
                    system,
                ).subscribers(other),
    {
        system.dispatcher.register_recipient(self.key, endpoint)
    }

    /// Takes `endpoint` out of this group. If it is no subscriber nothing
    /// changes; its subscriptions to other groups stay.
    pub fn unsubscribe(&self, system: &mut System, endpoint: Endpoint) -> (r: Result<(), SendError>)
        requires
            old(system).wf(),
        ensures
            final(system).wf(),
            r is Ok,
            final(system).interner == old(system).interner,
            final(system).dispatcher.next_slot() == old(system).dispatcher.next_slot(),
            final(system).subscribers(*self) == without_member(old(system).subscribers(*self), endpoint),
            forall|other: Distributor|
                other != *self ==> (#[trigger] final(system).subscribers(other)) == old(
                    system,
                ).subscribers(other),
    {
        let mut names: Vec<usize> = Vec::new();
        names.push(self.key);
        assert(names@ =~= seq![self.key]);
        assert(names@[0] == self.key);
        let r = system.dispatcher.remove_recipient(&names, endpoint);
        assert forall|other: Distributor| other != *self implies (#[trigger] system.subscribers(other))
            == old(system).subscribers(other) by {
            assert(!names@.contains(other.handle()));
        }
        r
    }

    /// Plans a message to one subscriber: the one that subscribed first.
    /// Fails with `Unreachable` exactly if the group has no subscriber.
    pub fn tell_one(&self, system: &System, message: Envelope) -> (r: Result<Delivery, SendError>)
        ensures
            match r {
                Ok(delivery) => chosen(system.subscribers(*self)) == Ok::<Endpoint, SendError>(
                    delivery.target,
                ) && delivery@ == (delivery.target, message@, None::<u64>),
                Err(e) => chosen(system.subscribers(*self)) == Err::<Endpoint, SendError>(e),
            },
    {
        system.dispatcher.tell(self.key, message)
    }

    /// Plans a message to every subscriber: one delivery for each, with its
    /// own copy of the message. Fails with `Unreachable` exactly if the group
    /// has no subscriber.
    pub fn tell_everyone(&self, system: &System, message: Envelope) -> (r: Result<
        Vec<Delivery>,
        SendError,
    >)
        ensures
            match r {
                Ok(plan) => system.subscribers(*self).len() > 0 && plan_view(plan@) == tell_plan(
                    system.subscribers(*self),
                    message@,
                ),
                Err(e) => e == SendError::Unreachable && system.subscribers(*self).len() == 0,
            },
    {
        system.dispatcher.tell_everyone(self.key, message)
    }

    /// Plans a question to one subscriber, the one that subscribed first, and
    /// gives it a fresh reply slot. Fails with `Unreachable` if the group has
    /// no subscriber, else with `RegistryFault` if no slot number is left.
    pub fn ask_one(&self, system: &mut System, question: Envelope) -> (r: Result<Delivery, SendError>)
        ensures
            old(system).wf() ==> final(system).wf(),
            final(system).interner == old(system).interner,
            forall|other: Distributor|
                (#[trigger] final(system).subscribers(other)) == old(system).subscribers(other),
            match r {
                Ok(delivery) => {
                    &&& ask_error(old(system).subscribers(*self), old(system).dispatcher.next_slot(), 1)
                        is None
                    &&& delivery@ == (
                        old(system).subscribers(*self)[0],
                        question@,
                        Some(old(system).dispatcher.next_slot()),
                    )
                    &&& final(system).dispatcher.next_slot() == old(system).dispatcher.next_slot() + 1
                },
                Err(e) => {
                    &&& ask_error(old(system).subscribers(*self), old(system).dispatcher.next_slot(), 1)
                        == Some(e)
                    &&& final(system).dispatcher.next_slot() == old(system).dispatcher.next_slot()
                },
            },
    {
        system.dispatcher.ask(self.key, question)
    }

    /// Plans a question to every subscriber: one delivery for each, with its
    /// own copy of the question and a reply slot of its own. Fails with
    /// `Unreachable` if the group has no subscriber, else with `RegistryFault`
    /// if the slot numbers do not suffice.
    pub fn ask_everyone(&self, system: &mut System, question: Envelope) -> (r: Result<
        Vec<Delivery>,
        SendError,
    >)
        ensures
            old(system).wf() ==> final(system).wf(),
            final(system).interner == old(system).interner,
            forall|other: Distributor|
                (#[trigger] final(system).subscribers(other)) == old(system).subscribers(other),
            match r {
                Ok(plan) => {
                    &&& ask_error(
                        old(system).subscribers(*self),
                        old(system).dispatcher.next_slot(),
                        old(system).subscribers(*self).len() as int,
                    ) is None
                    &&& plan_view(plan@) == ask_plan(
                        old(system).subscribers(*self),
                        question@,
                        old(system).dispatcher.next_slot(),
                    )
                    &&& final(system).dispatcher.next_slot() == old(system).dispatcher.next_slot() + old(
                        system,
                    ).subscribers(*self).len()
                },
                Err(e) => {
                    &&& ask_error(
                        old(system).subscribers(*self),
                        old(system).dispatcher.next_slot(),
                        old(system).subscribers(*self).len() as int,
                    ) == Some(e)
                    &&& final(system).dispatcher.next_slot() == old(system).dispatcher.next_slot()
                },
            },
    {
        system.dispatcher.ask_everyone(self.key, question)
    }

    /// Asks the question of one subscriber and starts the request that
    /// `timeout` and `conduit` describe.
    fn begin(
        &self,
        system: &mut System,
        question: Envelope,
        expected: u64,
        timeout: Option<Duration>,
        conduit: Conduit,
    ) -> (r: (Request, Step))
        ensures
            begun(*old(system), *final(system), *self, question@, expected, timeout, conduit, r.0, r.1),
    {
        let mut request = Request::new(expected, timeout, conduit);
        let asked = system.dispatcher.ask(self.key, question);
        let step = request.start(asked);
        (request, step)
    }

    /// Asks `question` of one subscriber and expects a reply of the type
    /// tagged `expected`, for a caller that awaits the result. Where the
    /// question cannot be asked, its error is the result and nothing is
    /// awaited. Otherwise the returned step holds the delivery to make, and
    /// `Request::on_event` turns what comes back into the result.
    pub fn request(&self, system: &mut System, question: Envelope, expected: u64) -> (r: (Request, Step))
        ensures
            begun(
                *old(system),
                *final(system),
                *self,
                question@,
                expected,
                None::<Duration>,
                Conduit::Awaited,
                r.0,
                r.1,
            ),
    {
        self.begin(system, question, expected, None, Conduit::Awaited)
    }

    /// As `request`, for a caller outside the scheduler that blocks its
    /// thread until the result is there.
    pub fn request_sync(&self, system: &mut System, question: Envelope, expected: u64) -> (r: (
        Request,
        Step,
    ))
        ensures
            begun(
                *old(system),
                *final(system),
                *self,
                question@,
                expected,
                None::<Duration>,
                Conduit::Blocking,
                r.0,
                r.1,
            ),
    {
        self.begin(system, question, expected, None, Conduit::Blocking)
    }

    /// As `request`, with a timer of `timeout` that runs against the reply:
    /// whichever comes first decides the result, and a timer that wins gives
    /// `Timeout`. Where the question cannot be asked no timer starts.
    pub fn request_timeout(
        &self,
        system: &mut System,
        question: Envelope,
        expected: u64,
        timeout: Duration,
    ) -> (r: (Request, Step))
        ensures
            begun(
                *old(system),
                *final(system),
                *self,
                question@,
                expected,
                Some(timeout),
                Conduit::Awaited,
                r.0,
                r.1,
            ),
    {
        self.begin(system, question, expected, Some(timeout), Conduit::Awaited)
    }
}

} // verus!
