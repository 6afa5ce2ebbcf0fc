//! The group dispatcher: who gets a message that is sent to a name.
//!
//! The dispatcher decides and plans; it does not touch a mailbox. Each send
//! returns the deliveries to make, one per addressed endpoint, and whoever
//! drives the system hands each message to its target.
use vstd::prelude::*;
use crate::envelope::{Endpoint, Envelope};
use crate::error::SendError;
use crate::registry::{Registry, with_member, without_member};

verus! {

/// One message on its way to one endpoint. A question carries the number of
/// the reply slot that its answer is to complete; a plain message carries none.
#[derive(Debug, PartialEq, Eq)]
pub struct Delivery {
    pub target: Endpoint,
    pub message: Envelope,
    pub reply_slot: Option<u64>,
}

impl View for Delivery {
    type V = (Endpoint, (u64, Seq<u8>), Option<u64>);

    open spec fn view(&self) -> (Endpoint, (u64, Seq<u8>), Option<u64>) {
        (self.target, self.message@, self.reply_slot)
    }
}

/// The deliveries of a list, each by its view.
pub open spec fn plan_view(plan: Seq<Delivery>) -> Seq<(Endpoint, (u64, Seq<u8>), Option<u64>)> {
    plan.map_values(|d: Delivery| d@)
}

/// The member of a group that a message to one of them goes to: the one that
/// subscribed first. An empty group is unreachable.
pub open spec fn chosen(members: Seq<Endpoint>) -> Result<Endpoint, SendError> {
    if members.len() == 0 {
        Err(SendError::Unreachable)
    } else {
        Ok(members[0])
    }
}

/// A broadcast of `message`: one copy for each member, in the members' order.
pub open spec fn tell_plan(members: Seq<Endpoint>, message: (u64, Seq<u8>)) -> Seq<
    (Endpoint, (u64, Seq<u8>), Option<u64>),
> {
    Seq::new(members.len(), |i: int| (members[i], message, None::<u64>))
}

/// A broadcast of `question`: one copy for each member, the copy for the
/// `i`-th member with the reply slot `first_slot + i`.
pub open spec fn ask_plan(members: Seq<Endpoint>, question: (u64, Seq<u8>), first_slot: u64) -> Seq<
    (Endpoint, (u64, Seq<u8>), Option<u64>),
> {
    Seq::new(members.len(), |i: int| (members[i], question, Some((first_slot + i) as u64)))
}

/// The error of a question to a group of `members` that needs `wanted` reply
/// slots when `next_slot` is the first free one, if there is an error.
pub open spec fn ask_error(members: Seq<Endpoint>, next_slot: u64, wanted: int) -> Option<SendError> {
    if members.len() == 0 {
        Some(SendError::Unreachable)
    } else if next_slot + wanted > u64::MAX {
        Some(SendError::RegistryFault)
    } else {
        None
    }
}

/// A message to one of a group reaches a subscriber as soon as there is one:
/// after `endpoint` subscribed the group can be reached, and where nobody
/// subscribed before, it is `endpoint` that is chosen.
pub proof fn lemma_subscriber_is_reached(members: Seq<Endpoint>, endpoint: Endpoint)
    requires
        members.no_duplicates(),
    ensures
        with_member(members, endpoint).contains(endpoint),
        chosen(with_member(members, endpoint)) is Ok,
        with_member(members, endpoint).contains(chosen(with_member(members, endpoint))->Ok_0),
        members.len() == 0 ==> chosen(with_member(members, endpoint)) == Ok::<Endpoint, SendError>(
            endpoint,
        ),
{
    let group = with_member(members, endpoint);
    if !members.contains(endpoint) {
        assert(group[members.len() as int] == endpoint);
    }
    assert(group[0] == chosen(group)->Ok_0);
}

/// A group whose only subscriber has left cannot be reached.
pub proof fn lemma_left_alone_is_unreachable(members: Seq<Endpoint>, endpoint: Endpoint)
    requires
        members.len() == 1,
        members[0] == endpoint,
    ensures
        without_member(members, endpoint) == Seq::<Endpoint>::empty(),
        chosen(without_member(members, endpoint)) == Err::<Endpoint, SendError>(SendError::Unreachable),
        without_member(with_member(Seq::<Endpoint>::empty(), endpoint), endpoint) == Seq::<
            Endpoint,
        >::empty(),
{
    assert(members.contains(endpoint));
    assert(without_member(members, endpoint) =~= Seq::<Endpoint>::empty());
    let alone = with_member(Seq::<Endpoint>::empty(), endpoint);
    assert(alone[0] == endpoint);
    assert(alone.contains(endpoint));
    assert(without_member(alone, endpoint) =~= Seq::<Endpoint>::empty());
}

/// A broadcast has as many deliveries as the group has subscribers; every
/// subscriber is the target of exactly one of them, nobody else is a target,
/// and every delivery carries the message.
pub proof fn lemma_broadcast_reaches_each_once(members: Seq<Endpoint>, message: (u64, Seq<u8>))
    requires
        members.no_duplicates(),
    ensures
        tell_plan(members, message).len() == members.len(),
        forall|i: int|
            0 <= i < members.len() ==> {
                &&& members.contains((#[trigger] tell_plan(members, message)[i]).0)
                &&& tell_plan(members, message)[i].1 == message
                &&& tell_plan(members, message)[i].2 is None
            },
        forall|endpoint: Endpoint|
            (#[trigger] members.contains(endpoint)) ==> tell_plan(members, message)[members.index_of(
                endpoint,
            )].0 == endpoint,
        forall|i: int, j: int|
            #![trigger tell_plan(members, message)[i], tell_plan(members, message)[j]]
            0 <= i < members.len() && 0 <= j < members.len() && tell_plan(members, message)[i].0
                == tell_plan(members, message)[j].0 ==> i == j,
{
    let plan = tell_plan(members, message);
    assert forall|i: int| 0 <= i < members.len() implies members.contains((#[trigger] plan[i]).0) by {
        assert(members[i] == plan[i].0);
    }
}

/// A question to everyone has as many deliveries as the group has
/// subscribers; every subscriber is the target of exactly one of them, every
/// delivery carries the question, and no two of them share a reply slot.
pub proof fn lemma_questions_have_own_slots(
    members: Seq<Endpoint>,
    question: (u64, Seq<u8>),
    first_slot: u64,
)
    requires
        members.no_duplicates(),
        first_slot + members.len() <= u64::MAX,
    ensures
        ask_plan(members, question, first_slot).len() == members.len(),
        forall|i: int|
            0 <= i < members.len() ==> {
                &&& members.contains((#[trigger] ask_plan(members, question, first_slot)[i]).0)
                &&& ask_plan(members, question, first_slot)[i].1 == question
                &&& ask_plan(members, question, first_slot)[i].2 == Some((first_slot + i) as u64)
            },
        forall|endpoint: Endpoint|
            (#[trigger] members.contains(endpoint)) ==> ask_plan(members, question, first_slot)[members.index_of(
                endpoint,
            )].0 == endpoint,
        forall|i: int, j: int|
            #![trigger ask_plan(members, question, first_slot)[i], ask_plan(members, question, first_slot)[j]]
            0 <= i < members.len() && 0 <= j < members.len() && i != j ==> {
                &&& ask_plan(members, question, first_slot)[i].0 != ask_plan(
                    members,
                    question,
                    first_slot,
                )[j].0
                &&& ask_plan(members, question, first_slot)[i].2 != ask_plan(
                    members,
                    question,
                    first_slot,
                )[j].2
            },
{
    let plan = ask_plan(members, question, first_slot);
    assert forall|i: int| 0 <= i < members.len() implies members.contains((#[trigger] plan[i]).0) by {
        assert(members[i] == plan[i].0);
    }
}

/// The registry together with the counter that numbers the reply slots.
pub struct Dispatcher {
    registry: Registry,
    next_slot: u64,
}

impl Dispatcher {
    /// The members of the group `name`, oldest subscription first.
    pub closed spec fn members(&self, name: usize) -> Seq<Endpoint> {
        self.registry.members(name)
    }

    /// The number that the next reply slot gets. Every slot given out so far
    /// has a smaller number.
    pub closed spec fn next_slot(&self) -> u64 {
        self.next_slot
    }

    /// No endpoint is in a group twice.
    pub open spec fn wf(&self) -> bool {
        forall|name: usize| (#[trigger] self.members(name)).no_duplicates()
    }

    /// A dispatcher without subscribers, whose first reply slot is number 0.
    pub fn new() -> (dispatcher: Dispatcher)
        ensures
            dispatcher.wf(),
            dispatcher.next_slot() == 0,
            forall|name: usize| (#[trigger] dispatcher.members(name)) == Seq::<Endpoint>::empty(),
    {
        Dispatcher::with_first_slot(0)
    }

    /// A dispatcher without subscribers, whose first reply slot is number
    /// `first_slot`: for a system that goes on where another one stopped.
    pub fn with_first_slot(first_slot: u64) -> (dispatcher: Dispatcher)
        ensures
            dispatcher.wf(),
            dispatcher.next_slot() == first_slot,
            forall|name: usize| (#[trigger] dispatcher.members(name)) == Seq::<Endpoint>::empty(),
    {
        let registry = Registry::new();
        assert forall|name: usize| (#[trigger] registry.members(name)).no_duplicates() by {}
        Dispatcher { registry, next_slot: first_slot }
    }

    /// Subscribes `endpoint` to the group `name`; see `Registry::register`.
    pub fn register_recipient(&mut self, name: usize, endpoint: Endpoint) -> (r: Result<(), SendError>)
        requires
            old(self).wf(),
        ensures
            final(self).wf(),
            r is Ok,
            final(self).next_slot() == old(self).next_slot(),
            final(self).members(name) == with_member(old(self).members(name), endpoint),
            forall|other: usize|
                other != name ==> (#[trigger] final(self).members(other)) == old(self).members(other),
    {
        assert forall|n: usize| (#[trigger] self.registry.members(n)).no_duplicates() by {
            assert(self.members(n).no_duplicates());
        }
        let r = self.registry.register(name, endpoint);
        assert forall|n: usize| (#[trigger] self.members(n)).no_duplicates() by {
            assert(self.registry.members(n).no_duplicates());
        }
        r
    }

    /// Unsubscribes `endpoint` from each of the groups `names`; see
    /// `Registry::remove`.
    pub fn remove_recipient(&mut self, names: &Vec<usize>, endpoint: Endpoint) -> (r: Result<
        (),
        SendError,
    >)
        requires
            old(self).wf(),
        ensures
            final(self).wf(),
            r is Ok,
            final(self).next_slot() == old(self).next_slot(),
            forall|name: usize|
                (#[trigger] final(self).members(name)) == if names@.contains(name) {
                    without_member(old(self).members(name), endpoint)
                } else {
                    old(self).members(name)
                },
    {
        assert forall|n: usize| (#[trigger] self.registry.members(n)).no_duplicates() by {
            assert(self.members(n).no_duplicates());
        }
        let r = self.registry.remove(names, endpoint);
        assert forall|n: usize| (#[trigger] self.members(n)).no_duplicates() by {
            assert(self.registry.members(n).no_duplicates());
        }
        r
    }

    /// Plans a message to one member of the group `name`: the delivery to
    /// make, or `Unreachable` if the group is empty.
    pub fn tell(&self, name: usize, message: Envelope) -> (r: Result<Delivery, SendError>)
        ensures
            match r {
                Ok(delivery) => chosen(self.members(name)) == Ok::<Endpoint, SendError>(
                    delivery.target,
                ) && delivery@ == (delivery.target, message@, None::<u64>),
                Err(e) => chosen(self.members(name)) == Err::<Endpoint, SendError>(e),
            },
    {
        let members = self.registry.snapshot(name);
        if members.len() == 0 {
            Err(SendError::Unreachable)
        } else {
            Ok(Delivery { target: members[0], message, reply_slot: None })
        }
    }

    /// Plans a message to every member of the group `name`: one delivery with
    /// its own copy for each, or `Unreachable` if the group is empty.
    pub fn tell_everyone(&self, name: usize, message: Envelope) -> (r: Result<Vec<Delivery>, SendError>)
        ensures
            match r {
                Ok(plan) => self.members(name).len() > 0 && plan_view(plan@) == tell_plan(
                    self.members(name),
                    message@,
                ),
                Err(e) => e == SendError::Unreachable && self.members(name).len() == 0,
            },
    {
        let members = self.registry.snapshot(name);
        if members.len() == 0 {
            return Err(SendError::Unreachable);
        }
        let mut plan: Vec<Delivery> = Vec::new();
        let mut i: usize = 0;
        while i < members.len()
            invariant
                i <= members.len(),
                plan.len() == i,
                forall|j: int| 0 <= j < i ==> (#[trigger] plan@[j])@ == (members@[j], message@, None::<u64>),
            decreases members.len() - i,
        {
            plan.push(Delivery { target: members[i], message: message.duplicate(), reply_slot: None });
            i += 1;
        }
        assert(plan_view(plan@) =~= tell_plan(self.members(name), message@));
        Ok(plan)
    }

    /// Plans a question to one member of the group `name` and gives it a fresh
    /// reply slot. Fails with `Unreachable` if the group is empty, and with
    /// `RegistryFault` if no slot number is left; then no slot is used.
    pub fn ask(&mut self, name: usize, question: Envelope) -> (r: Result<Delivery, SendError>)
        ensures
            old(self).wf() ==> final(self).wf(),
            forall|n: usize| (#[trigger] final(self).members(n)) == old(self).members(n),
            match r {
                Ok(delivery) => {
                    &&& ask_error(old(self).members(name), old(self).next_slot(), 1) is None
                    &&& delivery@ == (old(self).members(name)[0], question@, Some(old(self).next_slot()))
                    &&& final(self).next_slot() == old(self).next_slot() + 1
                },
                Err(e) => {
                    &&& ask_error(old(self).members(name), old(self).next_slot(), 1) == Some(e)
                    &&& final(self).next_slot() == old(self).next_slot()
                },
            },
    {
        let members = self.registry.snapshot(name);
        if members.len() == 0 {
            return Err(SendError::Unreachable);
        }
        if self.next_slot == u64::MAX {
            return Err(SendError::RegistryFault);
        }
        let slot = self.next_slot;
        self.next_slot = slot + 1;
        proof {
            if old(self).wf() {
                assert forall|n: usize| (#[trigger] self.members(n)).no_duplicates() by {
                    assert(old(self).members(n).no_duplicates());
                }
            }
        }
        Ok(Delivery { target: members[0], message: question, reply_slot: Some(slot) })
    }

    /// Plans a question to every member of the group `name`, each copy with a
    /// fresh reply slot of its own. Fails with `Unreachable` if the group is
    /// empty, and with `RegistryFault` if the slot numbers do not suffice;
    /// then no slot is used.
    pub fn ask_everyone(&mut self, name: usize, question: Envelope) -> (r: Result<
        Vec<Delivery>,
        SendError,
    >)
        ensures
            old(self).wf() ==> final(self).wf(),
            forall|n: usize| (#[trigger] final(self).members(n)) == old(self).members(n),
            match r {
                Ok(plan) => {
                    &&& ask_error(
                        old(self).members(name),
                        old(self).next_slot(),
                        old(self).members(name).len() as int,
                    ) is None
                    &&& plan_view(plan@) == ask_plan(
                        old(self).members(name),
                        question@,
                        old(self).next_slot(),
                    )
                    &&& final(self).next_slot() == old(self).next_slot() + old(self).members(name).len()
                },
                Err(e) => {
                    &&& ask_error(
                        old(self).members(name),
                        old(self).next_slot(),
                        old(self).members(name).len() as int,
                    ) == Some(e)
                    &&& final(self).next_slot() == old(self).next_slot()
                },
            },
    {
        let members = self.registry.snapshot(name);
        if members.len() == 0 {
            return Err(SendError::Unreachable);
        }
        let first = self.next_slot;
        if members.len() as u64 > u64::MAX - first {
            return Err(SendError::RegistryFault);
        }
        let mut plan: Vec<Delivery> = Vec::new();
        let mut i: usize = 0;
        while i < members.len()
            invariant
                i <= members.len(),
                first + members.len() <= u64::MAX,
                plan.len() == i,
                forall|j: int|
                    0 <= j < i ==> (#[trigger] plan@[j])@ == (
                        members@[j],
                        question@,
                        Some((first + j) as u64),
                    ),
            decreases members.len() - i,
        {
            let slot: u64 = first + i as u64;
            plan.push(Delivery { target: members[i], message: question.duplicate(), reply_slot: Some(slot) });
            i += 1;
        }
        self.next_slot = first + members.len() as u64;
        proof {
            if old(self).wf() {
                assert forall|n: usize| (#[trigger] self.members(n)).no_duplicates() by {
                    assert(old(self).members(n).no_duplicates());
                }
            }
        }
        assert(plan_view(plan@) =~= ask_plan(old(self).members(name), question@, first));
        Ok(plan)
    }
}

} // verus!
