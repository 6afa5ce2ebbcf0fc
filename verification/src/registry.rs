//! The subscriber registry: for each name handle, the endpoints that are
//! subscribed to it, in the order in which they subscribed.
use std::collections::HashMap;
use vstd::prelude::*;
use crate::envelope::Endpoint;
use crate::error::SendError;

verus! {

/// A group after `endpoint` subscribed: unchanged if it is a member already,
/// else with `endpoint` as its newest member.
pub open spec fn with_member(members: Seq<Endpoint>, endpoint: Endpoint) -> Seq<Endpoint> {
    if members.contains(endpoint) {
        members
    } else {
        members.push(endpoint)
    }
}

/// A group after `endpoint` unsubscribed: unchanged if it is no member, else
/// without it, the others in their order.
pub open spec fn without_member(members: Seq<Endpoint>, endpoint: Endpoint) -> Seq<Endpoint> {
    if members.contains(endpoint) {
        members.remove(members.index_of(endpoint))
    } else {
        members
    }
}

/// Who has left a group is no member of it, and nobody else has left.
pub proof fn lemma_without_member(members: Seq<Endpoint>, endpoint: Endpoint)
    requires
        members.no_duplicates(),
    ensures
        without_member(members, endpoint).no_duplicates(),
        !without_member(members, endpoint).contains(endpoint),
        forall|other: Endpoint|
            other != endpoint ==> ((#[trigger] without_member(members, endpoint).contains(other))
                <==> members.contains(other)),
{
    if members.contains(endpoint) {
        let i = members.index_of(endpoint);
        let rest = members.remove(i);
        assert forall|j: int| 0 <= j < rest.len() implies rest[j] == members[if j < i {
            j
        } else {
            j + 1
        }] by {}
        assert forall|other: Endpoint| other != endpoint && members.contains(other) implies rest.contains(
            other,
        ) by {
            let k = members.index_of(other);
            if k < i {
                assert(rest[k] == other);
            } else {
                assert(rest[k - 1] == other);
            }
        }
    }
}

/// Where `endpoint` stands in `group`, if it is a member.
fn position(group: &Vec<Endpoint>, endpoint: Endpoint) -> (found: Option<usize>)
    ensures
        match found {
            Some(i) => i < group.len() && group@[i as int] == endpoint,
            None => !group@.contains(endpoint),
        },
{
    let mut i: usize = 0;
    while i < group.len()
        invariant
            i <= group.len(),
            forall|j: int| 0 <= j < i ==> group@[j] != endpoint,
        decreases group.len() - i,
    {
        if group[i].id == endpoint.id {
            return Some(i);
        }
        i += 1;
    }
    None
}

/// The groups by name handle. A name that never had a subscriber is an empty
/// group, not an error.
pub struct Registry {
    groups: HashMap<usize, Vec<Endpoint>>,
}

impl Registry {
    /// The members of the group `name`, oldest subscription first.
    pub closed spec fn members(&self, name: usize) -> Seq<Endpoint> {
        if self.groups@.contains_key(name) {
            self.groups@[name]@
        } else {
            Seq::empty()
        }
    }

    /// No endpoint is in a group twice.
    pub open spec fn wf(&self) -> bool {
        forall|name: usize| (#[trigger] self.members(name)).no_duplicates()
    }

    /// A registry in which every group is empty.
    pub fn new() -> (registry: Registry)
        ensures
            registry.wf(),
            forall|name: usize| (#[trigger] registry.members(name)) == Seq::<Endpoint>::empty(),
    {
        Registry { groups: HashMap::new() }
    }

    /// Subscribes `endpoint` to the group `name`. Subscribing twice is the
    /// same as subscribing once; no other group changes.
    pub fn register(&mut self, name: usize, endpoint: Endpoint) -> (r: Result<(), SendError>)
        requires
            old(self).wf(),
        ensures
            final(self).wf(),
            r is Ok,
            final(self).members(name) == with_member(old(self).members(name), endpoint),
            forall|other: usize|
                other != name ==> (#[trigger] final(self).members(other)) == old(self).members(other),
    {
        broadcast use vstd::std_specs::hash::group_hash_axioms;

        let mut group = match self.groups.remove(&name) {
            Some(g) => g,
            None => Vec::new(),
        };
        assert(group@ == old(self).members(name));
        if position(&group, endpoint).is_none() {
            group.push(endpoint);
        }
        self.groups.insert(name, group);
        assert forall|other: usize| (#[trigger] self.members(other)).no_duplicates() by {
            assert(old(self).members(other).no_duplicates());
        }
        Ok(())
    }

    /// Takes `endpoint` out of the one group `name`.
    fn remove_from(&mut self, name: usize, endpoint: Endpoint)
        requires
            old(self).wf(),
        ensures
            final(self).wf(),
            final(self).members(name) == without_member(old(self).members(name), endpoint),
            forall|other: usize|
                other != name ==> (#[trigger] final(self).members(other)) == old(self).members(other),
    {
        broadcast use vstd::std_specs::hash::group_hash_axioms;

        proof {
            lemma_without_member(old(self).members(name), endpoint);
        }
        match self.groups.remove(&name) {
            Some(g) => {
                let mut group = g;
                assert(group@ == old(self).members(name));
                match position(&group, endpoint) {
                    Some(i) => {
                        assert(group@.index_of(endpoint) == i);
                        group.remove(i);
                    },
                    None => {},
                }
                self.groups.insert(name, group);
            },
            None => {},
        }
        assert forall|other: usize| (#[trigger] self.members(other)).no_duplicates() by {
            assert(old(self).members(other).no_duplicates());
        }
    }

    /// Unsubscribes `endpoint` from each of the groups `names`. A group that
    /// it is no member of stays as it is, and so does every group that is not
    /// listed.
    pub fn remove(&mut self, names: &Vec<usize>, endpoint: Endpoint) -> (r: Result<(), SendError>)
        requires
            old(self).wf(),
        ensures
            final(self).wf(),
            r is Ok,
            forall|name: usize|
                (#[trigger] final(self).members(name)) == if names@.contains(name) {
                    without_member(old(self).members(name), endpoint)
                } else {
                    old(self).members(name)
                },
    {
        let mut i: usize = 0;
        while i < names.len()
            invariant
                i <= names.len(),
                old(self).wf(),
                self.wf(),
                forall|name: usize|
                    (#[trigger] self.members(name)) == if names@.take(i as int).contains(name) {
                        without_member(old(self).members(name), endpoint)
                    } else {
                        old(self).members(name)
                    },
            decreases names.len() - i,
        {
            let ghost before = *self;
            let current = names[i];
            self.remove_from(current, endpoint);
            proof {
                let done = names@.take(i as int);
                let next = names@.take(i + 1);
                assert(next =~= done.push(current));
                assert(old(self).members(current).no_duplicates());
                lemma_without_member(old(self).members(current), endpoint);
                assert forall|name: usize|
                    (#[trigger] self.members(name)) == if next.contains(name) {
                        without_member(old(self).members(name), endpoint)
                    } else {
                        old(self).members(name)
                    } by {
                    if name == current {
                        assert(next[i as int] == current);
                        assert(self.members(name) == without_member(before.members(name), endpoint));
                    } else {
                        assert(self.members(name) == before.members(name));
                        if done.contains(name) {
                            let k = done.index_of(name);
                            assert(next[k] == name);
                        }
                        if next.contains(name) {
                            let k = next.index_of(name);
                            assert(k != i);
                            assert(done[k] == name);
                        }
                    }
                }
            }
            i += 1;
        }
        assert(names@.take(names.len() as int) =~= names@);
        Ok(())
    }

    /// The members of the group `name` at this moment, oldest first.
    pub fn snapshot(&self, name: usize) -> (members: Vec<Endpoint>)
        ensures
            members@ == self.members(name),
    {
        broadcast use vstd::std_specs::hash::group_hash_axioms;

        let mut members: Vec<Endpoint> = Vec::new();
        match self.groups.get(&name) {
            Some(group) => {
                let mut i: usize = 0;
                while i < group.len()
                    invariant
                        i <= group.len(),
                        members@ == group@.take(i as int),
                    decreases group.len() - i,
                {
                    members.push(group[i]);
                    i += 1;
                }
                assert(group@.take(group.len() as int) =~= group@);
            },
            None => {},
        }
        members
    }
}

} // verus!
