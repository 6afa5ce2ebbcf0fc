use std::time::Duration;

use distributor::dispatcher::{Delivery, Dispatcher};
use distributor::distributor::{Distributor, System};
use distributor::envelope::{Endpoint, Envelope};
use distributor::error::SendError;
use distributor::interner::Interner;
use distributor::registry::Registry;
use distributor::request::{Conduit, Event, Outcome, Phase, Request, Step};

const TAG_TEXT: u64 = 10;
const TAG_BYTE: u64 = 11;

fn text(s: &str) -> Envelope {
    Envelope::new(TAG_TEXT, s.as_bytes().to_vec())
}

fn group_of(system: &mut System, name: &str, ids: &[u64]) -> Distributor {
    let group = Distributor::named(system, name).unwrap();
    for id in ids {
        group.subscribe(system, Endpoint { id: *id }).unwrap();
    }
    group
}

fn awaiting(timeout: Option<Duration>, conduit: Conduit) -> Request {
    let mut request = Request::new(TAG_BYTE, timeout, conduit);
    let question = Delivery { target: Endpoint { id: 1 }, message: text("Q"), reply_slot: Some(0) };
    assert!(matches!(request.start(Ok(question)), Step::Await { .. }));
    request
}

#[test]
fn same_name_same_distributor() {
    let mut system = System::new();
    let a = Distributor::named(&mut system, "alpha").unwrap();
    let b = Distributor::named(&mut system, "beta").unwrap();
    let a_again = Distributor::named(&mut system, "alpha").unwrap();
    assert_eq!(a, a_again);
    assert_ne!(a, b);
    assert_eq!(a.clone(), a);
}

#[test]
fn handles_are_positions_in_order_of_interning() {
    let mut system = System::new();
    let a = Distributor::named(&mut system, "alpha").unwrap();
    let b = Distributor::named(&mut system, "beta").unwrap();
    let empty = Distributor::named(&mut system, "").unwrap();
    let b_again = Distributor::named(&mut system, "beta").unwrap();
    assert_eq!(a.interned(), 0);
    assert_eq!(b.interned(), 1);
    assert_eq!(empty.interned(), 2);
    assert_eq!(b_again.interned(), 1);
}

#[test]
fn interner_gives_each_name_one_handle() {
    let mut interner = Interner::new();
    assert_eq!(interner.intern("x"), Ok(0));
    assert_eq!(interner.intern("y"), Ok(1));
    assert_eq!(interner.intern("x"), Ok(0));
    assert_eq!(interner.intern("X"), Ok(2));
}

#[test]
fn tell_one_on_empty_group_is_unreachable() {
    let mut system = System::new();
    let h = Distributor::named(&mut system, "H").unwrap();
    assert_eq!(h.tell_one(&system, text("anything")), Err(SendError::Unreachable));
    assert_eq!(h.tell_everyone(&system, text("anything")), Err(SendError::Unreachable));
    assert_eq!(h.ask_one(&mut system, text("anything")), Err(SendError::Unreachable));
    assert_eq!(h.ask_everyone(&mut system, text("anything")), Err(SendError::Unreachable));
}

#[test]
fn subscriber_receives_exactly_one_copy() {
    let mut system = System::new();
    let e = Endpoint { id: 9 };
    let group = group_of(&mut system, "solo", &[9]);
    let delivery = group.tell_one(&system, text("hello")).unwrap();
    assert_eq!(delivery, Delivery { target: e, message: text("hello"), reply_slot: None });
    let plan = group.tell_everyone(&system, text("hello")).unwrap();
    assert_eq!(plan, vec![Delivery { target: e, message: text("hello"), reply_slot: None }]);
}

#[test]
fn tell_one_goes_to_the_oldest_subscriber() {
    let mut system = System::new();
    let group = group_of(&mut system, "many", &[4, 2, 8]);
    assert_eq!(group.tell_one(&system, text("m")).unwrap().target, Endpoint { id: 4 });
    group.unsubscribe(&mut system, Endpoint { id: 4 }).unwrap();
    assert_eq!(group.tell_one(&system, text("m")).unwrap().target, Endpoint { id: 2 });
}

#[test]
fn unsubscribing_the_sole_subscriber_empties_the_group() {
    let mut system = System::new();
    let temp = Distributor::named(&mut system, "temp").unwrap();
    let e = Endpoint { id: 1 };
    assert_eq!(temp.subscribe(&mut system, e), Ok(()));
    assert!(temp.tell_one(&system, text("hi")).is_ok());
    assert_eq!(temp.unsubscribe(&mut system, e), Ok(()));
    assert_eq!(temp.tell_one(&system, text("hi")), Err(SendError::Unreachable));
}

#[test]
fn subscribing_twice_is_subscribing_once() {
    let mut system = System::new();
    let group = group_of(&mut system, "twice", &[3, 3, 5, 3]);
    let plan = group.tell_everyone(&system, text("m")).unwrap();
    let targets: Vec<u64> = plan.iter().map(|d| d.target.id).collect();
    assert_eq!(targets, vec![3, 5]);
}

#[test]
fn unsubscribe_leaves_other_groups_alone() {
    let mut system = System::new();
    let a = group_of(&mut system, "a", &[1, 2]);
    let b = group_of(&mut system, "b", &[1, 2]);
    a.unsubscribe(&mut system, Endpoint { id: 1 }).unwrap();
    a.unsubscribe(&mut system, Endpoint { id: 7 }).unwrap();
    let in_a: Vec<u64> = a.tell_everyone(&system, text("m")).unwrap().iter().map(|d| d.target.id).collect();
    let in_b: Vec<u64> = b.tell_everyone(&system, text("m")).unwrap().iter().map(|d| d.target.id).collect();
    assert_eq!(in_a, vec![2]);
    assert_eq!(in_b, vec![1, 2]);
}

#[test]
fn registry_removes_from_every_listed_group() {
    let mut registry = Registry::new();
    let e = Endpoint { id: 1 };
    let f = Endpoint { id: 2 };
    for name in 0..3 {
        registry.register(name, e).unwrap();
        registry.register(name, f).unwrap();
    }
    assert_eq!(registry.remove(&vec![0, 2, 2, 9], e), Ok(()));
    assert_eq!(registry.snapshot(0), vec![f]);
    assert_eq!(registry.snapshot(1), vec![e, f]);
    assert_eq!(registry.snapshot(2), vec![f]);
    assert_eq!(registry.snapshot(9), vec![]);
    assert_eq!(registry.remove(&vec![], f), Ok(()));
    assert_eq!(registry.snapshot(1), vec![e, f]);
}

#[test]
fn tell_everyone_gives_each_subscriber_one_copy() {
    let mut system = System::new();
    let ids = [11, 12, 13, 14];
    let group = group_of(&mut system, "all", &ids);
    let plan = group.tell_everyone(&system, text("news")).unwrap();
    assert_eq!(plan.len(), 4);
    for (i, delivery) in plan.iter().enumerate() {
        assert_eq!(delivery.target, Endpoint { id: ids[i] });
        assert_eq!(delivery.message, text("news"));
        assert_eq!(delivery.reply_slot, None);
    }
}

#[test]
fn ask_everyone_gives_each_subscriber_its_own_slot() {
    let mut system = System::new();
    let group = group_of(&mut system, "G", &[1, 2, 3, 4, 5]);
    let first = group.ask_one(&mut system, text("Q")).unwrap();
    assert_eq!(first, Delivery { target: Endpoint { id: 1 }, message: text("Q"), reply_slot: Some(0) });
    let plan = group.ask_everyone(&mut system, text("Q")).unwrap();
    let slots: Vec<Option<u64>> = plan.iter().map(|d| d.reply_slot).collect();
    assert_eq!(slots, vec![Some(1), Some(2), Some(3), Some(4), Some(5)]);
    let targets: Vec<u64> = plan.iter().map(|d| d.target.id).collect();
    assert_eq!(targets, vec![1, 2, 3, 4, 5]);
    let next = group.ask_one(&mut system, text("Q")).unwrap();
    assert_eq!(next.reply_slot, Some(6));

    let replies: Vec<Envelope> = plan.iter().map(|_| Envelope::new(TAG_BYTE, vec![42])).collect();
    let mut sum: u32 = 0;
    for reply in replies {
        sum += u32::from(reply.interpret(TAG_BYTE).unwrap()[0]);
    }
    assert_eq!(sum, 210);
}

#[test]
fn asking_without_a_free_slot_is_a_registry_fault() {
    let mut system = System { interner: Interner::new(), dispatcher: Dispatcher::with_first_slot(u64::MAX - 2) };
    let group = group_of(&mut system, "full", &[1, 2, 3]);
    assert_eq!(group.ask_everyone(&mut system, text("Q")), Err(SendError::RegistryFault));
    assert_eq!(group.ask_one(&mut system, text("Q")).unwrap().reply_slot, Some(u64::MAX - 2));
    assert_eq!(group.ask_one(&mut system, text("Q")).unwrap().reply_slot, Some(u64::MAX - 1));
    assert_eq!(group.ask_one(&mut system, text("Q")), Err(SendError::RegistryFault));
    let (request, step) = group.request(&mut system, text("Q"), TAG_BYTE);
    assert_eq!(request.phase, Phase::Delivered { by: Outcome::AskFailed });
    assert_eq!(step, Step::Deliver { result: Err(SendError::RegistryFault) });
    assert!(group.tell_one(&system, text("m")).is_ok());
}

#[test]
fn request_on_empty_group_fails_without_waiting() {
    let mut system = System::new();
    let group = Distributor::named(&mut system, "nobody").unwrap();
    let (mut request, step) = group.request_timeout(&mut system, text("Q"), TAG_BYTE, Duration::from_secs(1));
    assert_eq!(step, Step::Deliver { result: Err(SendError::Unreachable) });
    assert_eq!(request.phase, Phase::Delivered { by: Outcome::AskFailed });
    assert_eq!(request.on_event(Event::TimerElapsed), Step::Nothing);
    assert_eq!(request.phase, Phase::Delivered { by: Outcome::AskFailed });
}

#[test]
fn request_variants_differ_in_timer_and_conduit() {
    let mut system = System::new();
    let group = group_of(&mut system, "one", &[1]);
    let (plain, step) = group.request(&mut system, text("Q"), TAG_BYTE);
    assert_eq!(plain, Request { expected: TAG_BYTE, timeout: None, conduit: Conduit::Awaited, phase: Phase::AskSent });
    assert_eq!(
        step,
        Step::Await {
            delivery: Delivery { target: Endpoint { id: 1 }, message: text("Q"), reply_slot: Some(0) },
            timeout: None,
        }
    );
    let (sync, _) = group.request_sync(&mut system, text("Q"), TAG_BYTE);
    assert_eq!(sync, Request { expected: TAG_BYTE, timeout: None, conduit: Conduit::Blocking, phase: Phase::AskSent });
    let t = Duration::from_millis(10);
    let (timed, step) = group.request_timeout(&mut system, text("Q"), TAG_BYTE, t);
    assert_eq!(timed, Request { expected: TAG_BYTE, timeout: Some(t), conduit: Conduit::Awaited, phase: Phase::AskSent });
    assert_eq!(
        step,
        Step::Await {
            delivery: Delivery { target: Endpoint { id: 1 }, message: text("Q"), reply_slot: Some(2) },
            timeout: Some(t),
        }
    );
}

#[test]
fn timer_before_reply_is_a_timeout() {
    let mut request = awaiting(Some(Duration::from_nanos(1)), Conduit::Awaited);
    assert_eq!(request.on_event(Event::TimerElapsed), Step::Deliver { result: Err(SendError::Timeout) });
    assert_eq!(request.phase, Phase::Delivered { by: Outcome::TimedOut });
    let late = Event::Reply { envelope: Envelope::new(TAG_BYTE, vec![42]) };
    assert_eq!(request.on_event(late), Step::Nothing);
    assert_eq!(request.phase, Phase::Delivered { by: Outcome::TimedOut });
}

#[test]
fn reply_before_timer_is_the_reply() {
    let mut request = awaiting(Some(Duration::from_secs(5)), Conduit::Awaited);
    let reply = Event::Reply { envelope: Envelope::new(TAG_BYTE, vec![42]) };
    assert_eq!(request.on_event(reply), Step::Deliver { result: Ok(vec![42]) });
    assert_eq!(request.phase, Phase::Delivered { by: Outcome::Replied });
    assert_eq!(request.on_event(Event::TimerElapsed), Step::Nothing);
}

#[test]
fn reply_of_the_wrong_type_is_a_mismatch() {
    let mut request = awaiting(None, Conduit::Awaited);
    let reply = Event::Reply { envelope: Envelope::new(TAG_TEXT, vec![42]) };
    assert_eq!(request.on_event(reply), Step::Deliver { result: Err(SendError::TypeMismatch) });
    assert_eq!(request.phase, Phase::Delivered { by: Outcome::Replied });
}

#[test]
fn dropped_reply_slot_is_a_failed_reply() {
    let mut request = awaiting(None, Conduit::Blocking);
    assert_eq!(request.on_event(Event::ReplyDropped), Step::Deliver { result: Err(SendError::ReplyFailed) });
    assert_eq!(request.on_event(Event::ReplyDropped), Step::Nothing);
}

#[test]
fn timer_means_nothing_to_a_request_without_one() {
    let mut request = awaiting(None, Conduit::Awaited);
    assert_eq!(request.on_event(Event::TimerElapsed), Step::Nothing);
    assert_eq!(request.phase, Phase::AskSent);
    let reply = Event::Reply { envelope: Envelope::new(TAG_BYTE, vec![7, 8]) };
    assert_eq!(request.on_event(reply), Step::Deliver { result: Ok(vec![7, 8]) });
}

#[test]
fn events_before_the_question_is_sent_are_dropped() {
    let mut request = Request::new(TAG_BYTE, None, Conduit::Awaited);
    assert_eq!(request.on_event(Event::ReplyDropped), Step::Nothing);
    assert_eq!(request.phase, Phase::Created);
    assert_eq!(request.start(Err(SendError::Unreachable)), Step::Deliver { result: Err(SendError::Unreachable) });
    assert_eq!(request.phase, Phase::Delivered { by: Outcome::AskFailed });
    let question = Delivery { target: Endpoint { id: 1 }, message: text("Q"), reply_slot: Some(0) };
    assert_eq!(request.start(Ok(question)), Step::Nothing);
}

#[test]
fn envelope_copies_and_readings() {
    let envelope = Envelope::new(TAG_TEXT, vec![1, 2, 3]);
    assert_eq!(envelope.duplicate(), envelope);
    assert_eq!(envelope.clone(), Envelope { type_tag: TAG_TEXT, payload: vec![1, 2, 3] });
    assert_eq!(envelope.duplicate().interpret(TAG_TEXT), Ok(vec![1, 2, 3]));
    assert_eq!(envelope.interpret(TAG_BYTE), Err(SendError::TypeMismatch));
    assert_eq!(Envelope::new(0, vec![]).duplicate(), Envelope::new(0, vec![]));
}
