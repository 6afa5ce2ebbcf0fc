use std::time::Duration;

use distributor::dispatcher::Delivery;
use distributor::distributor::{Distributor, System};
use distributor::envelope::{Endpoint, Envelope};
use distributor::error::SendError;
use distributor::request::{Event, Request, Step};

const TEST_DISTRIBUTOR: &str = "test distributor";
const SUBSCRIBE_TEST_DISTRIBUTOR: &str = "subscribe test";
const NUM_CHILDREN: u64 = 5;

const TAG_UNIT: u64 = 0;
const TAG_STR: u64 = 1;
const TAG_STRING: u64 = 2;
const TAG_U8: u64 = 3;
const TAG_CHILD_REF: u64 = 4;

/// How long a child takes to answer a `String` question.
const LATENCY: Duration = Duration::from_millis(10);

fn string_message(text: &str) -> Envelope {
    Envelope::new(TAG_STRING, text.as_bytes().to_vec())
}

fn str_message(text: &str) -> Envelope {
    Envelope::new(TAG_STR, text.as_bytes().to_vec())
}

/// What a child does with a delivery: it answers a `String` question with
/// 42 and a `()` question with a reference to itself.
fn child(delivery: &Delivery) -> Option<Envelope> {
    delivery.reply_slot?;
    if delivery.message.type_tag == TAG_STRING {
        Some(Envelope::new(TAG_U8, vec![42]))
    } else if delivery.message.type_tag == TAG_UNIT {
        Some(Envelope::new(TAG_CHILD_REF, delivery.target.id.to_le_bytes().to_vec()))
    } else {
        None
    }
}

/// Drives one request to its result, as a runtime would: the question goes
/// to the child, and the reply and the timer race.
fn drive(mut request: Request, step: Step) -> Result<Vec<u8>, SendError> {
    match step {
        Step::Deliver { result } => result,
        Step::Nothing => panic!("a new request has something to do"),
        Step::Await { delivery, timeout } => {
            let reply = match child(&delivery) {
                Some(envelope) => Event::Reply { envelope },
                None => Event::ReplyDropped,
            };
            let timer_first = matches!(timeout, Some(t) if t < LATENCY);
            let (first, second) = if timer_first {
                (Event::TimerElapsed, reply)
            } else {
                (reply, Event::TimerElapsed)
            };
            let result = match request.on_event(first) {
                Step::Deliver { result } => result,
                _ => panic!("the first event ends the wait"),
            };
            assert_eq!(request.on_event(second), Step::Nothing);
            result
        }
    }
}

fn as_u8(answer: Envelope) -> u8 {
    match answer.interpret(TAG_U8) {
        Ok(bytes) => bytes[0],
        Err(unknown) => panic!("unknown message\n {:?}", unknown),
    }
}

fn setup() -> System {
    let mut system = System::new();
    let test_distributor = Distributor::named(&mut system, TEST_DISTRIBUTOR).unwrap();
    for id in 1..=NUM_CHILDREN {
        test_distributor.subscribe(&mut system, Endpoint { id }).unwrap();
    }
    let subscribe_test = Distributor::named(&mut system, SUBSCRIBE_TEST_DISTRIBUTOR).unwrap();
    subscribe_test.subscribe(&mut system, Endpoint { id: NUM_CHILDREN + 1 }).unwrap();
    system
}

fn test_subscribe(system: &mut System) {
    let temp_distributor = Distributor::named(system, "temp distributor").unwrap();

    assert!(
        temp_distributor.tell_one(system, str_message("hello!")).is_err(),
        "should not be able to send message to an empty distributor"
    );

    let subscribe_test = Distributor::named(system, SUBSCRIBE_TEST_DISTRIBUTOR).unwrap();
    let (request, step) = subscribe_test.request(system, Envelope::new(TAG_UNIT, vec![]), TAG_CHILD_REF);
    let reply = drive(request, step).unwrap();
    let mut id = [0u8; 8];
    id.copy_from_slice(&reply);
    let one_child = Endpoint { id: u64::from_le_bytes(id) };
    assert_eq!(one_child, Endpoint { id: NUM_CHILDREN + 1 });
    temp_distributor.subscribe(system, one_child.clone()).unwrap();

    temp_distributor
        .tell_one(system, str_message("hello!"))
        .expect("should be able to send message a distributor that has a subscriber");

    temp_distributor.unsubscribe(system, one_child).unwrap();

    assert!(
        temp_distributor.tell_one(system, str_message("hello!")).is_err(),
        "should not be able to send message to a distributor who's sole subscriber unsubscribed"
    );
}

fn test_tell(system: &mut System) {
    let test_distributor = Distributor::named(system, TEST_DISTRIBUTOR).unwrap();

    test_distributor
        .tell_one(system, str_message("don't panic and carry a towel"))
        .unwrap();

    let sent = test_distributor
        .tell_everyone(system, str_message("so long, and thanks for all the fish"))
        .unwrap();

    assert_eq!(
        5,
        sent.len(),
        "test distributor is supposed to have 5 children"
    );
}

fn test_ask(system: &mut System) {
    let test_distributor = Distributor::named(system, TEST_DISTRIBUTOR).unwrap();

    let question = string_message("What is the answer to life, the universe and everything?");

    let answer = test_distributor.ask_one(system, question.clone()).unwrap();
    assert_eq!(42, as_u8(child(&answer).unwrap()));

    let answers = test_distributor.ask_everyone(system, question.clone()).unwrap();
    assert_eq!(
        5,
        answers.len(),
        "test distributor is supposed to have 5 children"
    );
    let meanings: Vec<u8> = answers
        .iter()
        .map(|answer| {
            let answer = as_u8(child(answer).unwrap());
            assert_eq!(42, answer);
            answer
        })
        .collect();

    assert_eq!(
        42 * 5,
        meanings.iter().sum::<u8>(),
        "5 children returning 42 should sum to 42 * 5"
    );
}

fn test_request(system: &mut System) {
    let test_distributor = Distributor::named(system, TEST_DISTRIBUTOR).unwrap();

    let question = string_message("What is the answer to life, the universe and everything?");

    let (request, step) = test_distributor.request(system, question.clone(), TAG_U8);
    let answer: u8 = drive(request, step).unwrap()[0];
    assert_eq!(42, answer);

    let (request, step) = test_distributor.request_sync(system, question.clone(), TAG_U8);
    let answer_sync: u8 = drive(request, step).unwrap()[0];
    assert_eq!(42, answer_sync);

    let timeout = Duration::from_millis(100);
    let (request, step) = test_distributor.request_timeout(system, question.clone(), TAG_U8, timeout);
    let answer_timeout: u8 = drive(request, step).unwrap()[0];
    assert_eq!(42, answer_timeout);

    let timeout = Duration::from_nanos(1);
    let (request, step) = test_distributor.request_timeout(system, question.clone(), TAG_U8, timeout);
    let answer_timeout: Result<Vec<u8>, SendError> = drive(request, step);
    let err_msg: SendError = answer_timeout.unwrap_err();
    assert!(matches!(err_msg, SendError::Timeout));
}

#[test]
fn distributor_tests() {
    let mut system = setup();

    test_tell(&mut system);
    test_ask(&mut system);
    test_request(&mut system);
    test_subscribe(&mut system);
}
