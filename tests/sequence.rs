use actix_mock_helper::{DispatchError, Envelope, MockActorSequence, SequenceDispatcher};
use std::cell::Cell;
use std::rc::Rc;

const MSG1: u64 = 1;
const MSG2: u64 = 2;
const UNKNOWN: u64 = 3;

#[derive(Debug, PartialEq)]
enum Payload {
    Msg1,
    Msg2,
    Unknown,
}

#[derive(Debug, PartialEq)]
enum Reply {
    Int(i32),
    Bool(bool),
}

type Callback = Box<dyn FnOnce(Payload) -> Reply>;

fn cb(f: impl FnOnce(Payload) -> Reply + 'static) -> Callback {
    Box::new(f)
}

fn send(d: &mut SequenceDispatcher<Callback>, kind: u64, payload: Payload) -> Result<Reply, DispatchError> {
    d.dispatch(Envelope { kind, payload })
}

fn msg1() -> (u64, Payload) {
    (MSG1, Payload::Msg1)
}

fn msg2() -> (u64, Payload) {
    (MSG2, Payload::Msg2)
}

fn deliver(d: &mut SequenceDispatcher<Callback>, m: (u64, Payload)) -> Result<Reply, DispatchError> {
    send(d, m.0, m.1)
}

fn counting(counter: &Rc<Cell<u32>>, reply: i32) -> Callback {
    let c = counter.clone();
    cb(move |_m| {
        c.set(c.get() + 1);
        Reply::Int(reply)
    })
}

#[test]
fn can_mock_sequence() {
    let mut d = MockActorSequence::new()
        .msg(MSG1, cb(|_m| Reply::Int(5)))
        .msg(MSG2, cb(|_m| Reply::Bool(true)))
        .msg(MSG1, cb(|_m| Reply::Int(42)))
        .build();

    assert_eq!(deliver(&mut d, msg1()).unwrap(), Reply::Int(5));
    assert_eq!(deliver(&mut d, msg2()).unwrap(), Reply::Bool(true));
    assert_eq!(deliver(&mut d, msg1()).unwrap(), Reply::Int(42));
    assert!(deliver(&mut d, msg2()).is_err());
}

#[test]
fn message_type_must_match() {
    let mut d = MockActorSequence::new().msg(MSG1, cb(|_m| Reply::Int(5))).build();

    assert!(send(&mut d, UNKNOWN, Payload::Unknown).is_err());
}

#[test]
fn simple_works() {
    let mut d = MockActorSequence::new().msg(MSG1, cb(|_m| Reply::Int(5))).build();

    assert_eq!(deliver(&mut d, msg1()).unwrap(), Reply::Int(5));
}

#[test]
fn three_expectations_then_exhausted() {
    let mut d = MockActorSequence::new()
        .msg(MSG1, cb(|_m| Reply::Int(5)))
        .msg(MSG2, cb(|_m| Reply::Bool(true)))
        .msg(MSG1, cb(|_m| Reply::Int(42)))
        .build();

    assert_eq!(deliver(&mut d, msg1()), Ok(Reply::Int(5)));
    assert_eq!(deliver(&mut d, msg2()), Ok(Reply::Bool(true)));
    assert_eq!(deliver(&mut d, msg1()), Ok(Reply::Int(42)));
    assert_eq!(deliver(&mut d, msg2()), Err(DispatchError::SequenceExhausted));
}

#[test]
fn unrelated_type_is_a_mismatch_and_callback_not_run() {
    let counter = Rc::new(Cell::new(0));
    let mut d = MockActorSequence::new().msg(MSG1, counting(&counter, 5)).build();

    assert_eq!(send(&mut d, UNKNOWN, Payload::Unknown), Err(DispatchError::TypeMismatch));
    assert_eq!(counter.get(), 0);
    assert_eq!(d.current(), 0);
}

#[test]
fn second_delivery_after_single_expectation_is_exhausted() {
    let mut d = MockActorSequence::new().msg(MSG1, cb(|_m| Reply::Int(5))).build();

    assert_eq!(deliver(&mut d, msg1()), Ok(Reply::Int(5)));
    assert_eq!(deliver(&mut d, msg1()), Err(DispatchError::SequenceExhausted));
}

#[test]
fn empty_sequence_is_exhausted_at_once() {
    let mut d: SequenceDispatcher<Callback> = MockActorSequence::new().build();

    assert_eq!(d.len(), 0);
    assert_eq!(deliver(&mut d, msg1()), Err(DispatchError::SequenceExhausted));
    assert_eq!(send(&mut d, UNKNOWN, Payload::Unknown), Err(DispatchError::SequenceExhausted));
}

#[test]
fn mismatch_keeps_the_expectation_for_a_later_match() {
    let mut d = MockActorSequence::new().msg(MSG1, cb(|_m| Reply::Int(5))).build();

    assert_eq!(deliver(&mut d, msg2()), Err(DispatchError::TypeMismatch));
    assert_eq!(deliver(&mut d, msg1()), Ok(Reply::Int(5)));
    assert_eq!(d.current(), 1);
}

#[test]
fn callback_sees_the_delivered_payload() {
    let mut d = MockActorSequence::new()
        .msg(MSG1, cb(|m| Reply::Bool(m == Payload::Msg1)))
        .build();

    assert_eq!(deliver(&mut d, msg1()), Ok(Reply::Bool(true)));
}

#[test]
fn each_callback_runs_exactly_once() {
    let first = Rc::new(Cell::new(0));
    let second = Rc::new(Cell::new(0));
    let mut d = MockActorSequence::new()
        .msg(MSG1, counting(&first, 1))
        .msg(MSG1, counting(&second, 2))
        .build();

    assert_eq!(deliver(&mut d, msg1()), Ok(Reply::Int(1)));
    assert_eq!(deliver(&mut d, msg1()), Ok(Reply::Int(2)));
    assert_eq!(deliver(&mut d, msg1()), Err(DispatchError::SequenceExhausted));
    assert_eq!(first.get(), 1);
    assert_eq!(second.get(), 1);
}

#[test]
fn cursor_moves_by_one_per_success_only() {
    let mut d = MockActorSequence::new()
        .msg(MSG1, cb(|_m| Reply::Int(1)))
        .msg(MSG2, cb(|_m| Reply::Bool(false)))
        .build();

    assert_eq!(d.len(), 2);
    assert_eq!(d.current(), 0);
    assert!(deliver(&mut d, msg1()).is_ok());
    assert_eq!(d.current(), 1);
    assert!(deliver(&mut d, msg1()).is_err());
    assert_eq!(d.current(), 1);
    assert!(deliver(&mut d, msg2()).is_ok());
    assert_eq!(d.current(), 2);
    assert!(deliver(&mut d, msg2()).is_err());
    assert_eq!(d.current(), 2);
}
