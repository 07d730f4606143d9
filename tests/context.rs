use std::cell::Cell;
use std::rc::Rc;

use context_rs::{
    get_value, request_ref_from_context, take_value, with_ref, Computation, Demand, Frame, Poll,
    ProvideRef, ProvideValue, ProviderFutExt, ProviderWaker, TypeKey,
};

const INT: TypeKey = 1;
const TEXT: TypeKey = 2;
const BYTES: TypeKey = 3;
const UNIT: TypeKey = 4;

/// Polls `c` once, with a fresh handle, and returns its result if it finished.
fn now_or_never<V, C: Computation<V, Waker = ()>>(c: &mut C) -> Option<C::Output> {
    let mut cx = ProviderWaker::new(&());
    match c.poll(&mut cx) {
        Poll::Ready(out) => Some(out),
        Poll::Pending => None,
    }
}

struct SumTwice;

impl Computation<i32> for SumTwice {
    type Waker = ();

    type Output = i32;

    fn poll<'a>(&mut self, cx: &mut ProviderWaker<'a, (), i32>) -> Poll<i32>
    where
        Self: 'a,
    {
        // works once
        let num1 = get_value(cx, INT).unwrap();
        // works again
        let num2 = get_value(cx, INT).unwrap();
        Poll::Ready(num1 + num2)
    }
}

#[test]
fn ctx_get_value() {
    let value = 123;
    let val = now_or_never(&mut SumTwice.provide_ref(INT, &value)).unwrap();

    assert_eq!(val, 246);
}

struct UpperAndLen;

impl Computation<&'static str> for UpperAndLen {
    type Waker = ();

    type Output = String;

    fn poll<'a>(&mut self, cx: &mut ProviderWaker<'a, (), &'static str>) -> Poll<String>
    where
        Self: 'a,
    {
        // works once
        let upper = with_ref(cx, TEXT, |s: &&str| s.to_uppercase()).unwrap();
        // works again
        let len = with_ref(cx, TEXT, |s: &&str| s.len()).unwrap();
        Poll::Ready(format!("{upper}{len}"))
    }
}

#[test]
fn ctx_with_ref() {
    let val = now_or_never(&mut UpperAndLen.provide_ref(TEXT, &"foo")).unwrap();

    assert_eq!(val, "FOO3");
}

/// Yields twice: once waking through the handle it was polled with, once
/// through a clone of it.
struct YieldTwice {
    polls: u32,
}

impl<V> Computation<V> for YieldTwice {
    type Waker = Rc<Cell<u32>>;

    type Output = u32;

    fn poll<'a>(&mut self, cx: &mut ProviderWaker<'a, Rc<Cell<u32>>, V>) -> Poll<u32>
    where
        Self: 'a,
    {
        self.polls += 1;
        match self.polls {
            1 => {
                let waker = cx.waker();
                waker.set(waker.get() + 1);
                Poll::Pending
            }
            2 => {
                let waker = cx.clone_waker();
                waker.set(waker.get() + 1);
                Poll::Pending
            }
            n => Poll::Ready(n),
        }
    }
}

#[test]
fn waker_works() {
    let wakes = Rc::new(Cell::new(0u32));
    let unit = ();
    let mut fut = YieldTwice { polls: 0 }.provide_ref(UNIT, &unit);
    let mut rounds = 0;
    let out = loop {
        rounds += 1;
        let mut cx = ProviderWaker::new(&wakes);
        match fut.poll(&mut cx) {
            Poll::Ready(n) => break n,
            Poll::Pending => assert_eq!(wakes.get(), rounds),
        }
    };
    assert_eq!(out, 3);
    assert_eq!(wakes.get(), 2);
}

#[test]
fn waking_reaches_scheduler_handle() {
    let handle = Rc::new(Cell::new(0u32));
    let value = 5;
    let mut cx: ProviderWaker<Rc<Cell<u32>>, i32> = ProviderWaker::new(&handle);
    cx.push(Frame::by_ref(INT, &value));
    cx.push(Frame::by_value(INT, 6));
    assert!(std::ptr::eq(cx.waker(), &handle));
    cx.waker().set(1);
    assert_eq!(handle.get(), 1);
    let plain = cx.clone_waker();
    plain.set(2);
    assert_eq!(handle.get(), 2);
    assert_eq!(Rc::strong_count(&handle), 2);
}

#[test]
fn injected_ref_seen_directly() {
    let value = 41;
    let mut fut = SumTwice.provide_ref(INT, &value);
    assert_eq!(now_or_never(&mut fut), Some(82));
    // the link is rebuilt on the next poll
    assert_eq!(now_or_never(&mut fut), Some(82));
}

struct ReadInt;

impl Computation<i32> for ReadInt {
    type Waker = ();

    type Output = Option<i32>;

    fn poll<'a>(&mut self, cx: &mut ProviderWaker<'a, (), i32>) -> Poll<Option<i32>>
    where
        Self: 'a,
    {
        Poll::Ready(get_value(cx, INT))
    }
}

#[test]
fn nearest_ref_shadows_outer() {
    let outer = 1;
    let inner = 2;
    let mut fut = ReadInt.provide_ref(INT, &inner).provide_ref(INT, &outer);
    assert_eq!(now_or_never(&mut fut), Some(Some(2)));
    let mut only_outer = ReadInt.provide_ref(INT, &outer);
    assert_eq!(now_or_never(&mut only_outer), Some(Some(1)));
}

/// Takes the `i32` under INT once per poll, and finishes on the third poll.
struct TakeEachPoll {
    seen: Vec<Option<i32>>,
}

impl Computation<i32> for TakeEachPoll {
    type Waker = ();

    type Output = Vec<Option<i32>>;

    fn poll<'a>(&mut self, cx: &mut ProviderWaker<'a, (), i32>) -> Poll<Vec<Option<i32>>>
    where
        Self: 'a,
    {
        self.seen.push(take_value(cx, INT));
        if self.seen.len() < 3 {
            Poll::Pending
        } else {
            Poll::Ready(self.seen.clone())
        }
    }
}

#[test]
fn value_taken_exactly_once() {
    let other = 9;
    let mut fut = TakeEachPoll { seen: Vec::new() }
        .provide_ref(BYTES, &other)
        .provide_value(INT, 7);
    assert_eq!(now_or_never(&mut fut), None);
    assert_eq!(now_or_never(&mut fut), None);
    assert_eq!(now_or_never(&mut fut), Some(vec![Some(7), None, None]));
}

struct TakeThrice;

impl<V> Computation<V> for TakeThrice {
    type Waker = ();

    type Output = (Option<V>, Option<V>, Option<V>);

    fn poll<'a>(&mut self, cx: &mut ProviderWaker<'a, (), V>) -> Poll<Self::Output>
    where
        Self: 'a,
    {
        let first = take_value(cx, TEXT);
        let second = take_value(cx, TEXT);
        let third = take_value(cx, TEXT);
        Poll::Ready((first, second, third))
    }
}

#[test]
fn stacked_values_taken_nearest_first() {
    let mut fut = TakeThrice
        .provide_value(TEXT, String::from("b"))
        .provide_value(TEXT, String::from("a"));
    let got = now_or_never(&mut fut).unwrap();
    assert_eq!(got, (Some(String::from("b")), Some(String::from("a")), None));
}

#[test]
fn owned_strs_taken_inner_first() {
    let mut fut = TakeThrice.provide_value(TEXT, "World").provide_value(TEXT, "Hello");
    let got = now_or_never(&mut fut).unwrap();
    assert_eq!(got, (Some("World"), Some("Hello"), None));
}

#[test]
fn nothing_injected_gives_none() {
    let mut cx: ProviderWaker<(), i32> = ProviderWaker::new(&());
    assert_eq!(get_value(&cx, INT), None);
    assert_eq!(with_ref(&cx, INT, |v: &i32| *v + 1), None);
    assert_eq!(take_value(&mut cx, INT), None);
    assert!(request_ref_from_context(&cx, INT).is_none());

    let other = 3;
    cx.push(Frame::by_ref(TEXT, &other));
    assert_eq!(get_value(&cx, INT), None);
    assert_eq!(take_value(&mut cx, INT), None);
    assert_eq!(get_value(&cx, TEXT), Some(3));
    assert_eq!(cx.depth(), 1);
}

#[test]
fn ref_and_value_answer_their_own_demands() {
    let lent = 10;
    let mut cx: ProviderWaker<(), i32> = ProviderWaker::new(&());
    cx.push(Frame::by_ref(INT, &lent));
    cx.push(Frame::by_value(INT, 20));
    // a borrow is not taken, and an owned value is not borrowed
    assert_eq!(get_value(&cx, INT), Some(10));
    assert_eq!(take_value(&mut cx, INT), Some(20));
    assert_eq!(take_value(&mut cx, INT), None);
    assert_eq!(get_value(&cx, INT), Some(10));
    assert_eq!(cx.depth(), 2);
}

/// Waits one poll, then reads the `i32` under INT.
struct ReadOnSecondPoll {
    polled: bool,
}

impl Computation<i32> for ReadOnSecondPoll {
    type Waker = ();

    type Output = Option<i32>;

    fn poll<'a>(&mut self, cx: &mut ProviderWaker<'a, (), i32>) -> Poll<Option<i32>>
    where
        Self: 'a,
    {
        if self.polled {
            Poll::Ready(get_value(cx, INT))
        } else {
            self.polled = true;
            Poll::Pending
        }
    }
}

#[test]
fn poll_leaves_chain_as_found() {
    let outer = 1;
    let inner = 2;
    let mut cx: ProviderWaker<(), i32> = ProviderWaker::new(&());
    cx.push(Frame::by_ref(INT, &outer));
    {
        let mut fut = ReadOnSecondPoll { polled: false }.provide_ref(INT, &inner);
        assert_eq!(fut.poll(&mut cx), Poll::Pending);
        assert_eq!(cx.depth(), 1);
        // dropped before it finished
    }
    let mut unrelated = ReadOnSecondPoll { polled: true };
    assert_eq!(unrelated.poll(&mut cx), Poll::Ready(Some(1)));
    assert_eq!(cx.depth(), 1);
}

#[derive(Clone, Debug, PartialEq)]
enum Val {
    Num(usize),
    Text(String),
    Bytes(Vec<u8>),
}

struct ReadAll;

impl Computation<Val> for ReadAll {
    type Waker = ();

    type Output = (Option<Val>, Option<Val>, Option<Val>);

    fn poll<'a>(&mut self, cx: &mut ProviderWaker<'a, (), Val>) -> Poll<Self::Output>
    where
        Self: 'a,
    {
        Poll::Ready((get_value(cx, INT), get_value(cx, TEXT), get_value(cx, BYTES)))
    }
}

#[test]
fn chain_of_three_types() {
    let num = Val::Num(123);
    let text = Val::Text(String::from("hello"));
    let bytes = Val::Bytes(vec![1, 2, 3, 4]);
    let mut fut = ReadAll
        .provide_ref(BYTES, &bytes)
        .provide_ref(TEXT, &text)
        .provide_ref(INT, &num);
    let got = now_or_never(&mut fut).unwrap();
    assert_eq!(
        got,
        (
            Some(Val::Num(123)),
            Some(Val::Text(String::from("hello"))),
            Some(Val::Bytes(vec![1, 2, 3, 4]))
        )
    );
}

#[test]
fn demand_answered_at_most_once() {
    let first = 1;
    let second = 2;
    let mut demand: Demand<i32> = Demand::by_ref(INT);
    assert!(!demand.is_satisfied());
    ProvideRef(&first).provide(TEXT, &mut demand);
    assert!(!demand.is_satisfied());
    ProvideRef(&first).provide(INT, &mut demand);
    ProvideRef(&second).provide(INT, &mut demand);
    assert_eq!(demand.key(), INT);
    assert_eq!(demand.into_ref(), Some(&1));

    let mut slot = ProvideValue::new(5);
    let mut wrong_form: Demand<i32> = Demand::by_ref(INT);
    slot.provide(INT, &mut wrong_form);
    assert!(!wrong_form.is_satisfied());
    let mut demand: Demand<i32> = Demand::by_value(INT);
    slot.provide(INT, &mut demand);
    assert_eq!(slot.0, None);
    assert_eq!(demand.into_value(), Some(5));
    let mut again: Demand<i32> = Demand::by_value(INT);
    slot.provide(INT, &mut again);
    assert_eq!(again.into_value(), None);
}

#[test]
fn lent_link_copies_and_moves() {
    let lent = 4;
    let mut by_ref = Frame::by_ref(INT, &lent);
    let copy = by_ref.lend();
    assert_eq!(copy.key, INT);
    let mut cx: ProviderWaker<(), i32> = ProviderWaker::new(&());
    cx.push(copy);
    cx.push(by_ref.lend());
    assert_eq!(get_value(&cx, INT), Some(4));
    assert!(cx.pop().is_some());
    assert!(cx.pop().is_some());
    assert!(cx.pop().is_none());

    let mut owned = Frame::by_value(INT, 8);
    let moved = owned.lend();
    cx.push(owned);
    assert_eq!(take_value(&mut cx, INT), None);
    cx.push(moved);
    assert_eq!(take_value(&mut cx, INT), Some(8));
}
