use actix_service::and_then::{ask_tail, call_tail, report_chain, Stage};
use actix_service::{
    err, ok, AndThen, AndThenNewService, NewService, Poll, Ready, Service, TryFuture,
};
use std::cell::{Cell, RefCell};
use std::rc::Rc;

struct Srv1(Rc<Cell<usize>>);

impl Service for Srv1 {
    type Request = &'static str;
    type Response = &'static str;
    type Error = ();
    type Future = Ready<&'static str, ()>;

    fn readied(&self, _: Self, _: Poll<Result<(), Self::Error>>) -> bool {
        true
    }

    fn called(&self, _: Self::Request, _: Self, _: Self::Future) -> bool {
        true
    }

    fn poll_ready(&mut self) -> Poll<Result<(), ()>> {
        self.0.set(self.0.get() + 1);
        Poll::Ready(Ok(()))
    }

    fn call(&mut self, req: &'static str) -> Self::Future {
        ok(req)
    }
}

#[derive(Clone)]
struct Srv2(Rc<Cell<usize>>);

impl Service for Srv2 {
    type Request = &'static str;
    type Response = (&'static str, &'static str);
    type Error = ();
    type Future = Ready<(&'static str, &'static str), ()>;

    fn readied(&self, _: Self, _: Poll<Result<(), Self::Error>>) -> bool {
        true
    }

    fn called(&self, _: Self::Request, _: Self, _: Self::Future) -> bool {
        true
    }

    fn poll_ready(&mut self) -> Poll<Result<(), ()>> {
        self.0.set(self.0.get() + 1);
        Poll::Ready(Ok(()))
    }

    fn call(&mut self, req: &'static str) -> Self::Future {
        ok((req, "srv2"))
    }
}

struct New1(Rc<Cell<usize>>);

impl NewService for New1 {
    type Request = &'static str;
    type Response = &'static str;
    type Error = ();
    type Config = ();
    type Service = Srv1;
    type InitError = ();
    type Future = Ready<Srv1, ()>;

    fn builds(&self, _: Self::Config, _: Self::Future) -> bool {
        true
    }

    fn new_service(&self, _: &()) -> Self::Future {
        ok(Srv1(self.0.clone()))
    }
}

struct New2(Rc<Cell<usize>>);

impl NewService for New2 {
    type Request = &'static str;
    type Response = (&'static str, &'static str);
    type Error = ();
    type Config = ();
    type Service = Srv2;
    type InitError = ();
    type Future = Ready<Srv2, ()>;

    fn builds(&self, _: Self::Config, _: Self::Future) -> bool {
        true
    }

    fn new_service(&self, _: &()) -> Self::Future {
        ok(Srv2(self.0.clone()))
    }
}

#[test]
fn and_then_test_poll_ready() {
    let cnt = Rc::new(Cell::new(0));
    let mut srv = AndThen::new(Srv1(cnt.clone()), Srv2(cnt.clone()));
    let res = srv.poll_ready();
    assert_eq!(res, Poll::Ready(Ok(())));
    assert_eq!(cnt.get(), 2);
}

#[test]
fn and_then_test_call() {
    let cnt = Rc::new(Cell::new(0));
    let mut srv = AndThen::new(Srv1(cnt.clone()), Srv2(cnt));
    let res = srv.call("srv1").try_poll();
    assert_eq!(res, Poll::Ready(Ok(("srv1", "srv2"))));
}

#[test]
fn and_then_test_new_service() {
    let cnt = Rc::new(Cell::new(0));
    let new_srv = AndThenNewService::new(New1(cnt.clone()), New2(cnt));
    if let Poll::Ready(Ok(mut srv)) = new_srv.new_service(&()).try_poll() {
        let res = srv.call("srv1").try_poll();
        assert_eq!(res, Poll::Ready(Ok(("srv1", "srv2"))));
    } else {
        panic!()
    }
}

#[test]
fn and_then_scenario_counter_and_echo() {
    let cnt = Rc::new(Cell::new(0));
    let mut srv = AndThen::new(Srv1(cnt.clone()), Srv2(cnt.clone()));
    assert_eq!(srv.poll_ready(), Poll::Ready(Ok(())));
    assert_eq!(cnt.get(), 2);
    assert_eq!(srv.call("x").try_poll(), Poll::Ready(Ok(("x", "srv2"))));
}

/// A computation that waits for a number of polls before it resolves.
struct Delayed<T, E> {
    polls_left: usize,
    polled: Rc<Cell<usize>>,
    outcome: Option<Result<T, E>>,
}

impl<T, E> Delayed<T, E> {
    fn new(polls_left: usize, polled: Rc<Cell<usize>>, outcome: Result<T, E>) -> Self {
        Delayed { polls_left, polled, outcome: Some(outcome) }
    }
}

impl<T, E> TryFuture for Delayed<T, E> {
    type Ok = T;
    type Error = E;

    fn live(&self) -> bool {
        true
    }

    fn polled(&self, _: Self, _: Poll<Result<Self::Ok, Self::Error>>) -> bool {
        true
    }

    fn try_poll(&mut self) -> Poll<Result<T, E>> {
        self.polled.set(self.polled.get() + 1);
        if self.polls_left > 0 {
            self.polls_left -= 1;
            Poll::Pending
        } else {
            Poll::Ready(self.outcome.take().expect("polled after it had resolved"))
        }
    }
}

/// A service whose readiness, outcome and delay are set by the test, and
/// which counts what is done to it.
#[derive(Clone)]
struct Stub {
    ready: Poll<Result<(), &'static str>>,
    outcome: Result<u32, &'static str>,
    delay: usize,
    checks: Rc<Cell<usize>>,
    calls: Rc<Cell<usize>>,
    polls: Rc<Cell<usize>>,
}

impl Stub {
    fn new(ready: Poll<Result<(), &'static str>>, outcome: Result<u32, &'static str>) -> Self {
        Stub {
            ready,
            outcome,
            delay: 0,
            checks: Rc::new(Cell::new(0)),
            calls: Rc::new(Cell::new(0)),
            polls: Rc::new(Cell::new(0)),
        }
    }

    fn delayed(mut self, delay: usize) -> Self {
        self.delay = delay;
        self
    }
}

impl Service for Stub {
    type Request = u32;
    type Response = u32;
    type Error = &'static str;
    type Future = Delayed<u32, &'static str>;

    fn readied(&self, _: Self, _: Poll<Result<(), Self::Error>>) -> bool {
        true
    }

    fn called(&self, _: Self::Request, _: Self, _: Self::Future) -> bool {
        true
    }

    fn poll_ready(&mut self) -> Poll<Result<(), &'static str>> {
        self.checks.set(self.checks.get() + 1);
        self.ready
    }

    fn call(&mut self, req: u32) -> Self::Future {
        self.calls.set(self.calls.get() + 1);
        Delayed::new(self.delay, self.polls.clone(), self.outcome.map(|v| v + req))
    }
}

const READY: Poll<Result<(), &'static str>> = Poll::Ready(Ok(()));
const PENDING: Poll<Result<(), &'static str>> = Poll::Pending;

fn failing(e: &'static str) -> Poll<Result<(), &'static str>> {
    Poll::Ready(Err(e))
}

fn chain_ready(
    head: Poll<Result<(), &'static str>>,
    tail: Poll<Result<(), &'static str>>,
) -> (Poll<Result<(), &'static str>>, usize, usize) {
    let a = Stub::new(head, Ok(0));
    let b = Stub::new(tail, Ok(0));
    let (checks_a, checks_b) = (a.checks.clone(), b.checks.clone());
    let mut srv = AndThen::new(a, b);
    (srv.poll_ready(), checks_a.get(), checks_b.get())
}

#[test]
fn and_then_ready_only_when_both_ready() {
    assert_eq!(chain_ready(READY, READY), (READY, 1, 1));
    assert_eq!(chain_ready(PENDING, READY), (PENDING, 1, 1));
    assert_eq!(chain_ready(READY, PENDING), (PENDING, 1, 1));
    assert_eq!(chain_ready(PENDING, PENDING), (PENDING, 1, 1));
}

#[test]
fn and_then_readiness_error_is_reported() {
    assert_eq!(chain_ready(failing("head"), READY), (failing("head"), 1, 1));
    assert_eq!(chain_ready(READY, failing("tail")), (failing("tail"), 1, 1));
    assert_eq!(chain_ready(PENDING, failing("tail")), (failing("tail"), 1, 1));
    assert_eq!(chain_ready(failing("head"), PENDING), (failing("head"), 1, 1));
    assert_eq!(chain_ready(failing("head"), failing("tail")), (failing("head"), 1, 1));
}

#[test]
fn and_then_call_resolves_to_outcome_of_tail() {
    let a = Stub::new(READY, Ok(10));
    let b = Stub::new(READY, Ok(100));
    let mut srv = AndThen::new(a, b);
    // the head adds 10 to the request, the tail 100 to the head's response
    assert_eq!(srv.call(1).try_poll(), Poll::Ready(Ok(111)));

    let a = Stub::new(READY, Ok(10));
    let b = Stub::new(READY, Err("tail failed"));
    let mut srv = AndThen::new(a, b);
    assert_eq!(srv.call(1).try_poll(), Poll::Ready(Err("tail failed")));
}

#[test]
fn and_then_head_failure_skips_tail() {
    let a = Stub::new(READY, Err("head failed"));
    let b = Stub::new(READY, Ok(100));
    let (calls_a, calls_b) = (a.calls.clone(), b.calls.clone());
    let mut srv = AndThen::new(a, b);
    let mut fut = srv.call(1);
    assert_eq!(calls_a.get(), 1);
    assert_eq!(fut.try_poll(), Poll::Ready(Err("head failed")));
    assert_eq!(calls_b.get(), 0);
}

#[test]
fn and_then_waits_for_each_stage_and_calls_tail_once() {
    let a = Stub::new(READY, Ok(10)).delayed(2);
    let b = Stub::new(READY, Ok(100)).delayed(3);
    let (calls_b, polls_a, polls_b) = (b.calls.clone(), a.polls.clone(), b.polls.clone());
    let mut srv = AndThen::new(a, b);
    let mut fut = srv.call(1);
    assert_eq!(calls_b.get(), 0);
    // two polls find the head waiting
    assert_eq!(fut.try_poll(), Poll::Pending);
    assert_eq!(fut.try_poll(), Poll::Pending);
    assert_eq!((polls_a.get(), calls_b.get()), (2, 0));
    // the third finds the head's response, calls the tail and polls its computation
    assert_eq!(fut.try_poll(), Poll::Pending);
    assert_eq!((polls_a.get(), calls_b.get(), polls_b.get()), (3, 1, 1));
    assert_eq!(fut.try_poll(), Poll::Pending);
    assert_eq!(fut.try_poll(), Poll::Pending);
    assert_eq!(fut.try_poll(), Poll::Ready(Ok(111)));
    assert_eq!((polls_a.get(), calls_b.get(), polls_b.get()), (3, 1, 4));
}

#[test]
fn and_then_each_call_calls_tail_once() {
    let a = Stub::new(READY, Ok(10));
    let b = Stub::new(READY, Ok(100));
    let calls_b = b.calls.clone();
    let mut srv = AndThen::new(a, b);
    assert_eq!(srv.call(1).try_poll(), Poll::Ready(Ok(111)));
    assert_eq!(calls_b.get(), 1);
    assert_eq!(srv.call(2).try_poll(), Poll::Ready(Ok(112)));
    assert_eq!(calls_b.get(), 2);
}

#[test]
fn and_then_clones_share_tail() {
    let a = Stub::new(READY, Ok(10));
    let b = Stub::new(READY, Ok(100));
    let (checks_a, checks_b, calls_b) = (a.checks.clone(), b.checks.clone(), b.calls.clone());
    let mut srv = AndThen::new(a, b);
    let mut other = srv.clone();
    assert_eq!(srv.poll_ready(), READY);
    assert_eq!(other.poll_ready(), READY);
    // the stubs count through shared counters: each stage was asked twice
    assert_eq!((checks_a.get(), checks_b.get()), (2, 2));
    assert_eq!(other.call(5).try_poll(), Poll::Ready(Ok(115)));
    assert_eq!(calls_b.get(), 1);
}

type Inner = AndThen<Echo, Reentrant>;

#[derive(Clone)]
struct Echo;

impl Service for Echo {
    type Request = u32;
    type Response = u32;
    type Error = ();
    type Future = Ready<u32, ()>;

    fn readied(&self, _: Self, _: Poll<Result<(), Self::Error>>) -> bool {
        true
    }

    fn called(&self, _: Self::Request, _: Self, _: Self::Future) -> bool {
        true
    }

    fn poll_ready(&mut self) -> Poll<Result<(), ()>> {
        Poll::Ready(Ok(()))
    }

    fn call(&mut self, req: u32) -> Self::Future {
        ok(req)
    }
}

/// A tail that, while it is at work, uses a chain that shares it.
#[derive(Clone)]
struct Reentrant {
    chain: Rc<RefCell<Option<Inner>>>,
    at_work: Rc<Cell<bool>>,
    seen_ready: Rc<Cell<Option<Poll<Result<(), ()>>>>>,
    seen_call: Rc<Cell<Option<Poll<Result<u32, ()>>>>>,
}

impl Service for Reentrant {
    type Request = u32;
    type Response = u32;
    type Error = ();
    type Future = Ready<u32, ()>;

    fn readied(&self, _: Self, _: Poll<Result<(), Self::Error>>) -> bool {
        true
    }

    fn called(&self, _: Self::Request, _: Self, _: Self::Future) -> bool {
        true
    }

    fn poll_ready(&mut self) -> Poll<Result<(), ()>> {
        if !self.at_work.replace(true) {
            if let Some(chain) = self.chain.borrow_mut().as_mut() {
                self.seen_ready.set(Some(chain.poll_ready()));
            }
            self.at_work.set(false);
        }
        Poll::Ready(Ok(()))
    }

    fn call(&mut self, req: u32) -> Self::Future {
        if !self.at_work.replace(true) {
            if let Some(chain) = self.chain.borrow_mut().as_mut() {
                self.seen_call.set(Some(chain.call(7).try_poll()));
            }
            self.at_work.set(false);
        }
        ok(req + 1)
    }
}

#[test]
fn and_then_tail_at_work_is_stood_in_for_by_a_copy() {
    let slot = Rc::new(RefCell::new(None));
    let seen_ready = Rc::new(Cell::new(None));
    let seen_call = Rc::new(Cell::new(None));
    let tail = Reentrant {
        chain: slot.clone(),
        at_work: Rc::new(Cell::new(false)),
        seen_ready: seen_ready.clone(),
        seen_call: seen_call.clone(),
    };
    let mut srv = AndThen::new(Echo, tail);
    *slot.borrow_mut() = Some(srv.clone());

    // asked from within the tail's own readiness check, the chain finds a
    // copy of the tail in the slot and asks that
    assert_eq!(srv.poll_ready(), Poll::Ready(Ok(())));
    assert_eq!(seen_ready.take(), Some(Poll::Ready(Ok(()))));

    // called from within the tail's own call, the chain calls the copy
    assert_eq!(srv.call(1).try_poll(), Poll::Ready(Ok(2)));
    assert_eq!(seen_call.take(), Some(Poll::Ready(Ok(8))));
    *slot.borrow_mut() = None;
}

struct FailingNew(&'static str);

impl NewService for FailingNew {
    type Request = u32;
    type Response = u32;
    type Error = &'static str;
    type Config = ();
    type Service = Stub;
    type InitError = &'static str;
    type Future = Ready<Stub, &'static str>;

    fn builds(&self, _: Self::Config, _: Self::Future) -> bool {
        true
    }

    fn new_service(&self, _: &()) -> Self::Future {
        err(self.0)
    }
}

struct StubNew {
    delay: usize,
    polls: Rc<Cell<usize>>,
}

impl NewService for StubNew {
    type Request = u32;
    type Response = u32;
    type Error = &'static str;
    type Config = ();
    type Service = Stub;
    type InitError = &'static str;
    type Future = Delayed<Stub, &'static str>;

    fn builds(&self, _: Self::Config, _: Self::Future) -> bool {
        true
    }

    fn new_service(&self, _: &()) -> Self::Future {
        Delayed::new(self.delay, self.polls.clone(), Ok(Stub::new(READY, Ok(1))))
    }
}

fn stub_new(delay: usize) -> StubNew {
    StubNew { delay, polls: Rc::new(Cell::new(0)) }
}

#[test]
fn and_then_new_service_waits_for_both() {
    let (a, b) = (stub_new(1), stub_new(3));
    let (polls_a, polls_b) = (a.polls.clone(), b.polls.clone());
    let factory = AndThenNewService::new(a, b);
    let mut fut = factory.new_service(&());
    assert!(fut.try_poll().is_pending());
    assert!(fut.try_poll().is_pending());
    assert!(fut.try_poll().is_pending());
    // the head was built at the second poll and is not polled again
    assert_eq!((polls_a.get(), polls_b.get()), (2, 3));
    match fut.try_poll() {
        Poll::Ready(Ok(mut srv)) => {
            assert_eq!(srv.poll_ready(), READY);
            assert_eq!(srv.call(1).try_poll(), Poll::Ready(Ok(3)));
        }
        _ => panic!(),
    }
    assert_eq!((polls_a.get(), polls_b.get()), (2, 4));
}

#[test]
fn and_then_new_service_fails_with_first_error() {
    let factory = AndThenNewService::new(FailingNew("head"), stub_new(5));
    assert!(matches!(factory.new_service(&()).try_poll(), Poll::Ready(Err("head"))));
    let factory = AndThenNewService::new(stub_new(5), FailingNew("tail"));
    assert!(matches!(factory.new_service(&()).try_poll(), Poll::Ready(Err("tail"))));
    let factory = AndThenNewService::new(FailingNew("head"), FailingNew("tail"));
    assert!(matches!(factory.new_service(&()).try_poll(), Poll::Ready(Err("head"))));
}

#[test]
fn and_then_poll_after_resolution_leaves_tail_alone() {
    let a = Stub::new(READY, Ok(10));
    let b = Stub::new(READY, Ok(100));
    let (calls_b, polls_b) = (b.calls.clone(), b.polls.clone());
    let mut srv = AndThen::new(a, b);
    let mut fut = srv.call(1);
    assert_eq!(fut.try_poll(), Poll::Ready(Ok(111)));
    assert_eq!((calls_b.get(), polls_b.get()), (1, 1));
    assert_eq!(fut.try_poll(), Poll::Pending);
    assert_eq!(fut.try_poll(), Poll::Pending);
    assert_eq!((calls_b.get(), polls_b.get()), (1, 1));

    let a = Stub::new(READY, Err("head failed"));
    let b = Stub::new(READY, Ok(100));
    let calls_b = b.calls.clone();
    let mut srv = AndThen::new(a, b);
    let mut fut = srv.call(1);
    assert_eq!(fut.try_poll(), Poll::Ready(Err("head failed")));
    assert_eq!(fut.try_poll(), Poll::Pending);
    assert_eq!(calls_b.get(), 0);
}

#[test]
fn and_then_steps_on_the_tail_are_exact() {
    // the tail is asked, and handed back
    let b = Stub::new(failing("tail"), Ok(0));
    let checks = b.checks.clone();
    let (out, back) = ask_tail(b);
    assert_eq!(out, failing("tail"));
    assert_eq!(checks.get(), 1);
    assert_eq!(back.checks.get(), 1);

    // the tail is called with the response, and its computation polled
    let b = Stub::new(READY, Ok(100));
    let calls = b.calls.clone();
    let (out, stage, _) = call_tail::<Stub, Stub>(b, 11);
    assert_eq!(out, Poll::Ready(Ok(111)));
    assert!(matches!(stage, Stage::Done));
    assert_eq!(calls.get(), 1);
    let (out, stage, _) = call_tail::<Stub, Stub>(Stub::new(READY, Ok(100)).delayed(1), 11);
    assert_eq!(out, Poll::Pending);
    assert!(matches!(stage, Stage::Tail(_)));

    assert_eq!(report_chain(READY, READY), READY);
    assert_eq!(report_chain(READY, PENDING), PENDING);
    assert_eq!(report_chain(PENDING, failing("tail")), failing("tail"));
    assert_eq!(report_chain(failing("head"), failing("tail")), failing("head"));
}
