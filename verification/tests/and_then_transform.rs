use actix_service::func::Mapper;
use actix_service::{
    err, ok, AndThenTransform, MapFuture, NewService, Poll, Ready, Service, Transform, TryFuture,
};
use std::cell::Cell;
use std::rc::Rc;

#[derive(Clone)]
struct Srv;

impl Service for Srv {
    type Request = ();
    type Response = ();
    type Error = ();
    type Future = Ready<(), ()>;

    fn readied(&self, _: Self, _: Poll<Result<(), Self::Error>>) -> bool {
        true
    }

    fn called(&self, _: Self::Request, _: Self, _: Self::Future) -> bool {
        true
    }

    fn poll_ready(&mut self) -> Poll<Result<(), ()>> {
        Poll::Ready(Ok(()))
    }

    fn call(&mut self, _: ()) -> Self::Future {
        ok(())
    }
}

struct NewSrv;

impl NewService for NewSrv {
    type Request = ();
    type Response = ();
    type Error = ();
    type Config = ();
    type Service = Srv;
    type InitError = ();
    type Future = Ready<Srv, ()>;

    fn builds(&self, _: Self::Config, _: Self::Future) -> bool {
        true
    }

    fn new_service(&self, _: &()) -> Self::Future {
        ok(Srv)
    }
}

/// Hands every request back as the response.
struct Blank;

impl Service for Blank {
    type Request = &'static str;
    type Response = &'static str;
    type Error = ();
    type Future = Ready<&'static str, ()>;

    fn readied(&self, _: Self, _: Poll<Result<(), Self::Error>>) -> bool {
        true
    }

    fn called(&self, _: Self::Request, _: Self, _: Self::Future) -> bool {
        true
    }

    fn poll_ready(&mut self) -> Poll<Result<(), ()>> {
        Poll::Ready(Ok(()))
    }

    fn call(&mut self, req: &'static str) -> Self::Future {
        ok(req)
    }
}

struct NewBlank;

impl NewService for NewBlank {
    type Request = &'static str;
    type Response = &'static str;
    type Error = ();
    type Config = ();
    type Service = Blank;
    type InitError = ();
    type Future = Ready<Blank, ()>;

    fn builds(&self, _: Self::Config, _: Self::Future) -> bool {
        true
    }

    fn new_service(&self, _: &()) -> Self::Future {
        ok(Blank)
    }
}

/// The service around `Srv` that answers a request with the request and
/// what `Srv` answered.
#[derive(Clone)]
struct Paired(Srv);

impl Service for Paired {
    type Request = &'static str;
    type Response = (&'static str, ());
    type Error = ();
    type Future = MapFuture<Srv, Box<dyn Fn(()) -> (&'static str, ())>, (&'static str, ())>;

    fn readied(&self, _: Self, _: Poll<Result<(), Self::Error>>) -> bool {
        true
    }

    fn called(&self, _: Self::Request, _: Self, _: Self::Future) -> bool {
        true
    }

    fn poll_ready(&mut self) -> Poll<Result<(), ()>> {
        self.0.poll_ready()
    }

    fn call(&mut self, req: &'static str) -> Self::Future {
        let pair: Box<dyn Fn(()) -> (&'static str, ())> = Box::new(move |res| (req, res));
        MapFuture::new(self.0.call(()), Mapper::new(pair))
    }
}

struct Pair;

impl Transform<Srv> for Pair {
    type Request = &'static str;
    type Response = (&'static str, ());
    type Error = ();
    type Transform = Paired;
    type InitError = ();
    type Future = Ready<Paired, ()>;

    fn wraps(&self, _: Srv, _: Self::Future) -> bool {
        true
    }

    fn new_transform(&self, service: Srv) -> Self::Future {
        ok(Paired(service))
    }
}

#[test]
fn and_then_apply_test_new_service() {
    let new_srv = AndThenTransform::new(Pair, NewBlank, NewSrv);
    if let Poll::Ready(Ok(mut srv)) = new_srv.new_service(&()).try_poll() {
        assert!(srv.poll_ready().is_ready());
        let res = srv.call("srv").try_poll();
        assert!(res.is_ready());
        assert_eq!(res, Poll::Ready(Ok(("srv", ()))));
    } else {
        panic!()
    }
}

/// A computation that waits for a number of polls before it resolves, and
/// writes down when it did.
struct Delayed<T, E> {
    name: &'static str,
    polls_left: usize,
    log: Rc<Cell<Vec<&'static str>>>,
    outcome: Option<Result<T, E>>,
}

impl<T, E> TryFuture for Delayed<T, E> {
    type Ok = T;
    type Error = E;

    fn live(&self) -> bool {
        true
    }

    fn polled(&self, _: Self, _: Poll<Result<Self::Ok, Self::Error>>) -> bool {
        true
    }

    fn try_poll(&mut self) -> Poll<Result<T, E>> {
        if self.polls_left > 0 {
            self.polls_left -= 1;
            Poll::Pending
        } else {
            let mut log = self.log.take();
            log.push(self.name);
            self.log.set(log);
            Poll::Ready(self.outcome.take().expect("polled after it had resolved"))
        }
    }
}

/// Adds what it was made with to the request; refuses requests over 1000.
#[derive(Clone)]
struct Adder(u32);

impl Service for Adder {
    type Request = u32;
    type Response = u32;
    type Error = u8;
    type Future = Ready<u32, u8>;

    fn readied(&self, _: Self, _: Poll<Result<(), Self::Error>>) -> bool {
        true
    }

    fn called(&self, _: Self::Request, _: Self, _: Self::Future) -> bool {
        true
    }

    fn poll_ready(&mut self) -> Poll<Result<(), u8>> {
        Poll::Ready(Ok(()))
    }

    fn call(&mut self, req: u32) -> Self::Future {
        if req > 1000 {
            err(1)
        } else {
            ok(req + self.0)
        }
    }
}

/// The service around an `Adder` that doubles what the adder answers.
#[derive(Clone)]
struct Doubled(Adder);

#[derive(Debug, PartialEq)]
enum Failure {
    Head(u8),
    Tail,
}

impl From<u8> for Failure {
    fn from(e: u8) -> Self {
        Failure::Head(e)
    }
}

impl Service for Doubled {
    type Request = u32;
    type Response = u32;
    type Error = Failure;
    type Future = Ready<u32, Failure>;

    fn readied(&self, _: Self, _: Poll<Result<(), Self::Error>>) -> bool {
        true
    }

    fn called(&self, _: Self::Request, _: Self, _: Self::Future) -> bool {
        true
    }

    fn poll_ready(&mut self) -> Poll<Result<(), Failure>> {
        Poll::Ready(Ok(()))
    }

    fn call(&mut self, req: u32) -> Self::Future {
        match self.0.call(req).try_poll() {
            Poll::Ready(Ok(v)) => ok(v * 2),
            _ => err(Failure::Tail),
        }
    }
}

struct NewAdder {
    name: &'static str,
    add: u32,
    delay: usize,
    fail: Option<&'static str>,
    log: Rc<Cell<Vec<&'static str>>>,
}

impl NewService for NewAdder {
    type Request = u32;
    type Response = u32;
    type Error = u8;
    type Config = u32;
    type Service = Adder;
    type InitError = &'static str;
    type Future = Delayed<Adder, &'static str>;

    fn builds(&self, _: Self::Config, _: Self::Future) -> bool {
        true
    }

    fn new_service(&self, cfg: &u32) -> Self::Future {
        Delayed {
            name: self.name,
            polls_left: self.delay,
            log: self.log.clone(),
            outcome: Some(match self.fail {
                Some(e) => Err(e),
                None => Ok(Adder(self.add + *cfg)),
            }),
        }
    }
}

struct Double {
    delay: usize,
    fail: Option<&'static str>,
    log: Rc<Cell<Vec<&'static str>>>,
}

impl Transform<Adder> for Double {
    type Request = u32;
    type Response = u32;
    type Error = Failure;
    type Transform = Doubled;
    type InitError = &'static str;
    type Future = Delayed<Doubled, &'static str>;

    fn wraps(&self, _: Adder, _: Self::Future) -> bool {
        true
    }

    fn new_transform(&self, service: Adder) -> Self::Future {
        Delayed {
            name: "transform",
            polls_left: self.delay,
            log: self.log.clone(),
            outcome: Some(match self.fail {
                Some(e) => Err(e),
                None => Ok(Doubled(service)),
            }),
        }
    }
}

struct Plan {
    head_delay: usize,
    tail_delay: usize,
    transform_delay: usize,
    head_fail: Option<&'static str>,
    tail_fail: Option<&'static str>,
    transform_fail: Option<&'static str>,
}

const NO_DELAY: Plan = Plan {
    head_delay: 0,
    tail_delay: 0,
    transform_delay: 0,
    head_fail: None,
    tail_fail: None,
    transform_fail: None,
};

/// Builds the chain as planned, polling until the construction resolves.
/// Hands back the number of polls it took, the order in which the three
/// constructions resolved, and the outcome.
fn build(
    plan: Plan,
) -> (usize, Vec<&'static str>, Result<Vec<Poll<Result<u32, Failure>>>, &'static str>) {
    let log = Rc::new(Cell::new(Vec::new()));
    let head = NewAdder {
        name: "head",
        add: 1,
        delay: plan.head_delay,
        fail: plan.head_fail,
        log: log.clone(),
    };
    let tail = NewAdder {
        name: "tail",
        add: 10,
        delay: plan.tail_delay,
        fail: plan.tail_fail,
        log: log.clone(),
    };
    let transform =
        Double { delay: plan.transform_delay, fail: plan.transform_fail, log: log.clone() };
    let factory = AndThenTransform::new(transform, head, tail);
    let mut fut = factory.new_service(&100);
    let mut polls = 0;
    loop {
        polls += 1;
        assert!(polls < 100);
        match fut.try_poll() {
            Poll::Pending => {}
            Poll::Ready(Ok(mut srv)) => {
                assert_eq!(srv.poll_ready(), Poll::Ready(Ok(())));
                let answers = vec![srv.call(5).try_poll(), srv.call(2000).try_poll()];
                return (polls, log.take(), Ok(answers));
            }
            Poll::Ready(Err(e)) => return (polls, log.take(), Err(e)),
        }
    }
}

/// What the chain answers to 5 and to 2000: the head adds 101, the wrapped
/// adder 110 and the transform doubles; the head refuses 2000 and its error
/// is converted.
fn answers() -> Vec<Poll<Result<u32, Failure>>> {
    vec![Poll::Ready(Ok((5 + 101 + 110) * 2)), Poll::Ready(Err(Failure::Head(1)))]
}

#[test]
fn and_then_transform_builds_at_once_when_nothing_waits() {
    assert_eq!(build(NO_DELAY), (1, vec!["tail", "head", "transform"], Ok(answers())));
}

#[test]
fn and_then_transform_same_service_in_every_order() {
    let plan = Plan { head_delay: 3, ..NO_DELAY };
    assert_eq!(build(plan), (4, vec!["tail", "transform", "head"], Ok(answers())));

    let plan = Plan { tail_delay: 3, ..NO_DELAY };
    assert_eq!(build(plan), (4, vec!["head", "tail", "transform"], Ok(answers())));

    let plan = Plan { transform_delay: 3, ..NO_DELAY };
    assert_eq!(build(plan), (4, vec!["tail", "head", "transform"], Ok(answers())));

    let plan = Plan { head_delay: 2, tail_delay: 1, transform_delay: 3, ..NO_DELAY };
    assert_eq!(build(plan), (5, vec!["tail", "head", "transform"], Ok(answers())));

    let plan = Plan { head_delay: 6, tail_delay: 1, transform_delay: 2, ..NO_DELAY };
    assert_eq!(build(plan), (7, vec!["tail", "transform", "head"], Ok(answers())));
}

#[test]
fn and_then_transform_fails_with_first_failure() {
    let plan = Plan { head_fail: Some("no head"), tail_delay: 5, ..NO_DELAY };
    assert_eq!(build(plan), (1, vec!["head"], Err("no head")));

    let plan = Plan { tail_fail: Some("no tail"), head_delay: 5, ..NO_DELAY };
    assert_eq!(build(plan), (1, vec!["tail"], Err("no tail")));

    let plan = Plan { transform_fail: Some("no transform"), head_delay: 5, ..NO_DELAY };
    assert_eq!(build(plan), (1, vec!["tail", "transform"], Err("no transform")));

    let plan = Plan { transform_fail: Some("no transform"), transform_delay: 2, ..NO_DELAY };
    assert_eq!(build(plan), (3, vec!["tail", "head", "transform"], Err("no transform")));
}
