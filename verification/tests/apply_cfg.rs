use actix_service::apply_cfg::{advance_build, start};
use actix_service::func::Configurer;
use actix_service::{apply_cfg, err, new_apply_cfg, ok, NewService, Poll, Ready, Service, TryFuture};
use std::cell::Cell;
use std::rc::Rc;

/// Adds what it holds to the request. Ready after a number of checks, or
/// broken.
#[derive(Clone)]
struct Adder {
    add: u32,
    checks_left: usize,
    broken: Option<u8>,
    checks: Rc<Cell<usize>>,
}

impl Adder {
    fn new(add: u32) -> Self {
        Adder { add, checks_left: 0, broken: None, checks: Rc::new(Cell::new(0)) }
    }
}

impl Service for Adder {
    type Request = u32;
    type Response = u32;
    type Error = u8;
    type Future = Ready<u32, u8>;

    fn readied(&self, _: Self, _: Poll<Result<(), Self::Error>>) -> bool {
        true
    }

    fn called(&self, _: Self::Request, _: Self, _: Self::Future) -> bool {
        true
    }

    fn poll_ready(&mut self) -> Poll<Result<(), u8>> {
        self.checks.set(self.checks.get() + 1);
        if let Some(e) = self.broken {
            Poll::Ready(Err(e))
        } else if self.checks_left > 0 {
            self.checks_left -= 1;
            Poll::Pending
        } else {
            Poll::Ready(Ok(()))
        }
    }

    fn call(&mut self, req: u32) -> Self::Future {
        ok(req + self.add)
    }
}

#[test]
fn apply_cfg_calls_function_with_each_configuration() {
    let factory = apply_cfg(Adder::new(1), |cfg: &u32, srv: &mut Adder| {
        // what the function does to the service stays for the next call
        srv.add += 1;
        Ok::<Adder, &'static str>(Adder::new(srv.add * 100 + *cfg))
    });
    match factory.new_service(&7).try_poll() {
        Poll::Ready(Ok(mut srv)) => assert_eq!(srv.call(0).try_poll(), Poll::Ready(Ok(207))),
        _ => panic!(),
    }
    let other = factory.clone();
    match other.new_service(&8).try_poll() {
        Poll::Ready(Ok(mut srv)) => assert_eq!(srv.call(0).try_poll(), Poll::Ready(Ok(308))),
        _ => panic!(),
    }
}

#[test]
fn apply_cfg_passes_failure_of_function() {
    let factory = apply_cfg(Adder::new(1), |cfg: &u32, _: &mut Adder| {
        if *cfg == 0 {
            Err("no configuration")
        } else {
            Ok(Adder::new(*cfg))
        }
    });
    assert!(matches!(factory.new_service(&0).try_poll(), Poll::Ready(Err("no configuration"))));
    assert!(matches!(factory.new_service(&1).try_poll(), Poll::Ready(Ok(_))));
}

/// A computation that waits for a number of polls before it resolves.
struct Delayed<T, E> {
    polls_left: usize,
    outcome: Option<Result<T, E>>,
}

impl<T, E> TryFuture for Delayed<T, E> {
    type Ok = T;
    type Error = E;

    fn live(&self) -> bool {
        true
    }

    fn polled(&self, _: Self, _: Poll<Result<Self::Ok, Self::Error>>) -> bool {
        true
    }

    fn try_poll(&mut self) -> Poll<Result<T, E>> {
        if self.polls_left > 0 {
            self.polls_left -= 1;
            Poll::Pending
        } else {
            Poll::Ready(self.outcome.take().expect("polled after it had resolved"))
        }
    }
}

#[derive(Debug, PartialEq)]
enum InitFailure {
    Build(&'static str),
    NotReady(u8),
    Function(u32),
}

impl From<u8> for InitFailure {
    fn from(e: u8) -> Self {
        InitFailure::NotReady(e)
    }
}

struct NewAdder {
    service: Result<Adder, &'static str>,
    delay: usize,
    built: Rc<Cell<usize>>,
}

impl NewAdder {
    fn new(service: Result<Adder, &'static str>, delay: usize) -> Self {
        NewAdder { service, delay, built: Rc::new(Cell::new(0)) }
    }
}

impl NewService for NewAdder {
    type Request = u32;
    type Response = u32;
    type Error = u8;
    type Config = ();
    type Service = Adder;
    type InitError = InitFailure;
    type Future = Delayed<Adder, InitFailure>;

    fn builds(&self, _: Self::Config, _: Self::Future) -> bool {
        true
    }

    fn new_service(&self, _: &()) -> Self::Future {
        self.built.set(self.built.get() + 1);
        Delayed {
            polls_left: self.delay,
            outcome: Some(self.service.clone().map_err(InitFailure::Build)),
        }
    }
}

fn configure(cfg: &u32, srv: &mut Adder) -> Delayed<Adder, InitFailure> {
    srv.add += 1;
    let outcome = if *cfg == 0 {
        Err(InitFailure::Function(srv.add))
    } else {
        Ok(Adder::new(srv.add * 100 + *cfg))
    };
    Delayed { polls_left: 1, outcome: Some(outcome) }
}

#[test]
fn new_apply_cfg_builds_inner_service_once() {
    let inner = NewAdder::new(Ok(Adder::new(1)), 2);
    let built = inner.built.clone();
    let factory = new_apply_cfg(inner, configure);
    assert_eq!(built.get(), 0);

    // nothing is built before the first poll
    let mut fut = factory.new_service(&7);
    assert_eq!(built.get(), 0);
    // two polls wait for the inner service, the third calls the function and
    // finds what it handed back waiting, the fourth sees it resolve
    assert!(fut.try_poll().is_pending());
    assert_eq!(built.get(), 1);
    assert!(fut.try_poll().is_pending());
    assert!(fut.try_poll().is_pending());
    match fut.try_poll() {
        Poll::Ready(Ok(mut srv)) => assert_eq!(srv.call(0).try_poll(), Poll::Ready(Ok(207))),
        _ => panic!(),
    }

    // the inner service is built: the next construction goes on with it
    let mut fut = factory.clone().new_service(&8);
    assert_eq!(built.get(), 1);
    assert!(fut.try_poll().is_pending());
    match fut.try_poll() {
        Poll::Ready(Ok(mut srv)) => assert_eq!(srv.call(0).try_poll(), Poll::Ready(Ok(308))),
        _ => panic!(),
    }
    assert_eq!(built.get(), 1);
}

#[test]
fn new_apply_cfg_waits_until_inner_service_is_ready() {
    let mut adder = Adder::new(1);
    adder.checks_left = 2;
    let checks = adder.checks.clone();
    let factory = new_apply_cfg(NewAdder::new(Ok(adder), 0), configure);
    let mut fut = factory.new_service(&7);
    assert!(fut.try_poll().is_pending());
    assert!(fut.try_poll().is_pending());
    assert_eq!(checks.get(), 2);
    // ready at the third check: the function is called
    assert!(fut.try_poll().is_pending());
    assert_eq!(checks.get(), 3);
    assert!(matches!(fut.try_poll(), Poll::Ready(Ok(_))));
    assert_eq!(checks.get(), 3);
}

#[test]
fn new_apply_cfg_reports_each_failure() {
    let factory = new_apply_cfg(NewAdder::new(Err("no inner service"), 1), configure);
    let mut fut = factory.new_service(&7);
    assert!(fut.try_poll().is_pending());
    assert!(matches!(
        fut.try_poll(),
        Poll::Ready(Err(InitFailure::Build("no inner service")))
    ));

    let mut adder = Adder::new(1);
    adder.broken = Some(9);
    let factory = new_apply_cfg(NewAdder::new(Ok(adder), 0), configure);
    assert!(matches!(
        factory.new_service(&7).try_poll(),
        Poll::Ready(Err(InitFailure::NotReady(9)))
    ));

    let factory = new_apply_cfg(NewAdder::new(Ok(Adder::new(1)), 0), configure);
    let mut fut = factory.new_service(&0);
    assert!(fut.try_poll().is_pending());
    assert!(matches!(fut.try_poll(), Poll::Ready(Err(InitFailure::Function(2)))));
    let _ = err::<(), ()>(());
}

#[test]
fn new_apply_cfg_shares_the_build_in_flight() {
    let inner = NewAdder::new(Ok(Adder::new(1)), 2);
    let built = inner.built.clone();
    let factory = new_apply_cfg(inner, configure);
    let mut first = factory.new_service(&7);
    let mut second = factory.clone().new_service(&8);
    // the first poll starts the build, the others advance the same one
    assert!(first.try_poll().is_pending());
    assert!(second.try_poll().is_pending());
    assert_eq!(built.get(), 1);
    // the third poll of the build resolves it: the function is called
    assert!(first.try_poll().is_pending());
    // the other construction finds the service built
    assert!(second.try_poll().is_pending());
    match first.try_poll() {
        Poll::Ready(Ok(mut srv)) => assert_eq!(srv.call(0).try_poll(), Poll::Ready(Ok(207))),
        _ => panic!(),
    }
    match second.try_poll() {
        Poll::Ready(Ok(mut srv)) => assert_eq!(srv.call(0).try_poll(), Poll::Ready(Ok(308))),
        _ => panic!(),
    }
    assert_eq!(built.get(), 1);
}

#[test]
fn new_apply_cfg_poll_after_resolution_does_nothing() {
    let inner = NewAdder::new(Ok(Adder::new(1)), 0);
    let built = inner.built.clone();
    let factory = new_apply_cfg(inner, configure);
    let mut fut = factory.new_service(&7);
    assert!(fut.try_poll().is_pending());
    assert!(matches!(fut.try_poll(), Poll::Ready(Ok(_))));
    assert!(fut.try_poll().is_pending());
    assert!(fut.try_poll().is_pending());
    assert_eq!(built.get(), 1);
}

#[test]
fn steps_of_a_construction_are_exact() {
    let f = Configurer::new(|cfg: &u32, srv: &mut Adder| {
        srv.add += *cfg;
        Ok::<Adder, u8>(Adder::new(srv.add))
    });
    let (mut inner, back) = start(&f, &5, Adder::new(1));
    assert!(matches!(inner.try_poll(), Poll::Ready(Ok(_))));
    assert_eq!(back.add, 6);

    // a build in flight is advanced; where none is, the factory is asked
    let factory = NewAdder::new(Ok(Adder::new(1)), 1);
    let (out, left) = advance_build(&factory, None);
    assert!(out.is_pending() && left.is_some());
    assert_eq!(factory.built.get(), 1);
    let (out, left) = advance_build(&factory, left);
    assert!(matches!(out, Poll::Ready(Ok(_))) && left.is_none());
    assert_eq!(factory.built.get(), 1);
}
