use actix_service::and_then_apply::apply_tail;
use actix_service::func::{Applier, Mapper};
use actix_service::{
    err, ok, AndThenApply, AndThenApplyNewService, MapFuture, NewService, Poll, Ready, Service,
    TryFuture,
};
use std::cell::Cell;
use std::rc::Rc;

#[derive(Clone)]
struct Srv;

impl Service for Srv {
    type Request = ();
    type Response = ();
    type Error = ();
    type Future = Ready<(), ()>;

    fn readied(&self, _: Self, _: Poll<Result<(), Self::Error>>) -> bool {
        true
    }

    fn called(&self, _: Self::Request, _: Self, _: Self::Future) -> bool {
        true
    }

    fn poll_ready(&mut self) -> Poll<Result<(), ()>> {
        Poll::Ready(Ok(()))
    }

    fn call(&mut self, _: ()) -> Self::Future {
        ok(())
    }
}

/// Hands every request back as the response.
#[derive(Clone)]
struct Blank;

impl Service for Blank {
    type Request = &'static str;
    type Response = &'static str;
    type Error = ();
    type Future = Ready<&'static str, ()>;

    fn readied(&self, _: Self, _: Poll<Result<(), Self::Error>>) -> bool {
        true
    }

    fn called(&self, _: Self::Request, _: Self, _: Self::Future) -> bool {
        true
    }

    fn poll_ready(&mut self) -> Poll<Result<(), ()>> {
        Poll::Ready(Ok(()))
    }

    fn call(&mut self, req: &'static str) -> Self::Future {
        ok(req)
    }
}

struct BlankNewService;

impl NewService for BlankNewService {
    type Request = &'static str;
    type Response = &'static str;
    type Error = ();
    type Config = ();
    type Service = Blank;
    type InitError = ();
    type Future = Ready<Blank, ()>;

    fn builds(&self, _: Self::Config, _: Self::Future) -> bool {
        true
    }

    fn new_service(&self, _: &()) -> Self::Future {
        ok(Blank)
    }
}

struct NewSrv;

impl NewService for NewSrv {
    type Request = ();
    type Response = ();
    type Error = ();
    type Config = ();
    type Service = Srv;
    type InitError = ();
    type Future = Ready<Srv, ()>;

    fn builds(&self, _: Self::Config, _: Self::Future) -> bool {
        true
    }

    fn new_service(&self, _: &()) -> Self::Future {
        ok(Srv)
    }
}

#[test]
fn test_apply() {
    let mut srv = AndThenApply::new(Blank, Srv, |req: &'static str, srv: &mut Srv| {
        MapFuture::<Srv, _, _>::new(srv.call(()), Mapper::new(move |res| (req, res)))
    });
    assert!(srv.poll_ready().is_ready());
    let res = srv.call("srv").try_poll();
    assert!(res.is_ready());
    assert_eq!(res, Poll::Ready(Ok(("srv", ()))));
}

#[test]
fn and_then_apply_fn_test_call() {
    let mut srv = AndThenApply::new(Blank, Srv, |req: &'static str, srv: &mut Srv| {
        MapFuture::<Srv, _, _>::new(srv.call(()), Mapper::new(move |res| (req, res)))
    });
    assert!(srv.poll_ready().is_ready());
    let res = srv.call("srv").try_poll();
    assert!(res.is_ready());
    assert_eq!(res, Poll::Ready(Ok(("srv", ()))));
}

#[test]
fn and_then_apply_fn_test_new_service() {
    let new_srv = AndThenApplyNewService::new(
        BlankNewService,
        NewSrv,
        |req: &'static str, srv: &mut Srv| {
            MapFuture::<Srv, _, _>::new(srv.call(()), Mapper::new(move |res| (req, res)))
        },
    );
    if let Poll::Ready(Ok(mut srv)) = new_srv.new_service(&()).try_poll() {
        assert!(srv.poll_ready().is_ready());
        let res = srv.call("srv").try_poll();
        assert!(res.is_ready());
        assert_eq!(res, Poll::Ready(Ok(("srv", ()))));
    } else {
        panic!()
    }
}

/// Adds what it was made with to even requests and refuses odd ones; counts
/// its calls.
#[derive(Clone)]
struct Adder {
    add: u32,
    ready: Poll<Result<(), String>>,
    calls: Rc<Cell<usize>>,
}

impl Adder {
    fn new(add: u32) -> Self {
        Adder { add, ready: Poll::Ready(Ok(())), calls: Rc::new(Cell::new(0)) }
    }
}

impl Service for Adder {
    type Request = u32;
    type Response = u32;
    type Error = String;
    type Future = Ready<u32, String>;

    fn readied(&self, _: Self, _: Poll<Result<(), Self::Error>>) -> bool {
        true
    }

    fn called(&self, _: Self::Request, _: Self, _: Self::Future) -> bool {
        true
    }

    fn poll_ready(&mut self) -> Poll<Result<(), String>> {
        self.ready.clone()
    }

    fn call(&mut self, req: u32) -> Self::Future {
        self.calls.set(self.calls.get() + 1);
        if req % 2 == 0 {
            ok(req + self.add)
        } else {
            err(format!("odd: {}", req))
        }
    }
}

#[test]
fn and_then_apply_function_gets_response_and_tail() {
    let tail = Adder::new(100);
    let tail_calls = tail.calls.clone();
    let mut srv = AndThenApply::new(Adder::new(10), tail, |resp: u32, tail: &mut Adder| {
        tail.call(resp * 2)
    });
    assert_eq!(srv.poll_ready(), Poll::Ready(Ok(())));
    // the head answers 4 + 10, the function asks the tail for 28 + 100
    assert_eq!(srv.call(4).try_poll(), Poll::Ready(Ok(128)));
    assert_eq!(tail_calls.get(), 1);
}

#[test]
fn and_then_apply_function_may_hand_back_an_outcome() {
    let mut srv = AndThenApply::new(Adder::new(10), Adder::new(0), |resp: u32, _: &mut Adder| {
        if resp > 20 {
            Err(format!("too large: {}", resp))
        } else {
            Ok(resp + 1)
        }
    });
    assert_eq!(srv.call(4).try_poll(), Poll::Ready(Ok(15)));
    assert_eq!(srv.call(40).try_poll(), Poll::Ready(Err("too large: 50".to_string())));
}

#[test]
fn and_then_apply_head_failure_skips_function() {
    let applied = Rc::new(Cell::new(0));
    let seen = applied.clone();
    let tail = Adder::new(100);
    let tail_calls = tail.calls.clone();
    let mut srv =
        AndThenApply::new(Adder::new(10), tail, move |resp: u32, tail: &mut Adder| {
            seen.set(seen.get() + 1);
            tail.call(resp)
        });
    assert_eq!(srv.call(3).try_poll(), Poll::Ready(Err("odd: 3".to_string())));
    assert_eq!((applied.get(), tail_calls.get()), (0, 0));
    assert_eq!(srv.call(2).try_poll(), Poll::Ready(Ok(112)));
    assert_eq!((applied.get(), tail_calls.get()), (1, 1));
}

#[test]
fn and_then_apply_is_ready_when_both_are() {
    let mut head = Adder::new(1);
    head.ready = Poll::Pending;
    let mut srv = AndThenApply::new(head, Adder::new(2), |resp: u32, tail: &mut Adder| {
        tail.call(resp)
    });
    assert_eq!(srv.poll_ready(), Poll::Pending);

    let mut tail = Adder::new(2);
    tail.ready = Poll::Ready(Err("tail is broken".to_string()));
    let mut srv = AndThenApply::new(Adder::new(1), tail, |resp: u32, tail: &mut Adder| {
        tail.call(resp)
    });
    assert_eq!(srv.poll_ready(), Poll::Ready(Err("tail is broken".to_string())));
}

#[test]
fn and_then_apply_step_on_the_tail_is_exact() {
    let f = Applier::new(|resp: u32, tail: &mut Adder| tail.call(resp * 2));
    let tail = Adder::new(100);
    let calls = tail.calls.clone();
    let (out, _, back) = apply_tail::<Adder, Adder, _, _>(&f, tail, 7);
    assert_eq!(out, Poll::Ready(Ok(114)));
    assert_eq!(calls.get(), 1);
    assert_eq!(back.add, 100);
}

#[test]
fn and_then_apply_poll_after_resolution_does_nothing() {
    let tail = Adder::new(100);
    let calls = tail.calls.clone();
    let mut srv = AndThenApply::new(Adder::new(10), tail, |resp: u32, tail: &mut Adder| {
        tail.call(resp * 2)
    });
    let mut fut = srv.call(4);
    assert_eq!(fut.try_poll(), Poll::Ready(Ok(128)));
    assert_eq!(fut.try_poll(), Poll::Pending);
    assert_eq!(calls.get(), 1);
}
