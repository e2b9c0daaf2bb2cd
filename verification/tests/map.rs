use actix_service::{
    err, ok, MapErr, MapErrNewService, MapInitErr, MapNewService, MapService, NewService, Poll,
    Ready, Service, TryFuture,
};

struct Srv;

impl Service for Srv {
    type Request = ();
    type Response = ();
    type Error = ();
    type Future = Ready<(), ()>;

    fn readied(&self, _: Self, _: Poll<Result<(), Self::Error>>) -> bool {
        true
    }

    fn called(&self, _: Self::Request, _: Self, _: Self::Future) -> bool {
        true
    }

    fn poll_ready(&mut self) -> Poll<Result<(), ()>> {
        Poll::Ready(Ok(()))
    }

    fn call(&mut self, _: ()) -> Self::Future {
        ok(())
    }
}

struct NewSrv;

impl NewService for NewSrv {
    type Request = ();
    type Response = ();
    type Error = ();
    type Config = ();
    type Service = Srv;
    type InitError = ();
    type Future = Ready<Srv, ()>;

    fn builds(&self, _: Self::Config, _: Self::Future) -> bool {
        true
    }

    fn new_service(&self, _: &()) -> Self::Future {
        ok(Srv)
    }
}

#[test]
fn map_test_poll_ready() {
    let mut srv = MapService::new(Srv, |_| "ok");
    let res = srv.poll_ready();
    assert!(res.is_ready());
    assert_eq!(res, Poll::Ready(Ok(())));
}

#[test]
fn map_test_call() {
    let mut srv = MapService::new(Srv, |_| "ok");
    let res = srv.call(()).try_poll();
    assert!(res.is_ready());
    assert_eq!(res, Poll::Ready(Ok("ok")));
}

#[test]
fn map_test_new_service() {
    let new_srv = MapNewService::new(NewSrv, |_| "ok");
    if let Poll::Ready(Ok(mut srv)) = new_srv.new_service(&()).try_poll() {
        let res = srv.call(()).try_poll();
        assert!(res.is_ready());
        assert_eq!(res, Poll::Ready(Ok("ok")));
    } else {
        panic!()
    }
}

struct Failing;

impl Service for Failing {
    type Request = ();
    type Response = ();
    type Error = ();
    type Future = Ready<(), ()>;

    fn readied(&self, _: Self, _: Poll<Result<(), Self::Error>>) -> bool {
        true
    }

    fn called(&self, _: Self::Request, _: Self, _: Self::Future) -> bool {
        true
    }

    fn poll_ready(&mut self) -> Poll<Result<(), ()>> {
        Poll::Ready(Err(()))
    }

    fn call(&mut self, _: ()) -> Self::Future {
        err(())
    }
}

struct NewFailing;

impl NewService for NewFailing {
    type Request = ();
    type Response = ();
    type Error = ();
    type Config = ();
    type Service = Failing;
    type InitError = ();
    type Future = Ready<Failing, ()>;

    fn builds(&self, _: Self::Config, _: Self::Future) -> bool {
        true
    }

    fn new_service(&self, _: &()) -> Self::Future {
        ok(Failing)
    }
}

#[test]
fn map_err_test_poll_ready() {
    let mut srv = MapErr::new(Failing, |_| "error");
    let res = srv.poll_ready();
    assert!(res.is_ready());
    assert_eq!(res, Poll::Ready(Err("error")));
}

#[test]
fn map_err_test_call() {
    let mut srv = MapErr::new(Failing, |_| "error");
    let res = srv.call(()).try_poll();
    assert!(res.is_ready());
    assert_eq!(res, Poll::Ready(Err("error")));
}

#[test]
fn map_err_test_new_service() {
    let new_srv = MapErrNewService::new(NewFailing, |_| "error");
    if let Poll::Ready(Ok(mut srv)) = new_srv.new_service(&()).try_poll() {
        let res = srv.call(()).try_poll();
        assert!(res.is_ready());
        assert_eq!(res, Poll::Ready(Err("error")));
    } else {
        panic!()
    }
}

/// Halves even requests and refuses odd ones; ready from the second check
/// on.
#[derive(Clone)]
struct Halve {
    checks: u32,
}

impl Service for Halve {
    type Request = u32;
    type Response = u32;
    type Error = u32;
    type Future = Ready<u32, u32>;

    fn readied(&self, _: Self, _: Poll<Result<(), Self::Error>>) -> bool {
        true
    }

    fn called(&self, _: Self::Request, _: Self, _: Self::Future) -> bool {
        true
    }

    fn poll_ready(&mut self) -> Poll<Result<(), u32>> {
        self.checks += 1;
        if self.checks < 2 {
            Poll::Pending
        } else {
            Poll::Ready(Ok(()))
        }
    }

    fn call(&mut self, req: u32) -> Self::Future {
        if req % 2 == 0 {
            ok(req / 2)
        } else {
            err(req)
        }
    }
}

#[test]
fn map_applies_function_to_value_only() {
    let mut srv = MapService::new(Halve { checks: 0 }, |v: u32| v + 1000);
    assert_eq!(srv.poll_ready(), Poll::Pending);
    assert_eq!(srv.poll_ready(), Poll::Ready(Ok(())));
    assert_eq!(srv.call(10).try_poll(), Poll::Ready(Ok(1005)));
    assert_eq!(srv.call(7).try_poll(), Poll::Ready(Err(7)));
}

#[test]
fn map_err_applies_function_to_error_only() {
    let mut srv = MapErr::new(Halve { checks: 0 }, |e: u32| format!("odd: {}", e));
    assert_eq!(srv.poll_ready(), Poll::Pending);
    assert_eq!(srv.poll_ready(), Poll::Ready(Ok(())));
    assert_eq!(srv.call(10).try_poll(), Poll::Ready(Ok(5)));
    assert_eq!(srv.call(7).try_poll(), Poll::Ready(Err("odd: 7".to_string())));
}

#[test]
fn map_call_in_flight_keeps_its_function() {
    let mut srv = MapService::new(Halve { checks: 0 }, |v: u32| v * 3);
    let mut first = srv.call(4);
    let mut other = srv.clone();
    let mut second = other.call(8);
    drop(srv);
    drop(other);
    assert_eq!(second.try_poll(), Poll::Ready(Ok(12)));
    assert_eq!(first.try_poll(), Poll::Ready(Ok(6)));
}

struct NewHalve {
    fail: bool,
}

impl NewService for NewHalve {
    type Request = u32;
    type Response = u32;
    type Error = u32;
    type Config = u32;
    type Service = Halve;
    type InitError = &'static str;
    type Future = Ready<Halve, &'static str>;

    fn builds(&self, _: Self::Config, _: Self::Future) -> bool {
        true
    }

    fn new_service(&self, cfg: &u32) -> Self::Future {
        if self.fail {
            err("no service")
        } else {
            ok(Halve { checks: *cfg })
        }
    }
}

#[test]
fn map_new_service_passes_construction_failure() {
    let factory = MapNewService::new(NewHalve { fail: true }, |v: u32| v + 1);
    assert!(matches!(factory.new_service(&0).try_poll(), Poll::Ready(Err("no service"))));
    let factory = MapErrNewService::new(NewHalve { fail: true }, |e: u32| e + 1);
    assert!(matches!(factory.new_service(&0).try_poll(), Poll::Ready(Err("no service"))));
}

#[test]
fn map_init_err_changes_construction_failure_only() {
    let factory = MapInitErr::new(NewHalve { fail: true }, |e: &'static str| e.len());
    assert!(matches!(factory.new_service(&0).try_poll(), Poll::Ready(Err(10))));

    let factory = MapInitErr::new(NewHalve { fail: false }, |e: &'static str| e.len());
    match factory.new_service(&5).try_poll() {
        Poll::Ready(Ok(mut srv)) => {
            // the configuration reached the inner factory
            assert_eq!(srv.poll_ready(), Poll::Ready(Ok(())));
            // the service's own errors are untouched
            assert_eq!(srv.call(3).try_poll(), Poll::Ready(Err(3)));
            assert_eq!(srv.call(4).try_poll(), Poll::Ready(Ok(2)));
        }
        _ => panic!(),
    }
}
