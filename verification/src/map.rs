use vstd::prelude::*;
use crate::poll::{Poll, maps_ok};
use crate::future::{TryFuture, resolves, lemma_resolves_within};
use crate::func::Mapper;
use crate::service::{Service, NewService};

verus! {

/// Service that changes the response of another service with a function.
#[verifier::reject_recursive_types(A)]
#[verifier::reject_recursive_types(F)]
#[verifier::reject_recursive_types(Response)]
pub struct MapService<A: Service, F: Fn(A::Response) -> Response, Response> {
    service: A,
    f: Mapper<A::Response, Response, F>,
}

impl<A: Service, F: Fn(A::Response) -> Response, Response> MapService<A, F, Response> {
    /// The service whose responses are changed.
    pub closed spec fn inner(self) -> A {
        self.service
    }

    /// The function that changes them.
    pub closed spec fn mapper(self) -> F {
        self.f.func()
    }

    /// Wraps `service`, whose responses `f` will change.
    pub fn new(service: A, f: F) -> (m: Self)
        requires
            forall|v: A::Response| call_requires(f, (v,)),
        ensures
            m.inner() == service,
            m.mapper() == f,
    {
        MapService { service, f: Mapper::new(f) }
    }

    /// Wraps `service`, whose responses the function behind `f` will
    /// change.
    fn assemble(service: A, f: Mapper<A::Response, Response, F>) -> (m: Self)
        ensures
            m.inner() == service,
            m.mapper() == f.func(),
    {
        MapService { service, f }
    }
}

impl<A: Service + Clone, F: Fn(A::Response) -> Response, Response> Clone for MapService<
    A,
    F,
    Response,
> {
    fn clone(&self) -> (m: Self)
        ensures
            m.mapper() == self.mapper(),
            cloned(self.inner(), m.inner()),
    {
        MapService { service: self.service.clone(), f: self.f.share() }
    }
}

impl<A: Service, F: Fn(A::Response) -> Response, Response> Service for MapService<A, F, Response> {
    type Request = A::Request;

    type Response = Response;

    type Error = A::Error;

    type Future = MapFuture<A, F, Response>;

    open spec fn readied(&self, next: Self, out: Poll<Result<(), A::Error>>) -> bool {
        &&& next.mapper() == self.mapper()
        &&& self.inner().readied(next.inner(), out)
    }

    open spec fn called(&self, req: A::Request, next: Self, fut: MapFuture<A, F, Response>) -> bool {
        &&& next.mapper() == self.mapper()
        &&& fut.mapper() == self.mapper()
        &&& self.inner().called(req, next.inner(), fut.inner())
    }

    fn poll_ready(&mut self) -> (out: Poll<Result<(), A::Error>>) {
        self.service.poll_ready()
    }

    fn call(&mut self, req: A::Request) -> (fut: MapFuture<A, F, Response>) {
        MapFuture::new(self.service.call(req), self.f.share())
    }
}

/// The computation of a response of [`MapService`].
#[verifier::reject_recursive_types(A)]
#[verifier::reject_recursive_types(F)]
#[verifier::reject_recursive_types(Response)]
pub struct MapFuture<A: Service, F: Fn(A::Response) -> Response, Response> {
    f: Mapper<A::Response, Response, F>,
    fut: A::Future,
}

impl<A: Service, F: Fn(A::Response) -> Response, Response> MapFuture<A, F, Response> {
    /// The computation whose value is changed.
    pub closed spec fn inner(self) -> A::Future {
        self.fut
    }

    /// The function that changes it.
    pub closed spec fn mapper(self) -> F {
        self.f.func()
    }

    /// The computation that applies `f` to the value `fut` resolves to.
    pub fn new(fut: A::Future, f: Mapper<A::Response, Response, F>) -> (m: Self)
        ensures
            m.inner() == fut,
            m.mapper() == f.func(),
    {
        MapFuture { f, fut }
    }
}

impl<A: Service, F: Fn(A::Response) -> Response, Response> TryFuture for MapFuture<A, F, Response> {
    type Ok = Response;

    type Error = A::Error;

    open spec fn live(&self) -> bool {
        self.inner().live()
    }

    open spec fn polled(&self, next: Self, out: Poll<Result<Response, A::Error>>) -> bool {
        &&& next.mapper() == self.mapper()
        &&& exists|inner: Poll<Result<A::Response, A::Error>>|
            self.inner().polled(next.inner(), inner) && #[trigger] maps_ok(self.mapper(), inner, out)
    }

    fn try_poll(&mut self) -> (out: Poll<Result<Response, A::Error>>) {
        let inner = self.fut.try_poll();
        let ghost seen = inner;
        let out = self.f.map_ok(inner);
        assert(old(self).inner().polled(self.inner(), seen));
        assert(maps_ok(old(self).mapper(), seen, out));
        out
    }
}

/// `out` is the outcome `inner` with `f` applied to the value of a success.
pub open spec fn mapped<T, U, E, F: Fn(T) -> U>(f: F, inner: Result<T, E>, out: Result<U, E>) -> bool {
    match inner {
        Ok(v) => out matches Ok(w) && call_ensures(f, (v,), w),
        Err(e) => out == Err::<U, E>(e),
    }
}

/// A call of a [`MapService`] resolves to what the call of the inner service
/// resolves to, with the function applied to the value of a success and the
/// error of a failure unchanged.
///
/// That is: if the call with `req` takes the service from `service` to
/// `next` and hands back `fut`, and `fut`, polled to its end, resolves to
/// `out`, then that call called the inner service with `req`, and the
/// computation it was handed back resolved to an outcome of which `out` is
/// the image.
pub proof fn theorem_map_call<A: Service, F: Fn(A::Response) -> Response, Response>(
    service: MapService<A, F, Response>,
    req: A::Request,
    next: MapService<A, F, Response>,
    fut: MapFuture<A, F, Response>,
    out: Result<Response, A::Error>,
)
    requires
        service.called(req, next, fut),
        resolves(fut, out),
    ensures
        service.inner().called(req, next.inner(), fut.inner()),
        exists|inner: Result<A::Response, A::Error>|
            resolves(fut.inner(), inner) && #[trigger] mapped(service.mapper(), inner, out),
{
    let f = fut.mapper();
    let rel = |i: Poll<Result<A::Response, A::Error>>, o: Poll<Result<Response, A::Error>>|
        maps_ok(f, i, o);
    assert forall|s: MapFuture<A, F, Response>, n: MapFuture<A, F, Response>, o|
        s.mapper() == f && #[trigger] s.polled(n, o) implies n.mapper() == f && exists|
        i: Poll<Result<A::Response, A::Error>>,
    | s.inner().polled(n.inner(), i) && #[trigger] rel(i, o) by {
        let i = choose|i: Poll<Result<A::Response, A::Error>>|
            s.inner().polled(n.inner(), i) && #[trigger] maps_ok(s.mapper(), i, o);
        assert(rel(i, o));
    }
    lemma_resolves_within::<MapFuture<A, F, Response>, A::Future>(
        fut,
        out,
        |w: MapFuture<A, F, Response>| w.inner(),
        rel,
        |w: MapFuture<A, F, Response>| w.mapper() == f,
    );
    let inner = choose|r: Result<A::Response, A::Error>|
        resolves(fut.inner(), r) && #[trigger] rel(Poll::Ready(r), Poll::Ready(out));
    assert(mapped(service.mapper(), inner, out));
}

/// Factory of services whose responses are changed with a function.
#[verifier::reject_recursive_types(A)]
#[verifier::reject_recursive_types(F)]
#[verifier::reject_recursive_types(Res)]
pub struct MapNewService<A: NewService, F: Fn(A::Response) -> Res, Res> {
    a: A,
    f: Mapper<A::Response, Res, F>,
}

impl<A: NewService, F: Fn(A::Response) -> Res, Res> MapNewService<A, F, Res> {
    /// The factory whose services are wrapped.
    pub closed spec fn inner(self) -> A {
        self.a
    }

    /// The function that changes the responses.
    pub closed spec fn mapper(self) -> F {
        self.f.func()
    }

    /// Wraps the services that `a` builds, whose responses `f` will change.
    pub fn new(a: A, f: F) -> (factory: Self)
        requires
            forall|v: A::Response| call_requires(f, (v,)),
        ensures
            factory.inner() == a,
            factory.mapper() == f,
    {
        Self { a, f: Mapper::new(f) }
    }
}

impl<A: NewService + Clone, F: Fn(A::Response) -> Res, Res> Clone for MapNewService<A, F, Res> {
    fn clone(&self) -> (factory: Self)
        ensures
            factory.mapper() == self.mapper(),
            cloned(self.inner(), factory.inner()),
    {
        Self { a: self.a.clone(), f: self.f.share() }
    }
}

impl<A: NewService, F: Fn(A::Response) -> Res, Res> NewService for MapNewService<A, F, Res> {
    type Request = A::Request;

    type Response = Res;

    type Error = A::Error;

    type Config = A::Config;

    type Service = MapService<A::Service, F, Res>;

    type InitError = A::InitError;

    type Future = MapNewServiceFuture<A, F, Res>;

    open spec fn builds(&self, cfg: A::Config, fut: MapNewServiceFuture<A, F, Res>) -> bool {
        &&& fut.mapper() == self.mapper()
        &&& self.inner().builds(cfg, fut.inner())
    }

    fn new_service(&self, cfg: &A::Config) -> (fut: MapNewServiceFuture<A, F, Res>) {
        MapNewServiceFuture::new(self.a.new_service(cfg), self.f.share())
    }
}

/// The construction of a [`MapService`].
#[verifier::reject_recursive_types(A)]
#[verifier::reject_recursive_types(F)]
#[verifier::reject_recursive_types(Res)]
pub struct MapNewServiceFuture<A: NewService, F: Fn(A::Response) -> Res, Res> {
    fut: A::Future,
    f: Mapper<A::Response, Res, F>,
}

impl<A: NewService, F: Fn(A::Response) -> Res, Res> MapNewServiceFuture<A, F, Res> {
    /// The construction of the service that will be wrapped.
    pub closed spec fn inner(self) -> A::Future {
        self.fut
    }

    /// The function that will change the responses.
    pub closed spec fn mapper(self) -> F {
        self.f.func()
    }

    /// The construction that wraps the service `fut` resolves to.
    pub fn new(fut: A::Future, f: Mapper<A::Response, Res, F>) -> (m: Self)
        ensures
            m.inner() == fut,
            m.mapper() == f.func(),
    {
        MapNewServiceFuture { f, fut }
    }

    /// `out` is `inner` with the service of a success wrapped, to have its
    /// responses changed by `f`; an error and `Pending` pass through.
    pub open spec fn wraps_built(
        f: F,
        inner: Poll<Result<A::Service, A::InitError>>,
        out: Poll<Result<MapService<A::Service, F, Res>, A::InitError>>,
    ) -> bool {
        match inner {
            Poll::Pending => out is Pending,
            Poll::Ready(Err(e)) => out == Poll::Ready(
                Err::<MapService<A::Service, F, Res>, A::InitError>(e),
            ),
            Poll::Ready(Ok(service)) => {
                &&& out matches Poll::Ready(Ok(wrapped))
                &&& wrapped.inner() == service
                &&& wrapped.mapper() == f
            },
        }
    }
}

impl<A: NewService, F: Fn(A::Response) -> Res, Res> TryFuture for MapNewServiceFuture<A, F, Res> {
    type Ok = MapService<A::Service, F, Res>;

    type Error = A::InitError;

    open spec fn live(&self) -> bool {
        self.inner().live()
    }

    open spec fn polled(
        &self,
        next: Self,
        out: Poll<Result<MapService<A::Service, F, Res>, A::InitError>>,
    ) -> bool {
        &&& next.mapper() == self.mapper()
        &&& exists|inner: Poll<Result<A::Service, A::InitError>>|
            self.inner().polled(next.inner(), inner) && #[trigger] Self::wraps_built(
                self.mapper(),
                inner,
                out,
            )
    }

    fn try_poll(&mut self) -> (out: Poll<Result<MapService<A::Service, F, Res>, A::InitError>>) {
        let inner = self.fut.try_poll();
        let out = match inner {
            Poll::Pending => Poll::Pending,
            Poll::Ready(Err(e)) => Poll::Ready(Err(e)),
            Poll::Ready(Ok(service)) => Poll::Ready(
                Ok(MapService::assemble(service, self.f.share())),
            ),
        };
        assert(old(self).inner().polled(self.inner(), inner));
        assert(Self::wraps_built(old(self).mapper(), inner, out));
        out
    }
}

} // verus!
