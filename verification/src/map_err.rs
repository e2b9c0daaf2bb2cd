use vstd::prelude::*;
use crate::poll::{Poll, maps_err};
use crate::future::{TryFuture, resolves, lemma_resolves_within};
use crate::func::Mapper;
use crate::service::{Service, NewService};

verus! {

/// Service that changes the error of another service with a function.
#[verifier::reject_recursive_types(A)]
#[verifier::reject_recursive_types(F)]
#[verifier::reject_recursive_types(E)]
pub struct MapErr<A: Service, F: Fn(A::Error) -> E, E> {
    service: A,
    f: Mapper<A::Error, E, F>,
}

impl<A: Service, F: Fn(A::Error) -> E, E> MapErr<A, F, E> {
    /// The service whose errors are changed.
    pub closed spec fn inner(self) -> A {
        self.service
    }

    /// The function that changes them.
    pub closed spec fn mapper(self) -> F {
        self.f.func()
    }

    /// Wraps `service`, whose errors `f` will change.
    pub fn new(service: A, f: F) -> (m: Self)
        requires
            forall|e: A::Error| call_requires(f, (e,)),
        ensures
            m.inner() == service,
            m.mapper() == f,
    {
        MapErr { service, f: Mapper::new(f) }
    }

    /// Wraps `service`, whose errors the function behind `f` will change.
    fn assemble(service: A, f: Mapper<A::Error, E, F>) -> (m: Self)
        ensures
            m.inner() == service,
            m.mapper() == f.func(),
    {
        MapErr { service, f }
    }
}

impl<A: Service + Clone, F: Fn(A::Error) -> E, E> Clone for MapErr<A, F, E> {
    fn clone(&self) -> (m: Self)
        ensures
            m.mapper() == self.mapper(),
            cloned(self.inner(), m.inner()),
    {
        MapErr { service: self.service.clone(), f: self.f.share() }
    }
}

impl<A: Service, F: Fn(A::Error) -> E, E> Service for MapErr<A, F, E> {
    type Request = A::Request;

    type Response = A::Response;

    type Error = E;

    type Future = MapErrFuture<A, F, E>;

    open spec fn readied(&self, next: Self, out: Poll<Result<(), E>>) -> bool {
        &&& next.mapper() == self.mapper()
        &&& exists|inner: Poll<Result<(), A::Error>>|
            self.inner().readied(next.inner(), inner) && #[trigger] maps_err(self.mapper(), inner, out)
    }

    open spec fn called(&self, req: A::Request, next: Self, fut: MapErrFuture<A, F, E>) -> bool {
        &&& next.mapper() == self.mapper()
        &&& fut.mapper() == self.mapper()
        &&& self.inner().called(req, next.inner(), fut.inner())
    }

    fn poll_ready(&mut self) -> (out: Poll<Result<(), E>>) {
        let inner = self.service.poll_ready();
        let out = self.f.map_err(inner);
        assert(old(self).inner().readied(self.inner(), inner));
        assert(maps_err(old(self).mapper(), inner, out));
        out
    }

    fn call(&mut self, req: A::Request) -> (fut: MapErrFuture<A, F, E>) {
        MapErrFuture::new(self.service.call(req), self.f.share())
    }
}

/// The computation of a response of [`MapErr`].
#[verifier::reject_recursive_types(A)]
#[verifier::reject_recursive_types(F)]
#[verifier::reject_recursive_types(E)]
pub struct MapErrFuture<A: Service, F: Fn(A::Error) -> E, E> {
    f: Mapper<A::Error, E, F>,
    fut: A::Future,
}

impl<A: Service, F: Fn(A::Error) -> E, E> MapErrFuture<A, F, E> {
    /// The computation whose error is changed.
    pub closed spec fn inner(self) -> A::Future {
        self.fut
    }

    /// The function that changes it.
    pub closed spec fn mapper(self) -> F {
        self.f.func()
    }

    /// The computation that applies `f` to the error `fut` resolves to.
    pub fn new(fut: A::Future, f: Mapper<A::Error, E, F>) -> (m: Self)
        ensures
            m.inner() == fut,
            m.mapper() == f.func(),
    {
        MapErrFuture { f, fut }
    }
}

impl<A: Service, F: Fn(A::Error) -> E, E> TryFuture for MapErrFuture<A, F, E> {
    type Ok = A::Response;

    type Error = E;

    open spec fn live(&self) -> bool {
        self.inner().live()
    }

    open spec fn polled(&self, next: Self, out: Poll<Result<A::Response, E>>) -> bool {
        &&& next.mapper() == self.mapper()
        &&& exists|inner: Poll<Result<A::Response, A::Error>>|
            self.inner().polled(next.inner(), inner) && #[trigger] maps_err(self.mapper(), inner, out)
    }

    fn try_poll(&mut self) -> (out: Poll<Result<A::Response, E>>) {
        let inner = self.fut.try_poll();
        let ghost seen = inner;
        let out = self.f.map_err(inner);
        assert(old(self).inner().polled(self.inner(), seen));
        assert(maps_err(old(self).mapper(), seen, out));
        out
    }
}

/// `out` is the outcome `inner` with `f` applied to the error of a failure.
pub open spec fn mapped_err<T, E, G, F: Fn(E) -> G>(
    f: F,
    inner: Result<T, E>,
    out: Result<T, G>,
) -> bool {
    match inner {
        Ok(v) => out == Ok::<T, G>(v),
        Err(e) => out matches Err(g) && call_ensures(f, (e,), g),
    }
}

/// A call of a [`MapErr`] resolves to what the call of the inner service
/// resolves to, with the function applied to the error of a failure and the
/// value of a success unchanged.
///
/// That is: if the call with `req` takes the service from `service` to
/// `next` and hands back `fut`, and `fut`, polled to its end, resolves to
/// `out`, then that call called the inner service with `req`, and the
/// computation it was handed back resolved to an outcome of which `out` is
/// the image.
pub proof fn theorem_map_err_call<A: Service, F: Fn(A::Error) -> E, E>(
    service: MapErr<A, F, E>,
    req: A::Request,
    next: MapErr<A, F, E>,
    fut: MapErrFuture<A, F, E>,
    out: Result<A::Response, E>,
)
    requires
        service.called(req, next, fut),
        resolves(fut, out),
    ensures
        service.inner().called(req, next.inner(), fut.inner()),
        exists|inner: Result<A::Response, A::Error>|
            resolves(fut.inner(), inner) && #[trigger] mapped_err(service.mapper(), inner, out),
{
    let f = fut.mapper();
    let rel = |i: Poll<Result<A::Response, A::Error>>, o: Poll<Result<A::Response, E>>|
        maps_err(f, i, o);
    assert forall|s: MapErrFuture<A, F, E>, n: MapErrFuture<A, F, E>, o|
        s.mapper() == f && #[trigger] s.polled(n, o) implies n.mapper() == f && exists|
        i: Poll<Result<A::Response, A::Error>>,
    | s.inner().polled(n.inner(), i) && #[trigger] rel(i, o) by {
        let i = choose|i: Poll<Result<A::Response, A::Error>>|
            s.inner().polled(n.inner(), i) && #[trigger] maps_err(s.mapper(), i, o);
        assert(rel(i, o));
    }
    lemma_resolves_within::<MapErrFuture<A, F, E>, A::Future>(
        fut,
        out,
        |w: MapErrFuture<A, F, E>| w.inner(),
        rel,
        |w: MapErrFuture<A, F, E>| w.mapper() == f,
    );
    let inner = choose|r: Result<A::Response, A::Error>|
        resolves(fut.inner(), r) && #[trigger] rel(Poll::Ready(r), Poll::Ready(out));
    assert(mapped_err(service.mapper(), inner, out));
}

/// Factory of services whose errors are changed with a function.
#[verifier::reject_recursive_types(A)]
#[verifier::reject_recursive_types(F)]
#[verifier::reject_recursive_types(E)]
pub struct MapErrNewService<A, F, E> where A: NewService, F: Fn(A::Error) -> E {
    a: A,
    f: Mapper<A::Error, E, F>,
}

impl<A, F, E> MapErrNewService<A, F, E> where A: NewService, F: Fn(A::Error) -> E {
    /// The factory whose services are wrapped.
    pub closed spec fn inner(self) -> A {
        self.a
    }

    /// The function that changes the errors.
    pub closed spec fn mapper(self) -> F {
        self.f.func()
    }

    /// Wraps the services that `a` builds, whose errors `f` will change.
    pub fn new(a: A, f: F) -> (factory: Self)
        requires
            forall|e: A::Error| call_requires(f, (e,)),
        ensures
            factory.inner() == a,
            factory.mapper() == f,
    {
        Self { a, f: Mapper::new(f) }
    }
}

impl<A, F, E> Clone for MapErrNewService<A, F, E> where
    A: NewService + Clone,
    F: Fn(A::Error) -> E,
 {
    fn clone(&self) -> (factory: Self)
        ensures
            factory.mapper() == self.mapper(),
            cloned(self.inner(), factory.inner()),
    {
        Self { a: self.a.clone(), f: self.f.share() }
    }
}

impl<A, F, E> NewService for MapErrNewService<A, F, E> where A: NewService, F: Fn(A::Error) -> E {
    type Request = A::Request;

    type Response = A::Response;

    type Error = E;

    type Config = A::Config;

    type Service = MapErr<A::Service, F, E>;

    type InitError = A::InitError;

    type Future = MapErrNewServiceFuture<A, F, E>;

    open spec fn builds(&self, cfg: A::Config, fut: MapErrNewServiceFuture<A, F, E>) -> bool {
        &&& fut.mapper() == self.mapper()
        &&& self.inner().builds(cfg, fut.inner())
    }

    fn new_service(&self, cfg: &A::Config) -> (fut: MapErrNewServiceFuture<A, F, E>) {
        MapErrNewServiceFuture::new(self.a.new_service(cfg), self.f.share())
    }
}

/// The construction of a [`MapErr`].
#[verifier::reject_recursive_types(A)]
#[verifier::reject_recursive_types(F)]
#[verifier::reject_recursive_types(E)]
pub struct MapErrNewServiceFuture<A, F, E> where A: NewService, F: Fn(A::Error) -> E {
    fut: A::Future,
    f: Mapper<A::Error, E, F>,
}

impl<A, F, E> MapErrNewServiceFuture<A, F, E> where A: NewService, F: Fn(A::Error) -> E {
    /// The construction of the service that will be wrapped.
    pub closed spec fn inner(self) -> A::Future {
        self.fut
    }

    /// The function that will change the errors.
    pub closed spec fn mapper(self) -> F {
        self.f.func()
    }

    /// The construction that wraps the service `fut` resolves to.
    pub fn new(fut: A::Future, f: Mapper<A::Error, E, F>) -> (m: Self)
        ensures
            m.inner() == fut,
            m.mapper() == f.func(),
    {
        MapErrNewServiceFuture { f, fut }
    }

    /// `out` is `inner` with the service of a success wrapped, to have its
    /// errors changed by `f`; an error and `Pending` pass through.
    pub open spec fn wraps_built(
        f: F,
        inner: Poll<Result<A::Service, A::InitError>>,
        out: Poll<Result<MapErr<A::Service, F, E>, A::InitError>>,
    ) -> bool {
        match inner {
            Poll::Pending => out is Pending,
            Poll::Ready(Err(e)) => out == Poll::Ready(
                Err::<MapErr<A::Service, F, E>, A::InitError>(e),
            ),
            Poll::Ready(Ok(service)) => {
                &&& out matches Poll::Ready(Ok(wrapped))
                &&& wrapped.inner() == service
                &&& wrapped.mapper() == f
            },
        }
    }
}

impl<A, F, E> TryFuture for MapErrNewServiceFuture<A, F, E> where
    A: NewService,
    F: Fn(A::Error) -> E,
 {
    type Ok = MapErr<A::Service, F, E>;

    type Error = A::InitError;

    open spec fn live(&self) -> bool {
        self.inner().live()
    }

    open spec fn polled(
        &self,
        next: Self,
        out: Poll<Result<MapErr<A::Service, F, E>, A::InitError>>,
    ) -> bool {
        &&& next.mapper() == self.mapper()
        &&& exists|inner: Poll<Result<A::Service, A::InitError>>|
            self.inner().polled(next.inner(), inner) && #[trigger] Self::wraps_built(
                self.mapper(),
                inner,
                out,
            )
    }

    fn try_poll(&mut self) -> (out: Poll<Result<MapErr<A::Service, F, E>, A::InitError>>) {
        let inner = self.fut.try_poll();
        let out = match inner {
            Poll::Pending => Poll::Pending,
            Poll::Ready(Err(e)) => Poll::Ready(Err(e)),
            Poll::Ready(Ok(service)) => Poll::Ready(Ok(MapErr::assemble(service, self.f.share()))),
        };
        assert(old(self).inner().polled(self.inner(), inner));
        assert(Self::wraps_built(old(self).mapper(), inner, out));
        out
    }
}

} // verus!
