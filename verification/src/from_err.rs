use vstd::prelude::*;
use std::marker::PhantomData;
use crate::poll::Poll;
use crate::future::{TryFuture, resolves, lemma_resolves_within};
use crate::service::{Service, NewService};

verus! {

/// `out` is `inner` with the error of a failure converted into `E`; a value
/// and `Pending` pass through.
pub open spec fn lifts<T, D, E: From<D>>(
    inner: Poll<Result<T, D>>,
    out: Poll<Result<T, E>>,
) -> bool {
    match inner {
        Poll::Pending => out is Pending,
        Poll::Ready(Ok(v)) => out == Poll::Ready(Ok::<T, E>(v)),
        Poll::Ready(Err(d)) => out matches Poll::Ready(Err(e)) && call_ensures(E::from, (d,), e),
    }
}

/// Converts the error of a failure into `E`.
pub fn lift<T, D, E: From<D>>(inner: Poll<Result<T, D>>) -> (out: Poll<Result<T, E>>)
    ensures
        lifts(inner, out),
{
    match inner {
        Poll::Pending => Poll::Pending,
        Poll::Ready(Ok(v)) => Poll::Ready(Ok(v)),
        Poll::Ready(Err(d)) => Poll::Ready(Err(E::from(d))),
    }
}

/// Service that converts the errors of another service into the type `E`.
#[verifier::reject_recursive_types(E)]
pub struct FromErr<A, E> {
    service: A,
    f: PhantomData<E>,
}

impl<A, E> FromErr<A, E> {
    /// The service whose errors are converted.
    pub closed spec fn inner(self) -> A {
        self.service
    }

    /// Wraps `service`.
    pub fn new(service: A) -> (s: Self) where A: Service, E: From<A::Error>
        ensures
            s.inner() == service,
    {
        FromErr { service, f: PhantomData }
    }
}

impl<A: Clone, E> Clone for FromErr<A, E> {
    fn clone(&self) -> (s: Self)
        ensures
            cloned(self.inner(), s.inner()),
    {
        FromErr { service: self.service.clone(), f: PhantomData }
    }
}

impl<A, E> Service for FromErr<A, E> where A: Service, E: From<A::Error> {
    type Request = A::Request;

    type Response = A::Response;

    type Error = E;

    type Future = FromErrFuture<A, E>;

    open spec fn readied(&self, next: Self, out: Poll<Result<(), E>>) -> bool {
        exists|inner: Poll<Result<(), A::Error>>|
            self.inner().readied(next.inner(), inner) && #[trigger] lifts(inner, out)
    }

    open spec fn called(&self, req: A::Request, next: Self, fut: FromErrFuture<A, E>) -> bool {
        self.inner().called(req, next.inner(), fut.inner())
    }

    fn poll_ready(&mut self) -> (out: Poll<Result<(), E>>) {
        let inner = self.service.poll_ready();
        let out = lift(inner);
        assert(old(self).inner().readied(self.inner(), inner));
        assert(lifts(inner, out));
        out
    }

    fn call(&mut self, req: A::Request) -> (fut: FromErrFuture<A, E>) {
        FromErrFuture { fut: self.service.call(req), f: PhantomData }
    }
}

/// The computation of a response of [`FromErr`].
#[verifier::reject_recursive_types(A)]
#[verifier::reject_recursive_types(E)]
pub struct FromErrFuture<A: Service, E> {
    fut: A::Future,
    f: PhantomData<E>,
}

impl<A: Service, E> FromErrFuture<A, E> {
    /// The computation whose error is converted.
    pub closed spec fn inner(self) -> A::Future {
        self.fut
    }
}

impl<A, E> TryFuture for FromErrFuture<A, E> where A: Service, E: From<A::Error> {
    type Ok = A::Response;

    type Error = E;

    open spec fn live(&self) -> bool {
        self.inner().live()
    }

    open spec fn polled(&self, next: Self, out: Poll<Result<A::Response, E>>) -> bool {
        exists|inner: Poll<Result<A::Response, A::Error>>|
            self.inner().polled(next.inner(), inner) && #[trigger] lifts(inner, out)
    }

    fn try_poll(&mut self) -> (out: Poll<Result<A::Response, E>>) {
        let inner = self.fut.try_poll();
        let out = lift(inner);
        assert(old(self).inner().polled(self.inner(), inner));
        assert(lifts(inner, out));
        out
    }
}

/// `out` is the outcome `inner` with the error of a failure converted into
/// `E`.
pub open spec fn lifted<T, D, E: From<D>>(inner: Result<T, D>, out: Result<T, E>) -> bool {
    match inner {
        Ok(v) => out == Ok::<T, E>(v),
        Err(d) => out matches Err(e) && call_ensures(E::from, (d,), e),
    }
}

/// A call of a [`FromErr`] resolves to what the call of the inner service
/// resolves to, with the error of a failure converted into `E` and the value
/// of a success unchanged.
///
/// That is: if the call with `req` takes the service from `service` to
/// `next` and hands back `fut`, and `fut`, polled to its end, resolves to
/// `out`, then that call called the inner service with `req`, and the
/// computation it was handed back resolved to an outcome of which `out` is
/// the image.
pub proof fn theorem_from_err_call<A: Service, E: From<A::Error>>(
    service: FromErr<A, E>,
    req: A::Request,
    next: FromErr<A, E>,
    fut: FromErrFuture<A, E>,
    out: Result<A::Response, E>,
)
    requires
        service.called(req, next, fut),
        resolves(fut, out),
    ensures
        service.inner().called(req, next.inner(), fut.inner()),
        exists|inner: Result<A::Response, A::Error>|
            resolves(fut.inner(), inner) && #[trigger] lifted(inner, out),
{
    let rel = |i: Poll<Result<A::Response, A::Error>>, o: Poll<Result<A::Response, E>>|
        lifts(i, o);
    assert forall|s: FromErrFuture<A, E>, n: FromErrFuture<A, E>, o| #[trigger]
        s.polled(n, o) implies exists|i: Poll<Result<A::Response, A::Error>>|
        s.inner().polled(n.inner(), i) && #[trigger] rel(i, o) by {
        let i = choose|i: Poll<Result<A::Response, A::Error>>|
            s.inner().polled(n.inner(), i) && #[trigger] lifts(i, o);
        assert(rel(i, o));
    }
    lemma_resolves_within::<FromErrFuture<A, E>, A::Future>(
        fut,
        out,
        |w: FromErrFuture<A, E>| w.inner(),
        rel,
        |w: FromErrFuture<A, E>| true,
    );
    let inner = choose|r: Result<A::Response, A::Error>|
        resolves(fut.inner(), r) && #[trigger] rel(Poll::Ready(r), Poll::Ready(out));
    assert(lifted(inner, out));
}

/// Where `E::from` does what `from_spec` says, a converted error is
/// `from_spec` of the error it was converted from.
pub proof fn lemma_lifted_error<D, E: From<D>>(d: D, e: E)
    requires
        call_ensures(E::from, (d,), e),
        <E as vstd::std_specs::convert::FromSpec<D>>::obeys_from_spec(),
    ensures
        e == <E as vstd::std_specs::convert::FromSpec<D>>::from_spec(d),
{
}

/// Factory of services whose errors are converted into the type `E`.
#[verifier::reject_recursive_types(E)]
pub struct FromErrNewService<A, E> {
    a: A,
    e: PhantomData<E>,
}

impl<A, E> FromErrNewService<A, E> {
    /// The factory whose services are wrapped.
    pub closed spec fn inner(self) -> A {
        self.a
    }

    /// Wraps the services that `a` builds.
    pub fn new(a: A) -> (factory: Self) where A: NewService, E: From<A::Error>
        ensures
            factory.inner() == a,
    {
        Self { a, e: PhantomData }
    }
}

impl<A: Clone, E> Clone for FromErrNewService<A, E> {
    fn clone(&self) -> (factory: Self)
        ensures
            cloned(self.inner(), factory.inner()),
    {
        Self { a: self.a.clone(), e: PhantomData }
    }
}

impl<A, E> NewService for FromErrNewService<A, E> where A: NewService, E: From<A::Error> {
    type Request = A::Request;

    type Response = A::Response;

    type Error = E;

    type Config = A::Config;

    type Service = FromErr<A::Service, E>;

    type InitError = A::InitError;

    type Future = FromErrNewServiceFuture<A, E>;

    open spec fn builds(&self, cfg: A::Config, fut: FromErrNewServiceFuture<A, E>) -> bool {
        self.inner().builds(cfg, fut.inner())
    }

    fn new_service(&self, cfg: &A::Config) -> (fut: FromErrNewServiceFuture<A, E>) {
        FromErrNewServiceFuture { fut: self.a.new_service(cfg), e: PhantomData }
    }
}

/// The construction of a [`FromErr`].
#[verifier::reject_recursive_types(A)]
#[verifier::reject_recursive_types(E)]
pub struct FromErrNewServiceFuture<A, E> where A: NewService, E: From<A::Error> {
    fut: A::Future,
    e: PhantomData<E>,
}

impl<A, E> FromErrNewServiceFuture<A, E> where A: NewService, E: From<A::Error> {
    /// The construction of the service that will be wrapped.
    pub closed spec fn inner(self) -> A::Future {
        self.fut
    }
}

impl<A, E> TryFuture for FromErrNewServiceFuture<A, E> where A: NewService, E: From<A::Error> {
    type Ok = FromErr<A::Service, E>;

    type Error = A::InitError;

    open spec fn live(&self) -> bool {
        self.inner().live()
    }

    open spec fn polled(
        &self,
        next: Self,
        out: Poll<Result<FromErr<A::Service, E>, A::InitError>>,
    ) -> bool {
        exists|inner: Poll<Result<A::Service, A::InitError>>|
            self.inner().polled(next.inner(), inner) && #[trigger] wraps_built::<A, E>(inner, out)
    }

    fn try_poll(&mut self) -> (out: Poll<Result<FromErr<A::Service, E>, A::InitError>>) {
        let inner = self.fut.try_poll();
        let out = match inner {
            Poll::Pending => Poll::Pending,
            Poll::Ready(Err(e)) => Poll::Ready(Err(e)),
            Poll::Ready(Ok(service)) => Poll::Ready(Ok(FromErr::new(service))),
        };
        assert(old(self).inner().polled(self.inner(), inner));
        assert(wraps_built::<A, E>(inner, out));
        out
    }
}

/// `out` is `inner` with the service of a success wrapped in a [`FromErr`];
/// an error and `Pending` pass through.
pub open spec fn wraps_built<A: NewService, E: From<A::Error>>(
    inner: Poll<Result<A::Service, A::InitError>>,
    out: Poll<Result<FromErr<A::Service, E>, A::InitError>>,
) -> bool {
    match inner {
        Poll::Pending => out is Pending,
        Poll::Ready(Err(e)) => out == Poll::Ready(Err::<FromErr<A::Service, E>, A::InitError>(e)),
        Poll::Ready(Ok(service)) => out matches Poll::Ready(Ok(wrapped)) && wrapped.inner()
            == service,
    }
}

} // verus!
