use vstd::prelude::*;
use crate::poll::{Poll, maps_err};
use crate::future::TryFuture;
use crate::func::Mapper;
use crate::service::NewService;

verus! {

/// Factory that changes the error with which the construction of a service
/// fails. The services it builds are those of the inner factory, with the
/// errors of their own.
#[verifier::reject_recursive_types(A)]
#[verifier::reject_recursive_types(F)]
#[verifier::reject_recursive_types(E)]
pub struct MapInitErr<A: NewService, F: Fn(A::InitError) -> E, E> {
    a: A,
    f: Mapper<A::InitError, E, F>,
}

impl<A: NewService, F: Fn(A::InitError) -> E, E> MapInitErr<A, F, E> {
    /// The factory that builds the services.
    pub closed spec fn inner(self) -> A {
        self.a
    }

    /// The function that changes the errors of construction.
    pub closed spec fn mapper(self) -> F {
        self.f.func()
    }

    /// Wraps `a`, whose errors of construction `f` will change.
    pub fn new(a: A, f: F) -> (factory: Self)
        requires
            forall|e: A::InitError| call_requires(f, (e,)),
        ensures
            factory.inner() == a,
            factory.mapper() == f,
    {
        Self { a, f: Mapper::new(f) }
    }
}

impl<A: NewService + Clone, F: Fn(A::InitError) -> E, E> Clone for MapInitErr<A, F, E> {
    fn clone(&self) -> (factory: Self)
        ensures
            factory.mapper() == self.mapper(),
            cloned(self.inner(), factory.inner()),
    {
        Self { a: self.a.clone(), f: self.f.share() }
    }
}

impl<A: NewService, F: Fn(A::InitError) -> E, E> NewService for MapInitErr<A, F, E> {
    type Request = A::Request;

    type Response = A::Response;

    type Error = A::Error;

    type Config = A::Config;

    type Service = A::Service;

    type InitError = E;

    type Future = MapInitErrFuture<A, F, E>;

    open spec fn builds(&self, cfg: A::Config, fut: MapInitErrFuture<A, F, E>) -> bool {
        &&& fut.mapper() == self.mapper()
        &&& self.inner().builds(cfg, fut.inner())
    }

    fn new_service(&self, cfg: &A::Config) -> (fut: MapInitErrFuture<A, F, E>) {
        MapInitErrFuture::new(self.a.new_service(cfg), self.f.share())
    }
}

/// The construction of a service by a [`MapInitErr`].
#[verifier::reject_recursive_types(A)]
#[verifier::reject_recursive_types(F)]
#[verifier::reject_recursive_types(E)]
pub struct MapInitErrFuture<A: NewService, F: Fn(A::InitError) -> E, E> {
    f: Mapper<A::InitError, E, F>,
    fut: A::Future,
}

impl<A: NewService, F: Fn(A::InitError) -> E, E> MapInitErrFuture<A, F, E> {
    /// The construction whose error is changed.
    pub closed spec fn inner(self) -> A::Future {
        self.fut
    }

    /// The function that changes it.
    pub closed spec fn mapper(self) -> F {
        self.f.func()
    }

    /// The construction that applies `f` to the error `fut` resolves to.
    pub fn new(fut: A::Future, f: Mapper<A::InitError, E, F>) -> (m: Self)
        ensures
            m.inner() == fut,
            m.mapper() == f.func(),
    {
        MapInitErrFuture { f, fut }
    }
}

impl<A: NewService, F: Fn(A::InitError) -> E, E> TryFuture for MapInitErrFuture<A, F, E> {
    type Ok = A::Service;

    type Error = E;

    open spec fn live(&self) -> bool {
        self.inner().live()
    }

    open spec fn polled(&self, next: Self, out: Poll<Result<A::Service, E>>) -> bool {
        &&& next.mapper() == self.mapper()
        &&& exists|inner: Poll<Result<A::Service, A::InitError>>|
            self.inner().polled(next.inner(), inner) && #[trigger] maps_err(self.mapper(), inner, out)
    }

    fn try_poll(&mut self) -> (out: Poll<Result<A::Service, E>>) {
        let inner = self.fut.try_poll();
        let ghost seen = inner;
        let out = self.f.map_err(inner);
        assert(old(self).inner().polled(self.inner(), seen));
        assert(maps_err(old(self).mapper(), seen, out));
        out
    }
}

} // verus!
