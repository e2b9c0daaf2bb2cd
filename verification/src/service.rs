use vstd::prelude::*;
use vstd::predicate::Predicate;
use crate::poll::Poll;
use crate::future::TryFuture;

verus! {

/// A unit of request handling: a readiness check, and a call that turns a
/// request into a computation of the response.
///
/// Callers poll for readiness before each call and call only after
/// `poll_ready` handed back `Ready(Ok(()))`.
///
/// Each implementor describes a readiness check by the relation
/// [`Service::readied`] and a call by the relation [`Service::called`].
pub trait Service: Sized {
    type Request;

    type Response;

    type Error;

    type Future: TryFuture<Ok = Self::Response, Error = Self::Error>;

    /// A readiness check may take the service from `self` to `next` and
    /// report `out`.
    spec fn readied(&self, next: Self, out: Poll<Result<(), Self::Error>>) -> bool;

    /// A call with `req` may take the service from `self` to `next` and hand
    /// back the computation `fut`.
    spec fn called(&self, req: Self::Request, next: Self, fut: Self::Future) -> bool;

    /// Reports whether the service can take a request now.
    fn poll_ready(&mut self) -> (out: Poll<Result<(), Self::Error>>)
        ensures
            old(self).readied(*final(self), out),
    ;

    /// Starts processing `req`.
    fn call(&mut self, req: Self::Request) -> (fut: Self::Future)
        ensures
            old(self).called(req, *final(self), fut),
            fut.live(),
    ;
}

/// One use of a service, a readiness check or a call, may take it from
/// `service` to `next`; so may a copy.
pub open spec fn used<S: Service + Clone>(service: S, next: S) -> bool {
    ||| exists|out: Poll<Result<(), S::Error>>| service.readied(next, out)
    ||| exists|req: S::Request, fut: S::Future| service.called(req, next, fut)
    ||| cloned(service, next)
}

/// Each of the states in `states` but the last was taken to the state that
/// follows it by one use of the service.
pub open spec fn uses<S: Service + Clone>(states: Seq<S>) -> bool {
    forall|i: int| 0 <= i < states.len() - 1 ==> used(#[trigger] states[i], states[i + 1])
}

/// Used and copied again and again, the service `origin` may come to stand
/// at `now`.
pub open spec fn descends<S: Service + Clone>(origin: S, now: S) -> bool {
    exists|states: Seq<S>|
        states.len() > 0 && states[0] == origin && #[trigger] states.last() == now && uses(states)
}

/// A service descends from itself.
pub proof fn lemma_descends_from_itself<S: Service + Clone>(service: S)
    ensures
        descends(service, service),
{
    let states = seq![service];
    assert(states.last() == service && uses(states));
}

/// One more use takes a service to a state that descends from where it
/// started.
pub proof fn lemma_descends_further<S: Service + Clone>(origin: S, now: S, then: S)
    requires
        descends(origin, now),
        used(now, then),
    ensures
        descends(origin, then),
{
    let states = choose|states: Seq<S>|
        states.len() > 0 && states[0] == origin && #[trigger] states.last() == now && uses(states);
    let longer = states.push(then);
    assert forall|i: int| 0 <= i < longer.len() - 1 implies used(
        #[trigger] longer[i],
        longer[i + 1],
    ) by {
        if i < states.len() - 1 {
            assert(used(states[i], states[i + 1]));
        }
    }
    assert(longer.last() == then && uses(longer) && longer[0] == origin);
}

/// The rule of a slot that holds a service in use: it admits the states
/// that descend from `origin`.
pub struct Descends<S> {
    pub origin: S,
}

impl<S: Service + Clone> Predicate<S> for Descends<S> {
    open spec fn predicate(&self, v: S) -> bool {
        descends(self.origin, v)
    }
}

/// The states that descend from a service include the copies of every one
/// of them.
pub proof fn lemma_descent_admits_copies<S: Service + Clone>(rule: Descends<S>)
    ensures
        crate::cell::admits_copies::<S, Descends<S>>(rule),
{
    assert forall|v: S, copy: S| rule.predicate(v) && #[trigger] cloned(v, copy) implies
        rule.predicate(copy) by {
        lemma_descends_further(rule.origin, v, copy);
    }
}

/// A factory of services: builds one, through a computation, for each
/// configuration it is given.
pub trait NewService: Sized {
    type Request;

    type Response;

    type Error;

    type Config;

    type Service: Service<Request = Self::Request, Response = Self::Response, Error = Self::Error>;

    type InitError;

    type Future: TryFuture<Ok = Self::Service, Error = Self::InitError>;

    /// Asked for a service for `cfg`, the factory may hand back `fut`.
    spec fn builds(&self, cfg: Self::Config, fut: Self::Future) -> bool;

    /// Starts building a service for `cfg`.
    fn new_service(&self, cfg: &Self::Config) -> (fut: Self::Future)
        ensures
            self.builds(*cfg, fut),
            fut.live(),
    ;
}

/// A factory of services that wrap a service `S` which is already built.
pub trait Transform<S>: Sized {
    type Request;

    type Response;

    type Error;

    type Transform: Service<Request = Self::Request, Response = Self::Response, Error = Self::Error>;

    type InitError;

    type Future: TryFuture<Ok = Self::Transform, Error = Self::InitError>;

    /// Given `service` to wrap, the transform may hand back `fut`.
    spec fn wraps(&self, service: S, fut: Self::Future) -> bool;

    /// Starts building the service that wraps `service`.
    fn new_transform(&self, service: S) -> (fut: Self::Future)
        ensures
            self.wraps(service, fut),
            fut.live(),
    ;
}

/// A value that can be turned into the service `T`.
pub trait IntoService<T: Service>: Sized {
    /// `service` is what `self` turns into.
    spec fn becomes(&self, service: T) -> bool;

    fn into_service(self) -> (service: T)
        ensures
            self.becomes(service),
    ;
}

impl<T: Service> IntoService<T> for T {
    open spec fn becomes(&self, service: T) -> bool {
        service == *self
    }

    fn into_service(self) -> (service: T) {
        self
    }
}

/// A value that can be turned into the factory `T`.
pub trait IntoNewService<T: NewService>: Sized {
    /// `factory` is what `self` turns into.
    spec fn becomes_factory(&self, factory: T) -> bool;

    fn into_new_service(self) -> (factory: T)
        ensures
            self.becomes_factory(factory),
    ;
}

impl<T: NewService> IntoNewService<T> for T {
    open spec fn becomes_factory(&self, factory: T) -> bool {
        factory == *self
    }

    fn into_new_service(self) -> (factory: T) {
        self
    }
}

} // verus!
