use vstd::prelude::*;
use vstd::predicate::Predicate;
use std::rc::Rc;
use std::marker::PhantomData;
use crate::poll::Poll;
use crate::future::{
    TryFuture, IntoTryFuture, gives, resolves, resolves_through, comes_to,
    lemma_comes_to_itself, lemma_comes_further, lemma_comes_to_resolve, lemma_kept_while_waiting,
    lemma_resolves_within,
};
use crate::service::{Service, NewService, IntoService};
use crate::cell::{Cell, Shelf};
use crate::func::{Configurer, configured};

verus! {

/// `out` is `inner` with the value of a success turned into the service `S`;
/// an error and `Pending` pass through.
pub open spec fn serves<V: IntoService<S>, S: Service, E>(
    inner: Poll<Result<V, E>>,
    out: Poll<Result<S, E>>,
) -> bool {
    match inner {
        Poll::Pending => out is Pending,
        Poll::Ready(Err(e)) => out == Poll::Ready(Err::<S, E>(e)),
        Poll::Ready(Ok(v)) => out matches Poll::Ready(Ok(s)) && v.becomes(s),
    }
}

/// Turns the value of a success into the service `S`.
pub fn serve<V: IntoService<S>, S: Service, E>(inner: Poll<Result<V, E>>) -> (out: Poll<
    Result<S, E>,
>)
    ensures
        serves(inner, out),
{
    match inner {
        Poll::Pending => Poll::Pending,
        Poll::Ready(Err(e)) => Poll::Ready(Err(e)),
        Poll::Ready(Ok(v)) => Poll::Ready(Ok(v.into_service())),
    }
}

/// A poll of `fut` may resolve it to an outcome that, with its value turned
/// into a service, is `out`.
pub open spec fn gives_service<F: TryFuture, S: Service>(fut: F, out: Result<S, F::Error>) -> bool where
    F::Ok: IntoService<S>,
 {
    exists|r: Result<F::Ok, F::Error>| #[trigger]
        gives(fut, r) && serves(Poll::Ready(r), Poll::Ready(out))
}

/// Hands the configuration and the service to the function, and hands the
/// service back to be put into its slot again.
pub fn start<F, C, T, R>(f: &Configurer<C, T, R, F>, cfg: &C, service: T) -> (r: (R::Future, T)) where
    F: Fn(&C, &mut T) -> R,
    R: IntoTryFuture,

    ensures
        configured(f.func(), *cfg, service, r.0),
        r.0.live(),
{
    let mut srv = service;
    let inner = f.configure(cfg, &mut srv);
    (inner, srv)
}

/// Makes a factory of a service and a function: for each configuration the
/// function is called with the configuration and the service, and what it
/// hands back is the construction of the new service.
pub fn apply_cfg<F, C, T, R, S>(srv: T, f: F) -> (factory: ApplyConfigService<F, C, T, R, S>) where
    F: Fn(&C, &mut T) -> R,
    T: Service + Clone,
    R: IntoTryFuture,
    R::Ok: IntoService<S>,
    S: Service,

    requires
        Configurer::<C, T, R, F>::sound(f),
    ensures
        cloned(srv, factory.service().spare()),
        factory.func() == f,
{
    ApplyConfigService { f: Configurer::new(f), srv: Cell::new(srv.into_service()), _t: PhantomData }
}

/// Makes a factory of a factory and a function. The inner factory builds one
/// service, when the first service is asked for; for each configuration the
/// function is called with the configuration and that service, once the
/// service is ready, and what it hands back is the construction of the new
/// service.
pub fn new_apply_cfg<F, C, T, R, S>(srv: T, f: F) -> (factory: ApplyConfigNewService<
    F,
    C,
    T,
    R,
    S,
>) where
    C: Clone,
    F: Fn(&C, &mut T::Service) -> R,
    T: NewService<Config = ()>,
    T::InitError: From<T::Error>,
    R: IntoTryFuture<Error = T::InitError>,
    R::Ok: IntoService<S>,
    S: Service,

    requires
        Configurer::<C, T::Service, R, F>::sound(f),
    ensures
        factory.inner() == srv,
        factory.func() == f,
{
    ApplyConfigNewService {
        f: Configurer::new(f),
        build: Build::new(srv),
        built: Shelf::new(),
        _t: PhantomData,
    }
}

/// Factory made of a service and a function; see [`apply_cfg`].
///
/// The service lives in a slot that the factory shares with its clones.
#[verifier::reject_recursive_types(F)]
#[verifier::reject_recursive_types(C)]
#[verifier::reject_recursive_types(T)]
#[verifier::reject_recursive_types(R)]
#[verifier::reject_recursive_types(S)]
pub struct ApplyConfigService<F, C, T, R, S> where
    F: Fn(&C, &mut T) -> R,
    T: Service + Clone,
    R: IntoTryFuture,
    R::Ok: IntoService<S>,
    S: Service,
 {
    f: Configurer<C, T, R, F>,
    srv: Cell<T>,
    _t: PhantomData<(C, R, S)>,
}

impl<F, C, T, R, S> ApplyConfigService<F, C, T, R, S> where
    F: Fn(&C, &mut T) -> R,
    T: Service + Clone,
    R: IntoTryFuture,
    R::Ok: IntoService<S>,
    S: Service,
 {
    /// The slot of the service that the function works with.
    pub closed spec fn service(self) -> Cell<T> {
        self.srv
    }

    /// The function.
    pub closed spec fn func(self) -> F {
        self.f.func()
    }

    /// The function, called with `cfg` and the service as the slot held
    /// it, handed back what stands for the computation `fut`.
    pub open spec fn starts(self, cfg: C, fut: R::Future) -> bool {
        exists|before: T| self.service().admits(before) && #[trigger] configured(
            self.func(),
            cfg,
            before,
            fut,
        )
    }
}

impl<F, C, T, R, S> Clone for ApplyConfigService<F, C, T, R, S> where
    F: Fn(&C, &mut T) -> R,
    T: Service + Clone,
    R: IntoTryFuture,
    R::Ok: IntoService<S>,
    S: Service,
 {
    /// A factory that shares the service and the function.
    fn clone(&self) -> (factory: Self)
        ensures
            factory.service().reaches(self.service()),
            factory.func() == self.func(),
    {
        ApplyConfigService { f: self.f.share(), srv: self.srv.share(), _t: PhantomData }
    }
}

impl<F, C, T, R, S> NewService for ApplyConfigService<F, C, T, R, S> where
    F: Fn(&C, &mut T) -> R,
    T: Service + Clone,
    R: IntoTryFuture,
    R::Ok: IntoService<S>,
    S: Service,
 {
    type Config = C;

    type Request = S::Request;

    type Response = S::Response;

    type Error = S::Error;

    type Service = S;

    type InitError = R::Error;

    type Future = FnNewServiceConfigFut<R, S>;

    /// The function is called at once with the configuration and the
    /// service, and what it hands back is the construction.
    open spec fn builds(&self, cfg: C, fut: FnNewServiceConfigFut<R, S>) -> bool {
        self.starts(cfg, fut.inner())
    }

    fn new_service(&self, cfg: &C) -> (fut: FnNewServiceConfigFut<R, S>) {
        let held = self.srv.take();
        let ghost before = held;
        let (inner, srv) = start(&self.f, cfg, held);
        assert(configured(self.func(), *cfg, before, inner));
        let _ = self.srv.put(srv);
        FnNewServiceConfigFut { fut: inner, _t: PhantomData }
    }
}

/// The construction that the function of an [`ApplyConfigService`] handed
/// back.
#[verifier::reject_recursive_types(R)]
#[verifier::reject_recursive_types(S)]
pub struct FnNewServiceConfigFut<R, S> where R: IntoTryFuture, R::Ok: IntoService<S>, S: Service {
    fut: R::Future,
    _t: PhantomData<(S,)>,
}

impl<R, S> FnNewServiceConfigFut<R, S> where R: IntoTryFuture, R::Ok: IntoService<S>, S: Service {
    /// The computation that the function handed back.
    pub closed spec fn inner(self) -> R::Future {
        self.fut
    }
}

impl<R, S> TryFuture for FnNewServiceConfigFut<R, S> where
    R: IntoTryFuture,
    R::Ok: IntoService<S>,
    S: Service,
 {
    type Ok = S;

    type Error = R::Error;

    open spec fn live(&self) -> bool {
        self.inner().live()
    }

    open spec fn polled(&self, next: Self, out: Poll<Result<S, R::Error>>) -> bool {
        exists|inner: Poll<Result<R::Ok, R::Error>>|
            self.inner().polled(next.inner(), inner) && #[trigger] serves(inner, out)
    }

    fn try_poll(&mut self) -> (out: Poll<Result<S, R::Error>>) {
        let inner = self.fut.try_poll();
        let ghost seen = inner;
        let out = serve(inner);
        assert(old(self).inner().polled(self.inner(), seen));
        assert(serves(seen, out));
        out
    }
}

/// Where the construction of a service by an [`ApplyConfigNewService`]
/// stands.
pub enum Configuring<I> {
    /// No poll has found the inner service built yet.
    Building,
    /// The inner service is built; the function is called once the service
    /// is ready.
    Waiting,
    /// The function was called and what it handed back is running.
    Invoking(I),
    /// The construction has resolved.
    Done,
}

/// Whether the computation that a stage holds may be polled. A construction
/// that has resolved may be polled again: such a poll does nothing.
pub open spec fn configuring_live<I: TryFuture>(stage: Configuring<I>) -> bool {
    stage matches Configuring::Invoking(fut) ==> fut.live()
}

/// A poll of `fut` handed back `out`, its value turned into a service, and
/// led to the stage `next`.
pub open spec fn drives_service<I: TryFuture, S: Service>(
    fut: I,
    next: Configuring<I>,
    out: Poll<Result<S, I::Error>>,
) -> bool where I::Ok: IntoService<S> {
    match out {
        Poll::Pending => next matches Configuring::Invoking(then) && fut.polled(
            then,
            Poll::Pending,
        ),
        Poll::Ready(r) => next is Done && gives_service(fut, r),
    }
}

/// Polls the computation `fut` that the function handed back, turns its
/// value into a service, and tells the stage that follows.
pub fn drive_service<I: TryFuture, S: Service>(fut: I) -> (r: (
    Poll<Result<S, I::Error>>,
    Configuring<I>,
)) where I::Ok: IntoService<S>
    requires
        fut.live(),
    ensures
        drives_service(fut, r.1, r.0),
        configuring_live(r.1),
{
    let mut fut = fut;
    let ghost before = fut;
    let inner = fut.try_poll();
    let ghost seen = inner;
    assert(before.polled(fut, seen));
    let out = serve(inner);
    match out {
        Poll::Pending => (Poll::Pending, Configuring::Invoking(fut)),
        Poll::Ready(r) => {
            assert(gives(before, seen->Ready_0) && serves(seen, Poll::Ready(r)));
            (Poll::Ready(r), Configuring::Done)
        },
    }
}

/// A poll of the construction `polled` of the inner service handed back
/// `out`; `left` is the construction as it goes on, if it does.
pub open spec fn build_stepped<B: TryFuture>(
    polled: B,
    out: Poll<Result<B::Ok, B::Error>>,
    left: Option<B>,
) -> bool {
    match out {
        Poll::Pending => left matches Some(then) && polled.polled(then, Poll::Pending)
            && then.live(),
        Poll::Ready(r) => left is None && gives(polled, r),
    }
}

/// The factory `inner` started a construction that, polled while it waited,
/// has come to `now`.
pub open spec fn started_by<T: NewService<Config = ()>>(inner: T, now: T::Future) -> bool {
    exists|start: T::Future| #[trigger] inner.builds((), start) && comes_to(start, now)
}

/// The factory `inner` started a construction that resolved to `out`.
pub open spec fn built_by<T: NewService<Config = ()>>(
    inner: T,
    out: Result<T::Service, T::InitError>,
) -> bool {
    exists|start: T::Future| #[trigger] inner.builds((), start) && resolves(start, out)
}

/// The rule of the shelf that holds the construction of the inner service
/// while it is in flight: it admits the constructions that `inner` started
/// and that may be polled.
pub struct BuiltBy<T> {
    pub inner: T,
}

impl<T: NewService<Config = ()>> Predicate<T::Future> for BuiltBy<T> {
    open spec fn predicate(&self, v: T::Future) -> bool {
        v.live() && started_by(self.inner, v)
    }
}

/// The construction of the inner service was polled and handed back `out`:
/// the construction that was in flight, or, where none was, one that the
/// factory `inner` started. `left` is the construction as it goes on.
pub open spec fn build_polled<T: NewService<Config = ()>>(
    inner: T,
    in_flight: Option<T::Future>,
    out: Poll<Result<T::Service, T::InitError>>,
    left: Option<T::Future>,
) -> bool {
    exists|polled: T::Future|
        {
            &&& in_flight matches Some(build) ==> polled == build
            &&& started_by(inner, polled)
            &&& #[trigger] build_stepped(polled, out, left)
        }
}

/// A construction that the factory started and that is polled goes on as
/// one that the factory started, or has resolved as one.
pub proof fn lemma_build_polled<T: NewService<Config = ()>>(
    inner: T,
    in_flight: Option<T::Future>,
    out: Poll<Result<T::Service, T::InitError>>,
    left: Option<T::Future>,
)
    requires
        build_polled(inner, in_flight, out, left),
    ensures
        match out {
            Poll::Pending => left matches Some(then) && then.live() && started_by(inner, then),
            Poll::Ready(r) => left is None && built_by(inner, r),
        },
{
    let polled = choose|polled: T::Future|
        {
            &&& in_flight matches Some(build) ==> polled == build
            &&& started_by(inner, polled)
            &&& #[trigger] build_stepped(polled, out, left)
        };
    let start = choose|start: T::Future| #[trigger]
        inner.builds((), start) && comes_to(start, polled);
    match out {
        Poll::Pending => {
            lemma_comes_further(start, polled, left->Some_0);
            assert(inner.builds((), start));
        },
        Poll::Ready(r) => {
            lemma_comes_to_resolve(start, polled, r);
            assert(inner.builds((), start));
        },
    }
}

/// Polls the construction of the inner service that is in flight; where
/// none is, asks the factory for one and polls that. Hands back the
/// construction to be kept in flight while it has not resolved.
pub fn advance_build<T: NewService<Config = ()>>(inner: &T, in_flight: Option<T::Future>) -> (r: (
    Poll<Result<T::Service, T::InitError>>,
    Option<T::Future>,
))
    requires
        in_flight matches Some(build) ==> build.live() && started_by(*inner, build),
    ensures
        build_polled(*inner, in_flight, r.0, r.1),
        r.1 matches Some(then) ==> then.live() && started_by(*inner, then),
{
    let mut build = match in_flight {
        Some(build) => build,
        None => {
            let fresh = inner.new_service(&());
            proof {
                lemma_comes_to_itself(fresh);
                assert(inner.builds((), fresh));
            }
            fresh
        },
    };
    let ghost polled = build;
    let out = build.try_poll();
    assert(polled.polled(build, out));
    match out {
        Poll::Pending => {
            assert(build_stepped(polled, Poll::Pending, Some(build)));
            proof {
                lemma_build_polled(*inner, in_flight, Poll::Pending, Some(build));
            }
            (Poll::Pending, Some(build))
        },
        Poll::Ready(r) => {
            assert(build_stepped(polled, Poll::Ready(r), None));
            (Poll::Ready(r), None)
        },
    }
}

/// The one construction of the inner service that is in flight, together
/// with the factory that starts it: shared by a factory, its clones and the
/// constructions they have started.
#[verifier::reject_recursive_types(T)]
pub struct Build<T: NewService<Config = ()>> {
    inner: Rc<T>,
    in_flight: Shelf<T::Future, BuiltBy<T>>,
}

impl<T: NewService<Config = ()>> Build<T> {
    #[verifier::type_invariant]
    spec fn sound(self) -> bool {
        self.in_flight.rule().inner == *self.inner
    }

    /// The factory of the inner service.
    pub closed spec fn inner(self) -> T {
        *self.inner
    }

    /// Nothing in flight yet, with `inner` to start the construction.
    pub fn new(inner: T) -> (build: Self)
        ensures
            build.inner() == inner,
    {
        let ghost rule = BuiltBy { inner };
        Build { inner: Rc::new(inner), in_flight: Shelf::keeping(Ghost(rule)) }
    }

    /// Another handle to the same construction.
    pub fn share(&self) -> (build: Self)
        ensures
            build == *self,
    {
        proof {
            use_type_invariant(self);
        }
        Build { inner: self.inner.clone(), in_flight: self.in_flight.clone() }
    }

    /// The factory of the inner service.
    pub fn factory(&self) -> (inner: &T)
        ensures
            *inner == self.inner(),
    {
        &*self.inner
    }

    /// Takes the construction that is in flight, if one is.
    pub fn take(&self) -> (in_flight: Option<T::Future>)
        ensures
            in_flight matches Some(build) ==> build.live() && started_by(self.inner(), build),
    {
        proof {
            use_type_invariant(self);
        }
        self.in_flight.take()
    }

    /// Keeps `build` in flight.
    pub fn keep(&self, build: T::Future)
        requires
            build.live(),
            started_by(self.inner(), build),
    {
        proof {
            use_type_invariant(self);
        }
        let _ = self.in_flight.put(build);
    }
}

/// The function `f`, called with `cfg` and the service `asked`, handed back
/// a computation whose poll handed back `out` and led to the stage `next`.
pub open spec fn called_and_driven<F, C, T, R, S>(
    f: F,
    cfg: C,
    asked: T,
    next: Configuring<R::Future>,
    out: Poll<Result<S, R::Error>>,
) -> bool where F: Fn(&C, &mut T) -> R, R: IntoTryFuture, R::Ok: IntoService<S>, S: Service {
    exists|fut: R::Future| #[trigger] configured(f, cfg, asked, fut) && drives_service(
        fut,
        next,
        out,
    )
}

/// What a construction does with the inner service once the service has
/// reported `ready` and stands at `asked`: it waits for a service that is
/// not ready, it fails with the converted error of a service that is
/// broken, and it calls the function with a service that is ready.
pub open spec fn configured_when_ready<F, C, T, R, S>(
    f: F,
    cfg: C,
    asked: T,
    ready: Poll<Result<(), T::Error>>,
    next: Configuring<R::Future>,
    out: Poll<Result<S, R::Error>>,
) -> bool where
    F: Fn(&C, &mut T) -> R,
    T: Service,
    R: IntoTryFuture,
    R::Error: From<T::Error>,
    R::Ok: IntoService<S>,
    S: Service,
 {
    match ready {
        Poll::Pending => out is Pending && next is Waiting,
        Poll::Ready(Err(e)) => {
            &&& next is Done
            &&& out matches Poll::Ready(Err(failure))
            &&& call_ensures(R::Error::from, (e,), failure)
        },
        Poll::Ready(Ok(_)) => called_and_driven::<F, C, T, R, S>(f, cfg, asked, next, out),
    }
}

/// The inner service `service` was asked whether it is ready, and the
/// construction went on as [`configured_when_ready`] says.
pub open spec fn readied_and_configured<F, C, T, R, S>(
    f: F,
    cfg: C,
    service: T,
    next: Configuring<R::Future>,
    out: Poll<Result<S, R::Error>>,
) -> bool where
    F: Fn(&C, &mut T) -> R,
    T: Service,
    R: IntoTryFuture,
    R::Error: From<T::Error>,
    R::Ok: IntoService<S>,
    S: Service,
 {
    exists|asked: T, ready: Poll<Result<(), T::Error>>| #[trigger]
        service.readied(asked, ready) && configured_when_ready::<F, C, T, R, S>(
            f,
            cfg,
            asked,
            ready,
            next,
            out,
        )
}

/// Asks the inner service whether it is ready and, if it is, calls the
/// function with the configuration and the service and polls what the
/// function hands back. The service is handed back to be put into its shelf.
pub fn ready_and_configure<F, C, T, R, S>(
    f: &Configurer<C, T, R, F>,
    cfg: &C,
    service: T,
) -> (r: (Poll<Result<S, R::Error>>, Configuring<R::Future>, T)) where
    F: Fn(&C, &mut T) -> R,
    T: Service,
    R: IntoTryFuture,
    R::Error: From<T::Error>,
    R::Ok: IntoService<S>,
    S: Service,

    ensures
        readied_and_configured::<F, C, T, R, S>(f.func(), *cfg, service, r.1, r.0),
        configuring_live(r.1),
{
    let mut srv = service;
    let ready = srv.poll_ready();
    let ghost asked = srv;
    assert(service.readied(asked, ready));
    match ready {
        Poll::Pending => {
            assert(configured_when_ready::<F, C, T, R, S>(
                f.func(),
                *cfg,
                asked,
                ready,
                Configuring::Waiting,
                Poll::Pending,
            ));
            (Poll::Pending, Configuring::Waiting, srv)
        },
        Poll::Ready(Err(e)) => {
            let out = Poll::Ready(Err(R::Error::from(e)));
            assert(configured_when_ready::<F, C, T, R, S>(
                f.func(),
                *cfg,
                asked,
                ready,
                Configuring::Done,
                out,
            ));
            (out, Configuring::Done, srv)
        },
        Poll::Ready(Ok(_)) => {
            let fut = f.configure(cfg, &mut srv);
            assert(configured(f.func(), *cfg, asked, fut));
            let (out, stage) = drive_service::<R::Future, S>(fut);
            assert(called_and_driven::<F, C, T, R, S>(f.func(), *cfg, asked, stage, out));
            assert(configured_when_ready::<F, C, T, R, S>(
                f.func(),
                *cfg,
                asked,
                ready,
                stage,
                out,
            ));
            (out, stage, srv)
        },
    }
}

/// What one poll of a construction that has not called the function yet
/// does, given what the two shelves held.
///
/// Where the shelf of the inner service held a service, the poll goes on
/// with it as [`readied_and_configured`] says. Where it held none, the poll
/// advances the construction of the inner service as [`build_polled`] says:
/// it waits while that construction waits, fails where it fails, and goes on
/// with the service where it resolves. `service` and `build` are what goes
/// back into the two shelves.
pub open spec fn obtained<F, C, T, R, S>(
    inner: T,
    f: F,
    cfg: C,
    held: Option<T::Service>,
    in_flight: Option<T::Future>,
    next: Configuring<R::Future>,
    out: Poll<Result<S, T::InitError>>,
    service: Option<T::Service>,
    build: Option<T::Future>,
) -> bool where
    F: Fn(&C, &mut T::Service) -> R,
    T: NewService<Config = ()>,
    T::InitError: From<T::Error>,
    R: IntoTryFuture<Error = T::InitError>,
    R::Ok: IntoService<S>,
    S: Service,
 {
    match held {
        Some(found) => {
            &&& build == in_flight
            &&& service is Some
            &&& readied_and_configured::<F, C, T::Service, R, S>(f, cfg, found, next, out)
        },
        None => exists|built: Poll<Result<T::Service, T::InitError>>|
            {
                &&& #[trigger] build_polled(inner, in_flight, built, build)
                &&& match built {
                    Poll::Pending => out is Pending && next is Building && service is None,
                    Poll::Ready(Err(e)) => {
                        &&& out == Poll::Ready(Err::<S, T::InitError>(e))
                        &&& next is Done
                        &&& service is None
                    },
                    Poll::Ready(Ok(fresh)) => {
                        &&& service is Some
                        &&& readied_and_configured::<F, C, T::Service, R, S>(
                            f,
                            cfg,
                            fresh,
                            next,
                            out,
                        )
                    },
                }
            },
    }
}

/// One poll of a construction that has not called the function yet, given
/// what the two shelves held: goes on with the inner service that was held,
/// or advances the one construction of it that is in flight.
pub fn obtain<F, C, T, R, S>(
    inner: &T,
    f: &Configurer<C, T::Service, R, F>,
    cfg: &C,
    held: Option<T::Service>,
    in_flight: Option<T::Future>,
) -> (r: (Poll<Result<S, T::InitError>>, Configuring<R::Future>, Option<T::Service>, Option<T::Future>)) where
    F: Fn(&C, &mut T::Service) -> R,
    T: NewService<Config = ()>,
    T::InitError: From<T::Error>,
    R: IntoTryFuture<Error = T::InitError>,
    R::Ok: IntoService<S>,
    S: Service,

    requires
        in_flight matches Some(build) ==> build.live() && started_by(*inner, build),
    ensures
        obtained::<F, C, T, R, S>(*inner, f.func(), *cfg, held, in_flight, r.1, r.0, r.2, r.3),
        configuring_live(r.1),
        r.3 matches Some(build) ==> build.live() && started_by(*inner, build),
{
    match held {
        Some(found) => {
            let (out, stage, srv) = ready_and_configure::<F, C, T::Service, R, S>(f, cfg, found);
            (out, stage, Some(srv), in_flight)
        },
        None => {
            let (built, build) = advance_build(inner, in_flight);
            match built {
                Poll::Pending => (Poll::Pending, Configuring::Building, None, build),
                Poll::Ready(Err(e)) => (Poll::Ready(Err(e)), Configuring::Done, None, build),
                Poll::Ready(Ok(fresh)) => {
                    let (out, stage, srv) = ready_and_configure::<F, C, T::Service, R, S>(
                        f,
                        cfg,
                        fresh,
                    );
                    (out, stage, Some(srv), build)
                },
            }
        },
    }
}

/// Factory made of a factory and a function; see [`new_apply_cfg`].
///
/// The inner service lives in a shelf that the factory shares with its
/// clones and with the constructions it has started, and so does the one
/// construction of the inner service that is in flight until the service is
/// built.
#[verifier::reject_recursive_types(F)]
#[verifier::reject_recursive_types(C)]
#[verifier::reject_recursive_types(T)]
#[verifier::reject_recursive_types(R)]
#[verifier::reject_recursive_types(S)]
pub struct ApplyConfigNewService<F, C, T, R, S> where
    C: Clone,
    F: Fn(&C, &mut T::Service) -> R,
    T: NewService<Config = ()>,
    R: IntoTryFuture<Error = T::InitError>,
    R::Ok: IntoService<S>,
    S: Service,
 {
    f: Configurer<C, T::Service, R, F>,
    build: Build<T>,
    built: Shelf<T::Service>,
    _t: PhantomData<(C, R, S)>,
}

impl<F, C, T, R, S> ApplyConfigNewService<F, C, T, R, S> where
    C: Clone,
    F: Fn(&C, &mut T::Service) -> R,
    T: NewService<Config = ()>,
    R: IntoTryFuture<Error = T::InitError>,
    R::Ok: IntoService<S>,
    S: Service,
 {
    /// The factory of the service that the function works with.
    pub open spec fn inner(self) -> T {
        self.build().inner()
    }

    /// The shelf of that service, vacant until the service is built.
    pub closed spec fn service(self) -> Shelf<T::Service> {
        self.built
    }

    /// The construction of that service, while it is in flight.
    pub closed spec fn build(self) -> Build<T> {
        self.build
    }

    /// The function.
    pub closed spec fn func(self) -> F {
        self.f.func()
    }
}

impl<F, C, T, R, S> Clone for ApplyConfigNewService<F, C, T, R, S> where
    C: Clone,
    F: Fn(&C, &mut T::Service) -> R,
    T: NewService<Config = ()>,
    R: IntoTryFuture<Error = T::InitError>,
    R::Ok: IntoService<S>,
    S: Service,
 {
    /// A factory that shares the inner factory, the two shelves and the
    /// function.
    fn clone(&self) -> (factory: Self)
        ensures
            factory.inner() == self.inner(),
            factory.service() == self.service(),
            factory.build() == self.build(),
            factory.func() == self.func(),
    {
        ApplyConfigNewService {
            f: self.f.share(),
            build: self.build.share(),
            built: self.built.clone(),
            _t: PhantomData,
        }
    }
}

impl<F, C, T, R, S> NewService for ApplyConfigNewService<F, C, T, R, S> where
    C: Clone,
    F: Fn(&C, &mut T::Service) -> R,
    T: NewService<Config = ()>,
    T::InitError: From<T::Error>,
    R: IntoTryFuture<Error = T::InitError>,
    R::Ok: IntoService<S>,
    S: Service,
 {
    type Config = C;

    type Request = S::Request;

    type Response = S::Response;

    type Error = S::Error;

    type Service = S;

    type InitError = R::Error;

    type Future = ApplyConfigNewServiceFut<F, C, T, R, S>;

    /// The construction is handed a copy of the configuration and handles
    /// to the factory's parts. Nothing is built or called before its first
    /// poll.
    open spec fn builds(&self, cfg: C, fut: ApplyConfigNewServiceFut<F, C, T, R, S>) -> bool {
        &&& cloned(cfg, fut.cfg())
        &&& fut.func() == self.func()
        &&& fut.inner() == self.inner()
        &&& fut.service() == self.service()
        &&& fut.build() == self.build()
        &&& fut.stage() is Building
    }

    fn new_service(&self, cfg: &C) -> (fut: ApplyConfigNewServiceFut<F, C, T, R, S>) {
        ApplyConfigNewServiceFut {
            f: self.f.share(),
            cfg: cfg.clone(),
            build: self.build.share(),
            built: self.built.clone(),
            stage: Configuring::Building,
            _t: PhantomData,
        }
    }
}

/// The construction of a service by an [`ApplyConfigNewService`].
#[verifier::reject_recursive_types(F)]
#[verifier::reject_recursive_types(C)]
#[verifier::reject_recursive_types(T)]
#[verifier::reject_recursive_types(R)]
#[verifier::reject_recursive_types(S)]
pub struct ApplyConfigNewServiceFut<F, C, T, R, S> where
    C: Clone,
    F: Fn(&C, &mut T::Service) -> R,
    T: NewService<Config = ()>,
    T::InitError: From<T::Error>,
    R: IntoTryFuture<Error = T::InitError>,
    R::Ok: IntoService<S>,
    S: Service,
 {
    cfg: C,
    f: Configurer<C, T::Service, R, F>,
    build: Build<T>,
    built: Shelf<T::Service>,
    stage: Configuring<R::Future>,
    _t: PhantomData<(S,)>,
}

impl<F, C, T, R, S> ApplyConfigNewServiceFut<F, C, T, R, S> where
    C: Clone,
    F: Fn(&C, &mut T::Service) -> R,
    T: NewService<Config = ()>,
    T::InitError: From<T::Error>,
    R: IntoTryFuture<Error = T::InitError>,
    R::Ok: IntoService<S>,
    S: Service,
 {
    /// The configuration that the function will be called with.
    pub closed spec fn cfg(self) -> C {
        self.cfg
    }

    /// The function.
    pub closed spec fn func(self) -> F {
        self.f.func()
    }

    /// The factory of the service that the function works with.
    pub open spec fn inner(self) -> T {
        self.build().inner()
    }

    /// The shelf of the service that the function works with.
    pub closed spec fn service(self) -> Shelf<T::Service> {
        self.built
    }

    /// The construction of that service, while it is in flight.
    pub closed spec fn build(self) -> Build<T> {
        self.build
    }

    /// Where the construction stands.
    pub closed spec fn stage(self) -> Configuring<R::Future> {
        self.stage
    }

    /// The construction keeps its configuration, its function and its
    /// handles from `self` to `next`.
    pub open spec fn kept(self, next: Self) -> bool {
        &&& next.cfg() == self.cfg()
        &&& next.func() == self.func()
        &&& next.inner() == self.inner()
        &&& next.service() == self.service()
        &&& next.build() == self.build()
    }

    /// A poll of the construction, which has not called the function yet,
    /// found `held` in the shelf of the inner service and `in_flight` in the
    /// shelf of its construction, handed back `out` and led to `next`.
    pub open spec fn found(
        self,
        next: Self,
        out: Poll<Result<S, T::InitError>>,
        held: Option<T::Service>,
        in_flight: Option<T::Future>,
    ) -> bool {
        &&& in_flight matches Some(build) ==> build.live() && started_by(self.inner(), build)
        &&& held is Some ==> in_flight is None
        &&& exists|service: Option<T::Service>, build: Option<T::Future>| #[trigger]
            obtained::<F, C, T, R, S>(
                self.inner(),
                self.func(),
                self.cfg(),
                held,
                in_flight,
                next.stage(),
                out,
                service,
                build,
            )
    }
}

impl<F, C, T, R, S> TryFuture for ApplyConfigNewServiceFut<F, C, T, R, S> where
    C: Clone,
    F: Fn(&C, &mut T::Service) -> R,
    T: NewService<Config = ()>,
    T::InitError: From<T::Error>,
    R: IntoTryFuture<Error = T::InitError>,
    R::Ok: IntoService<S>,
    S: Service,
 {
    type Ok = S;

    type Error = R::Error;

    /// The construction may be polled in every stage; once it has resolved,
    /// a poll does nothing and hands back `Pending`.
    open spec fn live(&self) -> bool {
        configuring_live(self.stage())
    }

    open spec fn polled(&self, next: Self, out: Poll<Result<S, R::Error>>) -> bool {
        &&& self.kept(next)
        &&& match self.stage() {
            Configuring::Building | Configuring::Waiting => exists|
                held: Option<T::Service>,
                in_flight: Option<T::Future>,
            | #[trigger] self.found(next, out, held, in_flight),
            Configuring::Invoking(fut) => drives_service(fut, next.stage(), out),
            Configuring::Done => next.stage() is Done && out is Pending,
        }
    }

    fn try_poll(&mut self) -> (out: Poll<Result<S, R::Error>>) {
        let mut stage = Configuring::Done;
        core::mem::swap(&mut self.stage, &mut stage);
        match stage {
            Configuring::Invoking(fut) => {
                let (out, next) = drive_service::<R::Future, S>(fut);
                self.stage = next;
                out
            },
            Configuring::Done => Poll::Pending,
            _ => {
                let held = self.built.take();
                let in_flight = if held.is_none() {
                    self.build.take()
                } else {
                    None
                };
                let ghost seen = (held, in_flight);
                let (out, next, service, build) = obtain::<F, C, T, R, S>(
                    self.build.factory(),
                    &self.f,
                    &self.cfg,
                    held,
                    in_flight,
                );
                let ghost back = (service, build);
                if let Some(srv) = service {
                    let _ = self.built.put(srv);
                }
                if let Some(b) = build {
                    self.build.keep(b);
                }
                self.stage = next;
                assert(old(self).found(*self, out, seen.0, seen.1)) by {
                    assert(obtained::<F, C, T, R, S>(
                        old(self).inner(),
                        old(self).func(),
                        old(self).cfg(),
                        seen.0,
                        seen.1,
                        self.stage(),
                        out,
                        back.0,
                        back.1,
                    ));
                }
                out
            },
        }
    }
}

/// The construction that an [`ApplyConfigService`] hands back resolves to
/// what the function's computation resolves to, its value turned into a
/// service.
///
/// That is: if the factory, asked for a service for `cfg`, hands back `fut`,
/// and `fut`, polled to its end, resolves to `out`, then the function was
/// called with `cfg` and the factory's service, and the computation it
/// handed back resolved to an outcome of which `out` is the image.
pub proof fn theorem_apply_cfg_new_service<F, C, T, R, S>(
    factory: ApplyConfigService<F, C, T, R, S>,
    cfg: C,
    fut: FnNewServiceConfigFut<R, S>,
    out: Result<S, R::Error>,
) where
    F: Fn(&C, &mut T) -> R,
    T: Service + Clone,
    R: IntoTryFuture,
    R::Ok: IntoService<S>,
    S: Service,

    requires
        factory.builds(cfg, fut),
        resolves(fut, out),
    ensures
        factory.starts(cfg, fut.inner()),
        gives_resolved::<R::Future, S>(fut.inner(), out),
{
    let rel = |i: Poll<Result<R::Ok, R::Error>>, o: Poll<Result<S, R::Error>>| serves(i, o);
    let within = |w: FnNewServiceConfigFut<R, S>| w.inner();
    assert forall|s: FnNewServiceConfigFut<R, S>, n: FnNewServiceConfigFut<R, S>, o| #[trigger]
        s.polled(n, o) implies exists|i: Poll<Result<R::Ok, R::Error>>|
        within(s).polled(within(n), i) && #[trigger] rel(i, o) by {
        let i = choose|i: Poll<Result<R::Ok, R::Error>>|
            s.inner().polled(n.inner(), i) && #[trigger] serves(i, o);
        assert(rel(i, o));
    }
    lemma_resolves_within::<FnNewServiceConfigFut<R, S>, R::Future>(
        fut,
        out,
        within,
        rel,
        |w: FnNewServiceConfigFut<R, S>| true,
    );
    let r = choose|r: Result<R::Ok, R::Error>|
        resolves(within(fut), r) && #[trigger] rel(Poll::Ready(r), Poll::Ready(out));
    assert(resolves(fut.inner(), r) && serves(Poll::Ready(r), Poll::Ready(out)));
}

/// The computation `start` resolved to an outcome that, with its value
/// turned into a service, is `out`.
pub open spec fn gives_resolved<I: TryFuture, S: Service>(start: I, out: Result<S, I::Error>) -> bool where
    I::Ok: IntoService<S>,
 {
    exists|r: Result<I::Ok, I::Error>| #[trigger]
        resolves(start, r) && serves(Poll::Ready(r), Poll::Ready(out))
}

/// Some state of the service answered a readiness check with `Ready(Ok(()))`
/// and stood at `asked` then.
pub open spec fn found_ready<T: Service>(asked: T) -> bool {
    exists|before: T| #[trigger] before.readied(asked, Poll::Ready(Ok::<(), T::Error>(())))
}

/// The function `f` was called with `cfg` and the inner service, which had
/// reported ready, and the computation it handed back has come to `now`.
pub open spec fn invoked<F, C, T, R>(f: F, cfg: C, now: R::Future) -> bool where
    F: Fn(&C, &mut T) -> R,
    T: Service,
    R: IntoTryFuture,
 {
    exists|asked: T, fut: R::Future|
        found_ready(asked) && #[trigger] configured(f, cfg, asked, fut) && comes_to(fut, now)
}

/// The function `f` was called with `cfg` and the inner service, which had
/// reported ready, and the computation it handed back resolved to `out`, its
/// value turned into a service.
pub open spec fn invoked_to<F, C, T, R, S>(f: F, cfg: C, out: Result<S, R::Error>) -> bool where
    F: Fn(&C, &mut T) -> R,
    T: Service,
    R: IntoTryFuture,
    R::Error: From<T::Error>,
    R::Ok: IntoService<S>,
    S: Service,
 {
    exists|asked: T, fut: R::Future|
        found_ready(asked) && #[trigger] configured(f, cfg, asked, fut) && gives_resolved::<
            R::Future,
            S,
        >(fut, out)
}

/// The readiness check of the inner service failed, and `out` is its error,
/// converted.
pub open spec fn unready<T: Service, S, E: From<T::Error>>(out: Result<S, E>) -> bool {
    exists|before: T, asked: T, e: T::Error| #[trigger]
        before.readied(asked, Poll::Ready(Err(e))) && out is Err && call_ensures(
            E::from,
            (e,),
            out->Err_0,
        )
}

/// A construction of the inner service that the factory `inner` started
/// failed, and `out` is its error.
pub open spec fn build_failed<T: NewService<Config = ()>, S>(
    inner: T,
    out: Result<S, T::InitError>,
) -> bool {
    exists|e: T::InitError| #[trigger]
        built_by(inner, Err(e)) && out == Err::<S, T::InitError>(e)
}

/// What follows the readiness check of the inner service: the function's
/// computation is running, or the construction has resolved, to the
/// converted error of the check or to the outcome of the function's
/// computation.
proof fn lemma_configured_outcome<F, C, T, R, S>(
    f: F,
    cfg: C,
    service: T,
    next: Configuring<R::Future>,
    out: Poll<Result<S, R::Error>>,
) where
    F: Fn(&C, &mut T) -> R,
    T: Service,
    R: IntoTryFuture,
    R::Error: From<T::Error>,
    R::Ok: IntoService<S>,
    S: Service,
    requires
        readied_and_configured::<F, C, T, R, S>(f, cfg, service, next, out),
    ensures
        match out {
            Poll::Pending => next matches Configuring::Invoking(then) ==> invoked::<F, C, T, R>(
                f,
                cfg,
                then,
            ),
            Poll::Ready(o) => unready::<T, S, R::Error>(o) || invoked_to::<F, C, T, R, S>(
                f,
                cfg,
                o,
            ),
        },
{
    let (asked, ready) = choose|asked: T, ready: Poll<Result<(), T::Error>>| #[trigger]
        service.readied(asked, ready) && configured_when_ready::<F, C, T, R, S>(
            f,
            cfg,
            asked,
            ready,
            next,
            out,
        );
    match ready {
        Poll::Pending => {},
        Poll::Ready(Err(e)) => {
            assert(service.readied(asked, Poll::Ready(Err(e))));
        },
        Poll::Ready(Ok(u)) => {
            assert(u == ());
            assert(service.readied(asked, Poll::Ready(Ok::<(), T::Error>(()))));
            assert(found_ready(asked));
            let fut = choose|fut: R::Future| #[trigger]
                configured(f, cfg, asked, fut) && drives_service::<R::Future, S>(fut, next, out);
            lemma_comes_to_itself(fut);
            match out {
                Poll::Pending => {
                    lemma_comes_further(fut, fut, next->Invoking_0);
                    assert(configured(f, cfg, asked, fut));
                },
                Poll::Ready(o) => {
                    let r = choose|r: Result<R::Ok, R::Error>| #[trigger]
                        gives(fut, r) && serves(Poll::Ready(r), Poll::Ready(o));
                    lemma_comes_to_resolve(fut, fut, r);
                    assert(gives_resolved::<R::Future, S>(fut, o));
                    assert(configured(f, cfg, asked, fut));
                },
            }
        },
    }
}

/// `out` is an outcome of a construction by an [`ApplyConfigNewService`]
/// with the factory `inner`, the function `f` and the configuration `cfg`:
/// the error that a construction of the inner service failed with, the converted error of
/// the inner service's readiness check, or what the function's computation
/// resolved to, its value turned into a service.
pub open spec fn configured_to<F, C, T, R, S>(
    inner: T,
    f: F,
    cfg: C,
    out: Result<S, T::InitError>,
) -> bool where
    C: Clone,
    F: Fn(&C, &mut T::Service) -> R,
    T: NewService<Config = ()>,
    T::InitError: From<T::Error>,
    R: IntoTryFuture<Error = T::InitError>,
    R::Ok: IntoService<S>,
    S: Service,
 {
    ||| build_failed::<T, S>(inner, out)
    ||| unready::<T::Service, S, T::InitError>(out)
    ||| invoked_to::<F, C, T::Service, R, S>(f, cfg, out)
}

/// What follows a poll of a construction that has not called the function
/// yet.
proof fn lemma_obtained_outcome<F, C, T, R, S>(
    inner: T,
    f: F,
    cfg: C,
    held: Option<T::Service>,
    in_flight: Option<T::Future>,
    next: Configuring<R::Future>,
    out: Poll<Result<S, T::InitError>>,
    service: Option<T::Service>,
    build: Option<T::Future>,
) where
    C: Clone,
    F: Fn(&C, &mut T::Service) -> R,
    T: NewService<Config = ()>,
    T::InitError: From<T::Error>,
    R: IntoTryFuture<Error = T::InitError>,
    R::Ok: IntoService<S>,
    S: Service,
    requires
        obtained::<F, C, T, R, S>(inner, f, cfg, held, in_flight, next, out, service, build),
    ensures
        match out {
            Poll::Pending => next matches Configuring::Invoking(then) ==> invoked::<
                F,
                C,
                T::Service,
                R,
            >(f, cfg, then),
            Poll::Ready(o) => configured_to::<F, C, T, R, S>(inner, f, cfg, o),
        },
{
    match held {
        Some(found) => {
            lemma_configured_outcome::<F, C, T::Service, R, S>(f, cfg, found, next, out);
        },
        None => {
            let built = choose|built: Poll<Result<T::Service, T::InitError>>|
                {
                    &&& #[trigger] build_polled(inner, in_flight, built, build)
                    &&& match built {
                        Poll::Pending => out is Pending && next is Building && service is None,
                        Poll::Ready(Err(e)) => {
                            &&& out == Poll::Ready(Err::<S, T::InitError>(e))
                            &&& next is Done
                            &&& service is None
                        },
                        Poll::Ready(Ok(fresh)) => {
                            &&& service is Some
                            &&& readied_and_configured::<F, C, T::Service, R, S>(
                                f,
                                cfg,
                                fresh,
                                next,
                                out,
                            )
                        },
                    }
                };
            match built {
                Poll::Pending => {},
                Poll::Ready(Err(e)) => {
                    lemma_build_polled(inner, in_flight, built, build);
                    assert(built_by(inner, Err(e)));
                    assert(build_failed::<T, S>(inner, Err(e)));
                },
                Poll::Ready(Ok(fresh)) => {
                    lemma_configured_outcome::<F, C, T::Service, R, S>(f, cfg, fresh, next, out);
                },
            }
        },
    }
}

/// A construction by an [`ApplyConfigNewService`] resolves to the failure
/// of the inner service's construction, to the failure of its readiness
/// check, or to what the function hands back for the configuration and the
/// inner service.
///
/// That is: if the factory, asked for a service for `cfg`, hands back `fut`,
/// and `fut`, polled to its end, resolves to `out`, then `fut` holds a copy
/// of `cfg`, and `out` is the error that a construction of the inner service
/// failed with, or the converted error of the inner service's readiness
/// check, or what resolved from the computation that the function handed
/// back when it was called with that copy and the inner service, after the
/// service had reported ready.
pub proof fn theorem_new_apply_cfg_new_service<F, C, T, R, S>(
    factory: ApplyConfigNewService<F, C, T, R, S>,
    cfg: C,
    fut: ApplyConfigNewServiceFut<F, C, T, R, S>,
    out: Result<S, T::InitError>,
) where
    C: Clone,
    F: Fn(&C, &mut T::Service) -> R,
    T: NewService<Config = ()>,
    T::InitError: From<T::Error>,
    R: IntoTryFuture<Error = T::InitError>,
    R::Ok: IntoService<S>,
    S: Service,
    requires
        factory.builds(cfg, fut),
        resolves(fut, out),
    ensures
        cloned(cfg, fut.cfg()),
        configured_to::<F, C, T, R, S>(factory.inner(), factory.func(), fut.cfg(), out),
{
    let f = factory.func();
    let own = fut.cfg();
    let states = choose|states: Seq<ApplyConfigNewServiceFut<F, C, T, R, S>>|
        resolves_through(fut, states, out);
    let inv = |w: ApplyConfigNewServiceFut<F, C, T, R, S>|
        w.func() == f && w.cfg() == own && w.inner() == factory.inner() && (w.stage() is Invoking
            ==> invoked::<
            F,
            C,
            T::Service,
            R,
        >(f, own, w.stage()->Invoking_0));
    assert forall|
        s: ApplyConfigNewServiceFut<F, C, T, R, S>,
        n: ApplyConfigNewServiceFut<F, C, T, R, S>,
    | inv(s) && #[trigger] s.polled(n, Poll::Pending) implies inv(n) by {
        lemma_polled_outcome(s, n, Poll::Pending);
    }
    lemma_kept_while_waiting(states, inv, states.len() - 1);
    let last = states.last();
    let end = choose|end: ApplyConfigNewServiceFut<F, C, T, R, S>|
        last.polled(end, Poll::Ready(out));
    lemma_polled_outcome(last, end, Poll::Ready(out));
}

/// What follows one poll of a construction whose function's computation,
/// where it is running, was handed back by the function for the
/// construction's configuration.
proof fn lemma_polled_outcome<F, C, T, R, S>(
    s: ApplyConfigNewServiceFut<F, C, T, R, S>,
    n: ApplyConfigNewServiceFut<F, C, T, R, S>,
    out: Poll<Result<S, T::InitError>>,
) where
    C: Clone,
    F: Fn(&C, &mut T::Service) -> R,
    T: NewService<Config = ()>,
    T::InitError: From<T::Error>,
    R: IntoTryFuture<Error = T::InitError>,
    R::Ok: IntoService<S>,
    S: Service,
    requires
        s.polled(n, out),
        s.stage() matches Configuring::Invoking(now) ==> invoked::<F, C, T::Service, R>(
            s.func(),
            s.cfg(),
            now,
        ),
    ensures
        n.func() == s.func(),
        n.cfg() == s.cfg(),
        n.inner() == s.inner(),
        match out {
            Poll::Pending => n.stage() matches Configuring::Invoking(then) ==> invoked::<
                F,
                C,
                T::Service,
                R,
            >(s.func(), s.cfg(), then),
            Poll::Ready(o) => configured_to::<F, C, T, R, S>(s.inner(), s.func(), s.cfg(), o),
        },
{
    let f = s.func();
    let cfg = s.cfg();
    match s.stage() {
        Configuring::Invoking(now) => {
            let (asked, fut) = choose|asked: T::Service, fut: R::Future|
                found_ready(asked) && #[trigger] configured(f, cfg, asked, fut) && comes_to(
                    fut,
                    now,
                );
            match out {
                Poll::Pending => {
                    lemma_comes_further(fut, now, n.stage()->Invoking_0);
                    assert(configured(f, cfg, asked, fut));
                },
                Poll::Ready(o) => {
                    let r = choose|r: Result<R::Ok, R::Error>| #[trigger]
                        gives(now, r) && serves(Poll::Ready(r), Poll::Ready(o));
                    lemma_comes_to_resolve(fut, now, r);
                    assert(gives_resolved::<R::Future, S>(fut, o));
                    assert(configured(f, cfg, asked, fut));
                    assert(invoked_to::<F, C, T::Service, R, S>(f, cfg, o));
                },
            }
        },
        Configuring::Done => {},
        _ => {
            let (held, in_flight) = choose|held: Option<T::Service>, in_flight: Option<T::Future>| #[trigger]
                s.found(n, out, held, in_flight);
            let (service, build) = choose|service: Option<T::Service>, build: Option<T::Future>| #[trigger]
                obtained::<F, C, T, R, S>(
                    s.inner(),
                    f,
                    cfg,
                    held,
                    in_flight,
                    n.stage(),
                    out,
                    service,
                    build,
                );
            lemma_obtained_outcome::<F, C, T, R, S>(
                s.inner(),
                f,
                cfg,
                held,
                in_flight,
                n.stage(),
                out,
                service,
                build,
            );
        },
    }
}

} // verus!
