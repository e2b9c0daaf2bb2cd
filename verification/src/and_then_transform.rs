use vstd::prelude::*;
use std::rc::Rc;
use crate::poll::Poll;
use crate::future::{
    TryFuture, gives, resolves, resolves_through, comes_to, lemma_comes_to_itself,
    lemma_comes_further, lemma_comes_to_resolve, lemma_kept_while_waiting,
};
use crate::service::{NewService, Transform, Descends};
use crate::and_then::AndThen;
use crate::from_err::FromErr;
use crate::branch::{Branch, grown_from, lemma_branch_grows};

verus! {

/// The branch of a construction that builds a service and then a transform
/// around it.
pub enum Wrapped<T, B> where B: NewService, T: Transform<B::Service> {
    /// The service to wrap is being built.
    Building(B::Future),
    /// The service is built and handed to the transform, which is being
    /// built around it.
    Wrapping(T::Future),
    /// The transform is built and waits for the other branch.
    Built(T::Transform),
    /// The transform was handed on, or a construction failed.
    Spent,
}

impl<T, B> Wrapped<T, B> where B: NewService, T: Transform<B::Service, InitError = B::InitError> {
    /// Whether the branch may be advanced.
    pub open spec fn live(self) -> bool {
        match self {
            Wrapped::Building(fut) => fut.live(),
            Wrapped::Wrapping(fut) => fut.live(),
            Wrapped::Built(_) => true,
            Wrapped::Spent => false,
        }
    }

    /// A poll of `fut` may hand out a service around which `t` starts to
    /// build the transform with the computation `around`.
    pub open spec fn handed(fut: B::Future, t: T, around: T::Future) -> bool {
        exists|service: B::Service| gives(fut, Ok(service)) && #[trigger] t.wraps(service, around)
    }

    /// Waiting for the service to wrap may take the branch from `self` to
    /// `next`: once the service is built, `t` starts to build the transform
    /// around it. `failure` is the error of a service that failed to build.
    pub open spec fn started(self, t: T, next: Self, failure: Option<B::InitError>) -> bool {
        match self {
            Wrapped::Building(fut) => match next {
                Wrapped::Building(then) => failure is None && fut.polled(then, Poll::Pending),
                Wrapped::Wrapping(around) => failure is None && Self::handed(fut, t, around),
                Wrapped::Built(_) => false,
                Wrapped::Spent => failure matches Some(e) && gives(fut, Err(e)),
            },
            _ => failure is None && next == self,
        }
    }

    /// Waiting for the transform may take the branch from `self` to `next`.
    /// `failure` is the error of a transform that failed to build.
    pub open spec fn finished(self, next: Self, failure: Option<B::InitError>) -> bool {
        match self {
            Wrapped::Wrapping(fut) => match next {
                Wrapped::Wrapping(then) => failure is None && fut.polled(then, Poll::Pending),
                Wrapped::Built(transform) => failure is None && gives(fut, Ok(transform)),
                Wrapped::Spent => failure matches Some(e) && gives(fut, Err(e)),
                Wrapped::Building(_) => false,
            },
            _ => failure is None && next == self,
        }
    }

    /// Polls the construction of the service to wrap, if it is still
    /// running, and hands the service to `t` once it is built.
    pub fn start(&mut self, t: &T) -> (failure: Option<B::InitError>)
        requires
            old(self).live(),
        ensures
            old(self).started(*t, *final(self), failure),
            failure is None ==> final(self).live(),
    {
        let mut branch = Wrapped::Spent;
        core::mem::swap(self, &mut branch);
        match branch {
            Wrapped::Building(mut fut) => {
                let ghost before = fut;
                let polled = fut.try_poll();
                assert(before.polled(fut, polled));
                match polled {
                    Poll::Pending => {
                        *self = Wrapped::Building(fut);
                        None
                    },
                    Poll::Ready(Ok(service)) => {
                        assert(gives(before, Ok(service)));
                        let around = t.new_transform(service);
                        assert(t.wraps(service, around));
                        assert(Self::handed(before, *t, around));
                        *self = Wrapped::Wrapping(around);
                        None
                    },
                    Poll::Ready(Err(e)) => {
                        assert(gives(before, Err(e)));
                        Some(e)
                    },
                }
            },
            other => {
                *self = other;
                None
            },
        }
    }

    /// Polls the construction of the transform, if it is running.
    pub fn finish(&mut self) -> (failure: Option<B::InitError>)
        requires
            old(self).live(),
        ensures
            old(self).finished(*final(self), failure),
            failure is None ==> final(self).live(),
    {
        let mut branch = Wrapped::Spent;
        core::mem::swap(self, &mut branch);
        match branch {
            Wrapped::Wrapping(mut fut) => {
                let ghost before = fut;
                let polled = fut.try_poll();
                assert(before.polled(fut, polled));
                match polled {
                    Poll::Pending => {
                        *self = Wrapped::Wrapping(fut);
                        None
                    },
                    Poll::Ready(Ok(transform)) => {
                        *self = Wrapped::Built(transform);
                        None
                    },
                    Poll::Ready(Err(e)) => Some(e),
                }
            },
            other => {
                *self = other;
                None
            },
        }
    }

    /// Hands on the transform of a branch that is built.
    pub fn take(&mut self) -> (transform: Option<T::Transform>)
        ensures
            match *old(self) {
                Wrapped::Built(t) => transform == Some(t) && *final(self) is Spent,
                _ => transform is None && *final(self) == *old(self),
            },
    {
        let mut branch = Wrapped::Spent;
        core::mem::swap(self, &mut branch);
        match branch {
            Wrapped::Built(t) => Some(t),
            other => {
                *self = other;
                None
            },
        }
    }
}

/// Factory of chains whose tail is a transform built around a service.
///
/// For each configuration the factory `a` builds the head, the factory `b`
/// builds a service, and the transform `t` is built around that service. The
/// chain hands the head's responses to the transform; the head's errors are
/// converted into the transform's.
pub struct AndThenTransform<T, A, B> {
    a: A,
    b: B,
    t: Rc<T>,
}

impl<T, A, B> AndThenTransform<T, A, B> {
    /// The factory of heads.
    pub closed spec fn head(self) -> A {
        self.a
    }

    /// The factory of the services that the transform wraps.
    pub closed spec fn tail(self) -> B {
        self.b
    }

    /// The transform.
    pub closed spec fn transform(self) -> T {
        *self.t
    }
}

impl<T, A, B> AndThenTransform<T, A, B> where
    A: NewService,
    B: NewService<Config = A::Config, InitError = A::InitError>,
    T: Transform<B::Service, Request = A::Response, InitError = A::InitError>,
    T::Error: From<A::Error>,
    T::Transform: Clone,
 {
    /// Chains the transform `t`, built around the services of `b`, after
    /// the services of `a`.
    pub fn new(t: T, a: A, b: B) -> (factory: Self)
        ensures
            factory.transform() == t,
            factory.head() == a,
            factory.tail() == b,
    {
        Self { a, b, t: Rc::new(t) }
    }
}

impl<T, A: Clone, B: Clone> Clone for AndThenTransform<T, A, B> {
    /// A factory with factories of its own that shares the transform.
    fn clone(&self) -> (factory: Self)
        ensures
            cloned(self.head(), factory.head()),
            cloned(self.tail(), factory.tail()),
            factory.transform() == self.transform(),
    {
        Self { a: self.a.clone(), b: self.b.clone(), t: self.t.clone() }
    }
}

impl<T, A, B> NewService for AndThenTransform<T, A, B> where
    A: NewService,
    B: NewService<Config = A::Config, InitError = A::InitError>,
    T: Transform<B::Service, Request = A::Response, InitError = A::InitError>,
    T::Error: From<A::Error>,
    T::Transform: Clone,
 {
    type Request = A::Request;

    type Response = T::Response;

    type Error = T::Error;

    type Config = A::Config;

    type InitError = T::InitError;

    type Service = AndThen<FromErr<A::Service, T::Error>, T::Transform>;

    type Future = AndThenTransformFuture<T, A, B>;

    open spec fn builds(&self, cfg: A::Config, fut: AndThenTransformFuture<T, A, B>) -> bool {
        &&& fut.transform() == self.transform()
        &&& fut.head() matches Branch::Building(a)
        &&& self.head().builds(cfg, a)
        &&& fut.tail() matches Wrapped::Building(b)
        &&& self.tail().builds(cfg, b)
    }

    fn new_service(&self, cfg: &A::Config) -> (fut: AndThenTransformFuture<T, A, B>) {
        AndThenTransformFuture {
            a: Branch::Building(self.a.new_service(cfg)),
            t: Wrapped::Building(self.b.new_service(cfg)),
            t_cell: self.t.clone(),
        }
    }
}

/// The construction of a chain whose tail is a transform.
pub struct AndThenTransformFuture<T, A, B> where
    A: NewService,
    B: NewService<InitError = A::InitError>,
    T: Transform<B::Service, Request = A::Response, InitError = A::InitError>,
    T::Error: From<A::Error>,
    T::Transform: Clone,
 {
    a: Branch<A::Future>,
    t: Wrapped<T, B>,
    t_cell: Rc<T>,
}

impl<T, A, B> AndThenTransformFuture<T, A, B> where
    A: NewService,
    B: NewService<InitError = A::InitError>,
    T: Transform<B::Service, Request = A::Response, InitError = A::InitError>,
    T::Error: From<A::Error>,
    T::Transform: Clone,
 {
    /// The construction of the head.
    pub closed spec fn head(self) -> Branch<A::Future> {
        self.a
    }

    /// The construction of the transform.
    pub closed spec fn tail(self) -> Wrapped<T, B> {
        self.t
    }

    /// The transform.
    pub closed spec fn transform(self) -> T {
        *self.t_cell
    }

    /// One poll may take the construction from `self` to `next` and hand
    /// back `out`, the branch of the transform standing at `mid` when the
    /// head is advanced.
    ///
    /// A poll waits for the service to wrap, then advances the head, then
    /// waits for the transform. The first failure ends the poll and is the
    /// outcome of the construction. The chain is handed out once the head
    /// and the transform are both built.
    pub open spec fn progressed(
        self,
        next: Self,
        out: Poll<Result<AndThen<FromErr<A::Service, T::Error>, T::Transform>, A::InitError>>,
        mid: Wrapped<T, B>,
    ) -> bool {
        &&& next.transform() == self.transform()
        &&& match out {
            Poll::Ready(Err(e)) => {
                ||| {
                    &&& self.tail().started(self.transform(), next.tail(), Some(e))
                    &&& next.head() == self.head()
                }
                ||| {
                    &&& self.tail().started(self.transform(), mid, None)
                    &&& self.head().advanced(next.head(), Some(e))
                    &&& next.tail() == mid
                }
                ||| {
                    &&& self.tail().started(self.transform(), mid, None)
                    &&& self.head().advanced(next.head(), None)
                    &&& mid.finished(next.tail(), Some(e))
                }
            },
            Poll::Ready(Ok(chain)) => {
                &&& self.tail().started(self.transform(), mid, None)
                &&& next.head() is Spent
                &&& next.tail() is Spent
                &&& exists|a: A::Service, t: T::Transform|
                    {
                        &&& #[trigger] self.head().advanced(Branch::Built(a), None)
                        &&& #[trigger] mid.finished(Wrapped::Built(t), None)
                        &&& chain.head().inner() == a
                        &&& chain.tail().rule() == (Descends { origin: t })
                    }
            },
            Poll::Pending => {
                &&& self.tail().started(self.transform(), mid, None)
                &&& self.head().advanced(next.head(), None)
                &&& mid.finished(next.tail(), None)
                &&& !(next.head() is Built && next.tail() is Built)
            },
        }
    }
}

impl<T, A, B> TryFuture for AndThenTransformFuture<T, A, B> where
    A: NewService,
    B: NewService<InitError = A::InitError>,
    T: Transform<B::Service, Request = A::Response, InitError = A::InitError>,
    T::Error: From<A::Error>,
    T::Transform: Clone,
 {
    type Ok = AndThen<FromErr<A::Service, T::Error>, T::Transform>;

    type Error = A::InitError;

    open spec fn live(&self) -> bool {
        self.head().live() && self.tail().live()
    }

    open spec fn polled(
        &self,
        next: Self,
        out: Poll<Result<AndThen<FromErr<A::Service, T::Error>, T::Transform>, A::InitError>>,
    ) -> bool {
        exists|mid: Wrapped<T, B>| self.progressed(next, out, mid)
    }

    fn try_poll(&mut self) -> (out: Poll<
        Result<AndThen<FromErr<A::Service, T::Error>, T::Transform>, A::InitError>,
    >) {
        if let Some(e) = self.t.start(&*self.t_cell) {
            assert(old(self).progressed(*self, Poll::Ready(Err(e)), self.t));
            return Poll::Ready(Err(e));
        }
        let ghost mid = self.t;
        if let Some(e) = self.a.advance() {
            assert(old(self).progressed(*self, Poll::Ready(Err(e)), mid));
            return Poll::Ready(Err(e));
        }
        if let Some(e) = self.t.finish() {
            assert(old(self).progressed(*self, Poll::Ready(Err(e)), mid));
            return Poll::Ready(Err(e));
        }
        let ghost head = self.a;
        let ghost tail = self.t;
        match self.a.take() {
            Some(a) => match self.t.take() {
                Some(t) => {
                    let chain = AndThen::new(FromErr::new(a), t);
                    assert(old(self).head().advanced(Branch::Built(a), None));
                    assert(mid.finished(Wrapped::Built(t), None));
                    assert(old(self).progressed(*self, Poll::Ready(Ok(chain)), mid));
                    Poll::Ready(Ok(chain))
                },
                None => {
                    self.a = Branch::Built(a);
                    assert(old(self).progressed(*self, Poll::Pending, mid));
                    Poll::Pending
                },
            },
            None => {
                assert(old(self).progressed(*self, Poll::Pending, mid));
                Poll::Pending
            },
        }
    }
}

/// The transform `transform` is what `t` built around the service that the
/// construction `start` resolved to.
pub open spec fn wrapped_around<T, B>(start: B::Future, t: T, transform: T::Transform) -> bool where
    B: NewService,
    T: Transform<B::Service, InitError = B::InitError>,
 {
    exists|service: B::Service, around: T::Future|
        resolves(start, Ok(service)) && #[trigger] t.wraps(service, around) && resolves(
            around,
            Ok(transform),
        )
}

/// The construction `start` failed with `e`, or it resolved to a service
/// and `t` failed with `e` to build the transform around it.
pub open spec fn wrapping_failed<T, B>(start: B::Future, t: T, e: B::InitError) -> bool where
    B: NewService,
    T: Transform<B::Service, InitError = B::InitError>,
 {
    ||| resolves(start, Err(e))
    ||| exists|service: B::Service, around: T::Future|
        resolves(start, Ok(service)) && #[trigger] t.wraps(service, around) && resolves(
            around,
            Err(e),
        )
}

/// The construction `start` resolved to a service, around which `t` is
/// building the transform with a computation that has come to `now`.
pub open spec fn wrapping<T, B>(start: B::Future, t: T, now: T::Future) -> bool where
    B: NewService,
    T: Transform<B::Service, InitError = B::InitError>,
 {
    exists|service: B::Service, around: T::Future|
        resolves(start, Ok(service)) && #[trigger] t.wraps(service, around) && comes_to(
            around,
            now,
        )
}

/// A branch that started with the construction `start` of the service to
/// wrap, and builds the transform with `t`, may stand at `branch`.
pub open spec fn wrapped_from<T, B>(start: B::Future, t: T, branch: Wrapped<T, B>) -> bool where
    B: NewService,
    T: Transform<B::Service, InitError = B::InitError>,
 {
    match branch {
        Wrapped::Building(now) => comes_to(start, now),
        Wrapped::Wrapping(now) => wrapping::<T, B>(start, t, now),
        Wrapped::Built(transform) => wrapped_around::<T, B>(start, t, transform),
        Wrapped::Spent => true,
    }
}

/// A branch grows by waiting for the service to wrap, and fails with the
/// error that the construction of the service failed with.
pub proof fn lemma_started_grows<T, B>(
    start: B::Future,
    t: T,
    branch: Wrapped<T, B>,
    next: Wrapped<T, B>,
    failure: Option<B::InitError>,
) where B: NewService, T: Transform<B::Service, InitError = B::InitError>
    requires
        wrapped_from(start, t, branch),
        branch.started(t, next, failure),
    ensures
        wrapped_from(start, t, next),
        failure matches Some(e) ==> wrapping_failed::<T, B>(start, t, e),
{
    if let Wrapped::Building(now) = branch {
        match next {
            Wrapped::Building(then) => {
                lemma_comes_further(start, now, then);
            },
            Wrapped::Wrapping(around) => {
                let service = choose|service: B::Service|
                    gives(now, Ok(service)) && #[trigger] t.wraps(service, around);
                lemma_comes_to_resolve(start, now, Ok(service));
                lemma_comes_to_itself(around);
                assert(t.wraps(service, around));
            },
            Wrapped::Built(_) => {},
            Wrapped::Spent => {
                lemma_comes_to_resolve(start, now, Err(failure->Some_0));
            },
        }
    }
}

/// A branch grows by waiting for the transform, and fails with the error
/// that the construction of the transform failed with.
pub proof fn lemma_finished_grows<T, B>(
    start: B::Future,
    t: T,
    branch: Wrapped<T, B>,
    next: Wrapped<T, B>,
    failure: Option<B::InitError>,
) where B: NewService, T: Transform<B::Service, InitError = B::InitError>
    requires
        wrapped_from(start, t, branch),
        branch.finished(next, failure),
    ensures
        wrapped_from(start, t, next),
        failure matches Some(e) ==> wrapping_failed::<T, B>(start, t, e),
{
    if let Wrapped::Wrapping(now) = branch {
        let (service, around) = choose|service: B::Service, around: T::Future|
            resolves(start, Ok(service)) && #[trigger] t.wraps(service, around) && comes_to(
                around,
                now,
            );
        match next {
            Wrapped::Wrapping(then) => {
                lemma_comes_further(around, now, then);
                assert(t.wraps(service, around));
            },
            Wrapped::Built(transform) => {
                lemma_comes_to_resolve(around, now, Ok(transform));
                assert(t.wraps(service, around));
            },
            Wrapped::Spent => {
                lemma_comes_to_resolve(around, now, Err(failure->Some_0));
                assert(t.wraps(service, around));
            },
            Wrapped::Building(_) => {},
        }
    }
}

/// `out` is the outcome of building a chain with the construction `head` of
/// the head, the construction `tail` of the service to wrap and the
/// transform `t`: the chain of the head, its errors converted, and of the
/// transform that `t` built around the service, or the error that one of
/// the three constructions failed with.
pub open spec fn built_around<T, A, B>(
    head: A::Future,
    tail: B::Future,
    t: T,
    out: Result<AndThen<FromErr<A::Service, T::Error>, T::Transform>, A::InitError>,
) -> bool where
    A: NewService,
    B: NewService<InitError = A::InitError>,
    T: Transform<B::Service, Request = A::Response, InitError = A::InitError>,
    T::Error: From<A::Error>,
    T::Transform: Clone,
 {
    match out {
        Ok(chain) => {
            &&& resolves(head, Ok(chain.head().inner()))
            &&& wrapped_around::<T, B>(tail, t, chain.tail().rule().origin)
        },
        Err(e) => resolves(head, Err(e)) || wrapping_failed::<T, B>(tail, t, e),
    }
}

/// The chain is handed out once the head is built and the transform is
/// built around the service, whatever the order in which the three
/// constructions resolve; a failure of one of them is the failure of the
/// chain's construction.
///
/// That is: if the factory, asked for a service for `cfg`, hands back `fut`,
/// and `fut`, polled to its end, resolves to `out`, then both factories were
/// asked for a service for `cfg`, and `out` is either the chain of the
/// service that the head's construction resolved to and of the transform
/// that resolved from being built around the service that the other
/// construction resolved to, or the error that one of the three failed
/// with.
pub proof fn theorem_and_then_transform_new_service<T, A, B>(
    factory: AndThenTransform<T, A, B>,
    cfg: A::Config,
    fut: AndThenTransformFuture<T, A, B>,
    out: Result<AndThen<FromErr<A::Service, T::Error>, T::Transform>, A::InitError>,
) where
    A: NewService,
    B: NewService<Config = A::Config, InitError = A::InitError>,
    T: Transform<B::Service, Request = A::Response, InitError = A::InitError>,
    T::Error: From<A::Error>,
    T::Transform: Clone,

    requires
        factory.builds(cfg, fut),
        resolves(fut, out),
    ensures
        fut.head() matches Branch::Building(head) && fut.tail() matches Wrapped::Building(tail) && {
            &&& factory.head().builds(cfg, head)
            &&& factory.tail().builds(cfg, tail)
            &&& built_around::<T, A, B>(head, tail, factory.transform(), out)
        },
{
    let head = fut.head()->Building_0;
    let tail = fut.tail()->Building_0;
    let t = factory.transform();
    let states = choose|states: Seq<AndThenTransformFuture<T, A, B>>|
        resolves_through(fut, states, out);
    let inv = |w: AndThenTransformFuture<T, A, B>|
        w.transform() == t && grown_from(head, w.head()) && wrapped_from(tail, t, w.tail());
    lemma_comes_to_itself(head);
    lemma_comes_to_itself(tail);
    assert forall|s: AndThenTransformFuture<T, A, B>, n: AndThenTransformFuture<T, A, B>|
        inv(s) && #[trigger] s.polled(n, Poll::Pending) implies inv(n) by {
        let mid = choose|mid: Wrapped<T, B>| s.progressed(n, Poll::Pending, mid);
        lemma_started_grows(tail, t, s.tail(), mid, None);
        lemma_branch_grows(head, s.head(), n.head(), None);
        lemma_finished_grows(tail, t, mid, n.tail(), None);
    }
    lemma_kept_while_waiting(states, inv, states.len() - 1);
    let last = states.last();
    let end = choose|end: AndThenTransformFuture<T, A, B>| last.polled(end, Poll::Ready(out));
    let mid = choose|mid: Wrapped<T, B>| last.progressed(end, Poll::Ready(out), mid);
    match out {
        Ok(chain) => {
            lemma_started_grows(tail, t, last.tail(), mid, None);
            let (a, transform) = choose|a: A::Service, transform: T::Transform|
                {
                    &&& #[trigger] last.head().advanced(Branch::Built(a), None)
                    &&& #[trigger] mid.finished(Wrapped::Built(transform), None)
                    &&& chain.head().inner() == a
                    &&& chain.tail().rule() == (Descends { origin: transform })
                };
            lemma_branch_grows(head, last.head(), Branch::Built(a), None);
            lemma_finished_grows(tail, t, mid, Wrapped::Built(transform), None);
        },
        Err(e) => {
            if last.tail().started(t, end.tail(), Some(e)) && end.head() == last.head() {
                lemma_started_grows(tail, t, last.tail(), end.tail(), Some(e));
            } else {
                lemma_started_grows(tail, t, last.tail(), mid, None);
                if last.head().advanced(end.head(), Some(e)) && end.tail() == mid {
                    lemma_branch_grows(head, last.head(), end.head(), Some(e));
                } else {
                    lemma_finished_grows(tail, t, mid, end.tail(), Some(e));
                }
            }
        },
    }
}

} // verus!
