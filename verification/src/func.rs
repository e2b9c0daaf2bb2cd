use vstd::prelude::*;
use std::rc::Rc;
use std::marker::PhantomData;
use crate::future::{IntoTryFuture, TryFuture};
use crate::poll::{Poll, maps_ok, maps_err};

verus! {

/// A shared function of one argument that accepts every argument.
///
/// Combinators and the computations they start hold handles to one and the
/// same function; a handle is cloned, the function never.
#[verifier::reject_recursive_types(T)]
#[verifier::reject_recursive_types(U)]
#[verifier::reject_recursive_types(F)]
pub struct Mapper<T, U, F: Fn(T) -> U> {
    f: Rc<F>,
    _t: PhantomData<(T, U)>,
}

impl<T, U, F: Fn(T) -> U> Mapper<T, U, F> {
    #[verifier::type_invariant]
    spec fn total(self) -> bool {
        forall|v: T| call_requires(*self.f, (v,))
    }

    /// The function behind the handle.
    pub closed spec fn func(self) -> F {
        *self.f
    }

    /// Shares `f`.
    pub fn new(f: F) -> (m: Self)
        requires
            forall|v: T| call_requires(f, (v,)),
        ensures
            m.func() == f,
    {
        Mapper { f: Rc::new(f), _t: PhantomData }
    }

    /// Another handle to the same function.
    pub fn share(&self) -> (m: Self)
        ensures
            m.func() == self.func(),
    {
        proof {
            use_type_invariant(self);
        }
        Mapper { f: self.f.clone(), _t: PhantomData }
    }

    /// Applies the function to `v`.
    pub fn apply(&self, v: T) -> (w: U)
        ensures
            call_ensures(self.func(), (v,), w),
    {
        proof {
            use_type_invariant(self);
        }
        (*self.f)(v)
    }

    /// Applies the function to the value of a success.
    pub fn map_ok<E>(&self, inner: Poll<Result<T, E>>) -> (out: Poll<Result<U, E>>)
        ensures
            maps_ok(self.func(), inner, out),
    {
        match inner {
            Poll::Ready(Ok(v)) => Poll::Ready(Ok(self.apply(v))),
            Poll::Ready(Err(e)) => Poll::Ready(Err(e)),
            Poll::Pending => Poll::Pending,
        }
    }

    /// Applies the function to the error of a failure.
    pub fn map_err<V>(&self, inner: Poll<Result<V, T>>) -> (out: Poll<Result<V, U>>)
        ensures
            maps_err(self.func(), inner, out),
    {
        match inner {
            Poll::Ready(Ok(v)) => Poll::Ready(Ok(v)),
            Poll::Ready(Err(e)) => Poll::Ready(Err(self.apply(e))),
            Poll::Pending => Poll::Pending,
        }
    }
}

/// Called with `r` and a service that stands at `before`, `f` may hand back
/// `out`.
pub open spec fn applies<R, B, Out, F: Fn(R, &mut B) -> Out>(f: F, r: R, before: B, out: Out) -> bool {
    exists|b: &mut B| *b == before && #[trigger] call_ensures(f, (r, b), out)
}

/// A shared function that is handed a response and a service to work with,
/// and hands back a computation or an outcome. It accepts every argument,
/// and what it hands back can be polled.
#[verifier::reject_recursive_types(R)]
#[verifier::reject_recursive_types(B)]
#[verifier::reject_recursive_types(Out)]
#[verifier::reject_recursive_types(F)]
pub struct Applier<R, B, Out: IntoTryFuture, F: Fn(R, &mut B) -> Out> {
    f: Rc<F>,
    _t: PhantomData<(R, B, Out)>,
}

impl<R, B, Out: IntoTryFuture, F: Fn(R, &mut B) -> Out> Applier<R, B, Out, F> {
    /// `f` accepts every argument, and what it hands back can be polled.
    pub open spec fn sound(f: F) -> bool {
        &&& forall|r: R, b: &mut B| call_requires(f, (r, b))
        &&& forall|r: R, b: &mut B, out: Out| call_ensures(f, (r, b), out) ==> out.fresh()
    }

    #[verifier::type_invariant]
    spec fn total(self) -> bool {
        Self::sound(*self.f)
    }

    /// The function behind the handle.
    pub closed spec fn func(self) -> F {
        *self.f
    }

    /// Shares `f`.
    pub fn new(f: F) -> (a: Self)
        requires
            Self::sound(f),
        ensures
            a.func() == f,
    {
        Applier { f: Rc::new(f), _t: PhantomData }
    }

    /// Another handle to the same function.
    pub fn share(&self) -> (a: Self)
        ensures
            a.func() == self.func(),
    {
        proof {
            use_type_invariant(self);
        }
        Applier { f: self.f.clone(), _t: PhantomData }
    }

    /// Applies the function to `r` and `b`, and turns what it hands back
    /// into a computation.
    pub fn apply(&self, r: R, b: &mut B) -> (fut: Out::Future)
        ensures
            applied(self.func(), r, *old(b), fut),
            exists|out: Out, x: &mut B|
                {
                    &&& *x == *old(b)
                    &&& *final(x) == *final(b)
                    &&& #[trigger] call_ensures(self.func(), (r, x), out)
                    &&& out.converts(fut)
                },
            fut.live(),
    {
        proof {
            use_type_invariant(self);
        }
        let out = (*self.f)(r, b);
        let fut = out.into_try_future();
        assert(applies(self.func(), r, *old(b), out) && out.converts(fut));
        fut
    }
}

/// Called with `r` and a service that stands at `before`, `f` may hand back
/// what stands for the computation `fut`.
pub open spec fn applied<R, B, Out: IntoTryFuture, F: Fn(R, &mut B) -> Out>(
    f: F,
    r: R,
    before: B,
    fut: Out::Future,
) -> bool {
    exists|out: Out| #[trigger] applies(f, r, before, out) && out.converts(fut)
}

/// Called with the configuration `cfg` and a service that stands at
/// `before`, `f` may hand back `out`.
pub open spec fn configures<C, T, R, F: Fn(&C, &mut T) -> R>(
    f: F,
    cfg: C,
    before: T,
    out: R,
) -> bool {
    exists|t: &mut T| *t == before && #[trigger] call_ensures(f, (&cfg, t), out)
}

/// A shared function that is handed a configuration and a service to work
/// with, and hands back a computation or an outcome. It accepts every
/// argument, and what it hands back can be polled.
#[verifier::reject_recursive_types(C)]
#[verifier::reject_recursive_types(T)]
#[verifier::reject_recursive_types(R)]
#[verifier::reject_recursive_types(F)]
pub struct Configurer<C, T, R: IntoTryFuture, F: Fn(&C, &mut T) -> R> {
    f: Rc<F>,
    _t: PhantomData<(C, T, R)>,
}

impl<C, T, R: IntoTryFuture, F: Fn(&C, &mut T) -> R> Configurer<C, T, R, F> {
    /// `f` accepts every argument, and what it hands back can be polled.
    pub open spec fn sound(f: F) -> bool {
        &&& forall|c: &C, t: &mut T| call_requires(f, (c, t))
        &&& forall|c: &C, t: &mut T, out: R| call_ensures(f, (c, t), out) ==> out.fresh()
    }

    #[verifier::type_invariant]
    spec fn total(self) -> bool {
        Self::sound(*self.f)
    }

    /// The function behind the handle.
    pub closed spec fn func(self) -> F {
        *self.f
    }

    /// Shares `f`.
    pub fn new(f: F) -> (c: Self)
        requires
            Self::sound(f),
        ensures
            c.func() == f,
    {
        Configurer { f: Rc::new(f), _t: PhantomData }
    }

    /// Another handle to the same function.
    pub fn share(&self) -> (c: Self)
        ensures
            c.func() == self.func(),
    {
        proof {
            use_type_invariant(self);
        }
        Configurer { f: self.f.clone(), _t: PhantomData }
    }

    /// Applies the function to `cfg` and `service`, and turns what it hands
    /// back into a computation.
    pub fn configure(&self, cfg: &C, service: &mut T) -> (fut: R::Future)
        ensures
            configured(self.func(), *cfg, *old(service), fut),
            exists|out: R, x: &mut T|
                {
                    &&& *x == *old(service)
                    &&& *final(x) == *final(service)
                    &&& #[trigger] call_ensures(self.func(), (cfg, x), out)
                    &&& out.converts(fut)
                },
            fut.live(),
    {
        proof {
            use_type_invariant(self);
        }
        let out = (*self.f)(cfg, service);
        let fut = out.into_try_future();
        assert(configures(self.func(), *cfg, *old(service), out) && out.converts(fut));
        fut
    }
}

/// Called with the configuration `cfg` and a service that stands at
/// `before`, `f` may hand back what stands for the computation `fut`.
pub open spec fn configured<C, T, R: IntoTryFuture, F: Fn(&C, &mut T) -> R>(
    f: F,
    cfg: C,
    before: T,
    fut: R::Future,
) -> bool {
    exists|out: R| #[trigger] configures(f, cfg, before, out) && out.converts(fut)
}

} // verus!
