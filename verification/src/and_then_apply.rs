use vstd::prelude::*;
use std::marker::PhantomData;
use crate::poll::Poll;
use crate::future::{
    TryFuture, IntoTryFuture, gives, resolves, resolves_through, comes_to, lemma_comes_to_itself,
    lemma_comes_further, lemma_comes_to_resolve,
};
use crate::service::{Service, NewService, IntoService, IntoNewService};
use crate::cell::Cell;
use crate::func::{Applier, applied};
use crate::branch::{Branch, join, joined};
use crate::and_then::{Stage, stage_live, chain_readied, keeps_in_use, poll_chain_ready};

verus! {

/// `out` is `inner` with the error of a failure turned into `E`; a value and
/// `Pending` pass through.
pub open spec fn turns<T, D: Into<E>, E>(
    inner: Poll<Result<T, D>>,
    out: Poll<Result<T, E>>,
) -> bool {
    match inner {
        Poll::Pending => out is Pending,
        Poll::Ready(Ok(v)) => out == Poll::Ready(Ok::<T, E>(v)),
        Poll::Ready(Err(d)) => out matches Poll::Ready(Err(e)) && call_ensures(
            <D as Into<E>>::into,
            (d,),
            e,
        ),
    }
}

/// Turns the error of a failure into `E`.
pub fn turn<T, D: Into<E>, E>(inner: Poll<Result<T, D>>) -> (out: Poll<Result<T, E>>)
    ensures
        turns(inner, out),
{
    match inner {
        Poll::Pending => Poll::Pending,
        Poll::Ready(Ok(v)) => Poll::Ready(Ok(v)),
        Poll::Ready(Err(d)) => Poll::Ready(Err(d.into())),
    }
}

/// Service that hands the response of a first service, the head, to a
/// function, together with a second service, the tail, for the function to
/// work with.
///
/// The tail lives in a slot that the service shares with its clones and with
/// the computations it has started.
#[verifier::reject_recursive_types(A)]
#[verifier::reject_recursive_types(B)]
#[verifier::reject_recursive_types(F)]
#[verifier::reject_recursive_types(Out)]
pub struct AndThenApply<A, B, F, Out> where
    A: Service,
    B: Service<Error = A::Error> + Clone,
    F: Fn(A::Response, &mut B) -> Out,
    Out: IntoTryFuture,
    Out::Error: Into<A::Error>,
 {
    a: A,
    b: Cell<B>,
    f: Applier<A::Response, B, Out, F>,
    r: PhantomData<(Out,)>,
}

impl<A, B, F, Out> AndThenApply<A, B, F, Out> where
    A: Service,
    B: Service<Error = A::Error> + Clone,
    F: Fn(A::Response, &mut B) -> Out,
    Out: IntoTryFuture,
    Out::Error: Into<A::Error>,
 {
    /// The first stage.
    pub closed spec fn head(self) -> A {
        self.a
    }

    /// The slot of the second stage.
    pub closed spec fn tail(self) -> Cell<B> {
        self.b
    }

    /// The function that is handed the head's response and the tail.
    pub closed spec fn func(self) -> F {
        self.f.func()
    }

    /// Chains `f`, working with the service that `b` turns into, after the
    /// service that `a` turns into.
    pub fn new<A1: IntoService<A>, B1: IntoService<B>>(a: A1, b: B1, f: F) -> (chain: Self)
        requires
            Applier::<A::Response, B, Out, F>::sound(f),
        ensures
            a.becomes(chain.head()),
            exists|tail: B| #[trigger] b.becomes(tail) && cloned(tail, chain.tail().spare()),
            chain.func() == f,
    {
        let tail = b.into_service();
        assert(b.becomes(tail));
        Self { f: Applier::new(f), a: a.into_service(), b: Cell::new(tail), r: PhantomData }
    }

    /// The service made of parts that are at hand.
    fn assemble(a: A, b: B, f: Applier<A::Response, B, Out, F>) -> (chain: Self)
        ensures
            chain.head() == a,
            cloned(b, chain.tail().spare()),
            chain.func() == f.func(),
    {
        Self { f, a, b: Cell::new(b), r: PhantomData }
    }
}

impl<A, B, F, Out> Clone for AndThenApply<A, B, F, Out> where
    A: Service + Clone,
    B: Service<Error = A::Error> + Clone,
    F: Fn(A::Response, &mut B) -> Out,
    Out: IntoTryFuture,
    Out::Error: Into<A::Error>,
 {
    /// A service with a head of its own that shares the tail and the
    /// function.
    fn clone(&self) -> (chain: Self)
        ensures
            cloned(self.head(), chain.head()),
            chain.tail().reaches(self.tail()),
            chain.func() == self.func(),
    {
        AndThenApply { a: self.a.clone(), b: self.b.share(), f: self.f.share(), r: PhantomData }
    }
}

impl<A, B, F, Out> Service for AndThenApply<A, B, F, Out> where
    A: Service,
    B: Service<Error = A::Error> + Clone,
    F: Fn(A::Response, &mut B) -> Out,
    Out: IntoTryFuture,
    Out::Error: Into<A::Error>,
 {
    type Request = A::Request;

    type Response = Out::Ok;

    type Error = A::Error;

    type Future = AndThenApplyFuture<A, B, F, Out>;

    open spec fn readied(&self, next: Self, out: Poll<Result<(), A::Error>>) -> bool {
        &&& next.tail() == self.tail()
        &&& next.func() == self.func()
        &&& chain_readied(self.head(), next.head(), self.tail(), out)
    }

    open spec fn called(
        &self,
        req: A::Request,
        next: Self,
        fut: AndThenApplyFuture<A, B, F, Out>,
    ) -> bool {
        &&& next.tail() == self.tail()
        &&& next.func() == self.func()
        &&& fut.tail().reaches(self.tail())
        &&& fut.func() == self.func()
        &&& fut.stage() matches Stage::Head(head)
        &&& self.head().called(req, next.head(), head)
    }

    fn poll_ready(&mut self) -> (out: Poll<Result<(), A::Error>>) {
        assert(keeps_in_use(self.b));
        poll_chain_ready(&mut self.a, &self.b)
    }

    fn call(&mut self, req: A::Request) -> (fut: AndThenApplyFuture<A, B, F, Out>) {
        AndThenApplyFuture {
            b: self.b.share(),
            f: self.f.share(),
            stage: Stage::Head(self.a.call(req)),
        }
    }
}

/// What one poll of the computation of a response of [`AndThenApply`] did.
pub enum ApplyStep<A: Service, B, Out: IntoTryFuture> {
    /// It polled the head's computation, which was not ready.
    HeadPending,
    /// It polled the head's computation, which failed with this error. The
    /// function was not called and the tail was left alone.
    HeadFailed(A::Error),
    /// It polled the head's computation, which handed out the response,
    /// took the tail out of its slot, called the function with the response
    /// and the tail, which stood at `before`, and polled the computation
    /// `fut` that the function handed back.
    Applied { response: A::Response, before: B, fut: Out::Future },
    /// It polled the computation that the function had handed back.
    TailPolled,
    /// It found the computation resolved and did nothing.
    Resolved,
}

/// A poll of `fut` may resolve it to an outcome that, with its error turned
/// into `E`, is `out`.
pub open spec fn gives_into<F: TryFuture, E>(fut: F, out: Result<F::Ok, E>) -> bool where
    F::Error: Into<E>,
 {
    exists|r: Result<F::Ok, F::Error>| #[trigger]
        gives(fut, r) && turns(Poll::Ready(r), Poll::Ready(out))
}

/// A poll of `fut` handed back `out`, its error turned into `E`, and led to
/// the stage `next`.
pub open spec fn drives_into<H: TryFuture, F: TryFuture, E>(
    fut: F,
    next: Stage<H, F>,
    out: Poll<Result<F::Ok, E>>,
) -> bool where F::Error: Into<E> {
    match out {
        Poll::Pending => next matches Stage::Tail(then) && fut.polled(then, Poll::Pending),
        Poll::Ready(r) => next is Done && gives_into(fut, r),
    }
}

/// Handing `response` and the tail `before` to the function `f`, and polling
/// the computation that the function hands back, may hand back `out` and
/// lead to the stage `next`.
pub open spec fn tail_applied<A, B, F, Out>(
    f: F,
    before: B,
    response: A::Response,
    next: Stage<A::Future, Out::Future>,
    out: Poll<Result<Out::Ok, A::Error>>,
) -> bool where
    A: Service,
    B: Service<Error = A::Error> + Clone,
    F: Fn(A::Response, &mut B) -> Out,
    Out: IntoTryFuture,
    Out::Error: Into<A::Error>,
 {
    exists|fut: Out::Future| #[trigger]
        applied(f, response, before, fut) && drives_into(fut, next, out)
}

/// Polls the computation `fut` that the function handed back, turns its
/// error into the chain's, and tells the stage that follows.
pub fn drive_into<A, Out>(fut: Out::Future) -> (r: (
    Poll<Result<Out::Ok, A::Error>>,
    Stage<A::Future, Out::Future>,
)) where A: Service, Out: IntoTryFuture, Out::Error: Into<A::Error>
    requires
        fut.live(),
    ensures
        drives_into(fut, r.1, r.0),
        stage_live(r.1),
{
    let mut fut = fut;
    let ghost before = fut;
    let inner = fut.try_poll();
    assert(before.polled(fut, inner));
    let ghost seen = inner;
    let out = turn(inner);
    match out {
        Poll::Pending => (Poll::Pending, Stage::Tail(fut)),
        Poll::Ready(r) => {
            assert(gives(before, seen->Ready_0) && turns(seen, Poll::Ready(r)));
            (Poll::Ready(r), Stage::Done)
        },
    }
}

/// With the head's response in hand, hands it and the tail to the function,
/// and polls the computation that the function hands back; the tail is
/// handed back to be put into its slot again.
pub fn apply_tail<A, B, F, Out>(
    f: &Applier<A::Response, B, Out, F>,
    tail: B,
    response: A::Response,
) -> (r: (Poll<Result<Out::Ok, A::Error>>, Stage<A::Future, Out::Future>, B)) where
    A: Service,
    B: Service<Error = A::Error> + Clone,
    F: Fn(A::Response, &mut B) -> Out,
    Out: IntoTryFuture,
    Out::Error: Into<A::Error>,

    ensures
        tail_applied::<A, B, F, Out>(f.func(), tail, response, r.1, r.0),
        stage_live(r.1),
{
    let mut b = tail;
    let fut = f.apply(response, &mut b);
    assert(applied(f.func(), response, tail, fut));
    let (out, stage) = drive_into::<A, Out>(fut);
    (out, stage, b)
}

/// The computation of a response of [`AndThenApply`].
#[verifier::reject_recursive_types(A)]
#[verifier::reject_recursive_types(B)]
#[verifier::reject_recursive_types(F)]
#[verifier::reject_recursive_types(Out)]
pub struct AndThenApplyFuture<A, B, F, Out> where
    A: Service,
    B: Service<Error = A::Error> + Clone,
    F: Fn(A::Response, &mut B) -> Out,
    Out: IntoTryFuture,
    Out::Error: Into<A::Error>,
 {
    b: Cell<B>,
    f: Applier<A::Response, B, Out, F>,
    stage: Stage<A::Future, Out::Future>,
}

impl<A, B, F, Out> AndThenApplyFuture<A, B, F, Out> where
    A: Service,
    B: Service<Error = A::Error> + Clone,
    F: Fn(A::Response, &mut B) -> Out,
    Out: IntoTryFuture,
    Out::Error: Into<A::Error>,
 {
    /// The slot of the second stage.
    pub closed spec fn tail(self) -> Cell<B> {
        self.b
    }

    /// The function that is handed the head's response and the tail.
    pub closed spec fn func(self) -> F {
        self.f.func()
    }

    /// Where the computation stands.
    pub closed spec fn stage(self) -> Stage<A::Future, Out::Future> {
        self.stage
    }

    /// A poll of the head's computation, which is still running, may hand
    /// out the response `v`.
    pub open spec fn has_response(self, v: A::Response) -> bool {
        self.stage() matches Stage::Head(head) && gives(head, Ok(v))
    }

    /// One poll that does `step` may take the computation from `self` to
    /// `next` and hand back `out`.
    pub open spec fn stepped(
        self,
        next: Self,
        out: Poll<Result<Out::Ok, A::Error>>,
        step: ApplyStep<A, B, Out>,
    ) -> bool {
        &&& next.tail() == self.tail()
        &&& next.func() == self.func()
        &&& match step {
            ApplyStep::HeadPending => {
                &&& self.stage() matches Stage::Head(head)
                &&& next.stage() matches Stage::Head(then)
                &&& head.polled(then, Poll::Pending)
                &&& out is Pending
            },
            ApplyStep::HeadFailed(e) => {
                &&& self.stage() matches Stage::Head(head)
                &&& gives(head, Err(e))
                &&& next.stage() is Done
                &&& out == Poll::Ready(Err::<Out::Ok, A::Error>(e))
            },
            ApplyStep::Applied { response, before, fut } => {
                &&& self.has_response(response)
                &&& applied(self.func(), response, before, fut)
                &&& drives_into(fut, next.stage(), out)
            },
            ApplyStep::TailPolled => {
                &&& self.stage() matches Stage::Tail(tail)
                &&& drives_into(tail, next.stage(), out)
            },
            ApplyStep::Resolved => {
                &&& self.stage() is Done
                &&& next.stage() is Done
                &&& out is Pending
            },
        }
    }

    /// With the head's response in hand, takes the tail out of its slot,
    /// calls the function with both, puts the tail back and polls the
    /// computation that the function handed back.
    fn invoke(&mut self, response: A::Response) -> (r: (
        Poll<Result<Out::Ok, A::Error>>,
        Ghost<ApplyStep<A, B, Out>>,
    ))
        ensures
            final(self).tail() == old(self).tail(),
            final(self).func() == old(self).func(),
            final(self).live(),
            r.1@ matches ApplyStep::Applied { response: v, before, fut } && {
                &&& v == response
                &&& applied(old(self).func(), v, before, fut)
                &&& drives_into(fut, final(self).stage(), r.0)
            },
    {
        let held = self.b.take();
        let ghost before = held;
        let (out, stage, after) = apply_tail::<A, B, F, Out>(&self.f, held, response);
        let ghost next = stage;
        self.stage = stage;
        let ghost fut = choose|fut: Out::Future| #[trigger]
            applied(self.f.func(), response, before, fut) && drives_into(fut, next, out);
        let _ = self.b.put(after);
        (out, Ghost(ApplyStep::Applied { response, before, fut }))
    }
}

impl<A, B, F, Out> TryFuture for AndThenApplyFuture<A, B, F, Out> where
    A: Service,
    B: Service<Error = A::Error> + Clone,
    F: Fn(A::Response, &mut B) -> Out,
    Out: IntoTryFuture,
    Out::Error: Into<A::Error>,
 {
    type Ok = Out::Ok;

    type Error = A::Error;

    /// The computation may be polled in every stage; once it has resolved,
    /// a poll does nothing and hands back `Pending`.
    open spec fn live(&self) -> bool {
        stage_live(self.stage())
    }

    open spec fn polled(&self, next: Self, out: Poll<Result<Out::Ok, A::Error>>) -> bool {
        exists|step: ApplyStep<A, B, Out>| self.stepped(next, out, step)
    }

    fn try_poll(&mut self) -> (out: Poll<Result<Out::Ok, A::Error>>) {
        let mut stage = Stage::Done;
        core::mem::swap(&mut self.stage, &mut stage);
        match stage {
            Stage::Head(mut head) => {
                let ghost before = head;
                let polled = head.try_poll();
                assert(before.polled(head, polled));
                match polled {
                    Poll::Pending => {
                        self.stage = Stage::Head(head);
                        assert(old(self).stepped(*self, Poll::Pending, ApplyStep::HeadPending));
                        Poll::Pending
                    },
                    Poll::Ready(Err(e)) => {
                        assert(old(self).stepped(
                            *self,
                            Poll::Ready(Err(e)),
                            ApplyStep::HeadFailed(e),
                        ));
                        Poll::Ready(Err(e))
                    },
                    Poll::Ready(Ok(v)) => {
                        let (out, Ghost(step)) = self.invoke(v);
                        assert(old(self).stepped(*self, out, step));
                        out
                    },
                }
            },
            Stage::Tail(tail) => {
                let (out, stage) = drive_into::<A, Out>(tail);
                self.stage = stage;
                assert(old(self).stepped(*self, out, ApplyStep::TailPolled));
                out
            },
            Stage::Done => {
                assert(old(self).stepped(*self, Poll::Pending, ApplyStep::Resolved));
                Poll::Pending
            },
        }
    }
}

/// The computation `start` resolved to an outcome that, with its error
/// turned into `E`, is `out`.
pub open spec fn resolves_into<T: TryFuture, E>(start: T, out: Result<T::Ok, E>) -> bool where
    T::Error: Into<E>,
 {
    exists|r: Result<T::Ok, T::Error>| #[trigger]
        resolves(start, r) && turns(Poll::Ready(r), Poll::Ready(out))
}

/// A run of polls of the computation of a response of [`AndThenApply`]: the
/// poll of `states[i]` did `steps[i]`, handed back `outs[i]` and led to
/// `states[i + 1]`.
pub open spec fn runs<A, B, F, Out>(
    states: Seq<AndThenApplyFuture<A, B, F, Out>>,
    steps: Seq<ApplyStep<A, B, Out>>,
    outs: Seq<Poll<Result<Out::Ok, A::Error>>>,
) -> bool where
    A: Service,
    B: Service<Error = A::Error> + Clone,
    F: Fn(A::Response, &mut B) -> Out,
    Out: IntoTryFuture,
    Out::Error: Into<A::Error>,
 {
    &&& states.len() == steps.len() + 1
    &&& outs.len() == steps.len()
    &&& forall|i: int|
        0 <= i < steps.len() ==> (#[trigger] states[i]).stepped(states[i + 1], outs[i], steps[i])
}

/// None of the first `i` steps called the function.
pub open spec fn unapplied<A: Service, B, Out: IntoTryFuture>(
    steps: Seq<ApplyStep<A, B, Out>>,
    i: int,
) -> bool {
    forall|j: int| 0 <= j < i ==> !(#[trigger] steps[j] is Applied)
}

/// Of the first `i` steps, step `k` called the function with the value that
/// the computation `head` resolved to, and no other step called it.
pub open spec fn applied_once<A, B, F, Out>(
    head: A::Future,
    f: F,
    steps: Seq<ApplyStep<A, B, Out>>,
    k: int,
    i: int,
) -> bool where
    A: Service,
    B: Service<Error = A::Error> + Clone,
    F: Fn(A::Response, &mut B) -> Out,
    Out: IntoTryFuture,
    Out::Error: Into<A::Error>,
 {
    &&& 0 <= k < i
    &&& steps[k] matches ApplyStep::Applied { response, before, fut }
    &&& resolves(head, Ok(response))
    &&& applied(f, response, before, fut)
    &&& forall|j: int| 0 <= j < i && j != k ==> !(#[trigger] steps[j] is Applied)
}

/// `out` is the outcome of a run whose first `i` polls started with the
/// head's computation `head`: the head failed with the error that `out`
/// holds and the function was not called, or the function was called once,
/// with the head's response, and the computation it handed back resolved to
/// `out`.
pub open spec fn applied_to<A, B, F, Out>(
    head: A::Future,
    f: F,
    steps: Seq<ApplyStep<A, B, Out>>,
    i: int,
    out: Result<Out::Ok, A::Error>,
) -> bool where
    A: Service,
    B: Service<Error = A::Error> + Clone,
    F: Fn(A::Response, &mut B) -> Out,
    Out: IntoTryFuture,
    Out::Error: Into<A::Error>,
 {
    ||| out matches Err(e) && unapplied(steps, i) && resolves(head, Err(e))
    ||| exists|k: int| #[trigger]
        applied_once(head, f, steps, k, i) && resolves_into(steps[k]->fut, out)
}

/// What holds after the first `i` polls of a run that started with the
/// head's computation `head` and the function `f`.
pub open spec fn stands<A, B, F, Out>(
    states: Seq<AndThenApplyFuture<A, B, F, Out>>,
    steps: Seq<ApplyStep<A, B, Out>>,
    head: A::Future,
    f: F,
    i: int,
) -> bool where
    A: Service,
    B: Service<Error = A::Error> + Clone,
    F: Fn(A::Response, &mut B) -> Out,
    Out: IntoTryFuture,
    Out::Error: Into<A::Error>,
 {
    &&& states[i].func() == f
    &&& match states[i].stage() {
        Stage::Head(now) => comes_to(head, now) && unapplied(steps, i),
        Stage::Tail(now) => exists|k: int| #[trigger]
            applied_once(head, f, steps, k, i) && comes_to(steps[k]->fut, now),
        Stage::Done => exists|out: Result<Out::Ok, A::Error>|
            applied_to(head, f, steps, i, out),
    }
}

/// What follows a poll of the computation that the function handed back: it
/// has come further, or it has resolved.
proof fn lemma_driven_into<A, Out>(
    start: Out::Future,
    now: Out::Future,
    next: Stage<A::Future, Out::Future>,
    out: Poll<Result<Out::Ok, A::Error>>,
) where A: Service, Out: IntoTryFuture, Out::Error: Into<A::Error>
    requires
        comes_to(start, now),
        drives_into(now, next, out),
    ensures
        match out {
            Poll::Pending => next matches Stage::Tail(then) && comes_to(start, then),
            Poll::Ready(r) => next is Done && resolves_into(start, r),
        },
{
    match out {
        Poll::Pending => {
            lemma_comes_further(start, now, next->Tail_0);
        },
        Poll::Ready(o) => {
            let r = choose|r: Result<Out::Ok, Out::Error>| #[trigger]
                gives(now, r) && turns(Poll::Ready(r), Poll::Ready(o));
            lemma_comes_to_resolve(start, now, r);
        },
    }
}

/// Every poll of a run keeps what [`stands`] says, and a poll that hands
/// back an outcome hands back the head's failure or the outcome of what
/// the function handed back.
proof fn lemma_run_stands<A, B, F, Out>(
    states: Seq<AndThenApplyFuture<A, B, F, Out>>,
    steps: Seq<ApplyStep<A, B, Out>>,
    outs: Seq<Poll<Result<Out::Ok, A::Error>>>,
    head: A::Future,
    i: int,
) where
    A: Service,
    B: Service<Error = A::Error> + Clone,
    F: Fn(A::Response, &mut B) -> Out,
    Out: IntoTryFuture,
    Out::Error: Into<A::Error>,
    requires
        runs(states, steps, outs),
        states[0].stage() == Stage::<A::Future, Out::Future>::Head(head),
        0 <= i <= steps.len(),
    ensures
        stands(states, steps, head, states[0].func(), i),
        i > 0 ==> (outs[i - 1] matches Poll::Ready(out) ==> applied_to(
            head,
            states[0].func(),
            steps,
            i,
            out,
        )),
    decreases i,
{
    let f = states[0].func();
    if i == 0 {
        lemma_comes_to_itself(head);
    } else {
        let p = i - 1;
        lemma_run_stands(states, steps, outs, head, p);
        assert(states[p].stepped(states[p + 1], outs[p], steps[p]));
        let next = states[i].stage();
        match steps[p] {
            ApplyStep::HeadPending => {
                lemma_comes_further(head, states[p].stage()->Head_0, next->Head_0);
                assert(unapplied(steps, i));
            },
            ApplyStep::HeadFailed(e) => {
                lemma_comes_to_resolve(head, states[p].stage()->Head_0, Err(e));
                assert(unapplied(steps, i));
                assert(applied_to(head, f, steps, i, Err(e)));
            },
            ApplyStep::Applied { response, before, fut } => {
                if let Stage::Head(now) = states[p].stage() {
                    lemma_comes_to_resolve(head, now, Ok(response));
                }
                assert(applied_once(head, f, steps, p, i));
                lemma_comes_to_itself(fut);
                lemma_driven_into::<A, Out>(fut, fut, next, outs[p]);
                if let Poll::Ready(r) = outs[p] {
                    assert(applied_to(head, f, steps, i, r));
                }
            },
            ApplyStep::TailPolled => {
                let now = states[p].stage()->Tail_0;
                let k = choose|k: int| #[trigger]
                    applied_once(head, f, steps, k, p) && comes_to(steps[k]->fut, now);
                assert(applied_once(head, f, steps, k, i));
                lemma_driven_into::<A, Out>(steps[k]->fut, now, next, outs[p]);
                if let Poll::Ready(r) = outs[p] {
                    assert(applied_to(head, f, steps, i, r));
                }
            },
            ApplyStep::Resolved => {
                let out = choose|out: Result<Out::Ok, A::Error>|
                    applied_to(head, f, steps, p, out);
                if unapplied(steps, p) && out is Err && resolves(head, Err(out->Err_0)) {
                    assert(unapplied(steps, i));
                } else {
                    let k = choose|k: int| #[trigger]
                        applied_once(head, f, steps, k, p) && resolves_into(steps[k]->fut, out);
                    assert(applied_once(head, f, steps, k, i));
                }
                assert(applied_to(head, f, steps, i, out));
            },
        }
    }
}

/// However often the computation of a response is polled, before it has
/// resolved or after, it calls the function at most once: no two polls of
/// a run call it.
pub proof fn theorem_function_applied_at_most_once<A, B, F, Out>(
    states: Seq<AndThenApplyFuture<A, B, F, Out>>,
    steps: Seq<ApplyStep<A, B, Out>>,
    outs: Seq<Poll<Result<Out::Ok, A::Error>>>,
    head: A::Future,
    i: int,
    j: int,
) where
    A: Service,
    B: Service<Error = A::Error> + Clone,
    F: Fn(A::Response, &mut B) -> Out,
    Out: IntoTryFuture,
    Out::Error: Into<A::Error>,
    requires
        runs(states, steps, outs),
        states[0].stage() == Stage::<A::Future, Out::Future>::Head(head),
        0 <= i < j < steps.len(),
    ensures
        !(steps[i] is Applied && steps[j] is Applied),
{
    let n = steps.len() as int;
    let f = states[0].func();
    lemma_run_stands(states, steps, outs, head, n);
    match states[n].stage() {
        Stage::Tail(now) => {
            let k = choose|k: int| #[trigger]
                applied_once(head, f, steps, k, n) && comes_to(steps[k]->fut, now);
            assert(i != k ==> !(steps[i] is Applied));
            assert(j != k ==> !(steps[j] is Applied));
        },
        Stage::Done => {
            let out = choose|out: Result<Out::Ok, A::Error>| applied_to(head, f, steps, n, out);
            if unapplied(steps, n) {
                assert(!(steps[i] is Applied));
            } else {
                let k = choose|k: int| #[trigger]
                    applied_once(head, f, steps, k, n) && resolves_into(steps[k]->fut, out);
                assert(i != k ==> !(steps[i] is Applied));
                assert(j != k ==> !(steps[j] is Applied));
            }
        },
        _ => {
            assert(!(steps[i] is Applied));
        },
    }
}

/// `out` is the outcome of chaining the function `f` after the computation
/// `head`: the error that `head` failed with, or what the computation
/// resolved to that `f` handed back when it was called with the value of
/// `head` and the tail.
pub open spec fn chained_by<A, B, F, Out>(head: A::Future, f: F, out: Result<
    Out::Ok,
    A::Error,
>) -> bool where
    A: Service,
    B: Service<Error = A::Error> + Clone,
    F: Fn(A::Response, &mut B) -> Out,
    Out: IntoTryFuture,
    Out::Error: Into<A::Error>,
 {
    ||| out matches Err(e) && resolves(head, Err(e))
    ||| exists|v: A::Response, before: B, fut: Out::Future|
        resolves(head, Ok(v)) && #[trigger] applied(f, v, before, fut) && resolves_into(fut, out)
}

/// A call of an [`AndThenApply`] resolves to the head's failure, or to the
/// outcome of what the function hands back for the head's response.
///
/// That is: if the call with `req` takes the service from `chain` to `next`
/// and hands back `fut`, and `fut`, polled to its end, resolves to `out`,
/// then that call called the head with `req`, and either the computation
/// that the head handed back failed, with the error that `out` holds, or it
/// resolved to a value, the function was called with that value and the
/// tail, and what the function handed back resolved to `out`, its error
/// turned into the chain's.
pub proof fn theorem_and_then_apply_call<A, B, F, Out>(
    chain: AndThenApply<A, B, F, Out>,
    req: A::Request,
    next: AndThenApply<A, B, F, Out>,
    fut: AndThenApplyFuture<A, B, F, Out>,
    out: Result<Out::Ok, A::Error>,
) where
    A: Service,
    B: Service<Error = A::Error> + Clone,
    F: Fn(A::Response, &mut B) -> Out,
    Out: IntoTryFuture,
    Out::Error: Into<A::Error>,
    requires
        chain.called(req, next, fut),
        resolves(fut, out),
    ensures
        fut.stage() matches Stage::Head(head) && chain.head().called(req, next.head(), head)
            && chained_by::<A, B, F, Out>(head, chain.func(), out),
{
    let head = fut.stage()->Head_0;
    let f = chain.func();
    let waited = choose|states: Seq<AndThenApplyFuture<A, B, F, Out>>|
        resolves_through(fut, states, out);
    let end = choose|end: AndThenApplyFuture<A, B, F, Out>|
        waited.last().polled(end, Poll::Ready(out));
    let n = waited.len() as int;
    let states = waited.push(end);
    let outs = Seq::new(
        n as nat,
        |i: int|
            if i < n - 1 {
                Poll::Pending
            } else {
                Poll::Ready(out)
            },
    );
    let steps = Seq::new(
        n as nat,
        |i: int|
            choose|step: ApplyStep<A, B, Out>| #[trigger]
                states[i].stepped(states[i + 1], outs[i], step),
    );
    assert forall|i: int| 0 <= i < n implies (#[trigger] states[i]).stepped(
        states[i + 1],
        outs[i],
        steps[i],
    ) by {
        if i < n - 1 {
            assert(waited[i].polled(waited[i + 1], Poll::Pending));
        } else {
            assert(waited.last().polled(end, Poll::Ready(out)));
        }
    }
    assert(runs(states, steps, outs));
    lemma_run_stands(states, steps, outs, head, n);
    assert(applied_to(head, f, steps, n, out));
    if !(unapplied(steps, n) && out is Err && resolves(head, Err(out->Err_0))) {
        let k = choose|k: int| #[trigger]
            applied_once(head, f, steps, k, n) && resolves_into(steps[k]->fut, out);
        let step = steps[k];
        assert(applied(f, step->response, step->before, step->fut));
    }
}

/// Factory of [`AndThenApply`] services: builds a head with one factory and
/// a tail with another, for the same configuration.
#[verifier::reject_recursive_types(F)]
#[verifier::reject_recursive_types(Out)]
pub struct AndThenApplyNewService<A, B, F, Out> where
    A: NewService,
    B: NewService<Config = A::Config, Error = A::Error, InitError = A::InitError>,
    B::Service: Clone,
    F: Fn(A::Response, &mut B::Service) -> Out,
    Out: IntoTryFuture,
    Out::Error: Into<A::Error>,
 {
    a: A,
    b: B,
    f: Applier<A::Response, B::Service, Out, F>,
    r: PhantomData<Out>,
}

impl<A, B, F, Out> AndThenApplyNewService<A, B, F, Out> where
    A: NewService,
    B: NewService<Config = A::Config, Error = A::Error, InitError = A::InitError>,
    B::Service: Clone,
    F: Fn(A::Response, &mut B::Service) -> Out,
    Out: IntoTryFuture,
    Out::Error: Into<A::Error>,
 {
    /// The factory of heads.
    pub closed spec fn head(self) -> A {
        self.a
    }

    /// The factory of tails.
    pub closed spec fn tail(self) -> B {
        self.b
    }

    /// The function that is handed the head's response and the tail.
    pub closed spec fn func(self) -> F {
        self.f.func()
    }

    /// Chains `f`, working with the services of the factory that `b` turns
    /// into, after the services of the factory that `a` turns into.
    pub fn new<A1: IntoNewService<A>, B1: IntoNewService<B>>(a: A1, b: B1, f: F) -> (factory: Self)
        requires
            Applier::<A::Response, B::Service, Out, F>::sound(f),
        ensures
            a.becomes_factory(factory.head()),
            b.becomes_factory(factory.tail()),
            factory.func() == f,
    {
        Self {
            f: Applier::new(f),
            a: a.into_new_service(),
            b: b.into_new_service(),
            r: PhantomData,
        }
    }
}

impl<A, B, F, Out> Clone for AndThenApplyNewService<A, B, F, Out> where
    A: NewService + Clone,
    B: NewService<Config = A::Config, Error = A::Error, InitError = A::InitError> + Clone,
    B::Service: Clone,
    F: Fn(A::Response, &mut B::Service) -> Out,
    Out: IntoTryFuture,
    Out::Error: Into<A::Error>,
 {
    /// A factory with factories of its own that shares the function.
    fn clone(&self) -> (factory: Self)
        ensures
            cloned(self.head(), factory.head()),
            cloned(self.tail(), factory.tail()),
            factory.func() == self.func(),
    {
        Self { a: self.a.clone(), b: self.b.clone(), f: self.f.share(), r: PhantomData }
    }
}

impl<A, B, F, Out> NewService for AndThenApplyNewService<A, B, F, Out> where
    A: NewService,
    B: NewService<Config = A::Config, Error = A::Error, InitError = A::InitError>,
    B::Service: Clone,
    F: Fn(A::Response, &mut B::Service) -> Out,
    Out: IntoTryFuture,
    Out::Error: Into<A::Error>,
 {
    type Request = A::Request;

    type Response = Out::Ok;

    type Error = A::Error;

    type Service = AndThenApply<A::Service, B::Service, F, Out>;

    type Config = A::Config;

    type InitError = A::InitError;

    type Future = AndThenApplyNewServiceFuture<A, B, F, Out>;

    open spec fn builds(
        &self,
        cfg: A::Config,
        fut: AndThenApplyNewServiceFuture<A, B, F, Out>,
    ) -> bool {
        &&& fut.func() == self.func()
        &&& fut.head() matches Branch::Building(a)
        &&& self.head().builds(cfg, a)
        &&& fut.tail() matches Branch::Building(b)
        &&& self.tail().builds(cfg, b)
    }

    fn new_service(&self, cfg: &A::Config) -> (fut: AndThenApplyNewServiceFuture<A, B, F, Out>) {
        AndThenApplyNewServiceFuture {
            f: self.f.share(),
            a: Branch::Building(self.a.new_service(cfg)),
            b: Branch::Building(self.b.new_service(cfg)),
        }
    }
}

/// The construction of an [`AndThenApply`]: waits for both stages to be
/// built.
#[verifier::reject_recursive_types(F)]
#[verifier::reject_recursive_types(Out)]
pub struct AndThenApplyNewServiceFuture<A, B, F, Out> where
    A: NewService,
    B: NewService<Error = A::Error, InitError = A::InitError>,
    B::Service: Clone,
    F: Fn(A::Response, &mut B::Service) -> Out,
    Out: IntoTryFuture,
    Out::Error: Into<A::Error>,
 {
    f: Applier<A::Response, B::Service, Out, F>,
    a: Branch<A::Future>,
    b: Branch<B::Future>,
}

impl<A, B, F, Out> AndThenApplyNewServiceFuture<A, B, F, Out> where
    A: NewService,
    B: NewService<Error = A::Error, InitError = A::InitError>,
    B::Service: Clone,
    F: Fn(A::Response, &mut B::Service) -> Out,
    Out: IntoTryFuture,
    Out::Error: Into<A::Error>,
 {
    /// The construction of the head.
    pub closed spec fn head(self) -> Branch<A::Future> {
        self.a
    }

    /// The construction of the tail.
    pub closed spec fn tail(self) -> Branch<B::Future> {
        self.b
    }

    /// The function that the service will call.
    pub closed spec fn func(self) -> F {
        self.f.func()
    }

    /// `out` is `built` with the two services of a success made into a
    /// chain around the function `f`; an error and `Pending` pass through.
    pub open spec fn assembles(
        f: F,
        built: Poll<Result<(A::Service, B::Service), A::InitError>>,
        out: Poll<Result<AndThenApply<A::Service, B::Service, F, Out>, A::InitError>>,
    ) -> bool {
        match built {
            Poll::Pending => out is Pending,
            Poll::Ready(Err(e)) => out == Poll::Ready(
                Err::<AndThenApply<A::Service, B::Service, F, Out>, A::InitError>(e),
            ),
            Poll::Ready(Ok((a, b))) => {
                &&& out matches Poll::Ready(Ok(chain))
                &&& chain.head() == a
                &&& cloned(b, chain.tail().spare())
                &&& chain.func() == f
            },
        }
    }
}

impl<A, B, F, Out> TryFuture for AndThenApplyNewServiceFuture<A, B, F, Out> where
    A: NewService,
    B: NewService<Error = A::Error, InitError = A::InitError>,
    B::Service: Clone,
    F: Fn(A::Response, &mut B::Service) -> Out,
    Out: IntoTryFuture,
    Out::Error: Into<A::Error>,
 {
    type Ok = AndThenApply<A::Service, B::Service, F, Out>;

    type Error = A::InitError;

    open spec fn live(&self) -> bool {
        self.head().live() && self.tail().live()
    }

    open spec fn polled(
        &self,
        next: Self,
        out: Poll<Result<AndThenApply<A::Service, B::Service, F, Out>, A::InitError>>,
    ) -> bool {
        &&& next.func() == self.func()
        &&& exists|built: Poll<Result<(A::Service, B::Service), A::InitError>>|
            {
                &&& #[trigger] joined(self.head(), self.tail(), next.head(), next.tail(), built)
                &&& Self::assembles(self.func(), built, out)
            }
    }

    fn try_poll(&mut self) -> (out: Poll<
        Result<AndThenApply<A::Service, B::Service, F, Out>, A::InitError>,
    >) {
        let built = join(&mut self.a, &mut self.b);
        let out = match built {
            Poll::Pending => Poll::Pending,
            Poll::Ready(Err(e)) => Poll::Ready(Err(e)),
            Poll::Ready(Ok((a, b))) => Poll::Ready(
                Ok(AndThenApply::assemble(a, b, self.f.share())),
            ),
        };
        assert(Self::assembles(self.func(), built, out));
        out
    }
}

} // verus!
