use vstd::prelude::*;
use crate::poll::Poll;

verus! {

/// A computation that is driven by polling and resolves once, to a value or
/// to an error.
///
/// The life of such a computation is a sequence of polls. Each implementor
/// describes one poll by the relation [`TryFuture::polled`]; a poll that
/// returns `Ready` ends the life of the computation, which must not be polled
/// again.
pub trait TryFuture: Sized {
    type Ok;

    type Error;

    /// Whether the computation may be polled: it has not resolved.
    spec fn live(&self) -> bool;

    /// One poll may take the computation from `self` to `next` and hand back
    /// `out`.
    spec fn polled(&self, next: Self, out: Poll<Result<Self::Ok, Self::Error>>) -> bool;

    /// Advances the computation as far as it can go without waiting.
    fn try_poll(&mut self) -> (out: Poll<Result<Self::Ok, Self::Error>>)
        requires
            old(self).live(),
        ensures
            old(self).polled(*final(self), out),
            out is Pending ==> final(self).live(),
    ;
}

/// A poll of `fut` may resolve it to `out`.
pub open spec fn gives<F: TryFuture>(fut: F, out: Result<F::Ok, F::Error>) -> bool {
    exists|end: F| fut.polled(end, Poll::Ready(out))
}

/// Each poll of the states in `states` but the last came back `Pending` and
/// led to the state that follows it.
pub open spec fn waits<F: TryFuture>(states: Seq<F>) -> bool {
    forall|i: int|
        0 <= i < states.len() - 1 ==> (#[trigger] states[i]).polled(states[i + 1], Poll::Pending)
}

/// Polled again and again, `start` passes through `states` and then resolves
/// to `out`.
pub open spec fn resolves_through<F: TryFuture>(
    start: F,
    states: Seq<F>,
    out: Result<F::Ok, F::Error>,
) -> bool {
    &&& states.len() > 0
    &&& states[0] == start
    &&& waits(states)
    &&& gives(states.last(), out)
}

/// Some sequence of polls takes `start` to the outcome `out`.
pub open spec fn resolves<F: TryFuture>(start: F, out: Result<F::Ok, F::Error>) -> bool {
    exists|states: Seq<F>| resolves_through(start, states, out)
}

/// Polled again and again, each poll coming back `Pending`, `start` may come
/// to stand at `now`.
pub open spec fn comes_to<F: TryFuture>(start: F, now: F) -> bool {
    exists|states: Seq<F>|
        states.len() > 0 && states[0] == start && #[trigger] states.last() == now && waits(states)
}

/// A computation has come to where it stands.
pub proof fn lemma_comes_to_itself<F: TryFuture>(fut: F)
    ensures
        comes_to(fut, fut),
{
    let states = seq![fut];
    assert(states.last() == fut && waits(states));
}

/// One more poll that comes back `Pending` takes a computation further.
pub proof fn lemma_comes_further<F: TryFuture>(start: F, now: F, then: F)
    requires
        comes_to(start, now),
        now.polled(then, Poll::Pending),
    ensures
        comes_to(start, then),
{
    let states = choose|states: Seq<F>|
        states.len() > 0 && states[0] == start && #[trigger] states.last() == now && waits(states);
    let longer = states.push(then);
    assert forall|i: int| 0 <= i < longer.len() - 1 implies (#[trigger] longer[i]).polled(
        longer[i + 1],
        Poll::Pending,
    ) by {
        if i < states.len() - 1 {
            assert(states[i].polled(states[i + 1], Poll::Pending));
        }
    }
    assert(longer.last() == then && waits(longer) && longer[0] == start);
}

/// A computation that has come to a state in which a poll resolves it to
/// `out` resolves to `out`.
pub proof fn lemma_comes_to_resolve<F: TryFuture>(start: F, now: F, out: Result<F::Ok, F::Error>)
    requires
        comes_to(start, now),
        gives(now, out),
    ensures
        resolves(start, out),
{
    let states = choose|states: Seq<F>|
        states.len() > 0 && states[0] == start && #[trigger] states.last() == now && waits(states);
    assert(resolves_through(start, states, out));
}

/// What holds of a computation at its first poll, and is kept by every poll
/// that comes back `Pending`, holds for as long as the computation waits.
pub proof fn lemma_kept_while_waiting<W: TryFuture>(states: Seq<W>, inv: spec_fn(W) -> bool, k: int)
    requires
        0 <= k < states.len(),
        waits(states),
        inv(states[0]),
        forall|s: W, n: W| inv(s) && #[trigger] s.polled(n, Poll::Pending) ==> inv(n),
    ensures
        inv(states[k]),
    decreases k,
{
    if k > 0 {
        lemma_kept_while_waiting(states, inv, k - 1);
        assert(states[k - 1].polled(states[k - 1 + 1], Poll::Pending));
    }
}

/// The sequence of polls of a computation that wraps another is a sequence
/// of polls of the other.
///
/// `inner` picks the wrapped computation out of a wrapper, and `rel` says
/// how what a poll of the wrapper hands back relates to what the poll of the
/// wrapped computation handed back; the wrapper waits exactly when the
/// wrapped computation does. `inv` is what holds of the wrapper throughout.
/// If the wrapper resolves to `out`, the wrapped computation resolves to an
/// outcome that `rel` relates to `out`.
pub proof fn lemma_resolves_within<W: TryFuture, F: TryFuture>(
    start: W,
    out: Result<W::Ok, W::Error>,
    inner: spec_fn(W) -> F,
    rel: spec_fn(Poll<Result<F::Ok, F::Error>>, Poll<Result<W::Ok, W::Error>>) -> bool,
    inv: spec_fn(W) -> bool,
)
    requires
        resolves(start, out),
        inv(start),
        forall|s: W, n: W, o: Poll<Result<W::Ok, W::Error>>|
            inv(s) && #[trigger] s.polled(n, o) ==> inv(n) && exists|i: Poll<Result<F::Ok, F::Error>>|
                inner(s).polled(inner(n), i) && #[trigger] rel(i, o),
        forall|i: Poll<Result<F::Ok, F::Error>>, o: Poll<Result<W::Ok, W::Error>>| #[trigger]
            rel(i, o) ==> (i is Pending <==> o is Pending),
    ensures
        exists|r: Result<F::Ok, F::Error>|
            resolves(inner(start), r) && #[trigger] rel(Poll::Ready(r), Poll::Ready(out)),
{
    let states = choose|states: Seq<W>| resolves_through(start, states, out);
    let last = states.len() - 1;
    assert forall|k: int| 0 <= k <= last implies inv(states[k]) && comes_to(
        inner(start),
        inner(#[trigger] states[k]),
    ) by {
        lemma_wrapped_comes_along(states, inner, rel, inv, k);
    }
    let end = choose|end: W| states.last().polled(end, Poll::Ready(out));
    assert(states[last].polled(end, Poll::Ready(out)));
    let i = choose|i: Poll<Result<F::Ok, F::Error>>|
        inner(states[last]).polled(inner(end), i) && #[trigger] rel(i, Poll::Ready(out));
    let r = i->Ready_0;
    assert(i == Poll::Ready(r));
    assert(gives(inner(states[last]), r));
    lemma_comes_to_resolve(inner(start), inner(states[last]), r);
}

/// While a wrapper waits, the computation it wraps comes along with it.
proof fn lemma_wrapped_comes_along<W: TryFuture, F: TryFuture>(
    states: Seq<W>,
    inner: spec_fn(W) -> F,
    rel: spec_fn(Poll<Result<F::Ok, F::Error>>, Poll<Result<W::Ok, W::Error>>) -> bool,
    inv: spec_fn(W) -> bool,
    k: int,
)
    requires
        0 <= k < states.len(),
        waits(states),
        inv(states[0]),
        forall|s: W, n: W, o: Poll<Result<W::Ok, W::Error>>|
            inv(s) && #[trigger] s.polled(n, o) ==> inv(n) && exists|i: Poll<Result<F::Ok, F::Error>>|
                inner(s).polled(inner(n), i) && #[trigger] rel(i, o),
        forall|i: Poll<Result<F::Ok, F::Error>>, o: Poll<Result<W::Ok, W::Error>>| #[trigger]
            rel(i, o) ==> (i is Pending <==> o is Pending),
    ensures
        inv(states[k]),
        comes_to(inner(states[0]), inner(states[k])),
    decreases k,
{
    if k == 0 {
        lemma_comes_to_itself(inner(states[0]));
    } else {
        lemma_wrapped_comes_along(states, inner, rel, inv, k - 1);
        let pending = Poll::<Result<W::Ok, W::Error>>::Pending;
        assert(states[k - 1].polled(states[k - 1 + 1], pending));
        let i = choose|i: Poll<Result<F::Ok, F::Error>>|
            inner(states[k - 1]).polled(inner(states[k]), i) && #[trigger] rel(i, pending);
        assert(i == Poll::<Result<F::Ok, F::Error>>::Pending);
        lemma_comes_further(inner(states[0]), inner(states[k - 1]), inner(states[k]));
    }
}

/// A computation that is resolved from the start.
pub struct Ready<T, E> {
    outcome: Option<Result<T, E>>,
}

impl<T, E> Ready<T, E> {
    /// The outcome that the next poll hands out, if none has yet.
    pub closed spec fn outcome(self) -> Option<Result<T, E>> {
        self.outcome
    }

    /// A computation that resolves to `outcome` at its first poll.
    pub fn new(outcome: Result<T, E>) -> (fut: Self)
        ensures
            fut.outcome() == Some(outcome),
    {
        Ready { outcome: Some(outcome) }
    }
}

impl<T, E> TryFuture for Ready<T, E> {
    type Ok = T;

    type Error = E;

    open spec fn live(&self) -> bool {
        self.outcome() is Some
    }

    open spec fn polled(&self, next: Self, out: Poll<Result<T, E>>) -> bool {
        &&& self.outcome() matches Some(r)
        &&& out == Poll::Ready(r)
        &&& next.outcome() is None
    }

    fn try_poll(&mut self) -> (out: Poll<Result<T, E>>) {
        match self.outcome.take() {
            Some(r) => Poll::Ready(r),
            None => Poll::Pending,
        }
    }
}

/// A computation that resolves to the value `value`.
pub fn ok<T, E>(value: T) -> (fut: Ready<T, E>)
    ensures
        fut.outcome() == Some(Ok::<T, E>(value)),
{
    Ready::new(Ok(value))
}

/// A computation that resolves to the error `error`.
pub fn err<T, E>(error: E) -> (fut: Ready<T, E>)
    ensures
        fut.outcome() == Some(Err::<T, E>(error)),
{
    Ready::new(Err(error))
}

/// A value that stands for a computation: the computation itself, or an
/// outcome that is already known.
pub trait IntoTryFuture: Sized {
    type Ok;

    type Error;

    type Future: TryFuture<Ok = Self::Ok, Error = Self::Error>;

    /// Whether `self` stands for a computation that may be polled.
    spec fn fresh(&self) -> bool;

    /// `fut` is the computation that `self` stands for.
    spec fn converts(&self, fut: Self::Future) -> bool;

    fn into_try_future(self) -> (fut: Self::Future)
        requires
            self.fresh(),
        ensures
            self.converts(fut),
            fut.live(),
    ;
}

impl<T, E> IntoTryFuture for Result<T, E> {
    type Ok = T;

    type Error = E;

    type Future = Ready<T, E>;

    open spec fn fresh(&self) -> bool {
        true
    }

    open spec fn converts(&self, fut: Ready<T, E>) -> bool {
        fut.outcome() == Some(*self)
    }

    fn into_try_future(self) -> (fut: Ready<T, E>) {
        Ready::new(self)
    }
}

impl<F: TryFuture> IntoTryFuture for F {
    type Ok = F::Ok;

    type Error = F::Error;

    type Future = F;

    open spec fn fresh(&self) -> bool {
        self.live()
    }

    open spec fn converts(&self, fut: F) -> bool {
        fut == *self
    }

    fn into_try_future(self) -> (fut: F) {
        self
    }
}

} // verus!
