use vstd::prelude::*;
use vstd::predicate::Predicate;
use crate::poll::Poll;
use crate::future::{
    TryFuture, gives, resolves, resolves_through, comes_to, lemma_comes_to_itself,
    lemma_comes_further, lemma_comes_to_resolve, lemma_kept_while_waiting,
};
use crate::service::{
    Service, NewService, IntoNewService, Descends, used, descends, lemma_descends_from_itself,
    lemma_descends_further, lemma_descent_admits_copies,
};
use crate::cell::Cell;
use crate::branch::{Branch, join, joined, grown_from, lemma_joined_grows};

verus! {

/// What a chain reports when its head reported `head` and its tail `tail`.
///
/// An error of the head comes first, then an error of the tail. Without an
/// error the chain is ready when both stages are.
pub open spec fn join_ready<E>(
    head: Poll<Result<(), E>>,
    tail: Poll<Result<(), E>>,
) -> Poll<Result<(), E>> {
    match head {
        Poll::Ready(Err(e)) => Poll::Ready(Err(e)),
        _ => match tail {
            Poll::Ready(Err(e)) => Poll::Ready(Err(e)),
            Poll::Ready(Ok(_)) => if head is Ready {
                Poll::Ready(Ok(()))
            } else {
                Poll::Pending
            },
            Poll::Pending => Poll::Pending,
        },
    }
}

/// The service in the slot `tail`, standing at a state that the slot
/// admits, answers a readiness check with `out`.
pub open spec fn answers<S: Service + Clone, P: Predicate<S>>(
    tail: Cell<S, P>,
    out: Poll<Result<(), S::Error>>,
) -> bool {
    exists|before: S, after: S| tail.admits(before) && #[trigger] before.readied(after, out)
}

/// The slot `tail` admits every state that one use takes a service to from
/// a state that the slot admits: a service that is taken out of the slot
/// and used can be put back.
pub open spec fn keeps_in_use<S: Service + Clone, P: Predicate<S>>(tail: Cell<S, P>) -> bool {
    forall|service: S, next: S|
        tail.admits(service) && #[trigger] used(service, next) ==> tail.admits(next)
}

/// A slot that admits the states that descend from a service admits them
/// however the service is used.
pub proof fn lemma_descent_keeps_in_use<S: Service + Clone>(tail: Cell<S, Descends<S>>)
    ensures
        keeps_in_use(tail),
{
    assert forall|service: S, next: S|
        tail.admits(service) && #[trigger] used(service, next) implies tail.admits(next) by {
        lemma_descends_further(tail.rule().origin, service, next);
    }
}

/// A readiness check of a chain may take its head from `head` to `next` and
/// report `out`: the head is asked, then the tail, which lives in the shared
/// slot `tail`, and `out` is what [`join_ready`] makes of the two answers.
pub open spec fn chain_readied<A: Service, B: Service<Error = A::Error> + Clone, P: Predicate<B>>(
    head: A,
    next: A,
    tail: Cell<B, P>,
    out: Poll<Result<(), A::Error>>,
) -> bool {
    exists|h: Poll<Result<(), A::Error>>, t: Poll<Result<(), A::Error>>|
        {
            &&& head.readied(next, h)
            &&& answers(tail, t)
            &&& out == #[trigger] join_ready(h, t)
        }
}

/// Asks the tail whether it can take a request, and hands it back to be put
/// into its slot again.
pub fn ask_tail<B: Service>(tail: B) -> (r: (Poll<Result<(), B::Error>>, B))
    ensures
        tail.readied(r.1, r.0),
{
    let mut tail = tail;
    let out = tail.poll_ready();
    (out, tail)
}

/// What a chain reports when its head reported `head` and its tail `tail`.
pub fn report_chain<E>(head: Poll<Result<(), E>>, tail: Poll<Result<(), E>>) -> (out: Poll<
    Result<(), E>,
>)
    ensures
        out == join_ready(head, tail),
{
    match head {
        Poll::Ready(Err(e)) => Poll::Ready(Err(e)),
        Poll::Ready(Ok(_)) => match tail {
            Poll::Ready(Err(e)) => Poll::Ready(Err(e)),
            Poll::Ready(Ok(_)) => Poll::Ready(Ok(())),
            Poll::Pending => Poll::Pending,
        },
        Poll::Pending => match tail {
            Poll::Ready(Err(e)) => Poll::Ready(Err(e)),
            _ => Poll::Pending,
        },
    }
}

/// Asks both stages of a chain whether they can take a request: the head,
/// then the tail, which is taken out of its slot for the check and put back.
pub fn poll_chain_ready<A: Service, B: Service<Error = A::Error> + Clone, P: Predicate<B>>(
    head: &mut A,
    tail: &Cell<B, P>,
) -> (out: Poll<Result<(), A::Error>>)
    requires
        keeps_in_use(*tail),
    ensures
        chain_readied(*old(head), *final(head), *tail, out),
{
    let h = head.poll_ready();
    let held = tail.take();
    let ghost before = held;
    let (t, back) = ask_tail(held);
    proof {
        assert(before.readied(back, t));
        assert(used(before, back));
        assert(answers(*tail, t));
    }
    let _ = tail.put(back);
    let out = report_chain(h, t);
    assert(out == join_ready(h, t));
    out
}

/// What a chain reports, case by case: an error when a stage reported one,
/// ready when both stages are, and `Pending` in every other case.
pub proof fn lemma_join_ready<E>(head: Poll<Result<(), E>>, tail: Poll<Result<(), E>>)
    ensures
        join_ready(head, tail) == Poll::Ready(Ok::<(), E>(())) <==> head == Poll::Ready(
            Ok::<(), E>(()),
        ) && tail == Poll::Ready(Ok::<(), E>(())),
        join_ready(head, tail) is Pending <==> !(head matches Poll::Ready(Err(_))) && !(tail matches Poll::Ready(
            Err(_),
        )) && (head is Pending || tail is Pending),
        head matches Poll::Ready(Err(e)) ==> join_ready(head, tail) == Poll::Ready(
            Err::<(), E>(e),
        ),
        tail matches Poll::Ready(Err(e)) ==> head matches Poll::Ready(Err(_)) || join_ready(
            head,
            tail,
        ) == Poll::Ready(Err::<(), E>(e)),
{
    if let Poll::Ready(Ok(u)) = head {
        assert(u == ());
    }
    if let Poll::Ready(Ok(u)) = tail {
        assert(u == ());
    }
}

/// A readiness check of a head and of a tail in a shared slot may report
/// `Ready(Ok(()))` if and only if the head's own check may do so and the
/// tail may report `Ready(Ok(()))` as well.
pub proof fn lemma_chain_ready_iff_both_ready<
    A: Service,
    B: Service<Error = A::Error> + Clone,
    P: Predicate<B>,
>(head: A, next: A, tail: Cell<B, P>)
    ensures
        chain_readied(head, next, tail, Poll::Ready(Ok(()))) <==> head.readied(
            next,
            Poll::Ready(Ok(())),
        ) && answers(tail, Poll::Ready(Ok(()))),
{
    let ready = Poll::Ready(Ok::<(), A::Error>(()));
    if chain_readied(head, next, tail, ready) {
        let (h, t) = choose|h: Poll<Result<(), A::Error>>, t: Poll<Result<(), A::Error>>|
            {
                &&& head.readied(next, h)
                &&& answers(tail, t)
                &&& ready == #[trigger] join_ready(h, t)
            };
        lemma_join_ready(h, t);
    }
    if head.readied(next, ready) && answers(tail, ready) {
        lemma_join_ready(ready, ready);
        assert(ready == join_ready(ready, ready));
    }
}

/// A chain is ready exactly when both of its stages are: a readiness check
/// may take the chain from `chain` to `next` and report `Ready(Ok(()))` if
/// and only if `next` shares the tail of `chain`, the head's own check may
/// take the head along and report `Ready(Ok(()))`, and the tail, standing
/// at a state that descends from the one the chain was made with, may
/// report `Ready(Ok(()))` as well.
pub proof fn theorem_ready_iff_both_ready<A, B>(chain: AndThen<A, B>, next: AndThen<A, B>) where
    A: Service,
    B: Service<Request = A::Response, Error = A::Error> + Clone,

    ensures
        chain.readied(next, Poll::Ready(Ok(()))) <==> {
            &&& next.tail() == chain.tail()
            &&& chain.head().readied(next.head(), Poll::Ready(Ok(())))
            &&& answers(chain.tail(), Poll::Ready(Ok(())))
        },
{
    lemma_chain_ready_iff_both_ready(chain.head(), next.head(), chain.tail());
}

/// Service that hands the response of a first service, the head, to a
/// second one, the tail, as its request.
///
/// The tail lives in a slot that the chain shares with its clones and with
/// the computations it has started. The slot holds the tail as the chain was
/// made with it, or as uses of it have left it.
pub struct AndThen<A, B: Service + Clone> {
    a: A,
    b: Cell<B, Descends<B>>,
}

impl<A, B: Service + Clone> AndThen<A, B> {
    /// The first stage.
    pub closed spec fn head(self) -> A {
        self.a
    }

    /// The slot of the second stage.
    pub closed spec fn tail(self) -> Cell<B, Descends<B>> {
        self.b
    }

    /// Chains `b` after `a`.
    pub fn new(a: A, b: B) -> (chain: Self) where
        A: Service,
        B: Service<Request = A::Response, Error = A::Error> + Clone,

        ensures
            chain.head() == a,
            chain.tail().rule() == (Descends { origin: b }),
    {
        proof {
            lemma_descends_from_itself(b);
            lemma_descent_admits_copies(Descends { origin: b });
        }
        AndThen { a, b: Cell::keeping(b, Ghost(Descends { origin: b })) }
    }
}

impl<A: Clone, B: Service + Clone> Clone for AndThen<A, B> {
    /// A chain with a head of its own that shares the tail.
    fn clone(&self) -> (chain: Self)
        ensures
            cloned(self.head(), chain.head()),
            chain.tail().reaches(self.tail()),
            chain.tail().rule() == self.tail().rule(),
    {
        AndThen { a: self.a.clone(), b: self.b.share() }
    }
}

impl<A, B> Service for AndThen<A, B> where
    A: Service,
    B: Service<Request = A::Response, Error = A::Error> + Clone,
 {
    type Request = A::Request;

    type Response = B::Response;

    type Error = A::Error;

    type Future = AndThenFuture<A, B>;

    open spec fn readied(&self, next: Self, out: Poll<Result<(), A::Error>>) -> bool {
        &&& next.tail() == self.tail()
        &&& chain_readied(self.head(), next.head(), self.tail(), out)
    }

    open spec fn called(&self, req: A::Request, next: Self, fut: AndThenFuture<A, B>) -> bool {
        &&& next.tail() == self.tail()
        &&& fut.tail().reaches(self.tail())
        &&& fut.tail().rule() == self.tail().rule()
        &&& fut.stage() matches Stage::Head(head)
        &&& self.head().called(req, next.head(), head)
    }

    fn poll_ready(&mut self) -> (out: Poll<Result<(), A::Error>>) {
        proof {
            lemma_descent_keeps_in_use(self.b);
        }
        poll_chain_ready(&mut self.a, &self.b)
    }

    fn call(&mut self, req: A::Request) -> (fut: AndThenFuture<A, B>) {
        AndThenFuture::new(self.a.call(req), self.b.share())
    }
}

/// Where the computation of a chain's response stands: `H` is the head's
/// computation, `T` the tail's.
pub enum Stage<H: TryFuture, T> {
    /// The head is working on the request.
    Head(H),
    /// The tail is working on the head's response.
    Tail(T),
    /// The computation has resolved.
    Done,
}

/// What one poll of the computation of a chain's response did.
pub enum Step<A: Service, B: Service> {
    /// It polled the head's computation, which was not ready.
    HeadPending,
    /// It polled the head's computation, which failed with this error. The
    /// tail was left alone.
    HeadFailed(A::Error),
    /// It polled the head's computation, which handed out the response,
    /// took the tail out of its slot, called it with the response, which
    /// took the tail from `before` to `after`, and polled the computation
    /// `fut` that the tail handed back.
    TailCalled { response: A::Response, before: B, after: B, fut: B::Future },
    /// It polled the tail's computation.
    TailPolled,
    /// It found the computation resolved and did nothing.
    Resolved,
}

/// A poll of `fut` handed back `out` and led to the stage `next`.
pub open spec fn drives<A: Service, B: Service<Request = A::Response, Error = A::Error> + Clone>(
    fut: B::Future,
    next: Stage<A::Future, B::Future>,
    out: Poll<Result<B::Response, A::Error>>,
) -> bool {
    match out {
        Poll::Pending => next matches Stage::Tail(then) && fut.polled(then, Poll::Pending),
        Poll::Ready(r) => next is Done && gives(fut, r),
    }
}

/// Whether the computation that a stage holds may be polled. A computation
/// that has resolved may be polled again: such a poll does nothing.
pub open spec fn stage_live<H: TryFuture, T: TryFuture>(stage: Stage<H, T>) -> bool {
    match stage {
        Stage::Head(head) => head.live(),
        Stage::Tail(tail) => tail.live(),
        Stage::Done => true,
    }
}

/// Calling the tail `before` with `response`, which leaves it at `after`,
/// and polling the computation it hands back may hand back `out` and lead
/// to the stage `next`.
pub open spec fn tail_called<A: Service, B: Service<Request = A::Response, Error = A::Error> + Clone>(
    before: B,
    response: A::Response,
    after: B,
    next: Stage<A::Future, B::Future>,
    out: Poll<Result<B::Response, A::Error>>,
) -> bool {
    exists|fut: B::Future| #[trigger] before.called(response, after, fut) && drives::<A, B>(
        fut,
        next,
        out,
    )
}

/// Polls the tail's computation `fut` and tells the stage that follows.
pub fn drive_tail<A: Service, B: Service<Request = A::Response, Error = A::Error> + Clone>(
    fut: B::Future,
) -> (r: (Poll<Result<B::Response, A::Error>>, Stage<A::Future, B::Future>))
    requires
        fut.live(),
    ensures
        drives::<A, B>(fut, r.1, r.0),
        stage_live(r.1),
{
    let mut fut = fut;
    let ghost before = fut;
    let out = fut.try_poll();
    assert(before.polled(fut, out));
    match out {
        Poll::Pending => (Poll::Pending, Stage::Tail(fut)),
        Poll::Ready(r) => (Poll::Ready(r), Stage::Done),
    }
}

/// With the head's response in hand, calls the tail and polls the
/// computation it hands back; the tail is handed back to be put into its
/// slot again.
pub fn call_tail<A: Service, B: Service<Request = A::Response, Error = A::Error> + Clone>(
    tail: B,
    response: A::Response,
) -> (r: (Poll<Result<B::Response, A::Error>>, Stage<A::Future, B::Future>, B))
    ensures
        tail_called::<A, B>(tail, response, r.2, r.1, r.0),
        stage_live(r.1),
{
    let mut b = tail;
    let fut = b.call(response);
    assert(tail.called(response, b, fut));
    let (out, stage) = drive_tail::<A, B>(fut);
    (out, stage, b)
}

/// The computation of a response of [`AndThen`].
pub struct AndThenFuture<A, B> where
    A: Service,
    B: Service<Request = A::Response, Error = A::Error> + Clone,
 {
    b: Cell<B, Descends<B>>,
    stage: Stage<A::Future, B::Future>,
}

impl<A, B> AndThenFuture<A, B> where
    A: Service,
    B: Service<Request = A::Response, Error = A::Error> + Clone,
 {
    /// The slot of the second stage.
    pub closed spec fn tail(self) -> Cell<B, Descends<B>> {
        self.b
    }

    /// Where the computation stands.
    pub closed spec fn stage(self) -> Stage<A::Future, B::Future> {
        self.stage
    }

    /// A poll of the head's computation, which is still running, may hand
    /// out the response `v`.
    pub open spec fn has_response(self, v: A::Response) -> bool {
        self.stage() matches Stage::Head(head) && gives(head, Ok(v))
    }

    /// One poll that does `step` may take the computation from `self` to
    /// `next` and hand back `out`.
    pub open spec fn stepped(
        self,
        next: Self,
        out: Poll<Result<B::Response, A::Error>>,
        step: Step<A, B>,
    ) -> bool {
        &&& next.tail() == self.tail()
        &&& match step {
            Step::HeadPending => {
                &&& self.stage() matches Stage::Head(head)
                &&& next.stage() matches Stage::Head(then)
                &&& head.polled(then, Poll::Pending)
                &&& out is Pending
            },
            Step::HeadFailed(e) => {
                &&& self.stage() matches Stage::Head(head)
                &&& gives(head, Err(e))
                &&& next.stage() is Done
                &&& out == Poll::Ready(Err::<B::Response, A::Error>(e))
            },
            Step::TailCalled { response, before, after, fut } => {
                &&& self.has_response(response)
                &&& self.tail().admits(before)
                &&& before.called(response, after, fut)
                &&& drives::<A, B>(fut, next.stage(), out)
            },
            Step::TailPolled => {
                &&& self.stage() matches Stage::Tail(tail)
                &&& drives::<A, B>(tail, next.stage(), out)
            },
            Step::Resolved => {
                &&& self.stage() is Done
                &&& next.stage() is Done
                &&& out is Pending
            },
        }
    }

    /// The computation that waits for `a` and then calls the service in `b`
    /// with the response.
    pub fn new(a: A::Future, b: Cell<B, Descends<B>>) -> (fut: Self)
        ensures
            fut.tail() == b,
            fut.stage() == Stage::<A::Future, B::Future>::Head(a),
    {
        AndThenFuture { b, stage: Stage::Head(a) }
    }

    /// With the head's response in hand, takes the tail out of its slot,
    /// calls it, puts it back and polls the computation it handed back.
    fn invoke(&mut self, response: A::Response) -> (r: (
        Poll<Result<B::Response, A::Error>>,
        Ghost<Step<A, B>>,
    ))
        ensures
            final(self).tail() == old(self).tail(),
            final(self).live(),
            r.1@ matches Step::TailCalled { response: v, before, after, fut } && {
                &&& v == response
                &&& old(self).tail().admits(before)
                &&& before.called(v, after, fut)
                &&& drives::<A, B>(fut, final(self).stage(), r.0)
            },
    {
        let held = self.b.take();
        let ghost before = held;
        let (out, stage, after) = call_tail::<A, B>(held, response);
        let ghost next = stage;
        self.stage = stage;
        let ghost fut = choose|fut: B::Future| #[trigger]
            before.called(response, after, fut) && drives::<A, B>(fut, next, out);
        proof {
            assert(used(before, after));
            lemma_descends_further(self.b.rule().origin, before, after);
        }
        let _ = self.b.put(after);
        (out, Ghost(Step::TailCalled { response, before, after, fut }))
    }
}

impl<A, B> TryFuture for AndThenFuture<A, B> where
    A: Service,
    B: Service<Request = A::Response, Error = A::Error> + Clone,
 {
    type Ok = B::Response;

    type Error = A::Error;

    /// The computation may be polled in every stage; once it has resolved,
    /// a poll does nothing and hands back `Pending`.
    open spec fn live(&self) -> bool {
        stage_live(self.stage())
    }

    open spec fn polled(&self, next: Self, out: Poll<Result<B::Response, A::Error>>) -> bool {
        exists|step: Step<A, B>| self.stepped(next, out, step)
    }

    fn try_poll(&mut self) -> (out: Poll<Result<B::Response, A::Error>>) {
        let mut stage = Stage::Done;
        core::mem::swap(&mut self.stage, &mut stage);
        match stage {
            Stage::Head(mut head) => {
                let ghost before = head;
                let polled = head.try_poll();
                assert(before.polled(head, polled));
                match polled {
                    Poll::Pending => {
                        self.stage = Stage::Head(head);
                        assert(old(self).stepped(*self, Poll::Pending, Step::HeadPending));
                        Poll::Pending
                    },
                    Poll::Ready(Err(e)) => {
                        assert(old(self).stepped(*self, Poll::Ready(Err(e)), Step::HeadFailed(e)));
                        Poll::Ready(Err(e))
                    },
                    Poll::Ready(Ok(v)) => {
                        let (out, Ghost(step)) = self.invoke(v);
                        assert(old(self).stepped(*self, out, step));
                        out
                    },
                }
            },
            Stage::Tail(tail) => {
                let (out, stage) = drive_tail::<A, B>(tail);
                self.stage = stage;
                assert(old(self).stepped(*self, out, Step::TailPolled));
                out
            },
            Stage::Done => {
                assert(old(self).stepped(*self, Poll::Pending, Step::Resolved));
                Poll::Pending
            },
        }
    }
}

/// A run of polls of the computation of a chain's response: the poll of
/// `states[i]` did `steps[i]`, handed back `outs[i]` and led to
/// `states[i + 1]`.
pub open spec fn runs<A, B>(
    states: Seq<AndThenFuture<A, B>>,
    steps: Seq<Step<A, B>>,
    outs: Seq<Poll<Result<B::Response, A::Error>>>,
) -> bool where A: Service, B: Service<Request = A::Response, Error = A::Error> + Clone {
    &&& states.len() == steps.len() + 1
    &&& outs.len() == steps.len()
    &&& forall|i: int|
        0 <= i < steps.len() ==> (#[trigger] states[i]).stepped(states[i + 1], outs[i], steps[i])
}

/// None of the first `i` steps called the tail.
pub open spec fn uncalled<A: Service, B: Service>(steps: Seq<Step<A, B>>, i: int) -> bool {
    forall|j: int| 0 <= j < i ==> !(#[trigger] steps[j] is TailCalled)
}

/// Of the first `i` steps, step `k` called the tail and no other did.
pub open spec fn called_once<A: Service, B: Service>(steps: Seq<Step<A, B>>, k: int, i: int) -> bool {
    &&& 0 <= k < i
    &&& steps[k] is TailCalled
    &&& forall|j: int| 0 <= j < i && j != k ==> !(#[trigger] steps[j] is TailCalled)
}

/// `step` called the tail with the value that the computation `head`
/// resolved to.
pub open spec fn called_with_response<A, B>(head: A::Future, step: Step<A, B>) -> bool where
    A: Service,
    B: Service<Request = A::Response, Error = A::Error> + Clone,
 {
    &&& step matches Step::TailCalled { response, before, after, fut }
    &&& resolves(head, Ok(response))
    &&& before.called(response, after, fut)
}

/// The head's computation `head` failed with an error, which is `out`, and
/// none of the first `i` steps called the tail.
pub open spec fn failed_early<A, B>(
    head: A::Future,
    steps: Seq<Step<A, B>>,
    i: int,
    out: Result<B::Response, A::Error>,
) -> bool where A: Service, B: Service<Request = A::Response, Error = A::Error> + Clone {
    &&& uncalled(steps, i)
    &&& out matches Err(e)
    &&& resolves(head, Err(e))
}

/// One of the first `i` steps, and only one, called the tail, with the value
/// that the head's computation `head` resolved to, and the computation that
/// the tail handed back resolved to `out`.
pub open spec fn passed_on<A, B>(
    head: A::Future,
    steps: Seq<Step<A, B>>,
    i: int,
    out: Result<B::Response, A::Error>,
) -> bool where A: Service, B: Service<Request = A::Response, Error = A::Error> + Clone {
    exists|k: int| #[trigger]
        called_once(steps, k, i) && called_with_response(head, steps[k]) && resolves(
            steps[k]->fut,
            out,
        )
}

/// One of the first `i` steps, and only one, called the tail, with the value
/// that the head's computation `head` resolved to, and the computation that
/// the tail handed back has come to `now`.
pub open spec fn passing_on<A, B>(
    head: A::Future,
    steps: Seq<Step<A, B>>,
    i: int,
    now: B::Future,
) -> bool where A: Service, B: Service<Request = A::Response, Error = A::Error> + Clone {
    exists|k: int| #[trigger]
        called_once(steps, k, i) && called_with_response(head, steps[k]) && comes_to(
            steps[k]->fut,
            now,
        )
}

/// The computation of a run that started with the head's computation
/// `head` has resolved within the first `i` polls: the head failed and the
/// tail was not called, or the tail was called once and its computation has
/// resolved.
pub open spec fn resolved_within<A, B>(head: A::Future, steps: Seq<Step<A, B>>, i: int) -> bool where
    A: Service,
    B: Service<Request = A::Response, Error = A::Error> + Clone,
 {
    exists|out: Result<B::Response, A::Error>| resolved_to(head, steps, i, out)
}

/// The computation of a run that started with the head's computation
/// `head` has resolved to `out` within the first `i` polls.
pub open spec fn resolved_to<A, B>(
    head: A::Future,
    steps: Seq<Step<A, B>>,
    i: int,
    out: Result<B::Response, A::Error>,
) -> bool where A: Service, B: Service<Request = A::Response, Error = A::Error> + Clone {
    failed_early(head, steps, i, out) || passed_on(head, steps, i, out)
}

/// What holds after the first `i` polls of a run that started with the
/// head's computation `head`.
pub open spec fn stands<A, B>(
    states: Seq<AndThenFuture<A, B>>,
    steps: Seq<Step<A, B>>,
    head: A::Future,
    i: int,
) -> bool where A: Service, B: Service<Request = A::Response, Error = A::Error> + Clone {
    match states[i].stage() {
        Stage::Head(now) => comes_to(head, now) && uncalled(steps, i),
        Stage::Tail(now) => passing_on(head, steps, i, now),
        Stage::Done => resolved_within(head, steps, i),
    }
}

/// The head's response that a poll had in hand is what the head's
/// computation resolved to.
proof fn lemma_response_in_hand<A, B>(
    states: Seq<AndThenFuture<A, B>>,
    steps: Seq<Step<A, B>>,
    head: A::Future,
    i: int,
    v: A::Response,
) where A: Service, B: Service<Request = A::Response, Error = A::Error> + Clone
    requires
        0 <= i < states.len(),
        stands(states, steps, head, i),
        states[i].has_response(v),
    ensures
        resolves(head, Ok(v)),
        uncalled(steps, i),
{
    if let Stage::Head(now) = states[i].stage() {
        lemma_comes_to_resolve(head, now, Ok(v));
    }
}

/// What follows a poll of the tail's computation: it has come further, or
/// it has resolved.
proof fn lemma_driven<A, B>(
    start: B::Future,
    now: B::Future,
    next: Stage<A::Future, B::Future>,
    out: Poll<Result<B::Response, A::Error>>,
) where A: Service, B: Service<Request = A::Response, Error = A::Error> + Clone
    requires
        comes_to(start, now),
        drives::<A, B>(now, next, out),
    ensures
        match out {
            Poll::Pending => next matches Stage::Tail(then) && comes_to(start, then),
            Poll::Ready(r) => next is Done && resolves(start, r),
        },
{
    match out {
        Poll::Pending => {
            lemma_comes_further(start, now, next->Tail_0);
        },
        Poll::Ready(r) => {
            lemma_comes_to_resolve(start, now, r);
        },
    }
}

/// Every poll of a run keeps what [`stands`] says, and a poll that hands
/// back an outcome hands back the head's failure or the outcome of the
/// tail's call.
proof fn lemma_run_stands<A, B>(
    states: Seq<AndThenFuture<A, B>>,
    steps: Seq<Step<A, B>>,
    outs: Seq<Poll<Result<B::Response, A::Error>>>,
    head: A::Future,
    i: int,
) where A: Service, B: Service<Request = A::Response, Error = A::Error> + Clone
    requires
        runs(states, steps, outs),
        states[0].stage() == Stage::<A::Future, B::Future>::Head(head),
        0 <= i <= steps.len(),
    ensures
        stands(states, steps, head, i),
        i > 0 ==> (outs[i - 1] matches Poll::Ready(out) ==> failed_early(head, steps, i, out)
            || passed_on(head, steps, i, out)),
    decreases i,
{
    if i == 0 {
        lemma_comes_to_itself(head);
    } else {
        let p = i - 1;
        lemma_run_stands(states, steps, outs, head, p);
        assert(states[p].stepped(states[p + 1], outs[p], steps[p]));
        let next = states[i].stage();
        match steps[p] {
            Step::HeadPending => {
                lemma_comes_further(head, states[p].stage()->Head_0, next->Head_0);
                assert(uncalled(steps, i));
            },
            Step::HeadFailed(e) => {
                lemma_comes_to_resolve(head, states[p].stage()->Head_0, Err(e));
                assert(uncalled(steps, i));
                assert(failed_early(head, steps, i, Err(e)));
                assert(resolved_to(head, steps, i, Err(e)));
            },
            Step::TailCalled { response, before, after, fut } => {
                lemma_response_in_hand(states, steps, head, p, response);
                assert(called_once(steps, p, i));
                assert(called_with_response(head, steps[p]));
                lemma_comes_to_itself(fut);
                lemma_driven::<A, B>(fut, fut, next, outs[p]);
                if let Poll::Ready(r) = outs[p] {
                    assert(passed_on(head, steps, i, r));
                    assert(resolved_to(head, steps, i, r));
                } else {
                    assert(passing_on(head, steps, i, next->Tail_0));
                }
            },
            Step::TailPolled => {
                let now = states[p].stage()->Tail_0;
                let k = choose|k: int| #[trigger]
                    called_once(steps, k, p) && called_with_response(head, steps[k]) && comes_to(
                        steps[k]->fut,
                        now,
                    );
                assert(called_once(steps, k, i));
                lemma_driven::<A, B>(steps[k]->fut, now, next, outs[p]);
                if let Poll::Ready(r) = outs[p] {
                    assert(passed_on(head, steps, i, r));
                    assert(resolved_to(head, steps, i, r));
                } else {
                    assert(passing_on(head, steps, i, next->Tail_0));
                }
            },
            Step::Resolved => {
                let out = choose|out: Result<B::Response, A::Error>|
                    resolved_to(head, steps, p, out);
                if failed_early(head, steps, p, out) {
                    assert(uncalled(steps, i));
                    assert(failed_early(head, steps, i, out));
                } else {
                    let k = choose|k: int| #[trigger]
                        called_once(steps, k, p) && called_with_response(head, steps[k])
                            && resolves(steps[k]->fut, out);
                    assert(called_once(steps, k, i));
                    assert(passed_on(head, steps, i, out));
                }
                assert(resolved_to(head, steps, i, out));
            },
        }
    }
}

/// However often the computation of a chain's response is polled, before
/// it has resolved or after, it calls the tail at most once: no two polls
/// of a run call it.
pub proof fn theorem_tail_called_at_most_once<A, B>(
    states: Seq<AndThenFuture<A, B>>,
    steps: Seq<Step<A, B>>,
    outs: Seq<Poll<Result<B::Response, A::Error>>>,
    head: A::Future,
    i: int,
    j: int,
) where A: Service, B: Service<Request = A::Response, Error = A::Error> + Clone
    requires
        runs(states, steps, outs),
        states[0].stage() == Stage::<A::Future, B::Future>::Head(head),
        0 <= i < j < steps.len(),
    ensures
        !(steps[i] is TailCalled && steps[j] is TailCalled),
{
    let n = steps.len() as int;
    lemma_run_stands(states, steps, outs, head, n);
    match states[n].stage() {
        Stage::Tail(now) => {
            let k = choose|k: int| #[trigger]
                called_once(steps, k, n) && called_with_response(head, steps[k]) && comes_to(
                    steps[k]->fut,
                    now,
                );
            assert(i != k ==> !(steps[i] is TailCalled));
            assert(j != k ==> !(steps[j] is TailCalled));
        },
        Stage::Done => {
            let out = choose|out: Result<B::Response, A::Error>| resolved_to(head, steps, n, out);
            if passed_on(head, steps, n, out) {
                let k = choose|k: int| #[trigger]
                    called_once(steps, k, n) && called_with_response(head, steps[k]) && resolves(
                        steps[k]->fut,
                        out,
                    );
                assert(i != k ==> !(steps[i] is TailCalled));
                assert(j != k ==> !(steps[j] is TailCalled));
            } else {
                assert(!(steps[i] is TailCalled));
            }
        },
        _ => {
            assert(!(steps[i] is TailCalled));
        },
    }
}

/// A poll of a computation that has resolved leaves the tail alone: once a
/// poll of a run has handed back an outcome, every later poll of the run
/// does nothing and hands back `Pending`.
pub proof fn theorem_poll_after_resolution<A, B>(
    states: Seq<AndThenFuture<A, B>>,
    steps: Seq<Step<A, B>>,
    outs: Seq<Poll<Result<B::Response, A::Error>>>,
    i: int,
    j: int,
) where A: Service, B: Service<Request = A::Response, Error = A::Error> + Clone
    requires
        runs(states, steps, outs),
        0 <= i < j < steps.len(),
        outs[i] is Ready,
    ensures
        steps[j] is Resolved,
        outs[j] is Pending,
        states[j + 1].stage() is Done,
    decreases j - i,
{
    assert(states[i].stepped(states[i + 1], outs[i], steps[i]));
    assert(states[i + 1].stage() is Done);
    if j > i + 1 {
        theorem_poll_after_resolution(states, steps, outs, i, j - 1);
    }
    assert(states[j].stage() is Done);
    assert(states[j].stepped(states[j + 1], outs[j], steps[j]));
}

/// The tail that a poll calls is the tail that the chain was made with, as
/// uses of it have left it: if a poll of a run calls the tail, the tail
/// stands at a state that the slot of the run's first computation admits.
pub proof fn theorem_called_tail_descends<A, B>(
    states: Seq<AndThenFuture<A, B>>,
    steps: Seq<Step<A, B>>,
    outs: Seq<Poll<Result<B::Response, A::Error>>>,
    i: int,
) where A: Service, B: Service<Request = A::Response, Error = A::Error> + Clone
    requires
        runs(states, steps, outs),
        0 <= i < steps.len(),
        steps[i] is TailCalled,
    ensures
        states[i].tail() == states[0].tail(),
        descends(states[0].tail().rule().origin, steps[i]->before),
{
    assert(states[i].stepped(states[i + 1], outs[i], steps[i]));
    lemma_run_shares_tail(states, steps, outs, i);
}

/// Every computation of a run reaches the slot of the first.
proof fn lemma_run_shares_tail<A, B>(
    states: Seq<AndThenFuture<A, B>>,
    steps: Seq<Step<A, B>>,
    outs: Seq<Poll<Result<B::Response, A::Error>>>,
    i: int,
) where A: Service, B: Service<Request = A::Response, Error = A::Error> + Clone
    requires
        runs(states, steps, outs),
        0 <= i <= steps.len(),
    ensures
        states[i].tail() == states[0].tail(),
    decreases i,
{
    if i > 0 {
        lemma_run_shares_tail(states, steps, outs, i - 1);
        assert(states[i - 1].stepped(states[i - 1 + 1], outs[i - 1], steps[i - 1]));
    }
}

/// A failure of the head is the outcome of the chain, and the tail is never
/// called: if a poll of a run finds that the head's computation failed with
/// `e`, that poll hands back `Ready(Err(e))`, the head's computation has
/// resolved to `Err(e)`, and no poll of the run, before or after, calls the
/// tail.
pub proof fn theorem_head_failure_skips_tail<A, B>(
    states: Seq<AndThenFuture<A, B>>,
    steps: Seq<Step<A, B>>,
    outs: Seq<Poll<Result<B::Response, A::Error>>>,
    head: A::Future,
    i: int,
    e: A::Error,
) where A: Service, B: Service<Request = A::Response, Error = A::Error> + Clone
    requires
        runs(states, steps, outs),
        states[0].stage() == Stage::<A::Future, B::Future>::Head(head),
        0 <= i < steps.len(),
        steps[i] == Step::<A, B>::HeadFailed(e),
    ensures
        outs[i] == Poll::Ready(Err::<B::Response, A::Error>(e)),
        resolves(head, Err(e)),
        uncalled(steps, steps.len() as int),
{
    lemma_run_stands(states, steps, outs, head, i);
    assert(states[i].stepped(states[i + 1], outs[i], steps[i]));
    lemma_comes_to_resolve(head, states[i].stage()->Head_0, Err(e));
    assert(uncalled(steps, i));
    assert forall|j: int| 0 <= j < steps.len() implies !(#[trigger] steps[j] is TailCalled) by {
        if j > i {
            theorem_poll_after_resolution(states, steps, outs, i, j);
        }
    }
}

/// The outcome of a chain is the outcome of the tail's call with the head's
/// response, or the head's failure: if a poll of a run hands back
/// `Ready(out)`, then either the head's computation failed with the error
/// that `out` holds and no poll had called the tail, or the head's
/// computation resolved to a value, exactly one poll called the tail with
/// that value, and the computation that the tail handed back resolved to
/// `out`.
pub proof fn theorem_chain_outcome<A, B>(
    states: Seq<AndThenFuture<A, B>>,
    steps: Seq<Step<A, B>>,
    outs: Seq<Poll<Result<B::Response, A::Error>>>,
    head: A::Future,
    out: Result<B::Response, A::Error>,
) where A: Service, B: Service<Request = A::Response, Error = A::Error> + Clone
    requires
        runs(states, steps, outs),
        states[0].stage() == Stage::<A::Future, B::Future>::Head(head),
        steps.len() > 0,
        outs.last() == Poll::Ready(out),
    ensures
        failed_early(head, steps, steps.len() as int, out) || passed_on(
            head,
            steps,
            steps.len() as int,
            out,
        ),
{
    lemma_run_stands(states, steps, outs, head, steps.len() as int);
}

/// `out` is the outcome of chaining a tail `B` after the computation `head`:
/// the error that `head` failed with, or what a call of the tail with the
/// value of `head` resolved to, the tail standing at a state that the slot
/// `tail` admits.
pub open spec fn chained<A, B>(
    head: A::Future,
    tail: Cell<B, Descends<B>>,
    out: Result<B::Response, A::Error>,
) -> bool where A: Service, B: Service<Request = A::Response, Error = A::Error> + Clone {
    ||| out matches Err(e) && resolves(head, Err(e))
    ||| exists|v: A::Response, before: B, after: B, fut: B::Future|
        {
            &&& resolves(head, Ok(v))
            &&& tail.admits(before)
            &&& #[trigger] before.called(v, after, fut)
            &&& resolves(fut, out)
        }
}

/// A call of a chain resolves to the head's failure, or to what the tail's
/// call with the head's response resolves to.
///
/// That is: if the call with `req` takes the chain from `chain` to `next`
/// and hands back `fut`, and `fut`, polled to its end, resolves to `out`,
/// then that call called the head with `req`, and either the computation
/// that the head handed back failed, with the error that `out` holds, or it
/// resolved to a value, the tail was called with that value, and the
/// computation that the tail handed back resolved to `out`.
pub proof fn theorem_and_then_call<A, B>(
    chain: AndThen<A, B>,
    req: A::Request,
    next: AndThen<A, B>,
    fut: AndThenFuture<A, B>,
    out: Result<B::Response, A::Error>,
) where A: Service, B: Service<Request = A::Response, Error = A::Error> + Clone
    requires
        chain.called(req, next, fut),
        resolves(fut, out),
    ensures
        fut.stage() matches Stage::Head(head) && chain.head().called(req, next.head(), head)
            && chained::<A, B>(head, chain.tail(), out),
{
    let head = fut.stage()->Head_0;
    let waited = choose|states: Seq<AndThenFuture<A, B>>| resolves_through(fut, states, out);
    let end = choose|end: AndThenFuture<A, B>| waited.last().polled(end, Poll::Ready(out));
    let n = waited.len() as int;
    let states = waited.push(end);
    let outs = Seq::new(
        n as nat,
        |i: int|
            if i < n - 1 {
                Poll::Pending
            } else {
                Poll::Ready(out)
            },
    );
    let steps = Seq::new(
        n as nat,
        |i: int|
            choose|step: Step<A, B>| #[trigger] states[i].stepped(states[i + 1], outs[i], step),
    );
    assert forall|i: int| 0 <= i < n implies (#[trigger] states[i]).stepped(
        states[i + 1],
        outs[i],
        steps[i],
    ) by {
        if i < n - 1 {
            assert(waited[i].polled(waited[i + 1], Poll::Pending));
        } else {
            assert(waited.last().polled(end, Poll::Ready(out)));
        }
    }
    assert(runs(states, steps, outs));
    theorem_chain_outcome(states, steps, outs, head, out);
    if passed_on(head, steps, n, out) {
        let k = choose|k: int| #[trigger]
            called_once(steps, k, n) && called_with_response(head, steps[k]) && resolves(
                steps[k]->fut,
                out,
            );
        let step = steps[k];
        assert(states[k].stepped(states[k + 1], outs[k], steps[k]));
        lemma_run_shares_tail(states, steps, outs, k);
        fut.tail().lemma_one_rule(chain.tail());
        assert(step->before.called(step->response, step->after, step->fut));
    }
}

/// Factory of chains: builds a head with one factory and a tail with
/// another, for the same configuration.
pub struct AndThenNewService<A, B> where A: NewService, B: NewService {
    a: A,
    b: B,
}

impl<A: NewService, B: NewService> AndThenNewService<A, B> {
    /// The factory of heads.
    pub closed spec fn head(self) -> A {
        self.a
    }

    /// The factory of tails.
    pub closed spec fn tail(self) -> B {
        self.b
    }
}

impl<A, B> AndThenNewService<A, B> where
    A: NewService,
    B: NewService<
        Config = A::Config,
        Request = A::Response,
        Error = A::Error,
        InitError = A::InitError,
    >,
    B::Service: Clone,
 {
    /// Chains the services of the factory that `f` turns into after those
    /// of `a`.
    pub fn new<F: IntoNewService<B>>(a: A, f: F) -> (factory: Self)
        ensures
            factory.head() == a,
            f.becomes_factory(factory.tail()),
    {
        Self { a, b: f.into_new_service() }
    }
}

impl<A, B> NewService for AndThenNewService<A, B> where
    A: NewService,
    B: NewService<
        Config = A::Config,
        Request = A::Response,
        Error = A::Error,
        InitError = A::InitError,
    >,
    B::Service: Clone,
 {
    type Request = A::Request;

    type Response = B::Response;

    type Error = A::Error;

    type Config = A::Config;

    type Service = AndThen<A::Service, B::Service>;

    type InitError = A::InitError;

    type Future = AndThenNewServiceFuture<A, B>;

    open spec fn builds(&self, cfg: A::Config, fut: AndThenNewServiceFuture<A, B>) -> bool {
        &&& fut.head() matches Branch::Building(a)
        &&& self.head().builds(cfg, a)
        &&& fut.tail() matches Branch::Building(b)
        &&& self.tail().builds(cfg, b)
    }

    fn new_service(&self, cfg: &A::Config) -> (fut: AndThenNewServiceFuture<A, B>) {
        AndThenNewServiceFuture::new(self.a.new_service(cfg), self.b.new_service(cfg))
    }
}

impl<A, B> Clone for AndThenNewService<A, B> where A: NewService + Clone, B: NewService + Clone {
    fn clone(&self) -> (factory: Self)
        ensures
            cloned(self.head(), factory.head()),
            cloned(self.tail(), factory.tail()),
    {
        Self { a: self.a.clone(), b: self.b.clone() }
    }
}

/// `out` is `built` with the two services of a success made into a chain;
/// an error and `Pending` pass through.
pub open spec fn assembled<A, B>(
    built: Poll<Result<(A::Service, B::Service), A::InitError>>,
    out: Poll<Result<AndThen<A::Service, B::Service>, A::InitError>>,
) -> bool where
    A: NewService,
    B: NewService<Request = A::Response, Error = A::Error, InitError = A::InitError>,
    B::Service: Clone,
 {
    match built {
        Poll::Pending => out is Pending,
        Poll::Ready(Err(e)) => out == Poll::Ready(
            Err::<AndThen<A::Service, B::Service>, A::InitError>(e),
        ),
        Poll::Ready(Ok((a, b))) => {
            &&& out matches Poll::Ready(Ok(chain))
            &&& chain.head() == a
            &&& chain.tail().rule() == (Descends { origin: b })
        },
    }
}

/// The construction of an [`AndThen`]: waits for both stages to be built.
pub struct AndThenNewServiceFuture<A, B> where
    A: NewService,
    B: NewService<Request = A::Response, Error = A::Error, InitError = A::InitError>,
    B::Service: Clone,
 {
    a: Branch<A::Future>,
    b: Branch<B::Future>,
}

impl<A, B> AndThenNewServiceFuture<A, B> where
    A: NewService,
    B: NewService<Request = A::Response, Error = A::Error, InitError = A::InitError>,
    B::Service: Clone,
 {
    /// The construction of the head.
    pub closed spec fn head(self) -> Branch<A::Future> {
        self.a
    }

    /// The construction of the tail.
    pub closed spec fn tail(self) -> Branch<B::Future> {
        self.b
    }

    /// The construction that waits for `fut_a` and `fut_b`.
    pub fn new(fut_a: A::Future, fut_b: B::Future) -> (fut: Self)
        ensures
            fut.head() == Branch::Building(fut_a),
            fut.tail() == Branch::Building(fut_b),
    {
        AndThenNewServiceFuture { a: Branch::Building(fut_a), b: Branch::Building(fut_b) }
    }
}

impl<A, B> TryFuture for AndThenNewServiceFuture<A, B> where
    A: NewService,
    B: NewService<Request = A::Response, Error = A::Error, InitError = A::InitError>,
    B::Service: Clone,
 {
    type Ok = AndThen<A::Service, B::Service>;

    type Error = A::InitError;

    open spec fn live(&self) -> bool {
        self.head().live() && self.tail().live()
    }

    open spec fn polled(
        &self,
        next: Self,
        out: Poll<Result<AndThen<A::Service, B::Service>, A::InitError>>,
    ) -> bool {
        exists|built: Poll<Result<(A::Service, B::Service), A::InitError>>|
            {
                &&& #[trigger] joined(self.head(), self.tail(), next.head(), next.tail(), built)
                &&& assembled::<A, B>(built, out)
            }
    }

    fn try_poll(&mut self) -> (out: Poll<Result<AndThen<A::Service, B::Service>, A::InitError>>) {
        let built = join(&mut self.a, &mut self.b);
        let out = match built {
            Poll::Pending => Poll::Pending,
            Poll::Ready(Err(e)) => Poll::Ready(Err(e)),
            Poll::Ready(Ok((a, b))) => Poll::Ready(Ok(AndThen::new(a, b))),
        };
        assert(joined(old(self).head(), old(self).tail(), self.head(), self.tail(), built));
        assert(assembled::<A, B>(built, out));
        out
    }
}

/// `out` is the outcome of building a chain with the constructions `head`
/// and `tail`: the chain of the two services they resolved to, or the error
/// that one of them failed with.
pub open spec fn built_of<A, B>(
    head: A::Future,
    tail: B::Future,
    out: Result<AndThen<A::Service, B::Service>, A::InitError>,
) -> bool where
    A: NewService,
    B: NewService<Request = A::Response, Error = A::Error, InitError = A::InitError>,
    B::Service: Clone,
 {
    match out {
        Ok(chain) => {
            &&& resolves(head, Ok(chain.head()))
            &&& resolves(tail, Ok(chain.tail().rule().origin))
        },
        Err(e) => resolves(head, Err(e)) || resolves(tail, Err(e)),
    }
}

/// A factory of chains hands out the chain of the services that its two
/// factories build, once both are built, and fails when one of them fails.
///
/// That is: if the factory, asked for a service for `cfg`, hands back `fut`,
/// and `fut`, polled to its end, resolves to `out`, then both factories were
/// asked for a service for `cfg`, and `out` is the chain of the services
/// that the two constructions resolved to, or the error that one of them
/// failed with.
pub proof fn theorem_and_then_new_service<A, B>(
    factory: AndThenNewService<A, B>,
    cfg: A::Config,
    fut: AndThenNewServiceFuture<A, B>,
    out: Result<AndThen<A::Service, B::Service>, A::InitError>,
) where
    A: NewService,
    B: NewService<
        Config = A::Config,
        Request = A::Response,
        Error = A::Error,
        InitError = A::InitError,
    >,
    B::Service: Clone,

    requires
        factory.builds(cfg, fut),
        resolves(fut, out),
    ensures
        fut.head() matches Branch::Building(head) && fut.tail() matches Branch::Building(tail) && {
            &&& factory.head().builds(cfg, head)
            &&& factory.tail().builds(cfg, tail)
            &&& built_of::<A, B>(head, tail, out)
        },
{
    let head = fut.head()->Building_0;
    let tail = fut.tail()->Building_0;
    let states = choose|states: Seq<AndThenNewServiceFuture<A, B>>|
        resolves_through(fut, states, out);
    let inv = |w: AndThenNewServiceFuture<A, B>|
        grown_from(head, w.head()) && grown_from(tail, w.tail());
    lemma_comes_to_itself(head);
    lemma_comes_to_itself(tail);
    assert forall|s: AndThenNewServiceFuture<A, B>, n: AndThenNewServiceFuture<A, B>|
        inv(s) && #[trigger] s.polled(n, Poll::Pending) implies inv(n) by {
        let built = choose|built: Poll<Result<(A::Service, B::Service), A::InitError>>|
            {
                &&& #[trigger] joined(s.head(), s.tail(), n.head(), n.tail(), built)
                &&& assembled::<A, B>(built, Poll::Pending)
            };
        lemma_joined_grows(head, tail, s.head(), s.tail(), n.head(), n.tail(), built);
    }
    lemma_kept_while_waiting(states, inv, states.len() - 1);
    let last = states.last();
    let end = choose|end: AndThenNewServiceFuture<A, B>| last.polled(end, Poll::Ready(out));
    let built = choose|built: Poll<Result<(A::Service, B::Service), A::InitError>>|
        {
            &&& #[trigger] joined(last.head(), last.tail(), end.head(), end.tail(), built)
            &&& assembled::<A, B>(built, Poll::Ready(out))
        };
    lemma_joined_grows(head, tail, last.head(), last.tail(), end.head(), end.tail(), built);
}

} // verus!
