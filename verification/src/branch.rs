use vstd::prelude::*;
use crate::poll::Poll;
use crate::future::{
    TryFuture, gives, resolves, comes_to, lemma_comes_further, lemma_comes_to_resolve,
};

verus! {

/// One branch of a construction that waits for several computations.
pub enum Branch<F: TryFuture> {
    /// The computation is still running.
    Building(F),
    /// The computation has resolved to this value, which waits for the
    /// other branches.
    Built(F::Ok),
    /// The value was handed on, or the computation failed.
    Spent,
}

impl<F: TryFuture> Branch<F> {
    /// Whether the branch may be advanced.
    pub open spec fn live(self) -> bool {
        match self {
            Branch::Building(fut) => fut.live(),
            Branch::Built(_) => true,
            Branch::Spent => false,
        }
    }

    /// Advancing the branch may take it from `self` to `next`, failing with
    /// `failure` if the computation resolved to an error.
    pub open spec fn advanced(self, next: Self, failure: Option<F::Error>) -> bool {
        match self {
            Branch::Building(fut) => match next {
                Branch::Building(then) => failure is None && fut.polled(then, Poll::Pending),
                Branch::Built(value) => failure is None && gives(fut, Ok(value)),
                Branch::Spent => failure matches Some(e) && gives(fut, Err(e)),
            },
            Branch::Built(_) => failure is None && next == self,
            Branch::Spent => false,
        }
    }

    /// Polls the computation if it is still running, and keeps the value it
    /// resolves to. Hands back the error if it fails.
    pub fn advance(&mut self) -> (failure: Option<F::Error>)
        requires
            old(self).live(),
        ensures
            old(self).advanced(*final(self), failure),
            failure is None ==> final(self).live(),
    {
        let mut branch = Branch::Spent;
        core::mem::swap(self, &mut branch);
        match branch {
            Branch::Building(mut fut) => {
                let ghost before = fut;
                match fut.try_poll() {
                    Poll::Pending => {
                        *self = Branch::Building(fut);
                        None
                    },
                    Poll::Ready(Ok(value)) => {
                        assert(before.polled(fut, Poll::Ready(Ok(value))));
                        *self = Branch::Built(value);
                        None
                    },
                    Poll::Ready(Err(e)) => {
                        assert(before.polled(fut, Poll::Ready(Err(e))));
                        Some(e)
                    },
                }
            },
            Branch::Built(value) => {
                *self = Branch::Built(value);
                None
            },
            Branch::Spent => None,
        }
    }

    /// Hands on the value of a branch that is built.
    pub fn take(&mut self) -> (value: Option<F::Ok>)
        ensures
            match *old(self) {
                Branch::Built(v) => value == Some(v) && *final(self) is Spent,
                _ => value is None && *final(self) == *old(self),
            },
    {
        let mut branch = Branch::Spent;
        core::mem::swap(self, &mut branch);
        match branch {
            Branch::Built(v) => Some(v),
            other => {
                *self = other;
                None
            },
        }
    }
}

/// A branch that started with the computation `start` may stand at
/// `branch`: the computation has come to where the branch holds it, or it
/// has resolved to the value that the branch holds.
pub open spec fn grown_from<F: TryFuture>(start: F, branch: Branch<F>) -> bool {
    match branch {
        Branch::Building(now) => comes_to(start, now),
        Branch::Built(value) => resolves(start, Ok(value)),
        Branch::Spent => true,
    }
}

/// A branch grows by being advanced, and fails with the error that its
/// computation resolved to.
pub proof fn lemma_branch_grows<F: TryFuture>(
    start: F,
    branch: Branch<F>,
    next: Branch<F>,
    failure: Option<F::Error>,
)
    requires
        grown_from(start, branch),
        branch.advanced(next, failure),
    ensures
        grown_from(start, next),
        failure matches Some(e) ==> resolves(start, Err(e)),
{
    if let Branch::Building(now) = branch {
        match next {
            Branch::Building(then) => {
                lemma_comes_further(start, now, then);
            },
            Branch::Built(value) => {
                lemma_comes_to_resolve(start, now, Ok(value));
            },
            Branch::Spent => {
                lemma_comes_to_resolve(start, now, Err(failure->Some_0));
            },
        }
    }
}

/// Two branches advanced together may go from `a`, `b` to `a2`, `b2` and
/// hand back `out`: the two values once both are built, the first error once
/// one fails (that of `a` before that of `b`, and `b` is then left alone).
pub open spec fn joined<FA: TryFuture, FB: TryFuture<Error = FA::Error>>(
    a: Branch<FA>,
    b: Branch<FB>,
    a2: Branch<FA>,
    b2: Branch<FB>,
    out: Poll<Result<(FA::Ok, FB::Ok), FA::Error>>,
) -> bool {
    match out {
        Poll::Ready(Err(e)) => {
            ||| a.advanced(a2, Some(e)) && b2 == b
            ||| a.advanced(a2, None) && b.advanced(b2, Some(e))
        },
        Poll::Ready(Ok((va, vb))) => {
            &&& a.advanced(Branch::Built(va), None)
            &&& b.advanced(Branch::Built(vb), None)
            &&& a2 is Spent
            &&& b2 is Spent
        },
        Poll::Pending => {
            &&& a.advanced(a2, None)
            &&& b.advanced(b2, None)
            &&& !(a2 is Built && b2 is Built)
        },
    }
}

/// Advances `a`, then `b`, and hands out both values once both are built.
pub fn join<FA: TryFuture, FB: TryFuture<Error = FA::Error>>(
    a: &mut Branch<FA>,
    b: &mut Branch<FB>,
) -> (out: Poll<Result<(FA::Ok, FB::Ok), FA::Error>>)
    requires
        old(a).live(),
        old(b).live(),
    ensures
        joined(*old(a), *old(b), *final(a), *final(b), out),
        out is Pending ==> final(a).live() && final(b).live(),
{
    if let Some(e) = a.advance() {
        return Poll::Ready(Err(e));
    }
    if let Some(e) = b.advance() {
        return Poll::Ready(Err(e));
    }
    let ghost a1 = *a;
    let ghost b1 = *b;
    match a.take() {
        Some(va) => match b.take() {
            Some(vb) => Poll::Ready(Ok((va, vb))),
            None => {
                *a = Branch::Built(va);
                Poll::Pending
            },
        },
        None => Poll::Pending,
    }
}

/// Two branches that are advanced together grow; the values they hand out
/// are those that their computations resolved to, and the error they fail
/// with is one that a computation resolved to.
pub proof fn lemma_joined_grows<FA: TryFuture, FB: TryFuture<Error = FA::Error>>(
    start_a: FA,
    start_b: FB,
    a: Branch<FA>,
    b: Branch<FB>,
    a2: Branch<FA>,
    b2: Branch<FB>,
    out: Poll<Result<(FA::Ok, FB::Ok), FA::Error>>,
)
    requires
        grown_from(start_a, a),
        grown_from(start_b, b),
        joined(a, b, a2, b2, out),
    ensures
        match out {
            Poll::Pending => grown_from(start_a, a2) && grown_from(start_b, b2),
            Poll::Ready(Ok((va, vb))) => resolves(start_a, Ok(va)) && resolves(start_b, Ok(vb)),
            Poll::Ready(Err(e)) => resolves(start_a, Err(e)) || resolves(start_b, Err(e)),
        },
{
    match out {
        Poll::Pending => {
            lemma_branch_grows(start_a, a, a2, None);
            lemma_branch_grows(start_b, b, b2, None);
        },
        Poll::Ready(Ok((va, vb))) => {
            lemma_branch_grows(start_a, a, Branch::Built(va), None);
            lemma_branch_grows(start_b, b, Branch::Built(vb), None);
        },
        Poll::Ready(Err(e)) => {
            if a.advanced(a2, Some(e)) {
                lemma_branch_grows(start_a, a, a2, Some(e));
            } else {
                lemma_branch_grows(start_b, b, b2, Some(e));
            }
        },
    }
}

} // verus!
