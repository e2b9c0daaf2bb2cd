use vstd::prelude::*;

verus! {

/// What a poll-driven computation reports when asked for its value.
#[derive(Debug, Clone, Copy, PartialEq, Eq)]
pub enum Poll<T> {
    /// The value is available.
    Ready(T),
    /// The value is not available yet; ask again later.
    Pending,
}

impl<T> Poll<T> {
    /// Whether the value is available.
    pub fn is_ready(&self) -> (r: bool)
        ensures
            r == (*self is Ready),
    {
        match self {
            Poll::Ready(_) => true,
            Poll::Pending => false,
        }
    }

    /// Whether the value is still outstanding.
    pub fn is_pending(&self) -> (r: bool)
        ensures
            r == (*self is Pending),
    {
        match self {
            Poll::Ready(_) => false,
            Poll::Pending => true,
        }
    }
}

/// `out` is `inner` with `f` applied to the value of a success; an error and
/// `Pending` pass through.
pub open spec fn maps_ok<T, U, E, F: Fn(T) -> U>(
    f: F,
    inner: Poll<Result<T, E>>,
    out: Poll<Result<U, E>>,
) -> bool {
    match inner {
        Poll::Pending => out is Pending,
        Poll::Ready(Err(e)) => out == Poll::Ready(Err::<U, E>(e)),
        Poll::Ready(Ok(v)) => out matches Poll::Ready(Ok(w)) && call_ensures(f, (v,), w),
    }
}

/// `out` is `inner` with `f` applied to the error of a failure; a value and
/// `Pending` pass through.
pub open spec fn maps_err<T, E, G, F: Fn(E) -> G>(
    f: F,
    inner: Poll<Result<T, E>>,
    out: Poll<Result<T, G>>,
) -> bool {
    match inner {
        Poll::Pending => out is Pending,
        Poll::Ready(Ok(v)) => out == Poll::Ready(Ok::<T, G>(v)),
        Poll::Ready(Err(e)) => out matches Poll::Ready(Err(g)) && call_ensures(f, (e,), g),
    }
}

} // verus!
