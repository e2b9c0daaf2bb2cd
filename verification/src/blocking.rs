use vstd::prelude::*;
use std::fmt::Debug;
use futures::channel::oneshot::{Canceled, Receiver};
use crate::poll::Poll;
use crate::future::TryFuture;

verus! {

/// The receiving end of a channel that carries one value.
#[verifier::external_type_specification]
#[verifier::external_body]
#[verifier::reject_recursive_types(T)]
pub struct ExReceiver<T>(Receiver<T>);

/// The mark of a channel whose sending end went away without sending.
#[verifier::external_type_specification]
#[verifier::external_body]
pub struct ExCanceled(Canceled);

/// Why a blocking operation handed out no value.
#[derive(Debug)]
pub enum BlockingError<E: Debug> {
    /// The operation ran and failed with this error.
    Error(E),
    /// The pool of workers dropped the operation before it had run.
    Canceled,
}

/// What the owner of a blocking operation is told when the channel from the
/// worker held `received`: nothing yet, the operation's own outcome, or that
/// the operation was dropped.
pub open spec fn settled<I, E: Debug>(received: Result<Option<Result<I, E>>, Canceled>) -> Poll<
    Result<I, BlockingError<E>>,
> {
    match received {
        Ok(None) => Poll::Pending,
        Ok(Some(Ok(v))) => Poll::Ready(Ok(v)),
        Ok(Some(Err(e))) => Poll::Ready(Err(BlockingError::Error(e))),
        Err(_) => Poll::Ready(Err(BlockingError::Canceled)),
    }
}

/// Tells the owner of a blocking operation what the channel from the worker
/// held.
pub fn settle<I, E: Debug>(received: Result<Option<Result<I, E>>, Canceled>) -> (out: Poll<
    Result<I, BlockingError<E>>,
>)
    ensures
        out == settled(received),
{
    match received {
        Ok(None) => Poll::Pending,
        Ok(Some(Ok(v))) => Poll::Ready(Ok(v)),
        Ok(Some(Err(e))) => Poll::Ready(Err(BlockingError::Error(e))),
        Err(_) => Poll::Ready(Err(BlockingError::Canceled)),
    }
}

/// Calls `Receiver::try_recv` of the crate `futures`, which looks into the
/// channel without waiting: `Ok(None)` while the sending end is alive and has
/// not sent, `Ok(Some(..))` with the value once it was sent, an error once
/// the sending end is gone and no value is left. Which of these comes back
/// depends on what the worker has done by now, so nothing is claimed of the
/// result.
#[verifier::external_body]
fn try_recv<T>(rx: &mut Receiver<T>) -> Result<Option<T>, Canceled> {
    rx.try_recv()
}

/// The outcome of a blocking operation that a worker runs: resolves once
/// the worker has sent the outcome, or has dropped the operation.
#[verifier::reject_recursive_types(I)]
#[verifier::reject_recursive_types(E)]
pub struct CpuFuture<I, E> {
    rx: Receiver<Result<I, E>>,
}

impl<I, E> CpuFuture<I, E> {
    /// The channel from the worker.
    pub closed spec fn channel(self) -> Receiver<Result<I, E>> {
        self.rx
    }

    /// The outcome that arrives on `rx`.
    pub fn new(rx: Receiver<Result<I, E>>) -> (fut: Self)
        ensures
            fut.channel() == rx,
    {
        CpuFuture { rx }
    }
}

impl<I, E: Debug> TryFuture for CpuFuture<I, E> {
    type Ok = I;

    type Error = BlockingError<E>;

    /// The channel can be looked into at any time.
    open spec fn live(&self) -> bool {
        true
    }

    /// A poll looks into the channel and tells what it held.
    open spec fn polled(&self, next: Self, out: Poll<Result<I, BlockingError<E>>>) -> bool {
        exists|received: Result<Option<Result<I, E>>, Canceled>| out == #[trigger] settled(received)
    }

    fn try_poll(&mut self) -> (out: Poll<Result<I, BlockingError<E>>>) {
        let received = try_recv(&mut self.rx);
        settle(received)
    }
}

} // verus!
