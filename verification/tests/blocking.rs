use actix_service::blocking::settle;
use actix_service::{BlockingError, CpuFuture, Poll, TryFuture};
use futures::channel::oneshot;

#[test]
fn cpu_future_waits_for_the_worker() {
    let (tx, rx) = oneshot::channel::<Result<u32, String>>();
    let mut fut = CpuFuture::new(rx);
    assert!(fut.try_poll().is_pending());
    assert!(fut.try_poll().is_pending());
    tx.send(Ok(5)).unwrap();
    assert!(matches!(fut.try_poll(), Poll::Ready(Ok(5))));
}

#[test]
fn cpu_future_hands_out_error_of_operation() {
    let (tx, rx) = oneshot::channel::<Result<u32, String>>();
    let mut fut = CpuFuture::new(rx);
    tx.send(Err("failed".to_string())).unwrap();
    match fut.try_poll() {
        Poll::Ready(Err(BlockingError::Error(e))) => assert_eq!(e, "failed"),
        _ => panic!(),
    }
}

#[test]
fn cpu_future_reports_dropped_operation() {
    let (tx, rx) = oneshot::channel::<Result<u32, String>>();
    let mut fut = CpuFuture::new(rx);
    drop(tx);
    assert!(matches!(fut.try_poll(), Poll::Ready(Err(BlockingError::Canceled))));
}

#[test]
fn blocking_outcome_for_each_state_of_channel() {
    assert!(matches!(settle::<u32, String>(Ok(None)), Poll::Pending));
    assert!(matches!(settle::<u32, String>(Ok(Some(Ok(3)))), Poll::Ready(Ok(3))));
    match settle::<u32, String>(Ok(Some(Err("e".to_string())))) {
        Poll::Ready(Err(BlockingError::Error(e))) => assert_eq!(e, "e"),
        _ => panic!(),
    }
    assert!(matches!(
        settle::<u32, String>(Err(oneshot::Canceled)),
        Poll::Ready(Err(BlockingError::Canceled))
    ));
}
