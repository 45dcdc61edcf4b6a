use fire_stream::reconnect::{Reconnect, Recovery};
use fire_stream::stream::ReceiveError;
use fire_stream::task::{CloseSignal, TaskError, TaskHandle};

#[test]
fn close_signals_once() {
    let mut handle = TaskHandle::new();
    assert_eq!(handle.wait(), None);
    assert_eq!(handle.close(), true);
    // closing a closed handle is no error, and sends nothing
    assert_eq!(handle.close(), false);
    assert_eq!(handle.close(), false);
    assert_eq!(handle.wait(), None);
    handle.finish(Ok(()));
    assert_eq!(handle.wait(), Some(Ok(())));
    assert_eq!(handle.close(), false);
    assert_eq!(handle.wait(), Some(Ok(())));
}

#[test]
fn close_after_the_task_has_ended() {
    let mut handle = TaskHandle::new();
    handle.finish(Err(TaskError::Receive(ReceiveError::Timeout)));
    assert_eq!(handle.close(), false);
    assert_eq!(handle.wait(), Some(Err(TaskError::Receive(ReceiveError::Timeout))));
}

#[test]
fn wait_does_not_close() {
    let handle = TaskHandle::new();
    assert_eq!(handle.wait(), None);
    assert_eq!(handle.wait(), None);
    // the signal is still open: dropping the handle closes
    assert_eq!(handle.release(), Some(CloseSignal::HandleDropped));
}

#[test]
fn dropped_handle_closes_unless_closed() {
    let mut handle = TaskHandle::new();
    handle.close();
    assert_eq!(handle.release(), None);
    let mut handle = TaskHandle::new();
    handle.finish(Ok(()));
    assert_eq!(handle.release(), None);
}

#[test]
fn first_result_counts() {
    let mut handle = TaskHandle::new();
    handle.finish(Err(TaskError::Write));
    handle.finish(Ok(()));
    assert_eq!(handle.wait(), Some(Err(TaskError::Write)));
    let mut handle = TaskHandle::new();
    handle.abort();
    assert_eq!(handle.wait(), Some(Err(TaskError::Join)));
    handle.finish(Ok(()));
    assert_eq!(handle.wait(), Some(Err(TaskError::Join)));
    let mut handle = TaskHandle::new();
    handle.finish(Err(TaskError::ConnectionLost));
    handle.abort();
    assert_eq!(handle.wait(), Some(Err(TaskError::ConnectionLost)));
}

#[test]
fn attempts_count_up_from_zero() {
    let mut driver = Reconnect::new(true);
    assert!(driver.enabled());
    for attempt in 0..10 {
        assert_eq!(driver.lost(), attempt);
        assert_eq!(driver.on_lost(), Recovery::Connect(attempt));
    }
    driver.on_progress();
    assert_eq!(driver.lost(), 0);
    assert_eq!(driver.on_lost(), Recovery::Connect(0));
    assert_eq!(driver.on_lost(), Recovery::Connect(1));
}

#[test]
fn no_strategy_gives_up() {
    let mut driver = Reconnect::new(false);
    assert!(!driver.enabled());
    assert_eq!(driver.on_lost(), Recovery::GiveUp);
    assert_eq!(driver.on_lost(), Recovery::GiveUp);
    assert_eq!(driver.lost(), 0);
}
