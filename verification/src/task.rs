//! The handle to the background task of a connection.
//!
//! The handle owns the close signal of the task. The task is told to close
//! at most once: by an explicit close, or else by the handle going away.
//! Waiting for the task does not tell it to close.

use crate::stream::ReceiveError;
use vstd::prelude::*;

verus! {

/// Why a background task ended in failure.
#[derive(Debug, Clone, Copy, PartialEq, Eq, Structural)]
pub enum TaskError {
    /// The task panicked or was cancelled.
    Join,
    /// No packet could be received.
    Receive(ReceiveError),
    /// A write on the stream failed.
    Write,
    /// The stream was lost and the reconnection strategy gave no new one.
    ConnectionLost,
}

/// How the handle's side of the close signal came to its end.
#[derive(Debug, Clone, Copy, PartialEq, Eq, Structural)]
pub enum CloseSignal {
    /// The close was asked for.
    Requested,
    /// The handle went away without asking.
    HandleDropped,
}

/// A handle to the background task. If the handle is dropped, the
/// connection is closed.
#[derive(Debug)]
pub struct TaskHandle {
    /// The task has been told to close.
    signalled: bool,
    /// How the task ended, once it has.
    result: Option<Result<(), TaskError>>,
}

/// A handle as a mathematical value.
pub struct TaskHandleView {
    pub signalled: bool,
    pub result: Option<Result<(), TaskError>>,
}

impl TaskHandleView {
    /// Whether a close has to tell the task: only where the task has not
    /// been told yet and still runs.
    pub open spec fn must_signal(self) -> bool {
        !self.signalled && self.result is None
    }

    /// The handle after a close.
    pub open spec fn closed(self) -> TaskHandleView {
        TaskHandleView { signalled: true, ..self }
    }

    /// The handle after the task has ended with `result`. The first end
    /// counts.
    pub open spec fn finished(self, result: Result<(), TaskError>) -> TaskHandleView {
        if self.result is None {
            TaskHandleView { result: Some(result), ..self }
        } else {
            self
        }
    }
}

impl View for TaskHandle {
    type V = TaskHandleView;

    closed spec fn view(&self) -> TaskHandleView {
        TaskHandleView { signalled: self.signalled, result: self.result }
    }
}

impl TaskHandle {
    /// The handle of a task that runs and has not been told to close.
    pub fn new() -> (handle: TaskHandle)
        ensures
            handle@ == (TaskHandleView { signalled: false, result: None }),
    {
        TaskHandle { signalled: false, result: None }
    }

    /// How the task ended, if it has: the result that a wait for the task
    /// returns. This does not ask the task to close.
    pub fn wait(&self) -> (result: Option<Result<(), TaskError>>)
        ensures
            result == self@.result,
    {
        self.result
    }

    /// Asks the task to close, and says whether the close signal has to be
    /// sent for it. Closing a handle that is closed already, or whose task
    /// has ended, is no error and sends nothing.
    pub fn close(&mut self) -> (send: bool)
        ensures
            send == old(self)@.must_signal(),
            final(self)@ == old(self)@.closed(),
    {
        let send = !self.signalled && self.result.is_none();
        self.signalled = true;
        send
    }

    /// Gives the handle up, and says how the task gets to know: an open
    /// signal ends with the handle, which counts as a close.
    pub fn release(self) -> (signal: Option<CloseSignal>)
        ensures
            signal == if self@.must_signal() {
                Some(CloseSignal::HandleDropped)
            } else {
                None
            },
    {
        if !self.signalled && self.result.is_none() {
            Some(CloseSignal::HandleDropped)
        } else {
            None
        }
    }

    /// The task has ended with `result`.
    pub fn finish(&mut self, result: Result<(), TaskError>)
        ensures
            final(self)@ == old(self)@.finished(result),
    {
        if self.result.is_none() {
            self.result = Some(result);
        }
    }

    /// The task was cancelled from outside: it ends as a task that cannot
    /// be joined.
    pub fn abort(&mut self)
        ensures
            final(self)@ == old(self)@.finished(Err(TaskError::Join)),
    {
        self.finish(Err(TaskError::Join));
    }
}

/// Closing is idempotent: a second close changes nothing and sends
/// nothing, and so does a close after the task has ended.
pub proof fn lemma_close_is_idempotent(v: TaskHandleView)
    ensures
        v.closed().closed() == v.closed(),
        !v.closed().must_signal(),
        v.result is Some ==> !v.must_signal() && v.closed().result == v.result,
{
}

/// The task is told to close at most once, however often the handle is
/// closed and whenever the task ends in between.
pub proof fn lemma_signal_at_most_once(v: TaskHandleView, result: Result<(), TaskError>)
    ensures
        v.must_signal() ==> !v.closed().must_signal(),
        !v.closed().finished(result).must_signal(),
        !v.finished(result).must_signal(),
{
}

} // verus!
