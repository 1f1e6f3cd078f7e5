//! Joining a background stream's task.
use vstd::prelude::*;

verus! {

/// The declaration of `tokio::sync::watch::Sender`.
#[verifier::external_type_specification]
#[verifier::external_body]
#[verifier::reject_recursive_types(T)]
pub struct ExWatchSender<T>(tokio::sync::watch::Sender<T>);

/// `watch::Sender::send`: signal the receivers. Where every receiver is gone
/// the signal has no one to reach; that is no failure of closing.
#[verifier::external_body]
fn signal(sender: &tokio::sync::watch::Sender<()>)
    opens_invariants none
    no_unwind
{
    let _ = sender.send(());
}

/// Closes the relayer's streams: on `close`, and when dropped.
pub struct Close {
    close_blocks: tokio::sync::watch::Sender<()>,
}

impl Close {
    /// The channel that the closer signals on.
    pub closed spec fn channel(&self) -> tokio::sync::watch::Sender<()> {
        self.close_blocks
    }

    /// A closer that signals on the given channel.
    pub fn new(close_blocks: tokio::sync::watch::Sender<()>) -> (r: Self)
        ensures
            r.channel() == close_blocks,
    {
        Close { close_blocks }
    }

    /// Signal the streams to close.
    pub fn close(&self)
        opens_invariants none
        no_unwind
    {
        signal(&self.close_blocks);
    }
}

impl Drop for Close {
    fn drop(&mut self)
        opens_invariants none
        no_unwind
    {
        self.close();
    }
}

/// How a task failed to join.
#[derive(Clone, Copy, Debug, PartialEq, Eq, Structural)]
pub enum JoinFailure {
    /// The task panicked.
    Panicked,
    /// The task was cancelled.
    Cancelled,
}

/// What joining a stream's task comes to.
#[derive(Debug)]
pub enum Joined<E> {
    /// The stream finished with this result.
    Finished(Result<(), E>),
    /// The task panicked: the panic is to be resumed.
    ResumePanic,
}

/// Flatten the result of joining a task into the stream's result: a task that
/// finished gives its own result, a panicked task has its panic resumed, and a
/// cancelled task counts as a stream that finished successfully.
pub fn flatten_result<E>(result: Result<Result<(), E>, JoinFailure>) -> (r: Joined<E>)
    ensures
        result matches Ok(inner) ==> r == Joined::Finished(inner),
        result == Err::<Result<(), E>, JoinFailure>(JoinFailure::Panicked) ==> r
            == Joined::<E>::ResumePanic,
        result == Err::<Result<(), E>, JoinFailure>(JoinFailure::Cancelled) ==> r
            == Joined::<E>::Finished(Ok(())),
{
    match result {
        // Joined successfully: return the result from the task.
        Ok(r) => Joined::Finished(r),
        // If the task panicked then resume the panic.
        Err(JoinFailure::Panicked) => Joined::ResumePanic,
        // If the task was cancelled then the stream is considered to have finished.
        Err(JoinFailure::Cancelled) => Joined::Finished(Ok(())),
    }
}

} // verus!
