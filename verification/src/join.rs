//! Awaiting a task whose result comes from another thread.

use crate::rt::{JoinError, ThreadSafeWakerHandle};
use futures::channel::oneshot::{Canceled, Receiver as Remote};
use futures::FutureExt;
use std::task::{Context, Poll};
use vstd::prelude::*;

verus! {

/// `futures::channel::oneshot::Receiver`: the receiving half of a channel whose
/// sending half may be on another thread.
#[verifier::external_type_specification]
#[verifier::external_body]
#[verifier::reject_recursive_types(T)]
pub struct ExRemote<T>(Remote<T>);

/// `futures::channel::oneshot::Canceled`: the error of a channel whose sender is
/// gone without having sent.
#[verifier::external_type_specification]
#[verifier::external_body]
pub struct ExCanceled(Canceled);

/// `std::task::Context`: the context a task is polled in.
#[verifier::external_type_specification]
#[verifier::external_body]
pub struct ExContext<'a>(std::task::Context<'a>);

/// What a channel had for its receiver.
#[derive(Debug)]
pub enum Received<T> {
    /// The value that was sent.
    Value(T),
    /// Nothing, and nothing will come: the sender is gone.
    Canceled,
    /// Nothing yet.
    Pending,
}

/// Polls the receiving half of a channel: `futures::channel::oneshot::Receiver`'s
/// `Future::poll`, through `FutureExt::poll_unpin`.
///
/// The contract claims that the context stays what it is: a poll clones its waker and
/// does no more to it. What comes back depends on what the sender, which may be on
/// another thread, has done by then, so nothing is stated of it, nor of the receiver,
/// which gives a value up once.
#[verifier::external_body]
fn poll_receiver<T>(receiver: &mut Remote<T>, cx: &mut Context<'_>) -> (received: Received<T>)
    ensures
        *final(cx) == *old(cx),
{
    match receiver.poll_unpin(cx) {
        Poll::Ready(Ok(value)) => Received::Value(value),
        Poll::Ready(Err(Canceled)) => Received::Canceled,
        Poll::Pending => Received::Pending,
    }
}

/// Whether one poll of `receiver` in `context` can give `received`. What the receiver
/// is afterwards is what `final` says of it.
pub closed spec fn gives<T>(
    receiver: &mut Remote<T>,
    context: &mut Context<'_>,
    received: Received<T>,
) -> bool {
    call_ensures(poll_receiver::<T>, (receiver, context), received)
}

/// Calls `f`, and says that what comes back is what `f` gave for these arguments.
fn outcome_of<A, B, R, F: Fn(A, B) -> R>(a: A, b: B, f: F) -> (outcome: R)
    requires
        call_requires(f, (a, b)),
    ensures
        call_ensures(f, (a, b), outcome),
{
    f(a, b)
}

/// Polls the receiving half of a channel, once.
pub(crate) fn receive<T>(receiver: &mut Remote<T>, cx: &mut Context<'_>) -> (received: Received<T>)
    ensures
        *final(cx) == *old(cx),
        exists|half: &mut Remote<T>, context: &mut Context<'_>|
            *half == *old(receiver) && *final(half) == *final(receiver) && *context == *old(cx)
                && #[trigger] gives(half, context, received),
{
    let ghost half = receiver;
    let ghost context = cx;
    let received = outcome_of(receiver, cx, poll_receiver::<T>);
    assert(gives(half, context, received));
    received
}

impl<T> Received<T> {
    /// What this means to whoever joins the task.
    pub open spec fn spec_joined(self) -> Option<Result<T, JoinError>> {
        match self {
            Received::Value(value) => Some(Ok(value)),
            Received::Canceled => Some(Err(JoinError::TaskAborted)),
            Received::Pending => None,
        }
    }

    /// Returns what this means to whoever joins the task: a sender that is gone
    /// without having sent means that the task was aborted.
    pub fn joined(self) -> (joined: Option<Result<T, JoinError>>)
        ensures
            joined == self.spec_joined(),
    {
        match self {
            Received::Value(value) => Some(Ok(value)),
            Received::Canceled => Some(Err(JoinError::TaskAborted)),
            Received::Pending => None,
        }
    }
}

/// A thread-safe handle that can be awaited and woken from other threads.
#[verifier::reject_recursive_types(T)]
pub struct ThreadSafeJoinHandle<T> {
    /// Where the task leaves its result.
    pub receiver: Remote<T>,
    /// Wakes the task.
    pub waker_handle: ThreadSafeWakerHandle,
}

impl<T> ThreadSafeJoinHandle<T> {
    /// Polls for the task's result: what the channel had, as [`Received::joined`]
    /// reads it.
    pub fn poll(&mut self, cx: &mut Context<'_>) -> (joined: Option<Result<T, JoinError>>)
        ensures
            final(self).waker_handle == old(self).waker_handle,
            *final(cx) == *old(cx),
            exists|half: &mut Remote<T>, context: &mut Context<'_>, received: Received<T>|
                *half == old(self).receiver && *final(half) == final(self).receiver && *context
                    == *old(cx) && #[trigger] gives(half, context, received) && joined
                    == received.spec_joined(),
    {
        let received = receive(&mut self.receiver, cx);
        received.joined()
    }

    /// Get a handle that can be used to wake the task from other threads.
    pub fn waker_handle(&self) -> (handle: ThreadSafeWakerHandle)
        ensures
            handle == self.waker_handle,
    {
        self.waker_handle
    }
}

} // verus!
