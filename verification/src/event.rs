//! The wait that a driver parks on, and the wait for a one-off event.
//!
//! A driver keeps one thread-pool registration armed for its whole life. The
//! callback runs on a thread-pool thread, so what it shares with the driver is kept
//! behind a lock by the caller; the state and its transitions are here.

use crate::join::{receive, Received};
use futures::channel::oneshot::Receiver as Remote;
use std::task::Context;
use vstd::prelude::*;

verus! {

/// State shared between the driver and the thread-pool callback.
#[derive(Debug)]
pub struct ArmedState<W> {
    /// Set by the callback, cleared only by a resolved poll.
    ///
    /// Sticky on purpose. A signal raised while nobody is polling must still be
    /// seen by the next poll, or a completion could be announced to nobody and the
    /// driver would park on work the platform has already finished.
    pub signalled: bool,
    /// The parked driver's waker, present only while it is parked.
    pub waker: Option<W>,
}

impl<W> ArmedState<W> {
    /// Creates the state of a wait that has not been signalled.
    pub fn new() -> (state: Self)
        ensures
            !state.signalled,
            state.waker is None,
    {
        ArmedState { signalled: false, waker: None }
    }

    /// Whether a poll resolves, and what it leaves.
    pub open spec fn polled_by(self, waker: W) -> (bool, Self) {
        if self.signalled {
            (true, ArmedState { signalled: false, waker: None })
        } else {
            (false, ArmedState { signalled: false, waker: Some(waker) })
        }
    }

    /// What the callback leaves.
    pub open spec fn signalled_by_callback(self) -> Self {
        ArmedState { signalled: true, waker: None }
    }

    /// Resolves if a signal is outstanding, consuming it; otherwise records the
    /// waker.
    ///
    /// The waker is replaced on every poll, not just the first, because the task
    /// driving may not be the one that parked last time.
    pub fn poll_signalled(&mut self, waker: W) -> (ready: bool)
        ensures
            (ready, *final(self)) == old(self).polled_by(waker),
    {
        if self.signalled {
            self.signalled = false;
            self.waker = None;
            return true;
        }
        self.waker = Some(waker);
        false
    }

    /// Drops the recorded waker without touching the signal.
    ///
    /// Losing the waker cannot lose a completion: the signal is sticky, so one
    /// arriving with no waker recorded is still seen by the next poll.
    pub fn release_waker(&mut self)
        ensures
            *final(self) == (ArmedState { waker: None, ..*old(self) }),
    {
        self.waker = None;
    }

    /// Takes note that the event was signalled, and takes the waker to wake once
    /// the lock is released.
    pub fn callback(&mut self) -> (waker: Option<W>)
        ensures
            waker == old(self).waker,
            *final(self) == old(self).signalled_by_callback(),
    {
        self.signalled = true;
        self.waker.take()
    }
}

/// Whether the thread-pool registration is still live.
///
/// Three states rather than a boolean, because `Released` and `Failed` license
/// **opposite** actions: after a successful release the count may be reclaimed and
/// the handle closed, while after a failed one neither may ever happen.
#[derive(Debug, Clone, Copy, PartialEq, Eq, Structural)]
pub enum Registration {
    /// Registered with the thread pool; the release step has not run.
    Live,
    /// Unregistering succeeded. No callback is running or can start.
    Released,
    /// Unregistering failed. A callback may still be running, so the count must
    /// never be reclaimed and the handle must never be closed.
    Failed,
}

/// One teardown step, as it is performed.
#[derive(Debug, Clone, Copy, PartialEq, Eq, Structural)]
pub enum Step {
    /// The registration was unregistered. Carries whether that succeeded.
    Unregister {
        /// Whether it succeeded.
        succeeded: bool,
    },
    /// The release step was entered in a state that was not `Live`, so it did
    /// nothing. Carries the state it observed.
    ReleaseSkipped(Registration),
    /// The operating system's reference count was reclaimed.
    Reclaim,
    /// The event handle was closed.
    Close,
}

/// An event with one thread-pool wait armed for its whole life.
#[derive(Debug)]
pub struct ArmedEvent {
    /// Whether the registration is still live.
    pub registration: Registration,
    /// Whether the operating system holds a reference count of the shared state.
    pub lent: bool,
    /// Whether the event handle is open.
    pub open: bool,
}

impl ArmedEvent {
    /// As long as a callback may run, what it borrows is there: the shared state's
    /// count is lent out, and the handle waited on is open.
    pub open spec fn wf(self) -> bool {
        self.registration != Registration::Released ==> self.lent && self.open
    }

    /// Arms the wait, given whether the thread pool accepted it.
    ///
    /// The count is handed over before the attempt. Where it fails nothing was
    /// registered, the callback will never run, and the count is taken back at
    /// once: there is no armed event then.
    pub fn new(accepted: bool) -> (armed: Option<ArmedEvent>)
        ensures
            armed == if accepted {
                Some(ArmedEvent { registration: Registration::Live, lent: true, open: true })
            } else {
                None
            },
    {
        if accepted {
            Some(ArmedEvent { registration: Registration::Live, lent: true, open: true })
        } else {
            None
        }
    }

    /// Returns whether the release step has to unregister the wait.
    ///
    /// Unregistering twice ends the process rather than returning an error, so it
    /// is done from the `Live` state only.
    pub fn must_unregister(&self) -> (b: bool)
        ensures
            b == (self.registration == Registration::Live),
    {
        self.registration == Registration::Live
    }

    /// Releases the thread-pool registration, given whether unregistering it
    /// succeeded. Idempotent: a registration that is no longer live is left as it
    /// is, and was not unregistered again.
    ///
    /// This is step one of three, and the only one that may run before the event is
    /// given up. Returns the state the registration is now in.
    pub fn release_registration(&mut self, unregistered: Option<bool>) -> (state: Registration)
        requires
            old(self).wf(),
            unregistered is Some == (old(self).registration == Registration::Live),
        ensures
            final(self).wf(),
            state == final(self).registration,
            *final(self) == (ArmedEvent {
                registration: match unregistered {
                    Some(true) => Registration::Released,
                    Some(false) => Registration::Failed,
                    None => old(self).registration,
                },
                ..*old(self)
            }),
    {
        match unregistered {
            Some(true) => {
                self.registration = Registration::Released;
            },
            Some(false) => {
                self.registration = Registration::Failed;
            },
            None => {},
        }
        self.registration
    }

    /// Reclaims the reference count handed to the operating system at arming.
    ///
    /// Step two of three. Sound only after a *successful* release: the count is
    /// what the callback borrows.
    fn reclaim_count(&mut self)
        requires
            old(self).registration == Registration::Released,
            old(self).lent,
        ensures
            *final(self) == (ArmedEvent { lent: false, ..*old(self) }),
    {
        self.lent = false;
    }

    /// Closes the event handle.
    ///
    /// Step three of three: closing a handle with a wait still pending on it is
    /// undefined, so this may only follow a successful release.
    fn close_event(&mut self)
        requires
            old(self).registration == Registration::Released,
            old(self).open,
        ensures
            *final(self) == (ArmedEvent { open: false, ..*old(self) }),
    {
        self.open = false;
    }

    /// Gives the event up: unregister, then reclaim, then close. Returns the steps
    /// in the order they are performed.
    ///
    /// A failed release stops the sequence. The wait may still be pending, so the
    /// count stays lent and the handle stays open for the life of the process.
    pub fn teardown(&mut self, unregistered: Option<bool>) -> (steps: Vec<Step>)
        requires
            old(self).wf(),
            old(self).lent,
            old(self).open,
            unregistered is Some == (old(self).registration == Registration::Live),
        ensures
            final(self).wf(),
            ({
                let first = match unregistered {
                    Some(succeeded) => Step::Unregister { succeeded },
                    None => Step::ReleaseSkipped(old(self).registration),
                };
                let state = match unregistered {
                    Some(true) => Registration::Released,
                    Some(false) => Registration::Failed,
                    None => old(self).registration,
                };
                &&& final(self).registration == state
                &&& if state == Registration::Released {
                    &&& steps@ == seq![first, Step::Reclaim, Step::Close]
                    &&& !final(self).lent
                    &&& !final(self).open
                } else {
                    &&& steps@ == seq![first]
                    &&& final(self).lent
                    &&& final(self).open
                }
            }),
    {
        let before = self.registration;
        let mut steps: Vec<Step> = Vec::new();
        match unregistered {
            Some(succeeded) => {
                steps.push(Step::Unregister { succeeded });
            },
            None => {
                steps.push(Step::ReleaseSkipped(before));
            },
        }
        if self.release_registration(unregistered) == Registration::Released {
            self.reclaim_count();
            steps.push(Step::Reclaim);
            self.close_event();
            steps.push(Step::Close);
        }
        steps
    }
}

/// How far a wait for one signal has got.
#[verifier::reject_recursive_types(H)]
pub enum EventWaitState<H> {
    /// Nothing has been registered.
    NotStarted,
    /// The wait is registered, and its callback will send.
    Waiting {
        /// The registration.
        wait_handle: H,
        /// Where the callback sends.
        receiver: Remote<()>,
    },
    /// The event was signalled.
    Completed,
}

/// A wait for one signal, through a registration of its own and a one-shot channel
/// that the callback sends on.
#[verifier::reject_recursive_types(H)]
pub struct EventWaitFuture<H> {
    /// How far the wait has got.
    pub state: EventWaitState<H>,
}

/// What a poll of an [`EventWaitFuture`] has to do.
#[derive(Debug, Clone, Copy, PartialEq, Eq, Structural)]
pub enum WaitAction {
    /// Register the wait, and poll again.
    Register,
    /// Look whether the callback has sent.
    PollReceiver,
    /// Nothing: the event was signalled.
    Ready,
}

/// What a poll found out.
#[derive(Debug, PartialEq, Eq)]
pub enum Waited<H> {
    /// The event was not signalled yet.
    Pending,
    /// The event was signalled; the registration is to be unregistered.
    Signalled(H),
    /// The callback went away without having sent, which it never does by itself; the
    /// registration is to be unregistered.
    Lost(H),
}

impl<H> EventWaitFuture<H> {
    /// A wait that has not begun.
    pub fn new() -> (wait: Self)
        ensures
            wait.state is NotStarted,
    {
        EventWaitFuture { state: EventWaitState::NotStarted }
    }

    /// Returns what a poll has to do.
    pub fn poll(&self) -> (action: WaitAction)
        ensures
            action == match self.state {
                EventWaitState::NotStarted => WaitAction::Register,
                EventWaitState::Waiting { .. } => WaitAction::PollReceiver,
                EventWaitState::Completed => WaitAction::Ready,
            },
    {
        match &self.state {
            EventWaitState::NotStarted => WaitAction::Register,
            EventWaitState::Waiting { .. } => WaitAction::PollReceiver,
            EventWaitState::Completed => WaitAction::Ready,
        }
    }

    /// Takes note of what came of registering the wait. A failure is the wait's
    /// result, and leaves it as it was.
    pub fn registered<E>(&mut self, registered: Result<(H, Remote<()>), E>) -> (failed: Option<E>)
        requires
            old(self).state is NotStarted,
        ensures
            match registered {
                Ok((wait_handle, receiver)) => failed is None && final(self).state == (
                EventWaitState::Waiting { wait_handle, receiver }),
                Err(error) => failed == Some(error) && *final(self) == *old(self),
            },
    {
        match registered {
            Ok((wait_handle, receiver)) => {
                self.state = EventWaitState::Waiting { wait_handle, receiver };
                None
            },
            Err(error) => Some(error),
        }
    }

    /// What taking note of what the callback's channel had leaves.
    pub open spec fn receives(self, received: Received<()>, after: Self, waited: Waited<H>) -> bool {
        match received {
            Received::Pending => waited == Waited::<H>::Pending && after == self,
            Received::Value(()) => waited == Waited::Signalled(self.state->wait_handle)
                && after.state is Completed,
            Received::Canceled => waited == Waited::Lost(self.state->wait_handle)
                && after.state is Completed,
        }
    }

    /// Looks whether the callback has sent: what the channel had, as
    /// [`EventWaitFuture::received`] takes it.
    pub fn poll_receiver(&mut self, cx: &mut Context<'_>) -> (waited: Waited<H>)
        requires
            old(self).state is Waiting,
        ensures
            *final(cx) == *old(cx),
            exists|half: &mut Remote<()>, context: &mut Context<'_>, received: Received<()>|
                *half == old(self).state->receiver && *context == *old(cx)
                    && #[trigger] crate::join::gives(half, context, received) && (EventWaitFuture {
                    state: EventWaitState::Waiting {
                        wait_handle: old(self).state->wait_handle,
                        receiver: *final(half),
                    },
                }).receives(received, *final(self), waited),
    {
        let received = match &mut self.state {
            EventWaitState::Waiting { receiver, .. } => receive(receiver, cx),
            _ => Received::Pending,
        };
        self.received(received)
    }

    /// Takes note of what the callback's channel had.
    pub fn received(&mut self, received: Received<()>) -> (waited: Waited<H>)
        requires
            old(self).state is Waiting,
        ensures
            old(self).receives(received, *final(self), waited),
    {
        match received {
            Received::Pending => {
                return Waited::Pending;
            },
            _ => {},
        }
        let mut state: EventWaitState<H> = EventWaitState::Completed;
        std::mem::swap(&mut state, &mut self.state);
        match (state, received) {
            (EventWaitState::Waiting { wait_handle, .. }, Received::Value(())) => {
                Waited::Signalled(wait_handle)
            },
            (EventWaitState::Waiting { wait_handle, .. }, _) => Waited::Lost(wait_handle),
            _ => Waited::Pending,
        }
    }

    /// Gives the wait up, and returns the registration to unregister if it is still
    /// waiting.
    pub fn dropped(self) -> (unregister: Option<H>)
        ensures
            unregister == match self.state {
                EventWaitState::Waiting { wait_handle, .. } => Some(wait_handle),
                _ => None,
            },
    {
        match self.state {
            EventWaitState::Waiting { wait_handle, receiver: _ } => Some(wait_handle),
            _ => None,
        }
    }
}

/// A timeout that never ends a wait.
pub const INFINITE: u32 = 0xFFFF_FFFF;

/// What the platform answers to a wait that ended because the event was signalled.
pub const WAIT_SIGNALLED: u32 = 0;

/// Returns the timeout to wait with, in milliseconds: without one, for ever.
pub fn wait_timeout(timeout_ms: Option<u32>) -> (timeout: u32)
    ensures
        timeout == match timeout_ms {
            Some(timeout) => timeout,
            None => INFINITE,
        },
        timeout_ms is None ==> timeout == u32::MAX,
{
    match timeout_ms {
        Some(timeout) => timeout,
        None => INFINITE,
    }
}

/// Returns whether a wait ended because the event was signalled. Any other answer, a
/// timeout included, is a failure.
pub fn wait_succeeded(answer: u32) -> (signalled: bool)
    ensures
        signalled == (answer == WAIT_SIGNALLED),
        signalled <==> answer == 0,
{
    answer == WAIT_SIGNALLED
}

} // verus!
