//! What awaits an operation: the slot its result is left in, and the states a
//! future goes through.
//!
//! A future holds a token and a result slot; the buffer itself lives in the
//! driver, which is what makes dropping an operation future safe.

use crate::driver::{Carried, Delivery, PendingRegistration, Resource};
use crate::error::Error;
use crate::handle::OperationId;
use crate::registry::{RegisteredBuf, RegisteredBuffers, RegistryInner};
use crate::token::Token;
use vstd::prelude::*;

verus! {

/// How an operation ended: the kernel's terminal result, along with what the
/// operation carried.
#[derive(Debug)]
pub struct Resolution<B, F> {
    /// The number of bytes transferred, or why the operation failed.
    pub result: Result<u32, Error>,
    /// What the operation carried.
    pub resource: Option<Resource<B, F>>,
}

/// Where a completed operation's result is left for its future to collect.
#[derive(Debug)]
pub struct ResultSlot<B, F, W> {
    /// The result, once the operation has ended and until it is collected.
    pub completed: Option<Resolution<B, F>>,
    /// The waker of the task that waits for the result.
    pub waker: Option<W>,
}

impl<B, F, W> ResultSlot<B, F, W> {
    /// Creates an empty slot.
    pub fn new() -> (slot: Self)
        ensures
            slot.completed is None,
            slot.waker is None,
    {
        ResultSlot { completed: None, waker: None }
    }

    /// The slot with a result left in it.
    pub open spec fn resolved<S>(self, delivery: Delivery<B, F, S>) -> Self {
        ResultSlot {
            completed: Some(Resolution { result: delivery.result, resource: delivery.resource }),
            waker: None,
        }
    }

    /// Leaves a result, and takes the waker of the task that waits for it.
    pub fn resolve<S>(&mut self, delivery: Delivery<B, F, S>) -> (waker: Option<W>)
        ensures
            waker == old(self).waker,
            *final(self) == old(self).resolved(delivery),
    {
        let Delivery { slot: _, result, resource } = delivery;
        self.completed = Some(Resolution { result, resource });
        self.waker.take()
    }

    /// The registered handle that lies in the slot, if one does.
    pub open spec fn handle_left(self) -> Option<RegisteredBuf<B>> {
        match self.completed {
            Some(Resolution { resource: Some(Resource::Buffer(Carried::Registered(handle))), .. })
                => Some(handle),
            _ => None,
        }
    }

    /// Takes the registered handle out of a slot that nobody collects from any more, so
    /// that its buffer can go back to its collection.
    pub fn abandoned(self) -> (handle: Option<RegisteredBuf<B>>)
        ensures
            handle == self.handle_left(),
    {
        match self.completed {
            Some(resolution) => match resolution.resource {
                Some(Resource::Buffer(Carried::Registered(handle))) => Some(handle),
                _ => None,
            },
            None => None,
        }
    }
}

/// The shared machinery behind every operation future.
#[derive(Debug)]
pub struct OpFuture {
    /// The operation.
    pub token: Token,
    /// Set once the operation has resolved, so that dropping the future knows there
    /// is nothing left to detach or cancel.
    pub finished: bool,
}

impl OpFuture {
    /// Awaits an operation.
    pub fn pending(token: Token) -> (future: Self)
        ensures
            future == (OpFuture { token, finished: false }),
    {
        OpFuture { token, finished: false }
    }

    /// What a poll leaves, and gives.
    pub open spec fn polled<B, F, W>(
        self,
        slot: ResultSlot<B, F, W>,
        waker: W,
        after: Self,
        slot_after: ResultSlot<B, F, W>,
        resolution: Option<Resolution<B, F>>,
    ) -> bool {
        &&& resolution == slot.completed
        &&& slot_after.completed is None
        &&& match slot.completed {
            Some(_) => after == (OpFuture { finished: true, ..self }) && slot_after.waker
                == slot.waker,
            None => after == self && slot_after.waker == Some(waker),
        }
    }

    /// Collects the result if there is one; otherwise records who waits for it.
    ///
    /// The waker is replaced on every poll, because the task polling now may not be
    /// the one that polled last time.
    pub fn poll_resolution<B, F, W>(
        &mut self,
        slot: &mut ResultSlot<B, F, W>,
        waker: W,
    ) -> (resolution: Option<Resolution<B, F>>)
        ensures
            old(self).polled(*old(slot), waker, *final(self), *final(slot), resolution),
    {
        match slot.completed.take() {
            Some(resolution) => {
                self.finished = true;
                Some(resolution)
            },
            None => {
                slot.waker = Some(waker);
                None
            },
        }
    }

    /// Returns the identifier for cancelling this operation.
    pub fn operation_id(&self) -> (id: OperationId)
        ensures
            id == OperationId(self.token),
    {
        OperationId(self.token)
    }

    /// Returns the operation to detach when this future is dropped.
    pub fn to_detach(&self) -> (token: Option<Token>)
        ensures
            token == if self.finished {
                None
            } else {
                Some(self.token)
            },
    {
        if self.finished {
            None
        } else {
            Some(self.token)
        }
    }

    /// What dropping the future leaves to be done: the operation to detach, unless its
    /// result was there already, and the registered handle that came with the result.
    pub open spec fn left<B, F, W>(
        self,
        slot: ResultSlot<B, F, W>,
    ) -> (Option<Token>, Option<RegisteredBuf<B>>) {
        (
            if self.finished || slot.completed is Some {
                None
            } else {
                Some(self.token)
            },
            slot.handle_left(),
        )
    }

    /// Gives the future up. Returns what is left to be done.
    pub fn dropped<B, F, W>(self, slot: ResultSlot<B, F, W>) -> (left: (
        Option<Token>,
        Option<RegisteredBuf<B>>,
    ))
        ensures
            left == self.left(slot),
    {
        let detach = if slot.completed.is_some() {
            None
        } else {
            self.to_detach()
        };
        (detach, slot.abandoned())
    }
}

/// A result, together with the buffer of the operation it belongs to.
#[derive(Debug)]
pub struct BufResult<T, B> {
    /// The result.
    pub result: Result<T, Error>,
    /// The buffer.
    pub buffer: B,
}

impl<T, B> BufResult<T, B> {
    /// Pairs a result with its buffer.
    pub fn new(result: Result<T, Error>, buffer: B) -> (paired: Self)
        ensures
            paired == (BufResult { result, buffer }),
    {
        BufResult { result, buffer }
    }

    /// Returns `true` if the operation succeeded.
    pub fn is_ok(&self) -> (ok: bool)
        ensures
            ok == self.result is Ok,
    {
        self.result.is_ok()
    }

    /// Returns the error, if the operation failed.
    pub fn err(&self) -> (error: Option<&Error>)
        ensures
            match self.result {
                Ok(_) => error is None,
                Err(e) => error == Some(&e),
            },
    {
        match &self.result {
            Ok(_) => None,
            Err(error) => Some(error),
        }
    }

    /// Unwraps a successful result.
    pub fn unwrap(self) -> (pair: (T, B))
        requires
            self.result is Ok,
        ensures
            pair == (self.result->Ok_0, self.buffer),
    {
        match self.result {
            Ok(value) => (value, self.buffer),
            Err(_) => vstd::pervasive::unreached(),
        }
    }
}

/// The result of a registration attempt.
///
/// On success the registration's buffers stay mapped for the life of the ring, but
/// the application keeps access to them through the returned collection. On failure
/// the buffers come straight back.
#[derive(Debug)]
pub enum Registered<T> {
    /// The registration succeeded, yielding the collection to check buffers out of.
    Accepted(RegisteredBuffers),
    /// The registration failed and the caller's resources are returned.
    Failed(Error, Vec<T>),
}

impl<T> Registered<T> {
    /// Returns `true` if the registration succeeded.
    pub fn is_ok(&self) -> (ok: bool)
        ensures
            ok == (self is Accepted),
    {
        match self {
            Registered::Accepted(_) => true,
            Registered::Failed(_, _) => false,
        }
    }

    /// Returns the error, if the registration failed.
    pub fn err(&self) -> (error: Option<&Error>)
        ensures
            match *self {
                Registered::Accepted(_) => error is None,
                Registered::Failed(e, _) => error == Some(&e),
            },
    {
        match self {
            Registered::Accepted(_) => None,
            Registered::Failed(error, _) => Some(error),
        }
    }

    /// Unwraps a successful registration, yielding its collection.
    pub fn unwrap(self) -> (buffers: RegisteredBuffers)
        requires
            self is Accepted,
        ensures
            buffers == self->Accepted_0,
    {
        match self {
            Registered::Accepted(buffers) => buffers,
            Registered::Failed(_, _) => vstd::pervasive::unreached(),
        }
    }
}

/// Whether a result slot that has a result also has the buffer that came with it.
pub open spec fn has_buffer<B, F, W>(slot: ResultSlot<B, F, W>) -> bool {
    slot.completed matches Some(resolution) ==> (resolution.resource matches Some(
        Resource::Buffer(_),
    ))
}

/// The buffer that came with a result.
pub open spec fn buffer_of<B, F>(resolution: Resolution<B, F>) -> Carried<B> {
    resolution.resource->0->Buffer_0
}

/// Turns a resolution into a buffer result, recovering the caller's buffer.
fn into_outcome<B, F>(resolution: Resolution<B, F>) -> (outcome: BufResult<u32, Carried<B>>)
    requires
        resolution.resource matches Some(Resource::Buffer(_)),
    ensures
        outcome == (BufResult { result: resolution.result, buffer: buffer_of(resolution) }),
{
    let Resolution { result, resource } = resolution;
    match resource {
        Some(Resource::Buffer(buffer)) => BufResult { result, buffer },
        _ => vstd::pervasive::unreached(),
    }
}

/// The states of a future whose operation carries a buffer.
#[derive(Debug)]
pub enum BufOpState<B> {
    /// Rejected before anything was submitted; the buffer never left.
    Failed(Error, Carried<B>),
    /// Submitted and awaiting completion.
    Waiting(OpFuture),
    /// Already resolved.
    Done,
}

impl<B> BufOpState<B> {
    /// What dropping a future in this state leaves to be done: the operation to detach,
    /// and the registered handle to return to its collection.
    pub open spec fn left<F, W>(
        self,
        slot: ResultSlot<B, F, W>,
    ) -> (Option<Token>, Option<RegisteredBuf<B>>) {
        match self {
            BufOpState::Failed(_, Carried::Registered(handle)) => (None, Some(handle)),
            BufOpState::Waiting(op) => op.left(slot),
            _ => (None, None),
        }
    }

    /// Gives a future in this state up, with its result slot. Returns what is left to be
    /// done.
    pub fn dropped<F, W>(self, slot: ResultSlot<B, F, W>) -> (left: (
        Option<Token>,
        Option<RegisteredBuf<B>>,
    ))
        ensures
            left == self.left(slot),
    {
        match self {
            BufOpState::Failed(_, Carried::Registered(handle)) => (None, Some(handle)),
            BufOpState::Waiting(op) => op.dropped(slot),
            _ => (None, None),
        }
    }
}

/// A read in progress.
#[derive(Debug)]
pub struct ReadFuture<B> {
    /// How far it has got.
    pub state: BufOpState<B>,
}

/// What a resolved read gives.
#[derive(Debug)]
pub struct ReadOutcome<B> {
    /// The result and the buffer.
    pub outcome: BufResult<u32, Carried<B>>,
    /// How many bytes of a buffer of the caller's own the kernel reported writing,
    /// and which are therefore to be counted as initialized.
    pub initialized: Option<usize>,
}

/// A buffer a read has finished with: a registered one holds as many initialized
/// bytes as were read.
pub open spec fn read_into<B>(result: Result<u32, Error>, buffer: Carried<B>) -> Carried<B> {
    match (result, buffer) {
        (Ok(transferred), Carried::Registered(handle)) => Carried::Registered(
            RegisteredBuf {
                initialized: crate::registry::smaller(
                    transferred as int,
                    handle.extent as int,
                ) as usize,
                ..handle
            },
        ),
        _ => buffer,
    }
}

impl<B> ReadFuture<B> {
    /// Gives the read up, with its result slot. Returns the operation to detach, and the
    /// registered handle to return to its collection.
    pub fn dropped<F, W>(self, slot: ResultSlot<B, F, W>) -> (left: (
        Option<Token>,
        Option<RegisteredBuf<B>>,
    ))
        ensures
            left == self.state.left(slot),
    {
        self.state.dropped(slot)
    }

    /// A read that was rejected.
    pub fn failed(error: Error, buffer: Carried<B>) -> (future: Self)
        ensures
            future.state == BufOpState::Failed(error, buffer),
    {
        ReadFuture { state: BufOpState::Failed(error, buffer) }
    }

    /// A read that was started.
    pub fn pending(token: Token) -> (future: Self)
        ensures
            future.state == BufOpState::<B>::Waiting(OpFuture { token, finished: false }),
    {
        ReadFuture { state: BufOpState::Waiting(OpFuture::pending(token)) }
    }

    /// Returns the identifier for cancelling this operation, if it was submitted.
    pub fn operation_id(&self) -> (id: Option<OperationId>)
        ensures
            id == match self.state {
                BufOpState::Waiting(op) => Some(OperationId(op.token)),
                _ => None,
            },
    {
        match &self.state {
            BufOpState::Waiting(op) => Some(op.operation_id()),
            _ => None,
        }
    }

    /// Polls the read.
    ///
    /// A read that has given its result must not be polled again. `registry` is where a
    /// registered buffer, read into like one of the caller's own, is counted.
    pub fn poll<F, W>(
        &mut self,
        slot: &mut ResultSlot<B, F, W>,
        registry: Option<&mut RegistryInner<B>>,
        waker: W,
    ) -> (outcome: Option<ReadOutcome<B>>)
        requires
            old(self).state !is Done,
            has_buffer(*old(slot)),
            registry matches Some(registry) ==> registry.wf(),
        ensures
            registry matches Some(registry) ==> final(registry).wf() && match outcome {
                Some(
                    ReadOutcome {
                        outcome: BufResult { result: Ok(_), buffer: Carried::Registered(handle) },
                        ..
                    },
                ) => registry.noted(handle, *final(registry)),
                _ => *final(registry) == *registry,
            },
            match old(self).state {
                BufOpState::Failed(error, buffer) => {
                    &&& outcome == Some(
                        ReadOutcome {
                            outcome: BufResult { result: Err::<u32, Error>(error), buffer },
                            initialized: None,
                        },
                    )
                    &&& final(self).state is Done
                    &&& *final(slot) == *old(slot)
                },
                BufOpState::Waiting(op) => match old(slot).completed {
                    None => {
                        &&& outcome is None
                        &&& *final(self) == *old(self)
                        &&& *final(slot) == (ResultSlot { waker: Some(waker), ..*old(slot) })
                    },
                    Some(resolution) => {
                        &&& outcome == Some(
                            ReadOutcome {
                                outcome: BufResult {
                                    result: resolution.result,
                                    buffer: read_into(resolution.result, buffer_of(resolution)),
                                },
                                initialized: match (resolution.result, buffer_of(resolution)) {
                                    (Ok(transferred), Carried::Owned(_)) => Some(
                                        transferred as usize,
                                    ),
                                    _ => None,
                                },
                            },
                        )
                        &&& final(self).state is Done
                        &&& *final(slot) == (ResultSlot { completed: None, ..*old(slot) })
                    },
                },
                BufOpState::Done => true,
            },
            outcome matches Some(read) ==> {
                &&& old(self).state is Waiting ==> (old(slot).completed matches Some(resolution)
                    && read.outcome.result == resolution.result)
                &&& read.initialized matches Some(n) ==> read.outcome.buffer is Owned && (
                read.outcome.result matches Ok(transferred) && n as int == transferred as int)
                &&& read.initialized is None ==> read.outcome.result is Err
                    || read.outcome.buffer is Registered
            },
            outcome is None ==> final(slot).waker == Some(waker),
    {
        let mut state: BufOpState<B> = BufOpState::Done;
        std::mem::swap(&mut state, &mut self.state);
        match state {
            BufOpState::Failed(error, buffer) => Some(
                ReadOutcome {
                    outcome: BufResult { result: Err(error), buffer },
                    initialized: None,
                },
            ),
            BufOpState::Done => None,
            BufOpState::Waiting(op) => {
                let mut op = op;
                match op.poll_resolution(slot, waker) {
                    None => {
                        self.state = BufOpState::Waiting(op);
                        None
                    },
                    Some(resolution) => {
                        let mut outcome = into_outcome(resolution);
                        let mut initialized: Option<usize> = None;
                        match &outcome.result {
                            Ok(transferred) => {
                                let count: usize = *transferred as usize;
                                match &mut outcome.buffer {
                                    Carried::Owned(_) => {
                                        initialized = Some(count);
                                    },
                                    Carried::Registered(handle) => {
                                        handle.set_buf_init(registry, count);
                                    },
                                }
                            },
                            Err(_) => {},
                        }
                        Some(ReadOutcome { outcome, initialized })
                    },
                }
            },
        }
    }
}

/// A write in progress.
#[derive(Debug)]
pub struct WriteFuture {
    /// The operation.
    pub inner: OpFuture,
    /// Set once a result has been handed out.
    pub done: bool,
}

impl WriteFuture {
    /// Gives the write up, with its result slot. Returns the operation to detach, and the
    /// registered handle to return to its collection.
    pub fn dropped<B, F, W>(self, slot: ResultSlot<B, F, W>) -> (left: (
        Option<Token>,
        Option<RegisteredBuf<B>>,
    ))
        ensures
            left == self.inner.left(slot),
    {
        self.inner.dropped(slot)
    }

    /// A write that was started.
    pub fn pending(token: Token) -> (future: Self)
        ensures
            future == (WriteFuture { inner: OpFuture { token, finished: false }, done: false }),
    {
        WriteFuture { inner: OpFuture::pending(token), done: false }
    }

    /// A write that was rejected. It never reaches the driver, so it needs no token;
    /// its result waits in the slot already, and is collected like any other.
    pub fn failed<B, F, W>(error: Error, buffer: Carried<B>) -> (future: (
        Self,
        ResultSlot<B, F, W>,
    ))
        ensures
            future.0 == (WriteFuture {
                inner: OpFuture { token: Token(0), finished: true },
                done: false,
            }),
            future.1 == (ResultSlot::<B, F, W> {
                completed: Some(
                    Resolution { result: Err(error), resource: Some(Resource::Buffer(buffer)) },
                ),
                waker: None,
            }),
    {
        (
            WriteFuture {
                inner: OpFuture { token: Token::from_user_data(0), finished: true },
                done: false,
            },
            ResultSlot {
                completed: Some(
                    Resolution { result: Err(error), resource: Some(Resource::Buffer(buffer)) },
                ),
                waker: None,
            },
        )
    }

    /// Returns the identifier for cancelling this operation, if it was submitted.
    pub fn operation_id(&self) -> (id: Option<OperationId>)
        ensures
            id == if self.inner.finished {
                None
            } else {
                Some(OperationId(self.inner.token))
            },
    {
        if self.inner.finished {
            None
        } else {
            Some(self.inner.operation_id())
        }
    }

    /// Polls the write.
    ///
    /// A write that has given its result must not be polled again.
    pub fn poll<B, F, W>(
        &mut self,
        slot: &mut ResultSlot<B, F, W>,
        waker: W,
    ) -> (outcome: Option<BufResult<u32, Carried<B>>>)
        requires
            !old(self).done,
            has_buffer(*old(slot)),
        ensures
            old(self).inner.polled(
                *old(slot),
                waker,
                final(self).inner,
                *final(slot),
                old(slot).completed,
            ),
            match old(slot).completed {
                None => outcome is None && !final(self).done,
                Some(resolution) => outcome == Some(
                    BufResult { result: resolution.result, buffer: buffer_of(resolution) },
                ) && final(self).done,
            },
            outcome matches Some(written) ==> (old(slot).completed matches Some(resolution)
                && written.result == resolution.result && resolution.resource == Some(
                Resource::<B, F>::Buffer(written.buffer),
            )),
            outcome is None ==> final(slot).waker == Some(waker),
    {
        match self.inner.poll_resolution(slot, waker) {
            None => None,
            Some(resolution) => {
                self.done = true;
                Some(into_outcome(resolution))
            },
        }
    }
}

/// The states of a flush.
#[derive(Debug)]
pub enum FlushState {
    /// Rejected before anything was submitted.
    Failed(Error),
    /// Submitted and awaiting completion.
    Waiting(OpFuture),
    /// Already resolved.
    Done,
}

/// A flush in progress.
///
/// Flush carries no caller buffer, so it resolves to a plain result.
#[derive(Debug)]
pub struct FlushFuture {
    /// How far it has got.
    pub state: FlushState,
}

impl FlushFuture {
    /// Returns the identifier for cancelling this operation, if it was submitted.
    pub fn operation_id(&self) -> (id: Option<OperationId>)
        ensures
            id == match self.state {
                FlushState::Waiting(op) => Some(OperationId(op.token)),
                _ => None,
            },
    {
        match &self.state {
            FlushState::Waiting(op) => Some(op.operation_id()),
            _ => None,
        }
    }

    /// Polls the flush.
    ///
    /// A flush that has given its result must not be polled again.
    pub fn poll<B, F, W>(
        &mut self,
        slot: &mut ResultSlot<B, F, W>,
        waker: W,
    ) -> (outcome: Option<Result<(), Error>>)
        requires
            old(self).state !is Done,
        ensures
            match old(self).state {
                FlushState::Failed(error) => {
                    &&& outcome == Some(Err::<(), Error>(error))
                    &&& final(self).state is Done
                    &&& *final(slot) == *old(slot)
                },
                FlushState::Waiting(op) => match old(slot).completed {
                    None => {
                        &&& outcome is None
                        &&& *final(self) == *old(self)
                        &&& *final(slot) == (ResultSlot { waker: Some(waker), ..*old(slot) })
                    },
                    Some(resolution) => {
                        &&& outcome == Some(
                            match resolution.result {
                                Ok(_) => Ok::<(), Error>(()),
                                Err(error) => Err::<(), Error>(error),
                            },
                        )
                        &&& final(self).state is Done
                        &&& *final(slot) == (ResultSlot { completed: None, ..*old(slot) })
                    },
                },
                FlushState::Done => true,
            },
            outcome matches Some(Ok(())) ==> (old(slot).completed matches Some(resolution)
                && resolution.result is Ok),
            outcome is None ==> final(slot).waker == Some(waker),
    {
        let mut state = FlushState::Done;
        std::mem::swap(&mut state, &mut self.state);
        match state {
            FlushState::Failed(error) => Some(Err(error)),
            FlushState::Done => None,
            FlushState::Waiting(op) => {
                let mut op = op;
                match op.poll_resolution(slot, waker) {
                    None => {
                        self.state = FlushState::Waiting(op);
                        None
                    },
                    Some(resolution) => match resolution.result {
                        Ok(_) => Some(Ok(())),
                        Err(error) => Some(Err(error)),
                    },
                }
            },
        }
    }
}

/// An operation against a registered buffer.
///
/// Resolves to the transfer count together with the buffer's handle. The handle
/// comes back whether the operation succeeded or failed, and whether or not it ever
/// reached the kernel.
#[derive(Debug)]
pub struct RegisteredOpFuture<B> {
    /// How far it has got.
    pub state: BufOpState<B>,
}

impl<B> RegisteredOpFuture<B> {
    /// Gives the operation up, with its result slot. Returns the operation to detach, and the
    /// registered handle to return to its collection.
    pub fn dropped<F, W>(self, slot: ResultSlot<B, F, W>) -> (left: (
        Option<Token>,
        Option<RegisteredBuf<B>>,
    ))
        ensures
            left == self.state.left(slot),
    {
        self.state.dropped(slot)
    }

    /// Returns the identifier for cancelling this operation, if it was submitted.
    pub fn operation_id(&self) -> (id: Option<OperationId>)
        ensures
            id == match self.state {
                BufOpState::Waiting(op) => Some(OperationId(op.token)),
                _ => None,
            },
    {
        match &self.state {
            BufOpState::Waiting(op) => Some(op.operation_id()),
            _ => None,
        }
    }

    /// Polls the operation.
    ///
    /// One that has given its result must not be polled again.
    pub fn poll<F, W>(
        &mut self,
        slot: &mut ResultSlot<B, F, W>,
        waker: W,
    ) -> (outcome: Option<BufResult<u32, Carried<B>>>)
        requires
            old(self).state !is Done,
            has_buffer(*old(slot)),
        ensures
            match old(self).state {
                BufOpState::Failed(error, buffer) => {
                    &&& outcome == Some(BufResult { result: Err::<u32, Error>(error), buffer })
                    &&& final(self).state is Done
                    &&& *final(slot) == *old(slot)
                },
                BufOpState::Waiting(op) => match old(slot).completed {
                    None => {
                        &&& outcome is None
                        &&& *final(self) == *old(self)
                        &&& *final(slot) == (ResultSlot { waker: Some(waker), ..*old(slot) })
                    },
                    Some(resolution) => {
                        &&& outcome == Some(
                            BufResult { result: resolution.result, buffer: buffer_of(resolution) },
                        )
                        &&& final(self).state is Done
                        &&& *final(slot) == (ResultSlot { completed: None, ..*old(slot) })
                    },
                },
                BufOpState::Done => true,
            },
            outcome matches Some(done) ==> match old(self).state {
                BufOpState::Failed(_, buffer) => done.result is Err && done.buffer == buffer,
                _ => old(slot).completed matches Some(resolution) && done.result
                    == resolution.result && resolution.resource == Some(
                    Resource::<B, F>::Buffer(done.buffer),
                ),
            },
            outcome is None ==> final(slot).waker == Some(waker),
    {
        let mut state: BufOpState<B> = BufOpState::Done;
        std::mem::swap(&mut state, &mut self.state);
        match state {
            BufOpState::Failed(error, buffer) => Some(BufResult { result: Err(error), buffer }),
            BufOpState::Done => None,
            BufOpState::Waiting(op) => {
                let mut op = op;
                match op.poll_resolution(slot, waker) {
                    None => {
                        self.state = BufOpState::Waiting(op);
                        None
                    },
                    Some(resolution) => Some(into_outcome(resolution)),
                }
            },
        }
    }
}

/// A registration in progress.
///
/// Registration carries the caller's resources but hands back no buffer of its own.
/// On failure it returns whatever the driver was holding, so the caller gets its
/// resources back.
#[derive(Debug)]
pub struct RegistrationFuture {
    /// The operation.
    pub inner: OpFuture,
}

/// What a registration resolves to.
pub type RegistrationOutcome<B, F> = Result<
    Option<RegisteredBuffers>,
    (Error, Option<PendingRegistration<B, F>>),
>;

/// What a registration's resolution means to its caller: a buffer registration
/// yields its collection, a file registration nothing, and a failed one what it
/// carried.
pub open spec fn registration_outcome<B, F>(resolution: Resolution<B, F>) -> RegistrationOutcome<
    B,
    F,
> {
    match resolution.result {
        Ok(_) => Ok(
            match resolution.resource {
                Some(Resource::Collection(collection)) => Some(collection),
                _ => None,
            },
        ),
        Err(error) => Err(
            (
                error,
                match resolution.resource {
                    Some(Resource::Unregistered(pending)) => Some(pending),
                    _ => None,
                },
            ),
        ),
    }
}

impl RegistrationFuture {
    /// Polls the registration.
    pub fn poll<B, F, W>(
        &mut self,
        slot: &mut ResultSlot<B, F, W>,
        waker: W,
    ) -> (outcome: Option<RegistrationOutcome<B, F>>)
        ensures
            old(self).inner.polled(
                *old(slot),
                waker,
                final(self).inner,
                *final(slot),
                old(slot).completed,
            ),
            outcome == match old(slot).completed {
                Some(resolution) => Some(registration_outcome(resolution)),
                None => None,
            },
    {
        match self.inner.poll_resolution(slot, waker) {
            None => None,
            Some(resolution) => {
                let Resolution { result, resource } = resolution;
                match result {
                    Ok(_) => Some(
                        Ok(
                            match resource {
                                Some(Resource::Collection(collection)) => Some(collection),
                                _ => None,
                            },
                        ),
                    ),
                    Err(error) => Some(
                        Err(
                            (
                                error,
                                match resource {
                                    Some(Resource::Unregistered(pending)) => Some(pending),
                                    _ => None,
                                },
                            ),
                        ),
                    ),
                }
            },
        }
    }
}

/// Turns a buffer registration's outcome into what its caller gets.
pub fn registered<B, F>(outcome: RegistrationOutcome<B, F>) -> (registered: Registered<B>)
    requires
        outcome is Ok ==> outcome->Ok_0 is Some,
    ensures
        match outcome {
            Ok(collection) => registered == Registered::<B>::Accepted(collection->0),
            Err((error, returned)) => {
                &&& registered matches Registered::Failed(e, buffers)
                &&& e == error
                &&& match returned {
                    Some(PendingRegistration::Buffers { buffers: own, .. }) => buffers == own,
                    _ => buffers@.len() == 0,
                }
            },
        },
{
    match outcome {
        Ok(collection) => Registered::Accepted(collection.unwrap()),
        Err((error, returned)) => Registered::Failed(
            error,
            crate::handle::unbox_pending(returned),
        ),
    }
}

} // verus!
