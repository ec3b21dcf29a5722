//! What a handle asks of the driver: starting operations, cancelling them, and
//! shutting down.
//!
//! An operation starts in two steps. The first checks the request and parks its
//! resources in the slab, which fixes the user data of the queue entry to build.
//! The second, [`DriverInner::entry_built`], takes note of whether the entry
//! reached the submission queue; if it did not, the resources come straight back.

use crate::driver::{
    CancelRequest, Carried, DriverInner, OpPayload, PendingRegistration, ShutdownMode,
};
use crate::error::{BufError, Error};
use crate::registry::{RegisteredBuf, RegisteredBuffers};
use crate::slab::{Lifecycle, Operation};
use crate::token::{Token, TokenKind};
use std::rc::Rc;
use vstd::prelude::*;

verus! {

/// Identifies a submitted operation, for explicit cancellation.
#[derive(Debug, Clone, Copy, PartialEq, Eq, Hash, Structural)]
pub struct OperationId(pub Token);

/// How much work the driver's submissions to the kernel have carried.
///
/// The ratio of `entries` to `submissions` is the mean number of entries one
/// submission covered.
#[derive(Debug, Clone, Copy, PartialEq, Eq, Structural)]
pub struct SubmissionCounts {
    /// How many submissions to the kernel have succeeded.
    pub submissions: u64,
    /// How many entries those submissions covered in total.
    pub entries: u64,
}

/// Names the file an operation targets.
#[derive(Debug)]
pub enum FileTarget<F> {
    /// A file the caller owns.
    Owned {
        /// Keeps the handle open.
        file: Rc<F>,
        /// The handle.
        raw: isize,
    },
    /// A previously registered file handle.
    Registered {
        /// The registration index.
        index: u32,
    },
}

/// How a queue entry names its file.
#[derive(Debug, Clone, Copy, PartialEq, Eq, Structural)]
pub enum HandleRef {
    /// By its handle.
    Raw(isize),
    /// By its registered index.
    Registered(u32),
}

/// How a queue entry names its buffer.
#[derive(Debug, Clone, Copy, PartialEq, Eq, Structural)]
pub enum DataRef {
    /// By the address of the buffer parked in the slab.
    Parked,
    /// By its registered index, and the offset within it.
    Registered {
        /// The registered index.
        index: u32,
        /// The offset within the buffer.
        offset: u32,
    },
}

/// What a queue entry does.
#[derive(Debug, Clone, Copy, PartialEq, Eq, Structural)]
pub enum EntryKind {
    /// Reads into the buffer.
    Read,
    /// Writes from the buffer, with the platform's write flags.
    Write {
        /// The platform's write flags.
        flags: u32,
    },
    /// Flushes the file, with the platform's flush mode.
    Flush {
        /// The platform's flush mode.
        mode: u32,
    },
}

/// A queue entry to build.
#[derive(Debug, Clone, Copy, PartialEq, Eq, Structural)]
pub struct Entry {
    /// What it does.
    pub kind: EntryKind,
    /// Its file.
    pub handle: HandleRef,
    /// Its buffer. A flush has none, and names none.
    pub data: DataRef,
    /// How many bytes to transfer.
    pub len: u32,
    /// Where in the file.
    pub offset: u64,
    /// The user data its completion carries.
    pub user_data: usize,
    /// The submission queue entry flags.
    pub sqe_flags: u32,
}

/// What came of building a queue entry.
#[derive(Debug)]
pub enum Queued<B, F, S, W> {
    /// The entry is queued; the parked driver, if any, is to be woken.
    Queued(Option<W>),
    /// The entry never reached the queue, and what it carried comes back.
    Rejected(Error, Box<OpPayload<B, F, S>>),
}

/// What came of dropping an operation's future.
#[derive(Debug)]
pub struct Dropped<F, W> {
    /// A cancellation to build.
    pub request: Option<CancelRequest<F>>,
    /// The parked driver to wake.
    pub waker: Option<W>,
}

impl<F> FileTarget<F> {
    /// How a queue entry names this file.
    pub open spec fn spec_handle(self) -> HandleRef {
        match self {
            FileTarget::Owned { raw, .. } => HandleRef::Raw(raw),
            FileTarget::Registered { index } => HandleRef::Registered(index),
        }
    }

    /// The file to keep open.
    pub open spec fn spec_file(self) -> Option<Rc<F>> {
        match self {
            FileTarget::Owned { file, .. } => Some(file),
            FileTarget::Registered { .. } => None,
        }
    }

    /// The registered index named instead of a file.
    pub open spec fn spec_index(self) -> Option<u32> {
        match self {
            FileTarget::Owned { .. } => None,
            FileTarget::Registered { index } => Some(index),
        }
    }
}

impl<B> Carried<B> {
    /// How many bytes the buffer can take in, given the `capacity` of one that the
    /// caller owns.
    pub open spec fn spec_capacity(self, capacity: usize) -> usize {
        match self {
            Carried::Owned(_) => capacity,
            Carried::Registered(handle) => handle.extent,
        }
    }

    /// How many bytes the buffer can give out, given the `initialized` length of
    /// one that the caller owns.
    pub open spec fn spec_initialized(self, initialized: usize) -> usize {
        match self {
            Carried::Owned(_) => initialized,
            Carried::Registered(handle) => handle.initialized,
        }
    }

    /// A registered buffer's handle is in order.
    pub open spec fn wf(self) -> bool {
        self matches Carried::Registered(handle) ==> handle.wf()
    }
}

/// The refusal of a transfer of `len` bytes by a buffer that offers `available`.
pub open spec fn too_small(len: u32, available: usize) -> Error {
    Error::Buf(BufError::TooSmall { requested: len as u64, available: available as u64 })
}

impl<B, F, S, W> DriverInner<B, F, S, W> {
    /// Why an operation is refused before its buffer is looked at.
    pub open spec fn refusal(self, supported: Result<(), Error>) -> Option<Error> {
        if self.shutdown != ShutdownMode::Running {
            Some(Error::ShuttingDown)
        } else {
            match supported {
                Err(error) => Some(error),
                Ok(()) => None,
            }
        }
    }

    /// Why a transfer of `len` bytes is refused by a buffer that offers
    /// `available`.
    pub open spec fn transfer_refusal(
        self,
        supported: Result<(), Error>,
        len: u32,
        available: usize,
    ) -> Option<Error> {
        match self.refusal(supported) {
            Some(error) => Some(error),
            None => if len > available {
                Some(too_small(len, available))
            } else if self.slab@.is_full() {
                Some(Error::TooManyOperations)
            } else {
                None
            },
        }
    }

    /// What parking a payload leaves: its queue entry is to be built.
    pub open spec fn parked(self, payload: OpPayload<B, F, S>, after: Self) -> bool {
        &&& after.slab@ == self.slab@.inserted(Box::new(payload))
        &&& after == (DriverInner {
            slab: after.slab,
            building: Some(self.slab@.next_token()),
            ..self
        })
    }

    /// Returns why an operation is refused before its buffer is looked at.
    fn refuse(&self, supported: Result<(), Error>) -> (refused: Option<Error>)
        ensures
            refused == self.refusal(supported),
    {
        if self.shutdown != ShutdownMode::Running {
            return Some(Error::ShuttingDown);
        }
        match supported {
            Err(error) => Some(error),
            Ok(()) => None,
        }
    }

    /// Parks a payload in the slab, unless the slab is full.
    fn park_payload(&mut self, payload: OpPayload<B, F, S>) -> (placed: Result<
        Token,
        Box<OpPayload<B, F, S>>,
    >)
        requires
            old(self).wf(),
            old(self).building is None,
            payload.wf(),
            payload.registers_buffers() ==> !old(self).registration_in_flight && (old(
                self,
            ).buffer_registration matches Some(registry) ==> registry.is_whole()),
        ensures
            final(self).wf(),
            old(self).leads_to(*final(self)),
            if old(self).slab@.is_full() {
                placed == Err::<Token, Box<OpPayload<B, F, S>>>(Box::new(payload)) && *final(self)
                    == *old(self)
            } else {
                placed == Ok::<Token, Box<OpPayload<B, F, S>>>(old(self).slab@.next_token()) && old(
                    self,
                ).parked(payload, *final(self))
            },
            placed matches Ok(token) ==> (final(self).slab@.operation(token) matches Some(op)
                && *op.payload == payload),
    {
        let ghost before = *self;
        match self.slab.insert(Box::new(payload)) {
            Ok(token) => {
                self.building = Some(token);
                proof {
                    crate::driver::lemma_inserted(before, payload);
                    before.slab.lemma_wf();
                    crate::slab_laws::law_issued_tokens_are_fresh(
                        before.slab@,
                        Box::new(payload),
                        token,
                    );
                }
                Ok(token)
            },
            Err(payload) => Err(payload),
        }
    }

    /// Starts a read into `buffer`.
    ///
    /// `capacity` is what a buffer of the caller's own can hold; `supported` is
    /// whether the ring implements reads. The buffer is moved into the driver for
    /// the duration of the operation; on refusal it comes straight back.
    ///
    /// # Errors
    ///
    /// In this order: [`Error::ShuttingDown`] once shutdown was requested, what
    /// the ring says of an operation it lacks, [`BufError::TooSmall`] if the read
    /// exceeds the buffer's capacity, and [`Error::TooManyOperations`] if the
    /// driver is tracking as many operations as it can.
    pub fn try_read(
        &mut self,
        file: Rc<F>,
        raw: isize,
        buffer: Carried<B>,
        capacity: usize,
        len: u32,
        offset: u64,
        sqe_flags: u32,
        supported: Result<(), Error>,
        slot: S,
    ) -> (started: Result<Entry, (Error, Carried<B>)>)
        requires
            old(self).wf(),
            old(self).building is None,
            buffer.wf(),
        ensures
            final(self).wf(),
            old(self).leads_to(*final(self)),
            match old(self).transfer_refusal(supported, len, buffer.spec_capacity(capacity)) {
                Some(error) => started == Err::<Entry, (Error, Carried<B>)>((error, buffer))
                    && *final(self) == *old(self),
                None => {
                    &&& started == Ok::<Entry, (Error, Carried<B>)>(
                        Entry {
                            kind: EntryKind::Read,
                            handle: HandleRef::Raw(raw),
                            data: DataRef::Parked,
                            len,
                            offset,
                            user_data: old(self).slab@.next_token().0,
                            sqe_flags,
                        },
                    )
                    &&& old(self).parked(
                        OpPayload {
                            buffer: Some(buffer),
                            file: Some(file),
                            slot,
                            registered_buffer: None,
                            registered_file: None,
                            pending_registration: None,
                        },
                        *final(self),
                    )
                },
            },
            started matches Ok(entry) ==> {
                &&& entry.kind == EntryKind::Read
                &&& entry.handle == HandleRef::Raw(raw)
                &&& entry.len == len
                &&& entry.offset == offset
                &&& entry.sqe_flags == sqe_flags
                &&& buffer is Owned ==> len <= capacity
                &&& buffer matches Carried::Registered(handle) ==> len <= handle.extent
                &&& final(self).slab@.operation(Token(entry.user_data)) matches Some(op)
                &&& op.payload.buffer == Some(buffer)
                &&& op.payload.file == Some(file)
                &&& op.payload.slot == slot
            },
    {
        match self.refuse(supported) {
            Some(error) => {
                return Err((error, buffer));
            },
            None => {},
        }
        let available: usize = match &buffer {
            Carried::Owned(_) => capacity,
            Carried::Registered(handle) => handle.capacity(),
        };
        self.try_transfer(EntryKind::Read, file, raw, buffer, available, len, offset, sqe_flags, slot)
    }

    /// Starts a write from `buffer`.
    ///
    /// The write is bounded by the buffer's *initialized* length, not its
    /// capacity, so uninitialized memory is never handed to the kernel;
    /// `initialized` is that length for a buffer of the caller's own.
    ///
    /// # Errors
    ///
    /// As for [`DriverInner::try_read`], with the initialized length as the bound.
    pub fn try_write(
        &mut self,
        file: Rc<F>,
        raw: isize,
        buffer: Carried<B>,
        initialized: usize,
        len: u32,
        offset: u64,
        flags: u32,
        sqe_flags: u32,
        supported: Result<(), Error>,
        slot: S,
    ) -> (started: Result<Entry, (Error, Carried<B>)>)
        requires
            old(self).wf(),
            old(self).building is None,
            buffer.wf(),
        ensures
            final(self).wf(),
            old(self).leads_to(*final(self)),
            match old(self).transfer_refusal(supported, len, buffer.spec_initialized(initialized)) {
                Some(error) => started == Err::<Entry, (Error, Carried<B>)>((error, buffer))
                    && *final(self) == *old(self),
                None => {
                    &&& started == Ok::<Entry, (Error, Carried<B>)>(
                        Entry {
                            kind: EntryKind::Write { flags },
                            handle: HandleRef::Raw(raw),
                            data: DataRef::Parked,
                            len,
                            offset,
                            user_data: old(self).slab@.next_token().0,
                            sqe_flags,
                        },
                    )
                    &&& old(self).parked(
                        OpPayload {
                            buffer: Some(buffer),
                            file: Some(file),
                            slot,
                            registered_buffer: None,
                            registered_file: None,
                            pending_registration: None,
                        },
                        *final(self),
                    )
                },
            },
            started matches Ok(entry) ==> {
                &&& entry.kind == (EntryKind::Write { flags })
                &&& entry.handle == HandleRef::Raw(raw)
                &&& entry.len == len
                &&& entry.offset == offset
                &&& entry.sqe_flags == sqe_flags
                &&& buffer is Owned ==> len <= initialized
                &&& buffer matches Carried::Registered(handle) ==> len <= handle.initialized
                &&& final(self).slab@.operation(Token(entry.user_data)) matches Some(op)
                &&& op.payload.buffer == Some(buffer)
                &&& op.payload.file == Some(file)
                &&& op.payload.slot == slot
            },
    {
        match self.refuse(supported) {
            Some(error) => {
                return Err((error, buffer));
            },
            None => {},
        }
        let available: usize = match &buffer {
            Carried::Owned(_) => initialized,
            Carried::Registered(handle) => handle.buf_len(),
        };
        self.try_transfer(
            EntryKind::Write { flags },
            file,
            raw,
            buffer,
            available,
            len,
            offset,
            sqe_flags,
            slot,
        )
    }

    /// Starts a transfer that is not refused out of hand.
    fn try_transfer(
        &mut self,
        kind: EntryKind,
        file: Rc<F>,
        raw: isize,
        buffer: Carried<B>,
        available: usize,
        len: u32,
        offset: u64,
        sqe_flags: u32,
        slot: S,
    ) -> (started: Result<Entry, (Error, Carried<B>)>)
        requires
            old(self).wf(),
            old(self).building is None,
            buffer.wf(),
        ensures
            final(self).wf(),
            old(self).leads_to(*final(self)),
            if len > available {
                started == Err::<Entry, (Error, Carried<B>)>((too_small(len, available), buffer))
                    && *final(self) == *old(self)
            } else if old(self).slab@.is_full() {
                started == Err::<Entry, (Error, Carried<B>)>((Error::TooManyOperations, buffer))
                    && *final(self) == *old(self)
            } else {
                &&& started == Ok::<Entry, (Error, Carried<B>)>(
                    Entry {
                        kind,
                        handle: HandleRef::Raw(raw),
                        data: DataRef::Parked,
                        len,
                        offset,
                        user_data: old(self).slab@.next_token().0,
                        sqe_flags,
                    },
                )
                &&& old(self).parked(
                    OpPayload {
                        buffer: Some(buffer),
                        file: Some(file),
                        slot,
                        registered_buffer: None,
                        registered_file: None,
                        pending_registration: None,
                    },
                    *final(self),
                )
            },
            started matches Ok(entry) ==> (final(self).slab@.operation(
                Token(entry.user_data),
            ) matches Some(op) && op.payload.buffer == Some(buffer) && op.payload.file == Some(file)
                && op.payload.slot == slot),
    {
        if len as u64 > available as u64 {
            return Err(
                (
                    Error::Buf(
                        BufError::TooSmall { requested: len as u64, available: available as u64 },
                    ),
                    buffer,
                ),
            );
        }
        let payload = OpPayload {
            buffer: Some(buffer),
            file: Some(file),
            slot,
            registered_buffer: None,
            registered_file: None,
            pending_registration: None,
        };
        match self.park_payload(payload) {
            Ok(token) => Ok(
                Entry {
                    kind,
                    handle: HandleRef::Raw(raw),
                    data: DataRef::Parked,
                    len,
                    offset,
                    user_data: token.as_user_data(),
                    sqe_flags,
                },
            ),
            Err(payload) => Err((Error::TooManyOperations, recover_buffer(payload))),
        }
    }

    /// Starts a flush of `file`, with the platform's flush mode.
    ///
    /// A flush carries no caller buffer, but still needs the file kept open for as
    /// long as the kernel is working on it.
    ///
    /// # Errors
    ///
    /// As for [`DriverInner::try_read`], but for the buffer.
    pub fn try_flush(
        &mut self,
        file: Rc<F>,
        raw: isize,
        mode: u32,
        sqe_flags: u32,
        supported: Result<(), Error>,
        slot: S,
    ) -> (started: Result<Entry, Error>)
        requires
            old(self).wf(),
            old(self).building is None,
        ensures
            final(self).wf(),
            old(self).leads_to(*final(self)),
            match old(self).refusal(supported) {
                Some(error) => started == Err::<Entry, Error>(error) && *final(self) == *old(self),
                None => if old(self).slab@.is_full() {
                    started == Err::<Entry, Error>(Error::TooManyOperations) && *final(self)
                        == *old(self)
                } else {
                    &&& started == Ok::<Entry, Error>(
                        Entry {
                            kind: EntryKind::Flush { mode },
                            handle: HandleRef::Raw(raw),
                            data: DataRef::Parked,
                            len: 0,
                            offset: 0,
                            user_data: old(self).slab@.next_token().0,
                            sqe_flags,
                        },
                    )
                    &&& old(self).parked(
                        OpPayload {
                            buffer: None,
                            file: Some(file),
                            slot,
                            registered_buffer: None,
                            registered_file: None,
                            pending_registration: None,
                        },
                        *final(self),
                    )
                },
            },
            started matches Ok(entry) ==> {
                &&& entry.kind == (EntryKind::Flush { mode })
                &&& entry.handle == HandleRef::Raw(raw)
                &&& entry.sqe_flags == sqe_flags
                &&& final(self).slab@.operation(Token(entry.user_data)) matches Some(op)
                &&& op.payload.buffer is None
                &&& op.payload.file == Some(file)
                &&& op.payload.slot == slot
            },
    {
        match self.refuse(supported) {
            Some(error) => {
                return Err(error);
            },
            None => {},
        }
        let payload = OpPayload {
            buffer: None,
            file: Some(file),
            slot,
            registered_buffer: None,
            registered_file: None,
            pending_registration: None,
        };
        match self.park_payload(payload) {
            Ok(token) => Ok(
                Entry {
                    kind: EntryKind::Flush { mode },
                    handle: HandleRef::Raw(raw),
                    data: DataRef::Parked,
                    len: 0,
                    offset: 0,
                    user_data: token.as_user_data(),
                    sqe_flags,
                },
            ),
            Err(_) => Err(Error::TooManyOperations),
        }
    }

    /// Why registering `buffers` is refused.
    pub open spec fn registration_refusal(
        self,
        buffers: Seq<B>,
        supported: Result<(), Error>,
    ) -> Option<Error> {
        if buffers.len() == 0 {
            Some(Error::MissingField { field: "buffers" })
        } else if self.shutdown != ShutdownMode::Running {
            Some(Error::ShuttingDown)
        } else if self.registration_in_flight {
            Some(Error::RegistrationPending)
        } else {
            match self.checked_out() {
                Some(index) => Some(Error::BufferCheckedOut { index: index as u32 }),
                None => match supported {
                    Err(error) => Some(error),
                    Ok(()) => if self.slab@.is_full() {
                        Some(Error::TooManyOperations)
                    } else {
                        None
                    },
                },
            }
        }
    }

    /// The first buffer of the current registration that is checked out.
    pub open spec fn checked_out(self) -> Option<int> {
        match self.buffer_registration {
            Some(current) => current.spec_checked_out(0),
            None => None,
        }
    }

    /// Starts a registration of `buffers`, given the capacity and the initialized
    /// length of each.
    ///
    /// A descriptor's length is a `u32`, so the registered extent is what actually
    /// fits. The resources are parked in the driver before anything is built: from
    /// then on the platform holds pointers into them.
    ///
    /// # Errors
    ///
    /// In this order, with the buffers handed back: [`Error::MissingField`] for an
    /// empty list, which the platform would fail only at completion time;
    /// [`Error::ShuttingDown`]; [`Error::RegistrationPending`] while another buffer
    /// registration is in flight; [`Error::BufferCheckedOut`] while a handle of the
    /// current registration is outstanding, since it would be left naming a set the
    /// platform no longer resolves against; what the ring says of an operation it
    /// lacks; and [`Error::TooManyOperations`].
    pub fn start_register_buffers(
        &mut self,
        buffers: Vec<B>,
        capacities: Vec<usize>,
        lengths: Vec<usize>,
        supported: Result<(), Error>,
        slot: S,
    ) -> (started: Result<Token, (Error, Vec<B>)>)
        requires
            old(self).wf(),
            old(self).building is None,
            capacities@.len() == buffers@.len(),
            lengths@.len() == buffers@.len(),
        ensures
            final(self).wf(),
            old(self).leads_to(*final(self)),
            match old(self).registration_refusal(buffers@, supported) {
                Some(error) => started == Err::<Token, (Error, Vec<B>)>((error, buffers))
                    && *final(self) == *old(self),
                None => {
                    &&& started == Ok::<Token, (Error, Vec<B>)>(old(self).slab@.next_token())
                    &&& exists|extents: Vec<usize>, watermarks: Vec<usize>|
                        #![trigger described(capacities@, lengths@, extents@, watermarks@)]
                        described(capacities@, lengths@, extents@, watermarks@) && old(self).parked(
                            OpPayload {
                                buffer: None,
                                file: None,
                                slot,
                                registered_buffer: None,
                                registered_file: None,
                                pending_registration: Some(
                                    PendingRegistration::Buffers { buffers, extents, watermarks },
                                ),
                            },
                            *final(self),
                        )
                },
            },
            started matches Ok(token) ==> {
                &&& final(self).slab@.operation(token) matches Some(op)
                &&& op.payload.slot == slot
                &&& op.payload.pending_registration matches Some(
                    PendingRegistration::Buffers { buffers: own, extents, watermarks },
                )
                &&& own == buffers
                &&& extents@.len() == buffers@.len()
                &&& watermarks@.len() == buffers@.len()
                &&& forall|i: int|
                    0 <= i < buffers@.len() && capacities@[i] <= u32::MAX
                        ==> #[trigger] extents@[i] == capacities@[i]
                &&& forall|i: int|
                    0 <= i < buffers@.len() && lengths@[i] <= extents@[i]
                        ==> #[trigger] watermarks@[i] == lengths@[i]
            },
    {
        if buffers.len() == 0 {
            return Err((Error::MissingField { field: "buffers" }, buffers));
        }
        if self.shutdown != ShutdownMode::Running {
            return Err((Error::ShuttingDown, buffers));
        }
        if self.registration_in_flight {
            return Err((Error::RegistrationPending, buffers));
        }
        match &self.buffer_registration {
            Some(current) => match current.any_checked_out() {
                Some(index) => {
                    return Err((Error::BufferCheckedOut { index }, buffers));
                },
                None => {},
            },
            None => {},
        }
        match supported {
            Err(error) => {
                return Err((error, buffers));
            },
            Ok(()) => {},
        }
        proof {
            match &self.buffer_registration {
                Some(current) => {
                    current.lemma_checked_out(0);
                },
                None => {},
            }
        }
        let (extents, watermarks) = describe(&capacities, &lengths);
        let payload = OpPayload {
            buffer: None,
            file: None,
            slot,
            registered_buffer: None,
            registered_file: None,
            pending_registration: Some(
                PendingRegistration::Buffers { buffers, extents, watermarks },
            ),
        };
        match self.park_payload(payload) {
            Ok(token) => Ok(token),
            Err(payload) => Err((Error::TooManyOperations, unbox_payload(payload))),
        }
    }

    /// Why registering files is refused.
    pub open spec fn file_registration_refusal(
        self,
        files: Seq<Rc<F>>,
        supported: Result<(), Error>,
    ) -> Option<Error> {
        if files.len() == 0 {
            Some(Error::MissingField { field: "files" })
        } else {
            match self.refusal(supported) {
                Some(error) => Some(error),
                None => if self.slab@.is_full() {
                    Some(Error::TooManyOperations)
                } else {
                    None
                },
            }
        }
    }

    /// Starts a registration of file handles.
    ///
    /// References that keep the handles open are parked in the driver, so dropping
    /// the caller's files cannot close them under the platform.
    ///
    /// # Errors
    ///
    /// In this order: [`Error::MissingField`] for an empty list,
    /// [`Error::ShuttingDown`], what the ring says of an operation it lacks, and
    /// [`Error::TooManyOperations`].
    pub fn start_register_files(
        &mut self,
        files: Vec<Rc<F>>,
        supported: Result<(), Error>,
        slot: S,
    ) -> (started: Result<Token, Error>)
        requires
            old(self).wf(),
            old(self).building is None,
        ensures
            final(self).wf(),
            old(self).leads_to(*final(self)),
            match old(self).file_registration_refusal(files@, supported) {
                Some(error) => started == Err::<Token, Error>(error) && *final(self) == *old(self),
                None => {
                    &&& started == Ok::<Token, Error>(old(self).slab@.next_token())
                    &&& old(self).parked(
                        OpPayload {
                            buffer: None,
                            file: None,
                            slot,
                            registered_buffer: None,
                            registered_file: None,
                            pending_registration: Some(PendingRegistration::Files { files }),
                        },
                        *final(self),
                    )
                },
            },
            started matches Ok(token) ==> {
                &&& final(self).slab@.operation(token) matches Some(op)
                &&& op.payload.slot == slot
                &&& op.payload.pending_registration == Some(
                    PendingRegistration::<B, F>::Files { files },
                )
            },
    {
        if files.len() == 0 {
            return Err(Error::MissingField { field: "files" });
        }
        match self.refuse(supported) {
            Some(error) => {
                return Err(error);
            },
            None => {},
        }
        let payload = OpPayload {
            buffer: None,
            file: None,
            slot,
            registered_buffer: None,
            registered_file: None,
            pending_registration: Some(PendingRegistration::Files { files }),
        };
        match self.park_payload(payload) {
            Ok(token) => Ok(token),
            Err(_) => Err(Error::TooManyOperations),
        }
    }

    /// Why a range of a registered buffer is refused.
    pub open spec fn range_refusal(
        self,
        index: u32,
        offset: u32,
        len: u32,
        for_write: bool,
    ) -> Option<Error> {
        match self.buffer_registration {
            Some(registration) if index < registration.slots@.len() => {
                let bound = if for_write {
                    registration.slots@[index as int].initialized
                } else {
                    registration.slots@[index as int].extent
                };
                if offset + len > bound {
                    Some(
                        Error::RegisteredRangeOutOfBounds {
                            index,
                            offset: offset as u64,
                            length: len as u64,
                            extent: bound as u64,
                        },
                    )
                } else {
                    None
                }
            },
            _ => Some(Error::InvalidRegisteredIndex { index }),
        }
    }

    /// Validates a range of a registered buffer.
    ///
    /// Reads may target the buffer's whole registered extent; writes are bounded
    /// by how much of it is initialized, so uninitialized memory is never handed to
    /// the kernel.
    pub fn check_registered_buffer(
        &self,
        index: u32,
        offset: u32,
        len: u32,
        for_write: bool,
    ) -> (checked: Result<(), Error>)
        ensures
            checked == match self.range_refusal(index, offset, len, for_write) {
                Some(error) => Err::<(), Error>(error),
                None => Ok::<(), Error>(()),
            },
    {
        let found = match &self.buffer_registration {
            Some(registration) => if for_write {
                registration.initialized(index)
            } else {
                registration.extent(index)
            },
            None => None,
        };
        let bound: usize = match found {
            Some(bound) => bound,
            None => {
                return Err(Error::InvalidRegisteredIndex { index });
            },
        };
        let end: u64 = offset as u64 + len as u64;
        if end > bound as u64 {
            return Err(
                Error::RegisteredRangeOutOfBounds {
                    index,
                    offset: offset as u64,
                    length: len as u64,
                    extent: bound as u64,
                },
            );
        }
        Ok(())
    }

    /// Whether `index` names a registered file.
    pub open spec fn knows_file(self, index: u32) -> bool {
        self.file_registration matches Some(registration) && index < registration.count
    }

    /// Validates a registered file index.
    pub fn check_registered_file(&self, index: u32) -> (checked: Result<(), Error>)
        ensures
            checked == if self.knows_file(index) {
                Ok::<(), Error>(())
            } else {
                Err::<(), Error>(Error::InvalidRegisteredIndex { index })
            },
    {
        match &self.file_registration {
            Some(registration) => {
                if (index as usize) < registration.count {
                    Ok(())
                } else {
                    Err(Error::InvalidRegisteredIndex { index })
                }
            },
            None => Err(Error::InvalidRegisteredIndex { index }),
        }
    }

    /// Why an operation against a registered buffer is refused.
    pub open spec fn registered_refusal(
        self,
        target: FileTarget<F>,
        buffer: RegisteredBuf<B>,
        offset: u32,
        len: u32,
        is_write: bool,
        supported: Result<(), Error>,
    ) -> Option<Error> {
        match self.refusal(supported) {
            Some(error) => Some(error),
            None => match self.buffer_registration {
                None => Some(Error::InvalidRegisteredIndex { index: buffer.index }),
                Some(current) => if current.id != buffer.registry {
                    Some(Error::RegistrationSuperseded)
                } else {
                    match self.range_refusal(buffer.index, offset, len, is_write) {
                        Some(error) => Some(error),
                        None => match target {
                            FileTarget::Registered { index } if !self.knows_file(index) => Some(
                                Error::InvalidRegisteredIndex { index },
                            ),
                            _ => if self.slab@.is_full() {
                                Some(Error::TooManyOperations)
                            } else {
                                None
                            },
                        },
                    }
                },
            },
        }
    }

    /// Starts a read into, or a write from, a registered buffer.
    ///
    /// The handle must belong to *this* driver's current registration. Nothing
    /// else catches a handle from another driver: the platform would resolve its
    /// index against whichever registration this ring holds.
    ///
    /// # Errors
    ///
    /// Every refusal hands the caller's handle straight back. In this order:
    /// [`Error::ShuttingDown`]; what the ring says of an operation it lacks;
    /// [`Error::InvalidRegisteredIndex`] where nothing is registered, or
    /// [`Error::RegistrationSuperseded`] where something else is;
    /// [`Error::RegisteredRangeOutOfBounds`]; [`Error::InvalidRegisteredIndex`] for
    /// a file that is not registered; and [`Error::TooManyOperations`].
    pub fn try_registered_op(
        &mut self,
        target: FileTarget<F>,
        buffer: RegisteredBuf<B>,
        buffer_offset: u32,
        len: u32,
        file_offset: u64,
        is_write: bool,
        supported: Result<(), Error>,
        slot: S,
    ) -> (started: Result<Entry, (Error, RegisteredBuf<B>)>)
        requires
            old(self).wf(),
            old(self).building is None,
            buffer.wf(),
        ensures
            final(self).wf(),
            old(self).leads_to(*final(self)),
            match old(self).registered_refusal(
                target,
                buffer,
                buffer_offset,
                len,
                is_write,
                supported,
            ) {
                Some(error) => started == Err::<Entry, (Error, RegisteredBuf<B>)>((error, buffer))
                    && *final(self) == *old(self),
                None => {
                    &&& started == Ok::<Entry, (Error, RegisteredBuf<B>)>(
                        Entry {
                            kind: if is_write {
                                EntryKind::Write { flags: 0 }
                            } else {
                                EntryKind::Read
                            },
                            handle: target.spec_handle(),
                            data: DataRef::Registered { index: buffer.index, offset: buffer_offset },
                            len,
                            offset: file_offset,
                            user_data: old(self).slab@.next_token().0,
                            sqe_flags: 0,
                        },
                    )
                    &&& old(self).parked(
                        OpPayload {
                            buffer: Some(Carried::Registered(buffer)),
                            file: target.spec_file(),
                            slot,
                            registered_buffer: Some((buffer.index, buffer_offset)),
                            registered_file: target.spec_index(),
                            pending_registration: None,
                        },
                        *final(self),
                    )
                },
            },
            started matches Ok(entry) ==> {
                &&& target matches FileTarget::Registered { index } ==> entry.handle
                    == HandleRef::Registered(index)
                &&& target matches FileTarget::Owned { raw, .. } ==> entry.handle
                    == HandleRef::Raw(raw)
                &&& is_write ==> entry.kind == (EntryKind::Write { flags: 0 })
                &&& !is_write ==> entry.kind == EntryKind::Read
                &&& entry.data == (DataRef::Registered {
                    index: buffer.index,
                    offset: buffer_offset,
                })
                &&& entry.len == len
                &&& entry.offset == file_offset
                &&& final(self).slab@.operation(Token(entry.user_data)) matches Some(op)
                &&& op.payload.buffer == Some(Carried::Registered(buffer))
                &&& op.payload.registered_buffer == Some((buffer.index, buffer_offset))
                &&& target matches FileTarget::Registered { index } ==> op.payload.registered_file
                    == Some(index)
                &&& target matches FileTarget::Owned { file, .. } ==> op.payload.file == Some(file)
                &&& op.payload.slot == slot
            },
    {
        match self.refuse(supported) {
            Some(error) => {
                return Err((error, buffer));
            },
            None => {},
        }
        let index: u32 = buffer.index();
        match &self.buffer_registration {
            Some(current) => {
                if current.id != buffer.registry() {
                    return Err((Error::RegistrationSuperseded, buffer));
                }
            },
            None => {
                return Err((Error::InvalidRegisteredIndex { index }, buffer));
            },
        }
        match self.check_registered_buffer(index, buffer_offset, len, is_write) {
            Err(error) => {
                return Err((error, buffer));
            },
            Ok(()) => {},
        }
        let (handle, file, registered_file) = match target {
            FileTarget::Owned { file, raw } => (HandleRef::Raw(raw), Some(file), None),
            FileTarget::Registered { index } => {
                match self.check_registered_file(index) {
                    Err(error) => {
                        return Err((error, buffer));
                    },
                    Ok(()) => {},
                }
                (HandleRef::Registered(index), None, Some(index))
            },
        };
        let payload = OpPayload {
            buffer: Some(Carried::Registered(buffer)),
            file,
            slot,
            registered_buffer: Some((index, buffer_offset)),
            registered_file,
            pending_registration: None,
        };
        match self.park_payload(payload) {
            Ok(token) => Ok(
                Entry {
                    kind: if is_write {
                        EntryKind::Write { flags: 0 }
                    } else {
                        EntryKind::Read
                    },
                    handle,
                    data: DataRef::Registered { index, offset: buffer_offset },
                    len,
                    offset: file_offset,
                    user_data: token.as_user_data(),
                    sqe_flags: 0,
                },
            ),
            Err(payload) => match recover_buffer(payload) {
                Carried::Registered(buffer) => Err((Error::TooManyOperations, buffer)),
                Carried::Owned(_) => {
                    assert(false);
                    vstd::pervasive::unreached()
                },
            },
        }
    }

    /// Whether `token` names an operation for which no queue entry has been built.
    pub open spec fn is_described(self, token: Token) -> bool {
        &&& token.spec_kind() == TokenKind::Operation
        &&& self.slab@.operation(token) matches Some(op)
        &&& op.lifecycle == Lifecycle::Described
    }

    /// What building the queue entry of `token`, or failing to, leaves.
    pub open spec fn entry_settled(
        self,
        token: Token,
        built: Result<(), Error>,
        after: Self,
        queued: Queued<B, F, S, W>,
    ) -> bool {
        let op = self.slab@.operation(token)->0;
        match built {
            Ok(()) => {
                &&& queued == Queued::<B, F, S, W>::Queued(self.driver_waker)
                &&& after.slab@ == self.slab@.with_operation(
                    token,
                    Operation { lifecycle: Lifecycle::Built, ..op },
                )
                &&& after == (DriverInner {
                    slab: after.slab,
                    building: None,
                    pending_submit: true,
                    nudged: true,
                    driver_waker: None,
                    registration_in_flight: self.registration_in_flight
                        || op.payload.registers_buffers(),
                    ..self
                })
            },
            Err(error) => {
                &&& queued == Queued::<B, F, S, W>::Rejected(error, op.payload)
                &&& after.slab@ == self.slab@.completed(token)
                &&& after == (DriverInner { slab: after.slab, building: None, ..self })
            },
        }
    }

    /// Takes note of whether an operation's queue entry was built.
    ///
    /// An entry that reached the submission queue cannot be withdrawn: a submission
    /// is owed, the driver owes a pass, and a buffer registration is in flight. One
    /// that did not never will, so the slot is given up and what the operation
    /// carried comes back with the error.
    pub fn entry_built(
        &mut self,
        token: Token,
        built: Result<(), Error>,
    ) -> (queued: Queued<B, F, S, W>)
        requires
            old(self).wf(),
            old(self).building == Some(token),
            old(self).is_described(token),
        ensures
            final(self).wf(),
            old(self).leads_to(*final(self)),
            old(self).entry_settled(token, built, *final(self), queued),
    {
        let ghost before = *self;
        self.building = None;
        match built {
            Ok(()) => {
                let registers = match self.slab.payload(token) {
                    Some(payload) => match &payload.pending_registration {
                        Some(PendingRegistration::Buffers { .. }) => true,
                        _ => false,
                    },
                    None => false,
                };
                self.slab.set_lifecycle(token, Lifecycle::Built);
                proof {
                    let op = before.slab@.operation(token)->0;
                    crate::driver::lemma_replaced(
                        before,
                        token,
                        Operation { lifecycle: Lifecycle::Built, ..op },
                    );
                    crate::driver::lemma_queued(before, token);
                }
                self.pending_submit = true;
                if registers {
                    self.registration_in_flight = true;
                }
                Queued::Queued(self.nudge())
            },
            Err(error) => {
                proof {
                    crate::driver::lemma_completed(before, token);
                    crate::driver::lemma_given_up(before, token);
                }
                Queued::Rejected(error, self.slab.complete(token).unwrap())
            },
        }
    }

    /// Raises the shutdown mode, never lowers it.
    ///
    /// A request that raises it nudges the driver; the returned waker is the parked
    /// driver's. One that does not changes nothing.
    pub fn escalate(&mut self, mode: ShutdownMode) -> (waker: Option<W>)
        ensures
            old(self).leads_to(*final(self)),
            final(self).shutdown == old(self).shutdown.spec_max(mode),
            if old(self).shutdown.rank() >= mode.rank() {
                waker is None && *final(self) == *old(self)
            } else {
                waker == old(self).driver_waker && *final(self) == (DriverInner {
                    shutdown: mode,
                    nudged: true,
                    driver_waker: None,
                    ..*old(self)
                })
            },
    {
        if self.shutdown.at_least(mode) {
            return None;
        }
        self.shutdown = mode;
        self.nudge()
    }

    /// Requests a graceful shutdown.
    ///
    /// The driver stops accepting new work, lets operations already in flight
    /// finish on their own, and closes the ring once they have.
    pub fn shutdown(&mut self) -> (waker: Option<W>)
        ensures
            old(self).leads_to(*final(self)),
            final(self).shutdown == old(self).shutdown.spec_max(ShutdownMode::Graceful),
            if old(self).shutdown == ShutdownMode::Running {
                waker == old(self).driver_waker && *final(self) == (DriverInner {
                    shutdown: ShutdownMode::Graceful,
                    nudged: true,
                    driver_waker: None,
                    ..*old(self)
                })
            } else {
                waker is None && *final(self) == *old(self)
            },
    {
        self.escalate(ShutdownMode::Graceful)
    }

    /// Requests an immediate shutdown.
    ///
    /// The driver stops accepting new work and asks the platform to cancel
    /// everything in flight that it will accept a cancellation for, then closes
    /// the ring once every operation has reported.
    pub fn shutdown_now(&mut self) -> (waker: Option<W>)
        ensures
            old(self).leads_to(*final(self)),
            final(self).shutdown == ShutdownMode::Immediate,
            if old(self).shutdown != ShutdownMode::Immediate {
                waker == old(self).driver_waker && *final(self) == (DriverInner {
                    shutdown: ShutdownMode::Immediate,
                    nudged: true,
                    driver_waker: None,
                    ..*old(self)
                })
            } else {
                waker is None && *final(self) == *old(self)
            },
    {
        self.escalate(ShutdownMode::Immediate)
    }

    /// Returns `true` if the driver has been asked to shut down, gracefully or at
    /// once.
    pub fn is_shutting_down(&self) -> (b: bool)
        ensures
            b == (self.shutdown != ShutdownMode::Running),
    {
        self.shutdown != ShutdownMode::Running
    }

    /// Returns the number of operations the driver is still tracking.
    pub fn outstanding(&self) -> (n: usize)
        ensures
            n == self.group_count(crate::slab::Group::Outstanding),
    {
        self.slab.outstanding()
    }

    /// Returns how much work the submissions to the kernel have carried.
    ///
    /// Counts accumulate over the driver's whole life and never decrease.
    pub fn submission_counts(&self) -> (counts: SubmissionCounts)
        ensures
            counts.submissions == self.submissions,
            counts.entries == self.submitted_entries,
    {
        SubmissionCounts { submissions: self.submissions, entries: self.submitted_entries }
    }

    /// Asks for an operation to be cancelled, and takes the parked driver's waker.
    ///
    /// Cancellation is best-effort: it may fail, or arrive too late, and neither is
    /// an error. Cancelling twice, or cancelling an operation that has already
    /// finished, is a no-op.
    pub fn cancel(&mut self, id: OperationId) -> (asked: Dropped<F, W>)
        requires
            old(self).wf(),
        ensures
            final(self).wf(),
            old(self).leads_to(*final(self)),
            asked.waker == old(self).driver_waker,
            final(self).driver_waker is None,
            old(self).cancel_requested(
                id.0,
                DriverInner { driver_waker: old(self).driver_waker, ..*final(self) },
                asked.request,
            ),
            forall|t: Token|
                old(self).deferred_cancels@.contains(t) ==> #[trigger] final(self).deferred_cancels@.contains(
                    t,
                ),
            !old(self).torn_down && (old(self).slab@.operation(id.0) matches Some(op)
                && op.lifecycle != Lifecycle::Submitted) ==> final(self).deferred_cancels@.contains(id.0),
    {
        let request = self.request_cancel(id.0);
        let waker = self.take_driver_waker();
        Dropped { request, waker }
    }

    /// What dropping the future that awaits `token` leaves.
    pub open spec fn future_gone(self, token: Token, after: Self, dropped: Dropped<F, W>) -> bool {
        match self.slab@.operation(token) {
            None => dropped.request is None && dropped.waker is None && after == self,
            Some(op) => {
                let detached = self.slab@.with_operation(
                    token,
                    Operation { observer: crate::slab::Observer::Detached, ..op },
                );
                match op.lifecycle {
                    Lifecycle::Described => {
                        &&& dropped.request is None
                        &&& dropped.waker is None
                        &&& after.slab@ == detached.completed(token)
                        &&& match op.payload.buffer {
                            Some(Carried::Registered(handle)) => (DriverInner {
                                slab: after.slab,
                                ..self
                            }).buffer_released(handle, after),
                            _ => after == (DriverInner { slab: after.slab, ..self }),
                        }
                    },
                    Lifecycle::Built => {
                        &&& dropped.request is None
                        &&& dropped.waker is None
                        &&& after.slab@ == detached
                        &&& after == (DriverInner { slab: after.slab, ..self })
                    },
                    Lifecycle::Submitted => {
                        &&& dropped.waker == self.driver_waker
                        &&& after.driver_waker is None
                        &&& exists|between: Self|
                            #![trigger between.slab.wf()]
                            between.slab.wf() && between.slab@ == detached && between == (
                            DriverInner { slab: between.slab, ..self }) && between.cancel_requested(
                                token,
                                DriverInner { driver_waker: self.driver_waker, ..after },
                                dropped.request,
                            )
                    },
                }
            },
        }
    }

    /// Takes note that the future awaiting an operation was dropped.
    ///
    /// The operation goes on, and its buffer is released only when its own
    /// completion arrives. What varies is whether anything can be done about it:
    ///
    /// - nothing was built: no queue entry references the buffer, and it is
    ///   released immediately;
    /// - a queue entry exists that the kernel has not seen: the slab records the
    ///   slot as detached, and the driver cancels it once submission promotes it;
    /// - the kernel has it: the platform is asked to give up early.
    pub fn future_dropped(&mut self, token: Token) -> (dropped: Dropped<F, W>)
        requires
            old(self).wf(),
            token.spec_kind() == TokenKind::Operation,
        ensures
            final(self).wf(),
            old(self).leads_to(*final(self)),
            old(self).future_gone(token, *final(self), dropped),
    {
        let ghost before = *self;
        let reached = self.slab.detach(token);
        proof {
            if before.slab@.operation(token) is Some {
                let op = before.slab@.operation(token)->0;
                assert(before.slab@.slots[token.spec_index()].phase is Occupied);
                crate::driver::lemma_replaced(
                    before,
                    token,
                    Operation { observer: crate::slab::Observer::Detached, ..op },
                );
                crate::token::law_token_is_its_fields(token);
            }
        }
        match reached {
            Some(Lifecycle::Described) => {
                let ghost detached = *self;
                proof {
                    crate::driver::lemma_completed(detached, token);
                }
                match self.slab.complete(token) {
                    Some(payload) => {
                        let OpPayload { buffer, .. } = *payload;
                        match buffer {
                            Some(Carried::Registered(handle)) => {
                                self.release_buffer(handle);
                            },
                            _ => {},
                        }
                    },
                    None => {},
                }
                Dropped { request: None, waker: None }
            },
            Some(Lifecycle::Built) => Dropped { request: None, waker: None },
            Some(Lifecycle::Submitted) => {
                let ghost between = *self;
                assert(between.slab.wf());
                let request = self.request_cancel(token);
                let waker = self.take_driver_waker();
                Dropped { request, waker }
            },
            None => Dropped { request: None, waker: None },
        }
    }
}

/// The extents and initialized prefixes registered for buffers of the given
/// capacities and initialized lengths.
pub open spec fn described(
    capacities: Seq<usize>,
    lengths: Seq<usize>,
    extents: Seq<usize>,
    watermarks: Seq<usize>,
) -> bool {
    &&& extents.len() == capacities.len()
    &&& watermarks.len() == capacities.len()
    &&& forall|i: int|
        0 <= i < capacities.len() ==> #[trigger] extents[i] == crate::registry::smaller(
            capacities[i] as int,
            u32::MAX as int,
        )
    &&& forall|i: int|
        0 <= i < capacities.len() ==> #[trigger] watermarks[i] == crate::registry::smaller(
            lengths[i] as int,
            extents[i] as int,
        )
}

/// Computes the extents and initialized prefixes of [`described`].
fn describe(capacities: &Vec<usize>, lengths: &Vec<usize>) -> (shape: (Vec<usize>, Vec<usize>))
    requires
        capacities@.len() == lengths@.len(),
    ensures
        described(capacities@, lengths@, shape.0@, shape.1@),
{
    let mut extents: Vec<usize> = Vec::new();
    let mut watermarks: Vec<usize> = Vec::new();
    let mut i: usize = 0;
    while i < capacities.len()
        invariant
            i <= capacities@.len(),
            capacities@.len() == lengths@.len(),
            extents@.len() == i,
            watermarks@.len() == i,
            forall|k: int|
                0 <= k < i ==> #[trigger] extents@[k] == crate::registry::smaller(
                    capacities@[k] as int,
                    u32::MAX as int,
                ),
            forall|k: int|
                0 <= k < i ==> #[trigger] watermarks@[k] == crate::registry::smaller(
                    lengths@[k] as int,
                    extents@[k] as int,
                ),
        decreases capacities@.len() - i,
    {
        let extent: usize = if capacities[i] as u64 <= u32::MAX as u64 {
            capacities[i]
        } else {
            u32::MAX as usize
        };
        let watermark: usize = if lengths[i] <= extent {
            lengths[i]
        } else {
            extent
        };
        extents.push(extent);
        watermarks.push(watermark);
        i = i + 1;
    }
    (extents, watermarks)
}

/// Takes a buffer back out of a payload whose operation never reached the kernel.
fn recover_buffer<B, F, S>(payload: Box<OpPayload<B, F, S>>) -> (buffer: Carried<B>)
    requires
        payload.buffer is Some,
    ensures
        buffer == payload.buffer->0,
{
    let OpPayload { buffer, .. } = *payload;
    buffer.unwrap()
}

/// Recovers the caller's buffers from a payload whose registration never reached
/// the kernel.
pub fn unbox_payload<B, F, S>(payload: Box<OpPayload<B, F, S>>) -> (buffers: Vec<B>)
    ensures
        payload.pending_registration matches Some(PendingRegistration::Buffers { buffers: own, .. })
            ==> buffers == own,
        !(payload.pending_registration matches Some(PendingRegistration::Buffers { .. }))
            ==> buffers@.len() == 0,
{
    let OpPayload { pending_registration, .. } = *payload;
    unbox_pending(pending_registration)
}

/// Recovers the caller's buffers from a returned pending registration.
pub fn unbox_pending<B, F>(pending: Option<PendingRegistration<B, F>>) -> (buffers: Vec<B>)
    ensures
        pending matches Some(PendingRegistration::Buffers { buffers: own, .. }) ==> buffers == own,
        !(pending matches Some(PendingRegistration::Buffers { .. })) ==> buffers@.len() == 0,
{
    match pending {
        Some(PendingRegistration::Buffers { buffers, .. }) => buffers,
        _ => Vec::new(),
    }
}

} // verus!
