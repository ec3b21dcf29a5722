//! The plain values that go into a ring: its size, and the entries built into it.

use crate::driver::Completion;
use crate::error::{code_result, PlatformError};
use crate::handle::HandleRef;
use crate::join::{receive, Received};
use futures::channel::oneshot::Receiver as Remote;
use std::task::Context;
use vstd::prelude::*;

verus! {

/// How a read names its buffer.
#[derive(Debug, Clone, Copy, PartialEq, Eq, Structural)]
pub enum BufferRef {
    /// By its address.
    Raw(usize),
    /// By its registered index, and the offset within it.
    Registered {
        /// The registered index.
        index: u32,
        /// The offset within the buffer.
        offset: u32,
    },
}

/// `std::io::Error`: the error of an operation that the standard library describes.
#[verifier::external_type_specification]
#[verifier::external_body]
pub struct ExIoError(std::io::Error);

/// What a read entry is built from.
#[derive(Debug, Clone, Copy, PartialEq, Eq, Structural)]
pub struct ReadArg {
    /// The file.
    pub handle_ref: HandleRef,
    /// The buffer.
    pub data_ref: BufferRef,
    /// How many bytes to read.
    pub numofbytestoread: u32,
    /// Where in the file.
    pub offset: u64,
    /// The user data its completion carries.
    pub userdata: usize,
}

impl ReadArg {
    /// A read of nothing: no file, no buffer, no bytes.
    pub fn new() -> (arg: ReadArg)
        ensures
            arg == (ReadArg {
                handle_ref: HandleRef::Raw(0),
                data_ref: BufferRef::Raw(0),
                numofbytestoread: 0,
                offset: 0,
                userdata: 0,
            }),
    {
        ReadArg {
            handle_ref: HandleRef::Raw(0),
            data_ref: BufferRef::Raw(0),
            numofbytestoread: 0,
            offset: 0,
            userdata: 0,
        }
    }

    /// Names the file by its handle.
    pub fn with_file(self, raw_handle: isize) -> (arg: ReadArg)
        ensures
            arg == (ReadArg { handle_ref: HandleRef::Raw(raw_handle), ..self }),
    {
        ReadArg { handle_ref: HandleRef::Raw(raw_handle), ..self }
    }

    /// Names the file by its registered index.
    pub fn with_regestered_file(self, index: u32) -> (arg: ReadArg)
        ensures
            arg == (ReadArg { handle_ref: HandleRef::Registered(index), ..self }),
    {
        ReadArg { handle_ref: HandleRef::Registered(index), ..self }
    }

    /// Names the buffer by its address.
    pub fn with_buffer(self, address: usize) -> (arg: ReadArg)
        ensures
            arg == (ReadArg { data_ref: BufferRef::Raw(address), ..self }),
    {
        ReadArg { data_ref: BufferRef::Raw(address), ..self }
    }

    /// Names the buffer by its registered index, and the offset within it.
    pub fn with_registered_buffer(self, index: u32, offset: u32) -> (arg: ReadArg)
        ensures
            arg == (ReadArg { data_ref: BufferRef::Registered { index, offset }, ..self }),
    {
        ReadArg { data_ref: BufferRef::Registered { index, offset }, ..self }
    }

    /// Says how many bytes to read.
    pub fn with_numofbytestoread(self, numofbytestoread: u32) -> (arg: ReadArg)
        ensures
            arg == (ReadArg { numofbytestoread, ..self }),
    {
        ReadArg { numofbytestoread, ..self }
    }

    /// Says where in the file to read.
    pub fn with_offset(self, offset: u64) -> (arg: ReadArg)
        ensures
            arg == (ReadArg { offset, ..self }),
    {
        ReadArg { offset, ..self }
    }

    /// Says what user data the completion carries.
    pub fn with_userdata(self, userdata: usize) -> (arg: ReadArg)
        ensures
            arg == (ReadArg { userdata, ..self }),
    {
        ReadArg { userdata, ..self }
    }
}

/// A read from the start of a file into a buffer at a given address.
#[derive(Debug, Clone, Copy, PartialEq, Eq, Structural)]
pub struct Read {
    /// The file.
    pub handle_ref: HandleRef,
    /// The buffer.
    pub data_ref: BufferRef,
    /// How many bytes to read.
    pub len: u32,
    /// Where in the file.
    pub offset: u32,
    /// The user data its completion carries.
    pub userdata: u32,
}

impl Read {
    /// Reads `len` bytes, of which a queue entry keeps the lower 32 bits.
    ///
    /// Never fails.
    pub fn new(raw_handle: isize, address: usize, len: usize) -> (read: std::io::Result<Read>)
        ensures
            read == Ok::<Read, std::io::Error>(
                Read {
                    handle_ref: HandleRef::Raw(raw_handle),
                    data_ref: BufferRef::Raw(address),
                    len: len as u32,
                    offset: 0,
                    userdata: 0,
                },
            ),
            len <= u32::MAX ==> (read matches Ok(made) && made.len as int == len as int),
    {
        Ok(
            Read {
                handle_ref: HandleRef::Raw(raw_handle),
                data_ref: BufferRef::Raw(address),
                len: len as u32,
                offset: 0,
                userdata: 0,
            },
        )
    }

    /// Says what user data the completion carries, and goes on with the read.
    pub fn userdata(&mut self, data: u32) -> (read: &mut Read)
        ensures
            *read == (Read { userdata: data, ..*old(self) }),
            *final(self) == *final(read),
    {
        self.userdata = data;
        self
    }
}

/// A buffer to register, by address and length.
#[derive(Debug, Clone, Copy, PartialEq, Eq, Structural)]
pub struct BufferInfo {
    /// Where it is.
    pub address: usize,
    /// How many bytes it has.
    pub length: u32,
}

impl BufferInfo {
    /// Describes a buffer; a descriptor keeps the lower 32 bits of its length.
    pub fn new(address: usize, len: usize) -> (info: BufferInfo)
        ensures
            info == (BufferInfo { address, length: len as u32 }),
            len <= u32::MAX ==> info.length as int == len as int,
    {
        BufferInfo { address, length: len as u32 }
    }
}

/// The queue size of a ring that was not told one.
pub const DEFAULT_QUEUE_SIZE: u32 = 20;

/// What a ring is created with.
#[derive(Debug, Clone, Copy, PartialEq, Eq, Structural)]
pub struct RingSettings {
    /// The ring version.
    pub version: u32,
    /// How many entries the submission queue holds.
    pub submission_queue_size: u32,
    /// How many entries the completion queue holds.
    pub completion_queue_size: u32,
}

/// Collects what a ring is to be created with.
#[derive(Debug, Clone, Copy, PartialEq, Eq, Structural)]
pub struct IoRingBuilder {
    /// How many entries the submission queue is to hold.
    pub submission_queue_size: Option<u32>,
    /// How many entries the completion queue is to hold.
    pub completion_queue_size: Option<u32>,
    /// The ring version.
    pub version: Option<u32>,
}

impl IoRingBuilder {
    /// A builder that was told nothing.
    pub fn new() -> (builder: Self)
        ensures
            builder == (IoRingBuilder {
                submission_queue_size: None,
                completion_queue_size: None,
                version: None,
            }),
    {
        IoRingBuilder { submission_queue_size: None, completion_queue_size: None, version: None }
    }

    /// Says how many entries the submission queue is to hold.
    pub fn with_submission_queue_size(self, size: u32) -> (builder: Self)
        ensures
            builder == (IoRingBuilder { submission_queue_size: Some(size), ..self }),
    {
        IoRingBuilder { submission_queue_size: Some(size), ..self }
    }

    /// Says how many entries the completion queue is to hold.
    pub fn with_completion_queue_size(self, size: u32) -> (builder: Self)
        ensures
            builder == (IoRingBuilder { completion_queue_size: Some(size), ..self }),
    {
        IoRingBuilder { completion_queue_size: Some(size), ..self }
    }

    /// Says which ring version to create.
    pub fn with_version(self, version: u32) -> (builder: Self)
        ensures
            builder == (IoRingBuilder { version: Some(version), ..self }),
    {
        IoRingBuilder { version: Some(version), ..self }
    }

    /// Whether the host has to be asked for its ring version.
    pub fn needs_version(&self) -> (b: bool)
        ensures
            b == (self.version is None),
    {
        self.version.is_none()
    }

    /// Returns what to create the ring with, given the highest version the host
    /// supports, which counts where no version was asked for.
    pub fn build(self, max_version: u32) -> (settings: RingSettings)
        ensures
            settings.version == match self.version {
                Some(version) => version,
                None => max_version,
            },
            settings.submission_queue_size == match self.submission_queue_size {
                Some(size) => size,
                None => DEFAULT_QUEUE_SIZE,
            },
            settings.completion_queue_size == match self.completion_queue_size {
                Some(size) => size,
                None => DEFAULT_QUEUE_SIZE,
            },
            self.submission_queue_size is None ==> settings.submission_queue_size == 20,
            self.completion_queue_size is None ==> settings.completion_queue_size == 20,
    {
        RingSettings {
            version: self.version.unwrap_or(max_version),
            submission_queue_size: self.submission_queue_size.unwrap_or(DEFAULT_QUEUE_SIZE),
            completion_queue_size: self.completion_queue_size.unwrap_or(DEFAULT_QUEUE_SIZE),
        }
    }
}

/// Reads what popping a completion answered: with the code zero it filled `out` in,
/// and with the code one the queue was empty. It answers nothing else.
pub fn pop_completion(code: i32, out: Completion) -> (popped: Option<Completion>)
    requires
        code == 0 || code == 1,
    ensures
        popped == if code == 0 {
            Some(out)
        } else {
            None
        },
{
    if code == 0 {
        Some(out)
    } else {
        None
    }
}

/// The states of a read awaited through a channel.
#[derive(Debug, Clone, Copy, PartialEq, Eq, Structural)]
pub enum ReadFutState {
    /// The driver was told of the read.
    SubmitSignalled,
    /// The result was handed out.
    Completed,
}

/// The result of an operation, with its buffer.
pub type BufOutcome = (Result<(), PlatformError>, Vec<u8>);

/// What came of polling a read.
#[derive(Debug)]
pub enum ReadPoll {
    /// Nothing yet.
    Pending,
    /// The platform's error where its result code tells of one, and the buffer.
    Ready(BufOutcome),
    /// Nothing, and nothing will come: the driver is gone.
    DriverClosed,
}

/// A read whose result arrives through a channel, with the buffer.
pub struct ReadFut {
    /// Where the driver sends the buffer and the platform's result code.
    pub rx: Remote<(Vec<u8>, i32)>,
    /// How far it has got.
    pub state: ReadFutState,
}

impl ReadFut {
    /// Awaits a read the driver was told of.
    pub fn new(rx: Remote<(Vec<u8>, i32)>) -> (future: Self)
        ensures
            future.rx == rx,
            future.state == ReadFutState::SubmitSignalled,
    {
        ReadFut { rx, state: ReadFutState::SubmitSignalled }
    }

    /// What taking note of what the channel had leaves.
    pub open spec fn receives(
        self,
        received: Received<(Vec<u8>, i32)>,
        after: Self,
        polled: ReadPoll,
    ) -> bool {
        &&& after.rx == self.rx
        &&& match received {
            Received::Pending => polled == ReadPoll::Pending && after.state
                == ReadFutState::SubmitSignalled,
            Received::Canceled => polled == ReadPoll::DriverClosed && after.state
                == ReadFutState::SubmitSignalled,
            Received::Value((buffer, code)) => {
                &&& polled matches ReadPoll::Ready((result, back))
                &&& crate::error::ended_as(code, result)
                &&& back == buffer
                &&& after.state == ReadFutState::Completed
            },
        }
    }

    /// Polls the read: what the channel had, as [`ReadFut::received`] takes it.
    ///
    /// A read that has given its result must not be polled again.
    pub fn poll(&mut self, cx: &mut Context<'_>) -> (polled: ReadPoll)
        requires
            old(self).state == ReadFutState::SubmitSignalled,
        ensures
            *final(cx) == *old(cx),
            exists|
                half: &mut Remote<(Vec<u8>, i32)>,
                context: &mut Context<'_>,
                received: Received<(Vec<u8>, i32)>,
            |
                *half == old(self).rx && *context == *old(cx) && #[trigger] crate::join::gives(
                    half,
                    context,
                    received,
                ) && (ReadFut { rx: *final(half), ..*old(self) }).receives(
                    received,
                    *final(self),
                    polled,
                ),
    {
        let received = receive(&mut self.rx, cx);
        self.received(received)
    }

    /// Takes note of what the channel had: the buffer and the platform's result
    /// code, or nothing.
    pub fn received(&mut self, received: Received<(Vec<u8>, i32)>) -> (polled: ReadPoll)
        requires
            old(self).state == ReadFutState::SubmitSignalled,
        ensures
            old(self).receives(received, *final(self), polled),
    {
        match received {
            Received::Pending => ReadPoll::Pending,
            Received::Canceled => ReadPoll::DriverClosed,
            Received::Value((buffer, code)) => {
                self.state = ReadFutState::Completed;
                ReadPoll::Ready((code_result(code), buffer))
            },
        }
    }
}

} // verus!
