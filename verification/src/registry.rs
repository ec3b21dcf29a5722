//! Registered buffers, and the handles an application checks out of them.
//!
//! The platform can map a set of buffers once and then let operations name one
//! by index, avoiding the per-operation cost of describing it. What it cannot do
//! is give the memory back: a registration lasts until the ring closes.
//!
//! So the registration is a *collection* the application checks buffers out of,
//! receiving a [`RegisteredBuf`] handle that gives access to the bytes, flows
//! through operations the way an ordinary owned buffer does, and goes back to
//! the collection afterwards.
//!
//! Exactly one handle to a given buffer exists at a time. That is what keeps an
//! operation in flight and the application from reaching the same bytes at once,
//! and ownership enforces it: checking a buffer out moves it out of the collection
//! and into the handle.
//!
//! How many of a buffer's bytes are initialized is the collection's to know. A handle
//! has a copy of the count, and whatever changes the copy is given the collection, if
//! that can still be reached, to change the count there too.

use crate::buf::Bytes;
use crate::driver::{DriverInner, ShutdownMode};
use crate::error::{BufError, Error};
use crate::token::Token;
use vstd::prelude::*;

verus! {

/// Identifies a registration: the driver that made it, and the operation by which
/// that driver made it.
///
/// Registrations are per-driver, so an index alone cannot tell one driver's
/// buffers from another's.
#[derive(Debug, Clone, Copy, PartialEq, Eq, Structural)]
pub struct RegistryId {
    /// The driver.
    pub driver: u64,
    /// The operation that registered the buffers.
    pub token: Token,
}

/// One buffer's place in a registration.
#[derive(Debug)]
pub struct RegistrySlot<B> {
    /// The registered extent, in bytes. Fixed for the registration's life.
    pub extent: usize,
    /// How many leading bytes are initialized.
    ///
    /// A single contiguous prefix, never a set of ranges: a transfer landing past
    /// this mark does not extend it, because doing so would vouch for the
    /// uninitialized gap in front of it.
    pub initialized: usize,
    /// The caller's buffer, unless a handle to it exists.
    pub held: Option<B>,
}

/// A registration's buffers and bookkeeping.
#[derive(Debug)]
pub struct RegistryInner<B> {
    /// Which registration this is.
    pub id: RegistryId,
    /// The buffers, by registered index.
    pub slots: Vec<RegistrySlot<B>>,
}

/// Exclusive access to one registered buffer.
///
/// The bytes stay valid for as long as this handle exists, including after the
/// driver that registered them is gone.
#[derive(Debug)]
pub struct RegisteredBuf<B> {
    /// The registration this buffer belongs to.
    pub registry: RegistryId,
    /// The index this buffer occupies in its registration.
    pub index: u32,
    /// The registered extent. Fixed for the registration's life.
    pub extent: usize,
    /// The caller's buffer.
    pub buffer: B,
    /// A copy of the registration's count of initialized bytes.
    pub initialized: usize,
}

/// The smaller of two sizes.
pub open spec fn smaller(a: int, b: int) -> int {
    if a <= b {
        a
    } else {
        b
    }
}

/// The initialized prefix of a buffer after `transferred` bytes arrived from
/// `start` on: extended to cover them if they begin at or before its end, and
/// otherwise left alone, since bytes in front of them are still missing.
pub open spec fn raised(initialized: int, extent: int, start: int, transferred: int) -> int {
    let filled = smaller(start + transferred, extent);
    if start <= initialized && filled > initialized {
        filled
    } else {
        initialized
    }
}

/// Computes [`raised`].
fn raise(initialized: usize, extent: usize, start: usize, transferred: usize) -> (mark: usize)
    requires
        initialized <= extent,
    ensures
        mark == raised(initialized as int, extent as int, start as int, transferred as int),
        mark <= extent,
{
    if start > initialized {
        return initialized;
    }
    let end: usize = start.saturating_add(transferred);
    let filled: usize = if end < extent {
        end
    } else {
        extent
    };
    if filled > initialized {
        filled
    } else {
        initialized
    }
}

impl<B> RegistrySlot<B> {
    /// The initialized prefix lies within the extent.
    pub open spec fn wf(self) -> bool {
        self.initialized <= self.extent
    }
}

impl<B> RegistryInner<B> {
    /// Every initialized prefix lies within its extent.
    pub open spec fn wf(self) -> bool {
        forall|i: int| 0 <= i < self.slots@.len() ==> (#[trigger] self.slots@[i]).wf()
    }

    /// Builds a registration from its parts.
    pub fn new(id: RegistryId, buffers: Vec<B>, extents: Vec<usize>, initialized: Vec<usize>) -> (
    registry: Self)
        requires
            buffers@.len() == extents@.len(),
            buffers@.len() == initialized@.len(),
        ensures
            registry.wf(),
            registry.id == id,
            registry.slots@.len() == buffers@.len(),
            forall|i: int|
                0 <= i < buffers@.len() ==> (#[trigger] registry.slots@[i]) == (RegistrySlot {
                    extent: extents@[i],
                    initialized: smaller(initialized@[i] as int, extents@[i] as int) as usize,
                    held: Some(buffers@[i]),
                }),
    {
        let mut slots: Vec<RegistrySlot<B>> = Vec::new();
        for buffer in it: buffers
            invariant
                it.seq() == buffers@,
                buffers@.len() == extents@.len(),
                buffers@.len() == initialized@.len(),
                slots@.len() == it.index(),
                forall|i: int|
                    0 <= i < slots@.len() ==> (#[trigger] slots@[i]) == (RegistrySlot {
                        extent: extents@[i],
                        initialized: smaller(initialized@[i] as int, extents@[i] as int) as usize,
                        held: Some(buffers@[i]),
                    }),
        {
            let i: usize = slots.len();
            let extent: usize = extents[i];
            let mark: usize = if initialized[i] <= extent {
                initialized[i]
            } else {
                extent
            };
            slots.push(RegistrySlot { extent, initialized: mark, held: Some(buffer) });
        }
        RegistryInner { id, slots }
    }

    /// The first buffer from `from` on that is checked out.
    pub open spec fn spec_checked_out(self, from: int) -> Option<int>
        decreases self.slots@.len() - from,
    {
        if from >= self.slots@.len() {
            None
        } else if self.slots@[from].held is None {
            Some(from)
        } else {
            self.spec_checked_out(from + 1)
        }
    }

    /// Whether no buffer is checked out.
    pub open spec fn is_whole(self) -> bool {
        forall|i: int| 0 <= i < self.slots@.len() ==> (#[trigger] self.slots@[i]).held is Some
    }

    /// What looking for a checked-out buffer finds out.
    pub proof fn lemma_checked_out(self, from: int)
        requires
            0 <= from <= self.slots@.len(),
        ensures
            match self.spec_checked_out(from) {
                Some(k) => from <= k < self.slots@.len() && self.slots@[k].held is None && forall|
                    i: int,
                |
                    from <= i < k ==> (#[trigger] self.slots@[i]).held is Some,
                None => forall|i: int|
                    from <= i < self.slots@.len() ==> (#[trigger] self.slots@[i]).held is Some,
            },
        decreases self.slots@.len() - from,
    {
        if from < self.slots@.len() && self.slots@[from].held is Some {
            self.lemma_checked_out(from + 1);
        }
    }

    /// Returns the index of the first buffer that is currently checked out, if one
    /// is.
    ///
    /// The driver consults this before accepting a new registration: a handle
    /// outstanding when one is adopted would be left naming a set the platform
    /// no longer resolves against.
    pub fn any_checked_out(&self) -> (found: Option<u32>)
        ensures
            found == match self.spec_checked_out(0) {
                Some(i) => Some(i as u32),
                None => None,
            },
    {
        let mut i: usize = 0;
        while i < self.slots.len()
            invariant
                i <= self.slots@.len(),
                self.spec_checked_out(0) == self.spec_checked_out(i as int),
            decreases self.slots@.len() - i,
        {
            if self.slots[i].held.is_none() {
                return Some(i as u32);
            }
            i = i + 1;
        }
        None
    }

    /// Returns how many buffers the registration holds.
    pub fn len(&self) -> (n: usize)
        ensures
            n == self.slots@.len(),
    {
        self.slots.len()
    }

    /// Returns a buffer's registered extent, if the index names one.
    pub fn extent(&self, index: u32) -> (extent: Option<usize>)
        ensures
            extent == if index < self.slots@.len() {
                Some(self.slots@[index as int].extent)
            } else {
                None
            },
    {
        let i: usize = index as usize;
        if i < self.slots.len() {
            Some(self.slots[i].extent)
        } else {
            None
        }
    }

    /// Returns how many of a buffer's leading bytes are initialized, if the index names
    /// one. A buffer that is checked out is counted like any other.
    pub fn initialized(&self, index: u32) -> (initialized: Option<usize>)
        ensures
            initialized == if index < self.slots@.len() {
                Some(self.slots@[index as int].initialized)
            } else {
                None
            },
    {
        let i: usize = index as usize;
        if i < self.slots.len() {
            Some(self.slots[i].initialized)
        } else {
            None
        }
    }

    /// What counting the initialized bytes of the buffer at `index` anew leaves.
    pub open spec fn recounted(self, index: int, initialized: usize, after: Self) -> bool {
        &&& after.id == self.id
        &&& after.slots@ == self.slots@.update(
            index,
            RegistrySlot { initialized, ..self.slots@[index] },
        )
    }

    /// Raises a buffer's initialized prefix to cover a completed transfer.
    ///
    /// `start` is where the transfer began within the buffer. The mark is raised
    /// only when the transfer began at or before it: a transfer landing further
    /// on leaves a gap of genuinely uninitialized bytes in front, and raising the
    /// mark over that gap would falsely vouch for it. An index that names no
    /// buffer changes nothing.
    ///
    /// Called by the driver when an operation reports, whether or not a future is
    /// waiting for it.
    pub fn raise_initialized(&mut self, index: u32, start: usize, transferred: usize)
        requires
            old(self).wf(),
        ensures
            final(self).wf(),
            if index < old(self).slots@.len() {
                let slot = old(self).slots@[index as int];
                old(self).recounted(
                    index as int,
                    raised(
                        slot.initialized as int,
                        slot.extent as int,
                        start as int,
                        transferred as int,
                    ) as usize,
                    *final(self),
                )
            } else {
                *final(self) == *old(self)
            },
    {
        let i: usize = index as usize;
        if i < self.slots.len() {
            assert(self.slots@[i as int].wf());
            let mark: usize = raise(
                self.slots[i].initialized,
                self.slots[i].extent,
                start,
                transferred,
            );
            self.count(i, mark);
        }
    }

    /// Counts the initialized bytes of a buffer anew.
    fn count(&mut self, i: usize, initialized: usize)
        requires
            old(self).wf(),
            i < old(self).slots@.len(),
            initialized <= old(self).slots@[i as int].extent,
        ensures
            final(self).wf(),
            old(self).recounted(i as int, initialized, *final(self)),
    {
        let ghost before = self.slots@;
        self.slots[i].initialized = initialized;
        assert forall|k: int| 0 <= k < self.slots@.len() implies (#[trigger] self.slots@[k]).wf() by {
            assert(before[k].wf());
        }
    }

    /// Sets a buffer's initialized prefix outright, held within the extent.
    ///
    /// Unlike [`RegistryInner::raise_initialized`] this may lower the count, which
    /// only narrows what a later write may source and is therefore always safe.
    pub fn set_initialized(&mut self, index: u32, len: usize)
        requires
            old(self).wf(),
        ensures
            final(self).wf(),
            if index < old(self).slots@.len() {
                old(self).recounted(
                    index as int,
                    smaller(len as int, old(self).slots@[index as int].extent as int) as usize,
                    *final(self),
                )
            } else {
                *final(self) == *old(self)
            },
    {
        let i: usize = index as usize;
        if i < self.slots.len() {
            let extent: usize = self.slots[i].extent;
            if len <= extent {
                self.count(i, len);
            } else {
                self.count(i, extent);
            }
        }
    }

    /// What a handle's count, noted where the handle came from, leaves.
    pub open spec fn noted(self, handle: RegisteredBuf<B>, after: Self) -> bool {
        if self.takes_back(handle) {
            self.recounted(handle.index as int, handle.initialized, after)
        } else {
            after == self
        }
    }

    /// The registration with the buffer at `index` checked out.
    pub open spec fn without(self, index: int) -> Seq<RegistrySlot<B>> {
        self.slots@.update(index, RegistrySlot { held: None, ..self.slots@[index] })
    }

    /// What claiming the buffer at `index` leaves, and gives.
    pub open spec fn checked(
        self,
        index: u32,
        after: Self,
        claimed: Result<RegisteredBuf<B>, Error>,
    ) -> bool {
        &&& after.id == self.id
        &&& if index >= self.slots@.len() {
            claimed == Err::<RegisteredBuf<B>, Error>(Error::InvalidRegisteredIndex { index })
                && after.slots@ == self.slots@
        } else {
            match self.slots@[index as int].held {
                None => claimed == Err::<RegisteredBuf<B>, Error>(Error::BufferCheckedOut { index })
                    && after.slots@ == self.slots@,
                Some(buffer) => claimed == Ok::<RegisteredBuf<B>, Error>(
                    RegisteredBuf {
                        registry: self.id,
                        index,
                        extent: self.slots@[index as int].extent,
                        buffer,
                        initialized: self.slots@[index as int].initialized,
                    },
                ) && after.slots@ == self.without(index as int),
            }
        }
    }

    /// Claims a buffer, refusing if the index is unknown or already claimed.
    ///
    /// The registry-local half of checkout. The guards that consult a driver
    /// (shutdown, a registration in flight, and supersession) wrap this in
    /// [`RegisteredBuffers::check_out`].
    pub fn claim(&mut self, index: u32) -> (claimed: Result<RegisteredBuf<B>, Error>)
        requires
            old(self).wf(),
        ensures
            final(self).wf(),
            old(self).checked(index, *final(self), claimed),
    {
        let i: usize = index as usize;
        if i >= self.slots.len() {
            return Err(Error::InvalidRegisteredIndex { index });
        }
        let ghost before = self.slots@;
        let extent: usize = self.slots[i].extent;
        let initialized: usize = self.slots[i].initialized;
        let taken = self.slots[i].held.take();
        assert forall|k: int| 0 <= k < self.slots@.len() implies (#[trigger] self.slots@[k]).wf() by {
            assert(before[k].wf());
        }
        match taken {
            Some(buffer) => Ok(
                RegisteredBuf { registry: self.id, index, extent, buffer, initialized },
            ),
            None => {
                assert(self.slots@ =~= before);
                Err(Error::BufferCheckedOut { index })
            },
        }
    }

    /// Whether a handle came out of this registration and can go back.
    pub open spec fn takes_back(self, handle: RegisteredBuf<B>) -> bool {
        &&& handle.registry == self.id
        &&& handle.index < self.slots@.len()
        &&& self.slots@[handle.index as int].held is None
        &&& self.slots@[handle.index as int].extent == handle.extent
    }

    /// Returns whether a handle came out of this registration and can go back.
    pub fn takes(&self, handle: &RegisteredBuf<B>) -> (b: bool)
        ensures
            b == self.takes_back(*handle),
    {
        let i: usize = handle.index as usize;
        handle.registry == self.id && i < self.slots.len() && self.slots[i].held.is_none()
            && self.slots[i].extent == handle.extent
    }

    /// What taking a handle back leaves: its buffer in its place.
    pub open spec fn released(self, handle: RegisteredBuf<B>, after: Self) -> bool {
        &&& after.id == self.id
        &&& after.slots@ == self.slots@.update(
            handle.index as int,
            RegistrySlot {
                held: Some(handle.buffer),
                ..self.slots@[handle.index as int]
            },
        )
    }

    /// Returns a buffer to the collection, which has kept count of its initialized
    /// bytes. A handle that did not come out of this registration is handed back.
    pub fn release(&mut self, handle: RegisteredBuf<B>) -> (refused: Option<RegisteredBuf<B>>)
        requires
            old(self).wf(),
        ensures
            final(self).wf(),
            if old(self).takes_back(handle) {
                refused is None && old(self).released(handle, *final(self))
            } else {
                refused == Some(handle) && *final(self) == *old(self)
            },
    {
        if !self.takes(&handle) {
            return Some(handle);
        }
        let i: usize = handle.index as usize;
        let ghost before = self.slots@;
        self.slots[i].held = Some(handle.buffer);
        assert forall|k: int| 0 <= k < self.slots@.len() implies (#[trigger] self.slots@[k]).wf() by {
            assert(before[k].wf());
        }
        None
    }
}

impl<B> RegisteredBuf<B> {
    /// The initialized prefix lies within the extent.
    pub open spec fn wf(self) -> bool {
        self.initialized <= self.extent
    }

    /// Returns the index this buffer occupies in its registration.
    pub fn index(&self) -> (index: u32)
        ensures
            index == self.index,
    {
        self.index
    }

    /// Returns the registered extent, which is the most this buffer can hold.
    pub fn capacity(&self) -> (capacity: usize)
        ensures
            capacity == self.extent,
    {
        self.extent
    }

    /// Returns the registration this buffer belongs to.
    pub fn registry(&self) -> (registry: RegistryId)
        ensures
            registry == self.registry,
    {
        self.registry
    }

    /// Returns how many leading bytes are initialized.
    pub fn buf_len(&self) -> (len: usize)
        ensures
            len == self.initialized,
    {
        self.initialized
    }

    /// Returns how many bytes the buffer can hold.
    pub fn buf_capacity(&self) -> (capacity: usize)
        ensures
            capacity == self.extent,
    {
        self.extent
    }

    /// Notes the count where the handle came from.
    fn note(&self, registry: Option<&mut RegistryInner<B>>)
        requires
            self.wf(),
            registry matches Some(registry) ==> registry.wf(),
        ensures
            registry matches Some(registry) ==> final(registry).wf() && registry.noted(
                *self,
                *final(registry),
            ),
    {
        match registry {
            Some(registry) => {
                if registry.takes(self) {
                    registry.set_initialized(self.index, self.initialized);
                }
            },
            None => {},
        }
    }

    /// Sets the initialized prefix outright, held within the extent, here and in the
    /// registration.
    ///
    /// Unlike [`RegistryInner::raise_initialized`] this may lower the count, which
    /// only narrows what a later write may source and is therefore always safe.
    pub fn set_buf_init(&mut self, registry: Option<&mut RegistryInner<B>>, len: usize)
        requires
            registry matches Some(registry) ==> registry.wf(),
        ensures
            final(self).wf(),
            *final(self) == (RegisteredBuf {
                initialized: smaller(len as int, old(self).extent as int) as usize,
                ..*old(self)
            }),
            len <= old(self).extent ==> final(self).initialized == len,
            len > old(self).extent ==> final(self).initialized == old(self).extent,
            registry matches Some(registry) ==> final(registry).wf() && registry.noted(
                *final(self),
                *final(registry),
            ),
    {
        self.initialized = if len <= self.extent {
            len
        } else {
            self.extent
        };
        self.note(registry);
    }

    /// Begins a fill of the buffer with `len` bytes from its first byte on: says
    /// whether they fit, and counts them, and only them, as initialized, here and in
    /// the registration.
    ///
    /// # Errors
    ///
    /// Returns [`BufError::TooSmall`] if that is more than the registered extent.
    pub fn begin_fill(
        &mut self,
        registry: Option<&mut RegistryInner<B>>,
        len: usize,
    ) -> (begun: Result<(), Error>)
        requires
            registry matches Some(registry) ==> registry.wf(),
        ensures
            old(self).fill_begun(len as nat, *final(self), begun),
            registry matches Some(registry) ==> final(registry).wf() && if begun is Ok {
                registry.noted(*final(self), *final(registry))
            } else {
                *final(registry) == *registry
            },
    {
        if len > self.extent {
            return Err(
                Error::Buf(
                    BufError::TooSmall { requested: len as u64, available: self.extent as u64 },
                ),
            );
        }
        self.initialized = len;
        self.note(registry);
        Ok(())
    }

    /// What beginning a fill with `len` bytes leaves of the handle, and gives.
    pub open spec fn fill_begun(self, len: nat, after: Self, begun: Result<(), Error>) -> bool {
        if len > self.extent {
            &&& begun == Err::<(), Error>(
                Error::Buf(
                    BufError::TooSmall { requested: len as u64, available: self.extent as u64 },
                ),
            )
            &&& after == self
        } else {
            &&& begun == Ok::<(), Error>(())
            &&& after == (RegisteredBuf { initialized: len as usize, ..self })
        }
    }

    /// Copies the count from the registration, if that is where the handle came from.
    ///
    /// Used when an operation hands the handle back, since the driver updated the
    /// registration while the handle was in flight.
    pub fn refresh(&mut self, registry: &RegistryInner<B>)
        requires
            registry.wf(),
        ensures
            *final(self) == if registry.takes_back(*old(self)) {
                RegisteredBuf {
                    initialized: registry.slots@[old(self).index as int].initialized,
                    ..*old(self)
                }
            } else {
                *old(self)
            },
            old(self).wf() ==> final(self).wf(),
    {
        if registry.takes(self) {
            assert(registry.slots@[self.index as int].wf());
            match registry.initialized(self.index) {
                Some(initialized) => {
                    self.initialized = initialized;
                },
                None => {},
            }
        }
    }

    /// Raises the copied count to cover a completed transfer, as
    /// [`RegistryInner::raise_initialized`] does the count.
    pub fn raise_initialized(&mut self, start: usize, transferred: usize)
        requires
            old(self).wf(),
        ensures
            final(self).wf(),
            *final(self) == (RegisteredBuf {
                initialized: raised(
                    old(self).initialized as int,
                    old(self).extent as int,
                    start as int,
                    transferred as int,
                ) as usize,
                ..*old(self)
            }),
    {
        self.initialized = raise(self.initialized, self.extent, start, transferred);
    }
}

impl<B: Bytes> RegisteredBuf<B> {
    /// The initialized bytes are there.
    pub open spec fn is_backed(self) -> bool {
        self.wf() && self.initialized <= self.buffer.contents().len()
    }

    /// The buffer has room for its extent.
    pub open spec fn has_room(self) -> bool {
        self.extent <= self.buffer.room()
    }

    /// The initialized bytes.
    pub open spec fn spec_bytes(self) -> Seq<u8> {
        self.buffer.contents().take(self.initialized as int)
    }

    /// Copies `src` into the buffer, starting at its first byte.
    ///
    /// Always from byte zero: filling from anywhere else would leave a gap of
    /// uninitialized bytes in front, which the initialized prefix cannot
    /// describe.
    ///
    /// # Errors
    ///
    /// Returns [`BufError::TooSmall`] if `src` is longer than the registered
    /// extent.
    pub fn fill(
        &mut self,
        registry: Option<&mut RegistryInner<B>>,
        src: &[u8],
    ) -> (filled: Result<(), Error>)
        requires
            old(self).has_room(),
            registry matches Some(registry) ==> registry.wf(),
        ensures
            (RegisteredBuf { buffer: final(self).buffer, ..*old(self) }).fill_begun(
                src@.len(),
                *final(self),
                filled,
            ),
            if filled is Ok {
                &&& final(self).is_backed()
                &&& final(self).has_room()
                &&& final(self).spec_bytes() == src@
                &&& final(self).buffer.contents() == overwritten(
                    old(self).buffer.contents(),
                    src@,
                )
            } else {
                *final(self) == *old(self)
            },
            registry matches Some(registry) ==> final(registry).wf() && if filled is Ok {
                registry.noted(*final(self), *final(registry))
            } else {
                *final(registry) == *registry
            },
    {
        let len: usize = src.len();
        match self.begin_fill(registry, len) {
            Ok(()) => {},
            Err(error) => {
                return Err(error);
            },
        }
        let ghost begun = *self;
        let ghost before = self.buffer.contents();
        let mut i: usize = 0;
        while i < len
            invariant
                i <= len,
                len == src@.len(),
                len <= begun.extent,
                begun.has_room(),
                before == begun.buffer.contents(),
                *self == (RegisteredBuf { buffer: self.buffer, ..begun }),
                self.buffer.room() == begun.buffer.room(),
                self.buffer.contents() == overwritten(before, src@.take(i as int)),
            decreases len - i,
        {
            self.buffer.put(i, src[i]);
            i = i + 1;
            assert(self.buffer.contents() =~= overwritten(before, src@.take(i as int)));
        }
        assert(src@.take(i as int) =~= src@);
        assert(self.spec_bytes() =~= src@);
        Ok(())
    }

    /// Returns the initialized bytes.
    pub fn bytes(&self) -> (bytes: &[u8])
        requires
            self.is_backed(),
        ensures
            bytes@ == self.spec_bytes(),
    {
        vstd::slice::slice_subrange(self.buffer.as_bytes(), 0, self.initialized)
    }

    /// Returns the initialized bytes, for changing them in place. Nothing past them
    /// can be reached this way, and how many there are stays as it is.
    pub fn bytes_mut(&mut self) -> (bytes: &mut [u8])
        requires
            old(self).is_backed(),
        ensures
            bytes@ == old(self).spec_bytes(),
            final(self).buffer.contents() == final(bytes)@ + old(self).buffer.contents().skip(
                old(self).initialized as int,
            ),
            *final(self) == (RegisteredBuf { buffer: final(self).buffer, ..*old(self) }),
    {
        let (front, _) = self.buffer.as_bytes_mut().split_at_mut(self.initialized);
        front
    }
}

/// Bytes with `src` written over them from the first on, and past their end if it is
/// longer.
pub open spec fn overwritten(bytes: Seq<u8>, src: Seq<u8>) -> Seq<u8> {
    if src.len() < bytes.len() {
        src + bytes.skip(src.len() as int)
    } else {
        src
    }
}

/// A set of buffers registered with the platform.
///
/// Obtained from a successful registration. Copying it produces another reference
/// to the same collection, not another registration.
///
/// Buffers are taken out one at a time with [`RegisteredBuffers::check_out`].
#[derive(Debug, Clone, Copy)]
pub struct RegisteredBuffers {
    /// Which registration this is.
    pub id: RegistryId,
    /// How many buffers it holds.
    pub count: usize,
}

impl RegisteredBuffers {
    /// Refers to a registration.
    pub fn from_inner<B>(inner: &RegistryInner<B>) -> (buffers: Self)
        ensures
            buffers.id == inner.id,
            buffers.count == inner.slots@.len(),
    {
        RegisteredBuffers { id: inner.id, count: inner.len() }
    }

    /// Returns how many buffers the registration holds.
    pub fn len(&self) -> (n: usize)
        ensures
            n == self.count,
    {
        self.count
    }

    /// Returns `true` if the registration holds no buffers.
    ///
    /// Always `false` in practice: an empty registration is refused before it
    /// reaches the platform.
    pub fn is_empty(&self) -> (empty: bool)
        ensures
            empty == (self.count == 0),
    {
        self.count == 0
    }

    /// Why a checkout is refused before the collection itself is looked at. A
    /// driver that is gone refuses as one that is shutting down.
    pub open spec fn checkout_refusal<B, F, S, W>(
        self,
        driver: DriverInner<B, F, S, W>,
    ) -> Option<Error> {
        if driver.torn_down || driver.shutdown != ShutdownMode::Running {
            Some(Error::ShuttingDown)
        } else if driver.registration_in_flight {
            Some(Error::RegistrationPending)
        } else {
            match driver.buffer_registration {
                Some(current) if current.id == self.id => None,
                _ => Some(Error::RegistrationSuperseded),
            }
        }
    }

    /// Takes the buffer at `index`, if it is not already taken.
    ///
    /// # Errors
    ///
    /// Refusals are checked in this order, because more than one can hold at once
    /// and each names a different situation:
    ///
    /// - [`Error::ShuttingDown`] if the driver is gone or shutting down.
    /// - [`Error::RegistrationPending`] if a registration request is in flight. One
    ///   is adopted when it completes rather than when it is requested, so a handle
    ///   taken in that window would name a set about to be superseded.
    /// - [`Error::RegistrationSuperseded`] if this collection's registration is no
    ///   longer the driver's current one. Its buffers stay valid for any handle
    ///   still holding them, but it yields no more.
    /// - [`Error::InvalidRegisteredIndex`] if the registration has no such buffer.
    /// - [`Error::BufferCheckedOut`] if a handle to it already exists. A buffer
    ///   held by an operation returns when that operation reports, which may be
    ///   later than the point its future was dropped.
    pub fn check_out<B, F, S, W>(
        &self,
        driver: Option<&mut DriverInner<B, F, S, W>>,
        index: u32,
    ) -> (claimed: Result<RegisteredBuf<B>, Error>)
        requires
            driver matches Some(driver) ==> driver.wf() && driver.building is None,
        ensures
            match driver {
                None => claimed == Err::<RegisteredBuf<B>, Error>(Error::ShuttingDown),
                Some(driver) => {
                    &&& final(driver).wf()
                    &&& driver.leads_to(*final(driver))
                    &&& match self.checkout_refusal(*driver) {
                        Some(error) => claimed == Err::<RegisteredBuf<B>, Error>(error)
                            && *final(driver) == *driver,
                        None => {
                            let current = driver.buffer_registration->0;
                            &&& final(driver).buffer_registration matches Some(registry)
                            &&& current.checked(index, registry, claimed)
                            &&& *final(driver) == (DriverInner {
                                buffer_registration: final(driver).buffer_registration,
                                ..*driver
                            })
                        },
                    }
                },
            },
    {
        match driver {
            None => Err(Error::ShuttingDown),
            Some(driver) => {
                if driver.torn_down || driver.shutdown != ShutdownMode::Running {
                    return Err(Error::ShuttingDown);
                }
                if driver.registration_in_flight {
                    return Err(Error::RegistrationPending);
                }
                match driver.buffer_registration.as_mut() {
                    Some(current) => {
                        if current.id == self.id {
                            current.claim(index)
                        } else {
                            Err(Error::RegistrationSuperseded)
                        }
                    },
                    None => Err(Error::RegistrationSuperseded),
                }
            },
        }
    }
}

} // verus!
