//! Operations at a file's own position, one at a time.
//!
//! Whoever keeps a file's position lends the operation a guard, and takes the next
//! operation on only once the guard is back. The guard travels with the operation's
//! payload, so that it comes back when the operation itself is over, and not when the
//! future awaiting it is dropped: the kernel may move the position until then.

use crate::driver::{Carried, DriverInner, OpPayload};
use crate::error::Error;
use crate::handle::{DataRef, Entry, EntryKind, HandleRef};
use crate::token::Token;
use std::rc::Rc;
use vstd::prelude::*;

verus! {

/// Where an operation's result goes, and the guard that goes back with it.
#[derive(Debug)]
pub struct Guarded<S, G> {
    /// The result slot.
    pub slot: S,
    /// The guard, if the operation holds one.
    pub guard: Option<G>,
}

impl<S, G> Guarded<S, G> {
    /// A result slot of an operation that holds no guard.
    pub fn unguarded(slot: S) -> (guarded: Self)
        ensures
            guarded == (Guarded::<S, G> { slot, guard: None }),
    {
        Guarded { slot, guard: None }
    }
}

impl<B, F, S, G, W> DriverInner<B, F, Guarded<S, G>, W> {
    /// Starts a read that holds `guard`, as [`DriverInner::try_read`] does. A refusal
    /// lets the guard go.
    pub fn read_sequential(
        &mut self,
        file: Rc<F>,
        raw: isize,
        buffer: Carried<B>,
        capacity: usize,
        len: u32,
        offset: u64,
        guard: G,
        supported: Result<(), Error>,
        slot: S,
    ) -> (started: Result<Entry, (Error, Carried<B>)>)
        requires
            old(self).wf(),
            old(self).building is None,
            buffer.wf(),
        ensures
            final(self).wf(),
            old(self).leads_to(*final(self)),
            match old(self).transfer_refusal(supported, len, buffer.spec_capacity(capacity)) {
                Some(error) => started == Err::<Entry, (Error, Carried<B>)>((error, buffer))
                    && *final(self) == *old(self),
                None => {
                    &&& started == Ok::<Entry, (Error, Carried<B>)>(
                        Entry {
                            kind: EntryKind::Read,
                            handle: HandleRef::Raw(raw),
                            data: DataRef::Parked,
                            len,
                            offset,
                            user_data: old(self).slab@.next_token().0,
                            sqe_flags: 0,
                        },
                    )
                    &&& old(self).parked(
                        OpPayload {
                            buffer: Some(buffer),
                            file: Some(file),
                            slot: Guarded { slot, guard: Some(guard) },
                            registered_buffer: None,
                            registered_file: None,
                            pending_registration: None,
                        },
                        *final(self),
                    )
                },
            },
            started matches Ok(entry) ==> {
                &&& entry.kind == EntryKind::Read
                &&& entry.handle == HandleRef::Raw(raw)
                &&& entry.len == len
                &&& entry.offset == offset
                &&& buffer is Owned ==> len <= capacity
                &&& buffer matches Carried::Registered(handle) ==> len <= handle.extent
                &&& final(self).slab@.operation(Token(entry.user_data)) matches Some(op)
                &&& op.payload.buffer == Some(buffer)
                &&& op.payload.file == Some(file)
                &&& op.payload.slot.slot == slot
                &&& op.payload.slot.guard == Some(guard)
            },
    {
        let slot = Guarded { slot, guard: Some(guard) };
        self.try_read(file, raw, buffer, capacity, len, offset, 0, supported, slot)
    }

    /// Starts a write that holds `guard`, as [`DriverInner::try_write`] does. A refusal
    /// lets the guard go.
    pub fn write_sequential(
        &mut self,
        file: Rc<F>,
        raw: isize,
        buffer: Carried<B>,
        initialized: usize,
        len: u32,
        offset: u64,
        guard: G,
        supported: Result<(), Error>,
        slot: S,
    ) -> (started: Result<Entry, (Error, Carried<B>)>)
        requires
            old(self).wf(),
            old(self).building is None,
            buffer.wf(),
        ensures
            final(self).wf(),
            old(self).leads_to(*final(self)),
            match old(self).transfer_refusal(supported, len, buffer.spec_initialized(initialized)) {
                Some(error) => started == Err::<Entry, (Error, Carried<B>)>((error, buffer))
                    && *final(self) == *old(self),
                None => {
                    &&& started == Ok::<Entry, (Error, Carried<B>)>(
                        Entry {
                            kind: EntryKind::Write { flags: 0 },
                            handle: HandleRef::Raw(raw),
                            data: DataRef::Parked,
                            len,
                            offset,
                            user_data: old(self).slab@.next_token().0,
                            sqe_flags: 0,
                        },
                    )
                    &&& old(self).parked(
                        OpPayload {
                            buffer: Some(buffer),
                            file: Some(file),
                            slot: Guarded { slot, guard: Some(guard) },
                            registered_buffer: None,
                            registered_file: None,
                            pending_registration: None,
                        },
                        *final(self),
                    )
                },
            },
            started matches Ok(entry) ==> {
                &&& entry.kind == (EntryKind::Write { flags: 0 })
                &&& entry.handle == HandleRef::Raw(raw)
                &&& entry.len == len
                &&& entry.offset == offset
                &&& buffer is Owned ==> len <= initialized
                &&& buffer matches Carried::Registered(handle) ==> len <= handle.initialized
                &&& final(self).slab@.operation(Token(entry.user_data)) matches Some(op)
                &&& op.payload.buffer == Some(buffer)
                &&& op.payload.file == Some(file)
                &&& op.payload.slot.slot == slot
                &&& op.payload.slot.guard == Some(guard)
            },
    {
        let slot = Guarded { slot, guard: Some(guard) };
        self.try_write(file, raw, buffer, initialized, len, offset, 0, 0, supported, slot)
    }
}

} // verus!
