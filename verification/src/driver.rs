//! The driver's state, and what each event does to it.
//!
//! # Why the driver owns the buffers
//!
//! The kernel holds a pointer into the caller's buffer until an operation
//! completes, and a future can be dropped at any time. An operation's state is
//! therefore moved into the driver's slab *before* submission. Dropping the
//! future cannot free the buffer; only the operation's own completion can.
//!
//! # Submission is a state machine, not a single step
//!
//! Building an operation publishes a pointer into the submission queue, and that
//! entry cannot be withdrawn. When a submission fails, the platform leaves every
//! entry in the queue. A built-but-unsubmitted operation is therefore a real,
//! persistent state whose buffer must be retained even though nothing has reached
//! the kernel yet.
//!
//! A submission failure is consequently **not** an operation failure. The future
//! stays pending, the driver reports the error to its error observer, and it
//! retries.
//!
//! # Events
//!
//! The ring itself is reached only by the caller. Each method here takes what the
//! ring answered as an argument, updates the state, and returns what is to be done
//! next: an entry to build, a cancellation to request, a result to deliver, a
//! waker to wake.

use crate::error::{code_result, Error};
use crate::registry::{
    RegisteredBuf, RegisteredBuffers, RegistryId, RegistryInner, RegistrySlot,
};
use crate::slab::{CancelState, Lifecycle, Observer, OpSlab, Operation};
use crate::token::{Token, TokenKind};
use std::rc::Rc;
use vstd::prelude::*;

verus! {

/// How far along shutdown is.
///
/// Ordered so that escalation is a maximum and downgrade is impossible: a
/// graceful shutdown may become immediate, but an immediate one never relaxes
/// back.
#[derive(Debug, Clone, Copy, PartialEq, Eq, PartialOrd, Ord, Structural)]
pub enum ShutdownMode {
    /// Accepting work normally.
    Running,
    /// No longer accepting work; operations already in flight are left to
    /// finish on their own.
    Graceful,
    /// No longer accepting work; cancellation is requested for everything in
    /// flight that the platform will accept one for.
    Immediate,
}

impl ShutdownMode {
    /// How far along, as a number.
    pub open spec fn rank(self) -> int {
        match self {
            ShutdownMode::Running => 0,
            ShutdownMode::Graceful => 1,
            ShutdownMode::Immediate => 2,
        }
    }

    /// The further along of two modes.
    pub open spec fn spec_max(self, other: ShutdownMode) -> ShutdownMode {
        if self.rank() >= other.rank() {
            self
        } else {
            other
        }
    }

    /// Returns whether shutdown is at least as far along as `other`.
    pub fn at_least(self, other: ShutdownMode) -> (b: bool)
        ensures
            b == (self.rank() >= other.rank()),
    {
        match (self, other) {
            (_, ShutdownMode::Running) => true,
            (ShutdownMode::Running, _) => false,
            (_, ShutdownMode::Graceful) => true,
            (ShutdownMode::Graceful, _) => false,
            (ShutdownMode::Immediate, ShutdownMode::Immediate) => true,
        }
    }
}

/// The buffer an operation carries.
#[derive(Debug)]
pub enum Carried<B> {
    /// A buffer of the caller's own.
    Owned(B),
    /// A registered buffer, by its handle.
    Registered(RegisteredBuf<B>),
}

/// A registration that has been built but whose completion has not arrived.
///
/// The resources live in the driver's slab for the same reason operation buffers
/// do: the platform holds pointers into them from the moment the registration is
/// built, and the future awaiting it can be dropped at any time.
#[derive(Debug)]
pub enum PendingRegistration<B, F> {
    /// Buffers, their extents, and how much of each is initialized.
    Buffers {
        /// The caller's buffers.
        buffers: Vec<B>,
        /// The registered extent of each.
        extents: Vec<usize>,
        /// The initialized prefix of each.
        watermarks: Vec<usize>,
    },
    /// File handles, kept open for the platform.
    Files {
        /// The files.
        files: Vec<Rc<F>>,
    },
}

/// The driver-owned state of one in-flight operation.
#[derive(Debug)]
pub struct OpPayload<B, F, S> {
    /// The caller's buffer, if the operation carries one.
    pub buffer: Option<Carried<B>>,
    /// Keeps the target file's handle open for as long as the kernel may use it,
    /// and lets a cancellation name the same file the operation named.
    ///
    /// Absent for registrations, which name no single file.
    pub file: Option<Rc<F>>,
    /// Where the result goes; shared with the future awaiting this operation.
    pub slot: S,
    /// The index of the registered buffer this operation targets and the offset
    /// within it, so a completed transfer can extend its initialized prefix.
    pub registered_buffer: Option<(u32, u32)>,
    /// The registered file index this operation names, if it named one instead of
    /// an owned file.
    pub registered_file: Option<u32>,
    /// Resources for a registration that has not yet completed.
    pub pending_registration: Option<PendingRegistration<B, F>>,
}

/// An active file handle registration.
#[derive(Debug)]
pub struct FileRegistration<F> {
    /// Kept so the registered handles stay open for as long as the platform may
    /// use them.
    pub files: Vec<Rc<F>>,
    /// How many handles were registered, for index validation.
    pub count: usize,
}

/// What comes back to the caller with an operation's result.
#[derive(Debug)]
pub enum Resource<B, F> {
    /// The operation's buffer.
    Buffer(Carried<B>),
    /// A successful buffer registration's collection.
    Collection(RegisteredBuffers),
    /// The resources of a registration that failed.
    Unregistered(PendingRegistration<B, F>),
}

/// A result to leave in an operation's result slot.
#[derive(Debug)]
pub struct Delivery<B, F, S> {
    /// The result slot.
    pub slot: S,
    /// The number of bytes transferred, or why the operation failed.
    pub result: Result<u32, Error>,
    /// What the operation carried.
    pub resource: Option<Resource<B, F>>,
}

/// How a cancellation names the file its target named.
///
/// The platform requires the cancellation to name the same file as the operation
/// it cancels, and a registered-handle operation named its file by index rather
/// than by handle.
#[derive(Debug)]
pub enum CancelTarget<F> {
    /// An owned file, held open until the cancellation reports.
    Owned(Rc<F>),
    /// A registered handle, owned by the driver for the life of the ring.
    Registered(u32),
}

/// A cancellation to build into the submission queue.
#[derive(Debug)]
pub struct CancelRequest<F> {
    /// The user data of the operation to cancel.
    pub op_to_cancel: usize,
    /// The user data of the cancellation itself.
    pub user_data: usize,
    /// The file the operation named.
    pub target: CancelTarget<F>,
}

/// A completion queue entry.
#[derive(Debug, Clone, Copy)]
pub struct Completion {
    /// The user data the entry was built with.
    pub user_data: usize,
    /// The platform's result code.
    pub code: i32,
    /// The number of bytes transferred.
    pub information: usize,
}

/// The driver's state.
pub struct DriverInner<B, F, S, W> {
    /// Tells this driver's registrations from any other driver's.
    pub driver_id: u64,
    /// The operations in flight.
    pub slab: OpSlab<OpPayload<B, F, S>>,
    /// The operation whose queue entry is being built.
    ///
    /// Parking an operation and building its entry are two steps of one call;
    /// between calls there is no such operation.
    pub building: Option<Token>,
    /// The active buffer registration, if any.
    pub buffer_registration: Option<RegistryInner<B>>,
    /// Buffer registrations that have been superseded.
    ///
    /// Retained until the ring closes: the platform offers no way to withdraw a
    /// registration, so its pointers may still be live.
    pub retired_buffer_registrations: Vec<RegistryInner<B>>,
    /// Set while a *buffer* registration is in flight.
    ///
    /// A registration is adopted when it completes, not when it is requested, so
    /// this covers the window between.
    pub registration_in_flight: bool,
    /// The active file handle registration, if any.
    pub file_registration: Option<FileRegistration<F>>,
    /// Superseded file registrations.
    pub retired_file_registrations: Vec<FileRegistration<F>>,
    /// Files that cancellation requests need kept open.
    ///
    /// A cancellation names the file its target named, and completes
    /// independently, possibly *after* the target. The target's own reference is
    /// released when the target completes, so the cancellation needs its own.
    pub cancel_holds: Vec<(Token, Rc<F>)>,
    /// Cancellations requested before their operation reached the kernel.
    ///
    /// The platform can only cancel something it already has, so a request made
    /// while the operation is still described or built is remembered here and
    /// issued once submission promotes it.
    pub deferred_cancels: Vec<Token>,
    /// Durable record that work was queued or shutdown was requested.
    ///
    /// A flag rather than an edge on purpose: a signal that had to be caught in
    /// flight could be raised in the middle of a pass and missed; a flag raised
    /// there is still set when the park consults it.
    pub nudged: bool,
    /// The waker of whichever task is currently parked driving.
    ///
    /// Occupied **only while the driver is parked**.
    pub driver_waker: Option<W>,
    /// Set when entries are queued but not yet accepted by the kernel.
    ///
    /// While set, a retry is owed and no completion can arrive to prompt it.
    pub pending_submit: bool,
    /// How far along shutdown is.
    pub shutdown: ShutdownMode,
    /// Set only once the ring is closed and every resource has been released.
    pub torn_down: bool,
    /// Wakers of futures awaiting the end of teardown, each tagged so a re-poll
    /// replaces its own entry rather than adding a second, and a drop removes it.
    pub shutdown_waiters: Vec<(u64, W)>,
    /// Source of the tags above.
    pub next_waiter_id: u64,
    /// Errors awaiting delivery to the observer.
    pub deferred_reports: Vec<Error>,
    /// Consecutive failed submission attempts.
    pub submit_failures: u32,
    /// How many submissions the driver has completed successfully.
    pub submissions: u64,
    /// How many entries those submissions covered in total.
    pub submitted_entries: u64,
}

/// Makes another reference to a shared file.
///
/// Calls `Rc::clone`, which makes another pointer to the same allocation; the
/// contract says that the two pointers lead to the same value.
#[verifier::external_body]
fn share<F>(file: &Rc<F>) -> (other: Rc<F>)
    ensures
        other == *file,
{
    Rc::clone(file)
}

impl<B, F> PendingRegistration<B, F> {
    /// The collection that adopting this registration yields: one for buffers,
    /// none for files.
    pub open spec fn collection(self, id: RegistryId) -> Option<RegisteredBuffers> {
        match self {
            PendingRegistration::Buffers { buffers, .. } => Some(
                RegisteredBuffers { id, count: buffers.len() },
            ),
            PendingRegistration::Files { .. } => None,
        }
    }
}

impl<B, F, S> OpPayload<B, F, S> {
    /// Whether this is a registration of buffers.
    pub open spec fn registers_buffers(self) -> bool {
        self.pending_registration matches Some(PendingRegistration::Buffers { .. })
    }

    /// The parts of the payload agree with each other.
    pub open spec fn wf(self) -> bool {
        &&& self.buffer matches Some(Carried::Registered(handle)) ==> handle.wf()
        &&& self.registered_buffer matches Some((index, _)) ==> (self.buffer matches Some(
            Carried::Registered(handle),
        ) && handle.index == index)
        &&& self.pending_registration matches Some(
            PendingRegistration::Buffers { buffers, extents, watermarks },
        ) ==> buffers@.len() == extents@.len() && buffers@.len() == watermarks@.len()
        &&& self.pending_registration is Some ==> self.buffer is None
    }
}

/// Every live payload is well-formed.
pub open spec fn payloads_wf<B, F, S>(
    slab: crate::slab::SlabView<OpPayload<B, F, S>>,
) -> bool {
    forall|i: int| #![trigger slab.slots[i]]
        0 <= i < slab.slots.len() ==> (slab.slots[i].phase matches crate::slab::Phase::Occupied(op)
            ==> op.payload.wf())
}

/// Every held file belongs to a cancellation that has not reported, each to
/// another.
pub open spec fn holds_wf<B, F, S>(
    holds: Seq<(Token, Rc<F>)>,
    slab: crate::slab::SlabView<OpPayload<B, F, S>>,
) -> bool {
    &&& forall|k: int| 0 <= k < holds.len() ==> slab.awaits_cancel((#[trigger] holds[k]).0)
    &&& forall|j: int, k: int|
        0 <= j < k < holds.len() ==> (#[trigger] holds[j]).0 != (#[trigger] holds[k]).0
}

/// Whether a slot holds a registration of buffers.
pub open spec fn registers<B, F, S>(slot: crate::slab::SlotView<OpPayload<B, F, S>>) -> bool {
    slot.phase matches crate::slab::Phase::Occupied(op) && op.payload.registers_buffers()
}

/// Whether a slot holds a registration of buffers that is in the submission queue
/// or with the kernel.
pub open spec fn in_flight<B, F, S>(slot: crate::slab::SlotView<OpPayload<B, F, S>>) -> bool {
    registers(slot) && slot.phase->Occupied_0.lifecycle != Lifecycle::Described
}

/// Whether some slot holds a registration of buffers.
pub open spec fn registering<B, F, S>(slab: crate::slab::SlabView<OpPayload<B, F, S>>) -> bool {
    exists|i: int| 0 <= i < slab.slots.len() && registers(#[trigger] slab.slots[i])
}

/// No operation is left without a queue entry but the one being built; at most one
/// registration of buffers is under way; and the flag is set exactly while one is
/// in flight.
pub open spec fn stages_wf<B, F, S>(
    slab: crate::slab::SlabView<OpPayload<B, F, S>>,
    flag: bool,
    building: Option<Token>,
) -> bool {
    &&& forall|i: int|
        0 <= i < slab.slots.len() && (#[trigger] slab.slots[i]).phase.is_in(
            crate::slab::Group::Described,
        ) ==> building == Some(
            crate::token::token_of(TokenKind::Operation, i, slab.slots[i].generation),
        )
    &&& forall|i: int| 0 <= i < slab.slots.len() && in_flight(#[trigger] slab.slots[i]) ==> flag
    &&& forall|i: int, j: int|
        0 <= i < slab.slots.len() && 0 <= j < slab.slots.len() && registers(
            #[trigger] slab.slots[i],
        ) && registers(#[trigger] slab.slots[j]) ==> i == j
    &&& flag ==> exists|i: int|
        0 <= i < slab.slots.len() && in_flight(#[trigger] slab.slots[i])
}

/// Every registration was made by this driver, by an operation that is over, each
/// by another: no two registrations are ever taken for one.
pub open spec fn registries_wf<P>(
    ids: Seq<RegistryId>,
    driver: u64,
    slab: crate::slab::SlabView<P>,
) -> bool {
    &&& ids.no_duplicates()
    &&& forall|k: int|
        0 <= k < ids.len() ==> (#[trigger] ids[k]).driver == driver && crate::slab_laws::is_over(
            slab,
            ids[k].token,
        )
}

/// What an operation carries stays what it was for as long as the operation is there.
pub open spec fn payloads_kept<P>(
    before: crate::slab::SlabView<P>,
    after: crate::slab::SlabView<P>,
) -> bool {
    forall|i: int|
        #![trigger before.slots[i]]
        #![trigger after.slots[i]]
        0 <= i < before.slots.len() && before.slots[i].generation == after.slots[i].generation ==> (
        before.slots[i].phase matches crate::slab::Phase::Occupied(op) ==> (
        after.slots[i].phase matches crate::slab::Phase::Occupied(next) ==> next.payload
            == op.payload))
}

/// Every waiter has a tag of its own, handed out before.
pub open spec fn waiters_wf<W>(waiters: Seq<(u64, W)>, next: u64) -> bool {
    &&& forall|k: int| 0 <= k < waiters.len() ==> (#[trigger] waiters[k]).0 < next
    &&& forall|j: int, k: int|
        0 <= j < k < waiters.len() ==> (#[trigger] waiters[j]).0 != (#[trigger] waiters[k]).0
}

impl<B, F, S, W> DriverInner<B, F, S, W> {
    /// What every event keeps.
    pub open spec fn wf(self) -> bool {
        &&& self.slab.wf()
        &&& payloads_wf(self.slab@)
        &&& holds_wf(self.cancel_holds@, self.slab@)
        &&& self.deferred_cancels@.no_duplicates()
        &&& waiters_wf(self.shutdown_waiters@, self.next_waiter_id)
        &&& stages_wf(self.slab@, self.registration_in_flight, self.building)
        &&& registries_wf(self.registries(), self.driver_id, self.slab@)
        &&& self.buffer_registration matches Some(registry) ==> registry.wf() && (registering(
            self.slab@,
        ) ==> registry.is_whole())
        &&& forall|k: int|
            0 <= k < self.retired_buffer_registrations@.len() ==> (
            #[trigger] self.retired_buffer_registrations@[k]).is_whole()
    }

    /// Which buffer registrations the driver retains, the current one last.
    pub open spec fn registries(self) -> Seq<RegistryId> {
        let retired = self.retired_buffer_registrations@.map_values(
            |registry: RegistryInner<B>| registry.id,
        );
        match self.buffer_registration {
            Some(current) => retired.push(current.id),
            None => retired,
        }
    }

    /// The file registrations the driver retains, the current one last.
    pub open spec fn file_sets(self) -> Seq<FileRegistration<F>> {
        match self.file_registration {
            Some(current) => self.retired_file_registrations@.push(current),
            None => self.retired_file_registrations@,
        }
    }

    /// Whether a driver can turn into `later`. Every event keeps to this: operations
    /// only move on, as [`crate::slab::SlabView::leads_to`] says, and keep what they
    /// carry; shutdown never relaxes, and teardown is never undone; what was submitted
    /// stays counted; and until the ring is closed no registration is let go.
    pub open spec fn leads_to(self, later: Self) -> bool {
        &&& later.driver_id == self.driver_id
        &&& self.slab@.leads_to(later.slab@)
        &&& payloads_kept(self.slab@, later.slab@)
        &&& self.shutdown.rank() <= later.shutdown.rank()
        &&& self.torn_down ==> later.torn_down
        &&& self.submissions <= later.submissions
        &&& self.submitted_entries <= later.submitted_entries
        &&& self.next_waiter_id <= later.next_waiter_id
        &&& later.torn_down || (self.registries().is_prefix_of(later.registries())
            && self.file_sets().is_prefix_of(later.file_sets()))
    }

    /// Creates the state of a driver that has not yet been given any work.
    pub fn new(driver_id: u64) -> (driver: Self)
        ensures
            driver.wf(),
            driver.driver_id == driver_id,
            driver.slab@.slots.len() == 0,
            driver.slab@.free.len() == 0,
            driver.building is None,
            driver.buffer_registration is None,
            driver.retired_buffer_registrations@.len() == 0,
            !driver.registration_in_flight,
            driver.file_registration is None,
            driver.retired_file_registrations@.len() == 0,
            driver.cancel_holds@.len() == 0,
            driver.deferred_cancels@.len() == 0,
            !driver.nudged,
            driver.driver_waker is None,
            !driver.pending_submit,
            driver.shutdown == ShutdownMode::Running,
            !driver.torn_down,
            driver.shutdown_waiters@.len() == 0,
            driver.next_waiter_id == 0,
            driver.deferred_reports@.len() == 0,
            driver.submit_failures == 0,
            driver.submissions == 0,
            driver.submitted_entries == 0,
    {
        DriverInner {
            driver_id,
            slab: OpSlab::new(),
            building: None,
            buffer_registration: None,
            retired_buffer_registrations: Vec::new(),
            registration_in_flight: false,
            file_registration: None,
            retired_file_registrations: Vec::new(),
            cancel_holds: Vec::new(),
            deferred_cancels: Vec::new(),
            nudged: false,
            driver_waker: None,
            pending_submit: false,
            shutdown: ShutdownMode::Running,
            torn_down: false,
            shutdown_waiters: Vec::new(),
            next_waiter_id: 0,
            deferred_reports: Vec::new(),
            submit_failures: 0,
            submissions: 0,
            submitted_entries: 0,
        }
    }

    /// Queues an error for delivery to the observer.
    pub fn report(&mut self, error: Error)
        ensures
            old(self).leads_to(*final(self)),
            final(self).deferred_reports@ == old(self).deferred_reports@.push(error),
            *final(self) == (DriverInner {
                deferred_reports: final(self).deferred_reports,
                ..*old(self)
            }),
    {
        self.deferred_reports.push(error);
    }

    /// Takes the queued errors, for the caller to deliver.
    pub fn take_reports(&mut self) -> (reports: Vec<Error>)
        ensures
            old(self).leads_to(*final(self)),
            reports@ == old(self).deferred_reports@,
            final(self).deferred_reports@.len() == 0,
            *final(self) == (DriverInner {
                deferred_reports: final(self).deferred_reports,
                ..*old(self)
            }),
    {
        let mut reports: Vec<Error> = Vec::new();
        std::mem::swap(&mut reports, &mut self.deferred_reports);
        reports
    }

    /// Records that the driver owes a pass.
    ///
    /// Safe to call from anywhere, including from inside the driver's own pass:
    /// it touches only durable state and wakes nothing.
    pub fn mark_nudged(&mut self)
        ensures
            old(self).leads_to(*final(self)),
            *final(self) == (DriverInner { nudged: true, ..*old(self) }),
    {
        self.nudged = true;
    }

    /// Takes the parked driver's waker, for the caller to wake.
    ///
    /// Returns `None` when the driver is not parked.
    pub fn take_driver_waker(&mut self) -> (waker: Option<W>)
        ensures
            old(self).leads_to(*final(self)),
            waker == old(self).driver_waker,
            *final(self) == (DriverInner { driver_waker: None, ..*old(self) }),
    {
        self.driver_waker.take()
    }

    /// Records that the driver owes a pass and takes its waker if it is parked.
    ///
    /// The form every external entry point uses: raise the durable record, then
    /// wake whoever is waiting on it.
    pub fn nudge(&mut self) -> (waker: Option<W>)
        ensures
            old(self).leads_to(*final(self)),
            waker == old(self).driver_waker,
            *final(self) == (DriverInner { nudged: true, driver_waker: None, ..*old(self) }),
    {
        self.mark_nudged();
        self.take_driver_waker()
    }

    /// Consumes the nudge, reporting whether one was outstanding.
    ///
    /// Called only from the park. Consuming anywhere else would let the driver
    /// park on work it has been told about and never told about again.
    pub fn take_nudge(&mut self) -> (nudged: bool)
        ensures
            old(self).leads_to(*final(self)),
            nudged == old(self).nudged,
            *final(self) == (DriverInner { nudged: false, ..*old(self) }),
    {
        let nudged = self.nudged;
        self.nudged = false;
        nudged
    }

    /// Records a failed submission and queues a report, without flooding: the
    /// first failure of a streak is reported, then every sixty-fourth.
    pub fn note_submit_failure(&mut self, error: Error)
        ensures
            old(self).leads_to(*final(self)),
            ({
                let failures = one_more(old(self).submit_failures);
                &&& final(self).deferred_reports@ == if failures == 1 || failures % 64 == 0 {
                    old(self).deferred_reports@.push(error)
                } else {
                    old(self).deferred_reports@
                }
                &&& *final(self) == (DriverInner {
                    submit_failures: failures,
                    deferred_reports: final(self).deferred_reports,
                    ..*old(self)
                })
            }),
    {
        self.submit_failures = self.submit_failures.saturating_add(1);
        if self.submit_failures == 1 || self.submit_failures % 64 == 0 {
            self.report(error);
        }
    }

    /// Takes note that the kernel accepted the queued entries.
    ///
    /// The one place batching becomes observable: one submission covers every
    /// entry built since the last.
    pub fn submit_accepted(&mut self, entries: u32)
        requires
            old(self).wf(),
            old(self).submissions < u64::MAX,
            old(self).submitted_entries + entries <= u64::MAX,
        ensures
            final(self).wf(),
            old(self).leads_to(*final(self)),
            final(self).slab@ == old(self).slab@.promoted(),
            *final(self) == (DriverInner {
                submissions: (old(self).submissions + 1) as u64,
                submitted_entries: (old(self).submitted_entries + entries) as u64,
                pending_submit: false,
                submit_failures: 0,
                slab: final(self).slab,
                ..*old(self)
            }),
    {
        let ghost before = self.slab@;
        self.submissions = self.submissions + 1;
        self.submitted_entries = self.submitted_entries + entries as u64;
        self.pending_submit = false;
        self.submit_failures = 0;
        self.slab.promote_built_to_submitted();
        proof {
            lemma_promoted(before);
        }
    }

    /// Whether [`DriverInner::issue_cancel`] has something to issue for `token`:
    /// the ring is open, and the token names a submitted operation that names a
    /// file and has never been cancelled.
    pub open spec fn can_issue_cancel(self, token: Token) -> bool {
        &&& !self.torn_down
        &&& token.0 != 0
        &&& self.slab@.can_cancel(token)
        &&& self.slab@.operation(token)->0.lifecycle == Lifecycle::Submitted
        &&& self.slab@.operation(token)->0.payload.file is Some || self.slab@.operation(
            token,
        )->0.payload.registered_file is Some
    }

    /// The file that a cancellation of `token` names.
    pub open spec fn cancel_target(self, token: Token) -> CancelTarget<F> {
        let payload = self.slab@.operation(token)->0.payload;
        match payload.file {
            Some(file) => CancelTarget::Owned(file),
            None => CancelTarget::Registered(payload.registered_file->0),
        }
    }

    /// The request that cancels `token`.
    pub open spec fn cancel_request(self, token: Token) -> CancelRequest<F> {
        CancelRequest {
            op_to_cancel: token.0,
            user_data: token.spec_cancel().0,
            target: self.cancel_target(token),
        }
    }

    /// What issuing a cancellation for `token` leaves: the state `after`, and the
    /// request to build, where there is one.
    pub open spec fn cancel_issued(
        self,
        token: Token,
        after: Self,
        request: Option<CancelRequest<F>>,
    ) -> bool {
        if self.can_issue_cancel(token) {
            &&& request == Some(self.cancel_request(token))
            &&& after.slab@ == self.slab@.with_operation(
                token,
                Operation { cancel: CancelState::Pending, ..self.slab@.operation(token)->0 },
            )
            &&& after.cancel_holds@ == match self.cancel_target(token) {
                CancelTarget::Owned(file) => self.cancel_holds@.push((token.spec_cancel(), file)),
                CancelTarget::Registered(_) => self.cancel_holds@,
            }
            &&& after == (DriverInner {
                slab: after.slab,
                cancel_holds: after.cancel_holds,
                ..self
            })
        } else {
            request is None && after == self
        }
    }

    /// Prepares a cancellation for an operation the kernel has.
    ///
    /// Returns the request to build into the queue, or `None` where there is
    /// nothing to cancel: the operation is not, or is no longer, submitted; it is
    /// a registration, which names no file; or a cancellation has been issued for
    /// it before. A token of zero, which the platform reads as "everything on this
    /// handle", is never named.
    ///
    /// The file is held open from here until the cancellation's own completion
    /// arrives. The caller says through [`DriverInner::cancel_built`] whether the
    /// request was enqueued.
    pub fn issue_cancel(&mut self, token: Token) -> (request: Option<CancelRequest<F>>)
        requires
            old(self).wf(),
        ensures
            final(self).wf(),
            old(self).leads_to(*final(self)),
            old(self).cancel_issued(token, *final(self), request),
    {
        if self.torn_down {
            return None;
        }
        if token.as_user_data() == 0 {
            return None;
        }
        match self.slab.state(token) {
            Some((Lifecycle::Submitted, _)) => {},
            _ => {
                return None;
            },
        }
        let target = match self.slab.payload(token) {
            Some(payload) => match (&payload.file, payload.registered_file) {
                (Some(file), _) => CancelTarget::Owned(share(file)),
                (None, Some(index)) => CancelTarget::Registered(index),
                (None, None) => {
                    return None;
                },
            },
            None => {
                return None;
            },
        };
        let ghost before = *self;
        let cancel_token = match self.slab.register_cancel(token) {
            Some(cancel_token) => cancel_token,
            None => {
                return None;
            },
        };
        proof {
            lemma_cancel_requested(before, self.slab@, token);
        }
        match &target {
            CancelTarget::Owned(file) => {
                self.cancel_holds.push((cancel_token, share(file)));
            },
            CancelTarget::Registered(_) => {},
        }
        Some(
            CancelRequest {
                op_to_cancel: token.as_user_data(),
                user_data: cancel_token.as_user_data(),
                target,
            },
        )
    }

    /// Drops the files held for a cancellation.
    fn drop_holds(&mut self, cancel: Token)
        ensures
            final(self).cancel_holds@ == released(old(self).cancel_holds@, cancel),
            *final(self) == (DriverInner { cancel_holds: final(self).cancel_holds, ..*old(self) }),
    {
        let mut all: Vec<(Token, Rc<F>)> = Vec::new();
        std::mem::swap(&mut all, &mut self.cancel_holds);
        let ghost holds = all@;
        let mut kept: Vec<(Token, Rc<F>)> = Vec::new();
        for hold in it: all
            invariant
                it.seq() == holds,
                kept@ == released(holds.take(it.index() as int), cancel),
        {
            assert(holds.take(it.index() as int + 1).drop_last() =~= holds.take(it.index() as int));
            if hold.0 != cancel {
                kept.push(hold);
            }
        }
        assert(holds.take(holds.len() as int) =~= holds);
        self.cancel_holds = kept;
    }

    /// What building a cancellation, or failing to, leaves.
    pub open spec fn cancel_settled(self, cancel: Token, enqueued: bool, after: Self) -> bool {
        if enqueued {
            after == (DriverInner { pending_submit: true, nudged: true, ..self })
        } else {
            &&& after.slab@ == self.slab@.cancel_ended(cancel, CancelState::NeverRequested)
            &&& after.cancel_holds@ == released(self.cancel_holds@, cancel)
            &&& after == (DriverInner { slab: after.slab, cancel_holds: after.cancel_holds, ..self })
        }
    }

    /// Takes note of whether a cancellation request was enqueued.
    ///
    /// Failing to enqueue one is explicitly not an error: the target simply runs
    /// to completion. The bookkeeping is undone, and recorded as never-enqueued
    /// rather than completed, so the request can be made again.
    pub fn cancel_built(&mut self, cancel: Token, enqueued: bool)
        requires
            old(self).wf(),
        ensures
            final(self).wf(),
            old(self).leads_to(*final(self)),
            old(self).cancel_settled(cancel, enqueued, *final(self)),
    {
        if enqueued {
            self.pending_submit = true;
            self.mark_nudged();
        } else {
            let ghost before = *self;
            self.drop_holds(cancel);
            self.slab.cancel_request_not_enqueued(cancel);
            proof {
                lemma_cancel_ended(before, cancel, CancelState::NeverRequested);
            }
        }
    }

    /// What a request to cancel `token` leaves.
    pub open spec fn cancel_requested(
        self,
        token: Token,
        after: Self,
        request: Option<CancelRequest<F>>,
    ) -> bool {
        match self.slab@.operation(token) {
            Some(op) if !self.torn_down && op.lifecycle == Lifecycle::Submitted => {
                self.cancel_issued(token, after, request)
            },
            Some(op) if !self.torn_down && !self.deferred_cancels@.contains(token) => {
                &&& request is None
                &&& after.deferred_cancels@ == self.deferred_cancels@.push(token)
                &&& after == (DriverInner { deferred_cancels: after.deferred_cancels, ..self })
            },
            _ => request is None && after == self,
        }
    }

    /// Requests cancellation of an operation, now or as soon as possible.
    ///
    /// Best-effort by nature: the request may fail to build, may lose the race
    /// with the operation it targets, or may be refused outright. None of that is
    /// an error, and none of it changes the fact that the target's buffer is
    /// released only by the target's own completion.
    ///
    /// An operation the kernel does not have yet has nothing to cancel: the
    /// request is remembered and honoured on promotion. Cancelling twice, or
    /// cancelling something already finished, is a no-op. Only a completed
    /// teardown refuses.
    pub fn request_cancel(&mut self, token: Token) -> (request: Option<CancelRequest<F>>)
        requires
            old(self).wf(),
        ensures
            final(self).wf(),
            old(self).leads_to(*final(self)),
            old(self).cancel_requested(token, *final(self), request),
            forall|t: Token|
                old(self).deferred_cancels@.contains(t) ==> #[trigger] final(self).deferred_cancels@.contains(
                    t,
                ),
            !old(self).torn_down && (old(self).slab@.operation(token) matches Some(op)
                && op.lifecycle != Lifecycle::Submitted) ==> final(self).deferred_cancels@.contains(token),
    {
        let ghost before = self.deferred_cancels@;
        if self.torn_down {
            return None;
        }
        match self.slab.state(token) {
            Some((Lifecycle::Submitted, _)) => self.issue_cancel(token),
            Some(_) => {
                if !self.is_deferred(token) {
                    self.deferred_cancels.push(token);
                    proof {
                        lemma_pushed(before, token);
                    }
                }
                None
            },
            None => None,
        }
    }

    /// Whether a cancellation is remembered for `token`.
    fn is_deferred(&self, token: Token) -> (b: bool)
        ensures
            b == self.deferred_cancels@.contains(token),
    {
        let mut i: usize = 0;
        while i < self.deferred_cancels.len()
            invariant
                i <= self.deferred_cancels@.len(),
                forall|k: int| 0 <= k < i ==> self.deferred_cancels@[k] != token,
            decreases self.deferred_cancels@.len() - i,
        {
            if self.deferred_cancels[i] == token {
                return true;
            }
            i = i + 1;
        }
        false
    }

    /// What adopting `pending` under the identity `id` leaves.
    pub open spec fn adopted(
        self,
        id: RegistryId,
        pending: PendingRegistration<B, F>,
        after: Self,
    ) -> bool {
        match pending {
            PendingRegistration::Buffers { buffers, extents, watermarks } => {
                &&& after.buffer_registration matches Some(registry)
                &&& registry.id == id
                &&& registry.slots@.len() == buffers@.len()
                &&& forall|i: int|
                    0 <= i < buffers@.len() ==> (#[trigger] registry.slots@[i]) == (RegistrySlot {
                        extent: extents@[i],
                        initialized: crate::registry::smaller(
                            watermarks@[i] as int,
                            extents@[i] as int,
                        ) as usize,
                        held: Some(buffers@[i]),
                    })
                &&& after.retired_buffer_registrations@ == match self.buffer_registration {
                    Some(previous) => self.retired_buffer_registrations@.push(previous),
                    None => self.retired_buffer_registrations@,
                }
                &&& after == (DriverInner {
                    buffer_registration: after.buffer_registration,
                    retired_buffer_registrations: after.retired_buffer_registrations,
                    ..self
                })
            },
            PendingRegistration::Files { files } => {
                &&& after.file_registration == Some(
                    FileRegistration { files, count: files.len() },
                )
                &&& after.retired_file_registrations@ == match self.file_registration {
                    Some(previous) => self.retired_file_registrations@.push(previous),
                    None => self.retired_file_registrations@,
                }
                &&& after == (DriverInner {
                    file_registration: after.file_registration,
                    retired_file_registrations: after.retired_file_registrations,
                    ..self
                })
            },
        }
    }

    /// Installs a completed registration, superseding any predecessor.
    ///
    /// A superseded registration is retained rather than released: the platform
    /// offers no way to withdraw it, and operations issued against it may still
    /// be outstanding. Its resources are freed when the ring closes.
    ///
    /// Returns the new collection. A file registration yields nothing.
    pub fn adopt_registration(
        &mut self,
        id: RegistryId,
        pending: PendingRegistration<B, F>,
    ) -> (collection: Option<RegisteredBuffers>)
        requires
            old(self).wf(),
            pending matches PendingRegistration::Buffers { buffers, extents, watermarks } ==> {
                &&& buffers@.len() == extents@.len()
                &&& buffers@.len() == watermarks@.len()
                &&& id.driver == old(self).driver_id
                &&& crate::slab_laws::is_over(old(self).slab@, id.token)
                &&& !old(self).registries().contains(id)
                &&& !registering(old(self).slab@)
                &&& old(self).buffer_registration matches Some(previous) ==> previous.is_whole()
            },
        ensures
            final(self).wf(),
            old(self).leads_to(*final(self)),
            old(self).adopted(id, pending, *final(self)),
            collection == pending.collection(id),
    {
        match pending {
            PendingRegistration::Buffers { buffers, extents, watermarks } => {
                let registry = RegistryInner::new(id, buffers, extents, watermarks);
                let collection = RegisteredBuffers::from_inner(&registry);
                match self.buffer_registration.take() {
                    Some(previous) => {
                        self.retired_buffer_registrations.push(previous);
                    },
                    None => {},
                }
                self.buffer_registration = Some(registry);
                assert(self.registries() =~= old(self).registries().push(id));
                Some(collection)
            },
            PendingRegistration::Files { files } => {
                match self.file_registration.take() {
                    Some(previous) => {
                        self.retired_file_registrations.push(previous);
                    },
                    None => {},
                }
                let count: usize = files.len();
                self.file_registration = Some(FileRegistration { files, count });
                None
            },
        }
    }

    /// What returning a registered buffer leaves: the current registration holds it
    /// again, if that is where it came from. Nothing is ever checked out of a retired
    /// registration, so the only other place it can have come from is gone.
    pub open spec fn buffer_released(self, handle: RegisteredBuf<B>, after: Self) -> bool {
        match self.buffer_registration {
            Some(current) if current.takes_back(handle) => {
                &&& after.buffer_registration matches Some(registry)
                &&& current.released(handle, registry)
                &&& after == (DriverInner {
                    buffer_registration: after.buffer_registration,
                    ..self
                })
            },
            _ => after == self,
        }
    }

    /// Returns a registered buffer to its collection.
    pub fn release_buffer(&mut self, handle: RegisteredBuf<B>)
        requires
            old(self).wf(),
        ensures
            final(self).wf(),
            old(self).leads_to(*final(self)),
            old(self).buffer_released(handle, *final(self)),
    {
        match self.buffer_registration.as_mut() {
            Some(current) => {
                if current.takes(&handle) {
                    assert(!current.is_whole());
                    current.release(handle);
                }
            },
            None => {},
        }
    }

    /// How many bytes of a registered buffer are initialized once the operation that
    /// carried its handle has reported. The registration counts, if it is the one the
    /// handle came from, and otherwise the handle does.
    pub open spec fn initialized_after(
        self,
        handle: RegisteredBuf<B>,
        registered_buffer: Option<(u32, u32)>,
        result: Result<u32, Error>,
    ) -> usize {
        let before = match self.buffer_registration {
            Some(current) if current.takes_back(handle) => {
                current.slots@[handle.index as int].initialized
            },
            _ => handle.initialized,
        };
        match (registered_buffer, result) {
            (Some((_, offset)), Ok(transferred)) => crate::registry::raised(
                before as int,
                handle.extent as int,
                offset as int,
                transferred as int,
            ) as usize,
            _ => before,
        }
    }

    /// What noting a handle's count in the current registration leaves.
    pub open spec fn buffer_counted(self, handle: RegisteredBuf<B>, after: Self) -> bool {
        match self.buffer_registration {
            Some(current) if current.takes_back(handle) => {
                &&& after.buffer_registration matches Some(registry)
                &&& current.noted(handle, registry)
                &&& after == (DriverInner {
                    buffer_registration: after.buffer_registration,
                    ..self
                })
            },
            _ => after == self,
        }
    }

    /// What noting a handle's count and returning its buffer leaves.
    pub open spec fn buffer_returned(self, handle: RegisteredBuf<B>, after: Self) -> bool {
        match self.buffer_registration {
            Some(current) if current.takes_back(handle) => {
                &&& after.buffer_registration matches Some(registry)
                &&& registry.id == current.id
                &&& registry.slots@ == current.slots@.update(
                    handle.index as int,
                    RegistrySlot {
                        extent: handle.extent,
                        initialized: handle.initialized,
                        held: Some(handle.buffer),
                    },
                )
                &&& after == (DriverInner {
                    buffer_registration: after.buffer_registration,
                    ..self
                })
            },
            _ => after == self,
        }
    }

    /// Brings the count of a registered buffer up to date once the operation that
    /// carried its handle has reported, in the registration and in the handle.
    fn settle_count(
        &mut self,
        handle: &mut RegisteredBuf<B>,
        registered_buffer: Option<(u32, u32)>,
        result: &Result<u32, Error>,
    )
        requires
            old(self).wf(),
            old(handle).wf(),
            registered_buffer matches Some((index, _)) ==> old(handle).index == index,
        ensures
            final(self).wf(),
            old(self).leads_to(*final(self)),
            final(handle).wf(),
            *final(handle) == (RegisteredBuf {
                initialized: old(self).initialized_after(
                    *old(handle),
                    registered_buffer,
                    *result,
                ),
                ..*old(handle)
            }),
            old(self).buffer_counted(*final(handle), *final(self)),
    {
        match self.buffer_registration.as_mut() {
            Some(current) => {
                if current.takes(handle) {
                    let ghost before = *current;
                    let ghost index = handle.index as int;
                    match (registered_buffer, result) {
                        (Some((index, offset)), Ok(transferred)) => {
                            current.raise_initialized(
                                index,
                                offset as usize,
                                *transferred as usize,
                            );
                        },
                        _ => {},
                    }
                    assert(current.takes_back(*handle));
                    handle.refresh(current);
                    assert(current.slots@ =~= before.slots@.update(
                        index,
                        RegistrySlot {
                            initialized: handle.initialized,
                            ..before.slots@[index]
                        },
                    ));
                    assert(!before.is_whole());
                    return;
                }
            },
            None => {},
        }
        match (registered_buffer, result) {
            (Some((_, offset)), Ok(transferred)) => {
                handle.raise_initialized(offset as usize, *transferred as usize);
            },
            _ => {},
        }
    }

    /// What a completion queue entry leaves: the state `after`, and the result to
    /// deliver, where there is one.
    pub open spec fn reaped(
        self,
        completion: Completion,
        after: Self,
        delivery: Option<Delivery<B, F, S>>,
    ) -> bool {
        let token = Token(completion.user_data);
        if token.spec_kind() == TokenKind::Cancel {
            &&& delivery is None
            &&& after.slab@ == self.slab@.cancel_ended(token, CancelState::Completed)
            &&& after.cancel_holds@ == released(self.cancel_holds@, token)
            &&& after == (DriverInner {
                slab: after.slab,
                cancel_holds: after.cancel_holds,
                ..self
            })
        } else {
            match self.slab@.operation(token) {
                None => delivery is None && after == self,
                Some(op) => {
                    &&& delivery matches Some(delivery)
                    &&& delivery.slot == op.payload.slot
                    &&& completion.ends_as(delivery.result)
                    &&& after.slab@ == self.slab@.completed(token)
                    &&& match op.payload.pending_registration {
                        None => {
                            let between = DriverInner { slab: after.slab, ..self };
                            match op.payload.buffer {
                                Some(Carried::Registered(handle)) => {
                                    let back = self.handed_back(
                                        op.payload,
                                        handle,
                                        delivery.result,
                                    );
                                    if op.observer == Observer::Detached {
                                        &&& delivery.resource is None
                                        &&& between.buffer_returned(back, after)
                                    } else {
                                        &&& delivery.resource == Some(
                                            Resource::<B, F>::Buffer(Carried::Registered(back)),
                                        )
                                        &&& between.buffer_counted(back, after)
                                    }
                                },
                                Some(buffer) => delivery.resource == Some(
                                    Resource::<B, F>::Buffer(buffer),
                                ) && after == between,
                                None => delivery.resource is None && after == between,
                            }
                        },
                        Some(pending) => {
                            let between = DriverInner {
                                slab: after.slab,
                                registration_in_flight: self.registration_in_flight && !(
                                pending is Buffers),
                                ..self
                            };
                            let id = RegistryId { driver: self.driver_id, token };
                            if delivery.result is Ok {
                                &&& between.adopted(id, pending, after)
                                &&& delivery.resource == match pending.collection(id) {
                                    Some(collection) => Some(
                                        Resource::<B, F>::Collection(collection),
                                    ),
                                    None => None,
                                }
                            } else {
                                delivery.resource == Some(Resource::Unregistered(pending)) && after
                                    == between
                            }
                        },
                    }
                },
            }
        }
    }

    /// The handle that an operation carried, as it goes back: with the count of its
    /// initialized bytes brought up to date.
    pub open spec fn handed_back(
        self,
        payload: Box<OpPayload<B, F, S>>,
        handle: RegisteredBuf<B>,
        result: Result<u32, Error>,
    ) -> RegisteredBuf<B> {
        RegisteredBuf {
            initialized: self.initialized_after(handle, payload.registered_buffer, result),
            ..handle
        }
    }

    /// Handles one completion queue entry.
    ///
    /// A cancellation's completion never releases the target's buffer; it only
    /// retires the cancellation's own bookkeeping and releases the file hold that
    /// kept the handle open for it.
    ///
    /// An operation's completion ends it: its result, and what it carried, are
    /// returned for delivery. A registration is adopted here, in completion order:
    /// on success the collection goes to the caller, on failure the resources do.
    /// A completed transfer into a registered buffer may extend that buffer's
    /// initialized prefix, and where nobody waits for the buffer any more it goes
    /// back to its collection. An unknown or stale token is ignored.
    pub fn reap(&mut self, completion: Completion) -> (delivery: Option<Delivery<B, F, S>>)
        requires
            old(self).wf(),
        ensures
            final(self).wf(),
            old(self).leads_to(*final(self)),
            old(self).reaped(completion, *final(self), delivery),
            delivery matches Some(told) ==> {
                &&& told.result is Ok <==> completion.code >= 0
                &&& completion.code >= 0 && completion.information <= u32::MAX ==> (
                told.result matches Ok(n) && n as int == completion.information as int)
            },
    {
        let ghost before = *self;
        let delivery = self.handle_completion(completion);
        proof {
            assert(before.reaped(completion, *self, delivery));
        }
        delivery
    }

    /// Does what [`DriverInner::reap`] says.
    fn handle_completion(&mut self, completion: Completion) -> (delivery: Option<
        Delivery<B, F, S>,
    >)
        requires
            old(self).wf(),
        ensures
            final(self).wf(),
            old(self).leads_to(*final(self)),
            old(self).reaped(completion, *final(self), delivery),
    {
        let ghost before = *self;
        let token = Token::from_user_data(completion.user_data);
        if token.kind() == TokenKind::Cancel {
            self.slab.complete_cancel(token);
            self.drop_holds(token);
            proof {
                lemma_cancel_ended(before, token, CancelState::Completed);
            }
            return None;
        }
        let result: Result<u32, Error> = completion.result();
        let detached = match self.slab.state(token) {
            Some((_, observer)) => observer == Observer::Detached,
            None => false,
        };
        let payload = match self.slab.complete(token) {
            Some(payload) => *payload,
            None => {
                return None;
            },
        };
        proof {
            lemma_completed(before, token);
        }
        let OpPayload {
            buffer,
            file: _,
            slot,
            registered_buffer,
            registered_file: _,
            pending_registration,
        } = payload;
        let resource = match pending_registration {
            Some(pending) => {
                match &pending {
                    PendingRegistration::Buffers { .. } => {
                        self.registration_in_flight = false;
                    },
                    PendingRegistration::Files { .. } => {},
                }
                if result.is_ok() {
                    let id = RegistryId { driver: self.driver_id, token };
                    match self.adopt_registration(id, pending) {
                        Some(collection) => Some(Resource::Collection(collection)),
                        None => None,
                    }
                } else {
                    Some(Resource::Unregistered(pending))
                }
            },
            None => match buffer {
                Some(Carried::Registered(handle)) => {
                    let mut handle = handle;
                    self.settle_count(&mut handle, registered_buffer, &result);
                    if detached {
                        let ghost back = handle;
                        self.release_buffer(handle);
                        proof {
                            if before.buffer_registration is Some
                                && before.buffer_registration->0.takes_back(back) {
                                let was = before.buffer_registration->0.slots@;
                                assert(self.buffer_registration->0.slots@ =~= was.update(
                                    back.index as int,
                                    RegistrySlot {
                                        extent: back.extent,
                                        initialized: back.initialized,
                                        held: Some(back.buffer),
                                    },
                                ));
                            }
                        }
                        None
                    } else {
                        Some(Resource::Buffer(Carried::Registered(handle)))
                    }
                },
                Some(buffer) => Some(Resource::Buffer(buffer)),
                None => None,
            },
        };
        Some(Delivery { slot, result, resource })
    }

    /// Resolves slots that hold no queue entry, returning their resources.
    ///
    /// Nothing the platform can touch is behind such a slot, so it can be
    /// resolved here and now.
    pub fn resolve_unqueued(&mut self) -> (deliveries: Vec<Delivery<B, F, S>>)
        requires
            old(self).wf(),
        ensures
            final(self).wf(),
            old(self).leads_to(*final(self)),
            ({
                let unqueued = crate::slab::tokens(
                    old(self).slab@.slots,
                    crate::slab::Group::Described,
                );
                &&& final(self).slab@ == completed_all(old(self).slab@, unqueued)
                &&& deliveries@ == abandoned_all(old(self).slab@, unqueued)
                &&& *final(self) == (DriverInner { slab: final(self).slab, ..*old(self) })
            }),
    {
        let found: Vec<Token> = self.slab.described();
        let ghost before = self.slab@;
        proof {
            self.slab.lemma_wf();
            crate::slab_laws::law_listed_tokens_name_the_group(
                before,
                crate::slab::Group::Described,
            );
        }
        let mut deliveries: Vec<Delivery<B, F, S>> = Vec::new();
        let mut i: usize = 0;
        while i < found.len()
            invariant
                i <= found@.len(),
                forall|k: int|
                    0 <= k < found@.len() ==> (#[trigger] found@[k]).spec_kind()
                        == TokenKind::Operation,
                forall|k: int|
                    i <= k < found@.len() ==> (self.slab@.operation(#[trigger] found@[k]) matches Some(
                        op,
                    ) ==> op.lifecycle == Lifecycle::Described),
                self.wf(),
                before == old(self).slab@,
                before.leads_to(self.slab@),
                payloads_kept(before, self.slab@),
                self.slab@ == completed_all(before, found@.take(i as int)),
                deliveries@ == abandoned_all(before, found@.take(i as int)),
                *self == (DriverInner { slab: self.slab, ..*old(self) }),
            decreases found@.len() - i,
        {
            let ghost now = *self;
            assert(found@.take(i + 1).drop_last() =~= found@.take(i as int));
            match self.slab.complete(found[i]) {
                Some(payload) => {
                    proof {
                        lemma_completed(now, found@[i as int]);
                        crate::slab_laws::law_evolution_composes(before, now.slab@, self.slab@);
                        lemma_still_kept(before, now.slab@, self.slab@);
                    }
                    deliveries.push(resolve_abandoned(payload));
                },
                None => {},
            }
            i = i + 1;
        }
        assert(found@.take(i as int) =~= found@);
        deliveries
    }
}

/// A count after one more, held at the largest that fits.
pub open spec fn one_more(n: u32) -> u32 {
    if n == u32::MAX {
        u32::MAX
    } else {
        (n + 1) as u32
    }
}

/// A longer list holds what was added, and all that it held before.
pub proof fn lemma_pushed<T>(list: Seq<T>, item: T)
    ensures
        list.push(item).contains(item),
        forall|t: T| list.contains(t) ==> #[trigger] list.push(item).contains(t),
{
    assert(list.push(item)[list.len() as int] == item);
    assert forall|t: T| list.contains(t) implies #[trigger] list.push(item).contains(t) by {
        let k = list.index_of(t);
        assert(list.push(item)[k] == t);
    }
}

/// Promotion keeps payloads and pending cancellations.
proof fn lemma_promoted<B, F, S>(slab: crate::slab::SlabView<OpPayload<B, F, S>>)
    requires
        payloads_wf(slab),
    ensures
        payloads_wf(slab.promoted()),
        forall|t: Token|
            slab.awaits_cancel(t) ==> #[trigger] slab.promoted().awaits_cancel(t),
        forall|holds: Seq<(Token, Rc<F>)>|
            holds_wf(holds, slab) ==> #[trigger] holds_wf(holds, slab.promoted()),
{
    assert forall|i: int| #![trigger slab.promoted().slots[i]] 0 <= i < slab.promoted().slots.len() implies (
    slab.promoted().slots[i].phase matches crate::slab::Phase::Occupied(op) ==> op.payload.wf())
        by {
        assert(slab.slots[i].promoted() == slab.promoted().slots[i]);
    }
}

/// A cancellation newly requested keeps the holds, and gives its target's file a
/// hold of its own.
proof fn lemma_cancel_requested<B, F, S, W>(
    driver: DriverInner<B, F, S, W>,
    after: crate::slab::SlabView<OpPayload<B, F, S>>,
    token: Token,
)
    requires
        driver.wf(),
        driver.slab@.can_cancel(token),
        after == driver.slab@.with_operation(
            token,
            Operation { cancel: CancelState::Pending, ..driver.slab@.operation(token)->0 },
        ),
    ensures
        payloads_wf(after),
        holds_wf(driver.cancel_holds@, after),
        forall|file: Rc<F>|
            #[trigger] holds_wf(driver.cancel_holds@.push((token.spec_cancel(), file)), after),
{
    crate::token::law_token_is_its_fields(token);
    crate::token::law_fields_round_trip(
        TokenKind::Cancel,
        token.spec_index(),
        token.spec_generation(),
    );
    let holds = driver.cancel_holds@;
    assert forall|k: int| 0 <= k < holds.len() implies after.awaits_cancel(
        (#[trigger] holds[k]).0,
    ) && holds[k].0 != token.spec_cancel() by {
        assert(driver.slab@.awaits_cancel(holds[k].0));
    }
}

/// The holds left once those of one cancellation are dropped.
pub open spec fn released<F>(holds: Seq<(Token, Rc<F>)>, cancel: Token) -> Seq<(Token, Rc<F>)>
    decreases holds.len(),
{
    if holds.len() == 0 {
        Seq::empty()
    } else if holds.last().0 == cancel {
        released(holds.drop_last(), cancel)
    } else {
        released(holds.drop_last(), cancel).push(holds.last())
    }
}

/// Dropping a cancellation's holds keeps the others, in order.
proof fn lemma_released<F>(holds: Seq<(Token, Rc<F>)>, cancel: Token)
    ensures
        forall|k: int|
            0 <= k < released(holds, cancel).len() ==> (#[trigger] released(holds, cancel)[k]).0
                != cancel && holds.contains(released(holds, cancel)[k]),
        (forall|j: int, k: int|
            0 <= j < k < holds.len() ==> (#[trigger] holds[j]).0 != (#[trigger] holds[k]).0) ==> (
        forall|j: int, k: int|
            0 <= j < k < released(holds, cancel).len() ==> (#[trigger] released(
                holds,
                cancel,
            )[j]).0 != (#[trigger] released(holds, cancel)[k]).0),
    decreases holds.len(),
{
    if holds.len() > 0 {
        let shorter = holds.drop_last();
        lemma_released(shorter, cancel);
        let kept = released(shorter, cancel);
        let all = released(holds, cancel);
        assert forall|k: int| 0 <= k < all.len() implies (#[trigger] all[k]).0 != cancel
            && holds.contains(all[k]) by {
            if k < kept.len() {
                assert(kept[k] == all[k]);
                assert(shorter.contains(kept[k]));
                let i = shorter.index_of(kept[k]);
                assert(holds[i] == kept[k]);
            } else {
                assert(holds[holds.len() - 1] == all[k]);
            }
        }
        if forall|j: int, k: int|
            0 <= j < k < holds.len() ==> (#[trigger] holds[j]).0 != (#[trigger] holds[k]).0 {
            assert(forall|j: int, k: int|
                0 <= j < k < shorter.len() ==> (#[trigger] shorter[j]).0 != (
                #[trigger] shorter[k]).0) by {
                assert forall|j: int, k: int| 0 <= j < k < shorter.len() implies (
                #[trigger] shorter[j]).0 != (#[trigger] shorter[k]).0 by {
                    assert(holds[j].0 != holds[k].0);
                }
            }
            assert forall|j: int, k: int| 0 <= j < k < all.len() implies (#[trigger] all[j]).0 != (
            #[trigger] all[k]).0 by {
                assert(all[j] == kept[j]);
                if k < kept.len() {
                    assert(all[k] == kept[k]);
                } else {
                    assert(shorter.contains(kept[j]));
                    let i = shorter.index_of(kept[j]);
                    assert(holds[i].0 != holds[holds.len() - 1].0);
                }
            }
        }
    }
}

/// The end of a cancellation keeps every payload and every other hold.
proof fn lemma_cancel_ended<B, F, S, W>(
    driver: DriverInner<B, F, S, W>,
    cancel: Token,
    outcome: CancelState,
)
    requires
        driver.wf(),
    ensures
        payloads_wf(driver.slab@.cancel_ended(cancel, outcome)),
        holds_wf(
            released(driver.cancel_holds@, cancel),
            driver.slab@.cancel_ended(cancel, outcome),
        ),
{
    driver.slab.lemma_wf();
    let holds = driver.cancel_holds@;
    let after = driver.slab@.cancel_ended(cancel, outcome);
    lemma_released(holds, cancel);
    crate::token::law_token_is_its_fields(cancel);
    assert forall|k: int| 0 <= k < released(holds, cancel).len() implies after.awaits_cancel(
        (#[trigger] released(holds, cancel)[k]).0,
    ) by {
        let kept = released(holds, cancel)[k];
        let i = holds.index_of(kept);
        assert(driver.slab@.awaits_cancel(holds[i].0));
        crate::token::law_token_is_its_fields(kept.0);
    }
}

impl Completion {
    /// Whether this is how the operation ended: how many bytes it transferred, or why
    /// it failed.
    pub open spec fn ends_as(self, result: Result<u32, Error>) -> bool {
        if self.code >= 0 {
            result == Ok::<u32, Error>(self.information as u32)
        } else {
            result matches Err(error) && error.stands_for(
                crate::error::Condition::spec_of_code(self.code),
            )
        }
    }

    /// Returns how the operation ended.
    pub fn result(&self) -> (result: Result<u32, Error>)
        ensures
            self.ends_as(result),
            result is Ok <==> self.code >= 0,
            self.code >= 0 && self.information <= u32::MAX ==> (result matches Ok(n) && n as int
                == self.information as int),
    {
        match code_result(self.code) {
            Ok(()) => Ok(self.information as u32),
            Err(_) => Err(Error::of_code(self.code)),
        }
    }
}

impl<B, F, S> OpPayload<B, F, S> {
    /// What goes back to the caller of an operation that the driver ended itself.
    pub open spec fn abandoned(self) -> Delivery<B, F, S> {
        Delivery {
            slot: self.slot,
            result: Err(Error::AbandonedAtShutdown),
            resource: match self.pending_registration {
                Some(pending) => Some(Resource::Unregistered(pending)),
                None => match self.buffer {
                    Some(buffer) => Some(Resource::Buffer(buffer)),
                    None => None,
                },
            },
        }
    }
}

/// Resolves a payload the driver ended itself, returning the caller's resources.
///
/// A flush carries no buffer, and a registration carries its resources somewhere
/// else entirely, so both places are looked at, exactly as the completion path
/// does.
pub fn resolve_abandoned<B, F, S>(payload: Box<OpPayload<B, F, S>>) -> (delivery: Delivery<B, F, S>)
    ensures
        delivery == payload.abandoned(),
{
    let OpPayload {
        buffer,
        file: _,
        slot,
        registered_buffer: _,
        registered_file: _,
        pending_registration,
    } = *payload;
    let resource = match pending_registration {
        Some(pending) => Some(Resource::Unregistered(pending)),
        None => match buffer {
            Some(buffer) => Some(Resource::Buffer(buffer)),
            None => None,
        },
    };
    Delivery { slot, result: Err(Error::AbandonedAtShutdown), resource }
}

/// The slab after the operations named by `done` have been completed in order.
pub open spec fn completed_all<P>(
    slab: crate::slab::SlabView<P>,
    done: Seq<Token>,
) -> crate::slab::SlabView<P>
    decreases done.len(),
{
    if done.len() == 0 {
        slab
    } else {
        completed_all(slab, done.drop_last()).completed(done.last())
    }
}

/// The results that go out when the operations named by `done` are abandoned in
/// order.
pub open spec fn abandoned_all<B, F, S>(
    slab: crate::slab::SlabView<OpPayload<B, F, S>>,
    done: Seq<Token>,
) -> Seq<Delivery<B, F, S>>
    decreases done.len(),
{
    if done.len() == 0 {
        Seq::empty()
    } else {
        let before = abandoned_all(slab, done.drop_last());
        match completed_all(slab, done.drop_last()).operation(done.last()) {
            Some(op) => before.push(op.payload.abandoned()),
            None => before,
        }
    }
}

/// What operations carry is kept in any number of events.
pub proof fn lemma_still_kept<P>(
    a: crate::slab::SlabView<P>,
    b: crate::slab::SlabView<P>,
    c: crate::slab::SlabView<P>,
)
    requires
        a.leads_to(b),
        b.leads_to(c),
        payloads_kept(a, b),
        payloads_kept(b, c),
    ensures
        payloads_kept(a, c),
{
    assert forall|i: int|
        #![trigger a.slots[i]]
        #![trigger c.slots[i]]
        0 <= i < a.slots.len() && a.slots[i].generation == c.slots[i].generation implies (
    a.slots[i].phase matches crate::slab::Phase::Occupied(op) ==> (
    c.slots[i].phase matches crate::slab::Phase::Occupied(next) ==> next.payload == op.payload)) by {
        assert(a.slots[i].leads_to(b.slots[i]));
        assert(b.slots[i].leads_to(c.slots[i]));
    }
}

/// Emptying one slot keeps what is said of the others.
proof fn lemma_slot_emptied<B, F, S, W>(
    driver: DriverInner<B, F, S, W>,
    after: crate::slab::SlabView<OpPayload<B, F, S>>,
    index: int,
)
    requires
        driver.wf(),
        0 <= index < driver.slab@.slots.len(),
        after.slots == driver.slab@.slots.update(index, after.slots[index]),
        !(after.slots[index].phase is Occupied),
    ensures
        registering(after) ==> registering(driver.slab@) && !registers(driver.slab@.slots[index]),
        driver.registration_in_flight && registers(driver.slab@.slots[index]) ==> in_flight(
            driver.slab@.slots[index],
        ),
        stages_wf(
            after,
            driver.registration_in_flight && !in_flight(driver.slab@.slots[index]),
            driver.building,
        ),
{
    let before = driver.slab@;
    if registering(after) {
        let i = choose|i: int| 0 <= i < after.slots.len() && registers(#[trigger] after.slots[i]);
        assert(registers(before.slots[i]));
    }
    if driver.registration_in_flight {
        let i = choose|i: int|
            0 <= i < before.slots.len() && in_flight(#[trigger] before.slots[i]);
        assert(i != index ==> in_flight(after.slots[i]));
    }
    if in_flight(before.slots[index]) {
        assert forall|i: int| 0 <= i < after.slots.len() && in_flight(
            #[trigger] after.slots[i],
        ) implies false by {
            assert(registers(before.slots[i]));
            assert(registers(before.slots[index]));
        }
    }
}

/// Completion keeps the other payloads, and every hold.
pub proof fn lemma_completed<B, F, S, W>(driver: DriverInner<B, F, S, W>, token: Token)
    requires
        driver.wf(),
        driver.slab@.operation(token) is Some,
    ensures
        driver.slab@.operation(token)->0.payload.wf(),
        payloads_wf(driver.slab@.completed(token)),
        payloads_kept(driver.slab@, driver.slab@.completed(token)),
        holds_wf(driver.cancel_holds@, driver.slab@.completed(token)),
        registering(driver.slab@.completed(token)) ==> registering(driver.slab@) && !driver.slab@.operation(
            token,
        )->0.payload.registers_buffers(),
        driver.registration_in_flight && driver.slab@.operation(
            token,
        )->0.payload.registers_buffers() ==> in_flight(driver.slab@.slots[token.spec_index()]),
        registers(driver.slab@.slots[token.spec_index()]) ==> registering(driver.slab@),
        stages_wf(
            driver.slab@.completed(token),
            driver.registration_in_flight && !in_flight(driver.slab@.slots[token.spec_index()]),
            driver.building,
        ),
{
    driver.slab.lemma_wf();
    crate::token::law_token_is_its_fields(token);
    assert(driver.slab@.slots[token.spec_index()].phase is Occupied);
    let holds = driver.cancel_holds@;
    let after = driver.slab@.completed(token);
    lemma_slot_emptied(driver, after, token.spec_index());
    assert forall|k: int| 0 <= k < holds.len() implies after.awaits_cancel(
        (#[trigger] holds[k]).0,
    ) by {
        assert(driver.slab@.awaits_cancel(holds[k].0));
        crate::token::law_token_is_its_fields(holds[k].0);
    }
}

/// Placing a payload keeps the others, and every hold.
pub proof fn lemma_inserted<B, F, S, W>(
    driver: DriverInner<B, F, S, W>,
    payload: OpPayload<B, F, S>,
)
    requires
        driver.wf(),
        payload.wf(),
        !driver.slab@.is_full(),
        driver.building is None,
        payload.registers_buffers() ==> !driver.registration_in_flight,
    ensures
        payloads_wf(driver.slab@.inserted(Box::new(payload))),
        payloads_kept(driver.slab@, driver.slab@.inserted(Box::new(payload))),
        holds_wf(driver.cancel_holds@, driver.slab@.inserted(Box::new(payload))),
        !payload.registers_buffers() && registering(driver.slab@.inserted(Box::new(payload)))
            ==> registering(driver.slab@),
        stages_wf(
            driver.slab@.inserted(Box::new(payload)),
            driver.registration_in_flight,
            Some(driver.slab@.next_token()),
        ),
{
    driver.slab.lemma_wf();
    let holds = driver.cancel_holds@;
    let after = driver.slab@.inserted(Box::new(payload));
    if driver.slab@.free.len() > 0 {
        let k = driver.slab@.free.len() - 1;
        assert(driver.slab@.slots[driver.slab@.free[k]].phase is Vacant);
    }
    let before = driver.slab@;
    let index = before.next_index();
    assert forall|i: int| 0 <= i < before.slots.len() && i != index implies after.slots[i]
        == before.slots[i] by {}
    if registering(after) && !payload.registers_buffers() {
        let i = choose|i: int| 0 <= i < after.slots.len() && registers(#[trigger] after.slots[i]);
        assert(registers(before.slots[i]));
    }
    if driver.registration_in_flight {
        let i = choose|i: int|
            0 <= i < before.slots.len() && in_flight(#[trigger] before.slots[i]);
        assert(in_flight(after.slots[i]));
    }
    assert forall|i: int|
        0 <= i < after.slots.len() && (#[trigger] after.slots[i]).phase.is_in(
            crate::slab::Group::Described,
        ) implies i == index by {
        if i != index {
            assert(before.slots[i].phase.is_in(crate::slab::Group::Described));
        }
    }
    assert forall|i: int, j: int|
        0 <= i < after.slots.len() && 0 <= j < after.slots.len() && registers(
            #[trigger] after.slots[i],
        ) && registers(#[trigger] after.slots[j]) implies i == j by {
        if i != index {
            assert(registers(before.slots[i]));
            assert(before.slots[i].phase.is_in(crate::slab::Group::Described) || in_flight(
                before.slots[i],
            ));
        }
        if j != index {
            assert(registers(before.slots[j]));
            assert(before.slots[j].phase.is_in(crate::slab::Group::Described) || in_flight(
                before.slots[j],
            ));
        }
    }
    assert forall|k: int| 0 <= k < holds.len() implies after.awaits_cancel(
        (#[trigger] holds[k]).0,
    ) by {
        assert(driver.slab@.awaits_cancel(holds[k].0));
    }
}

/// Giving up the operation being built leaves none to build.
pub proof fn lemma_given_up<B, F, S, W>(driver: DriverInner<B, F, S, W>, token: Token)
    requires
        driver.wf(),
        driver.building == Some(token),
        driver.slab@.operation(token) matches Some(op) && op.lifecycle == Lifecycle::Described,
    ensures
        stages_wf(driver.slab@.completed(token), driver.registration_in_flight, None),
{
    let before = driver.slab@;
    let after = before.completed(token);
    lemma_completed(driver, token);
    driver.slab.lemma_wf();
    crate::token::law_token_is_its_fields(token);
    assert forall|i: int|
        0 <= i < after.slots.len() && (#[trigger] after.slots[i]).phase.is_in(
            crate::slab::Group::Described,
        ) implies false by {
        assert(before.slots[i].phase.is_in(crate::slab::Group::Described));
        crate::token::law_fields_round_trip(TokenKind::Operation, i, before.slots[i].generation);
    }
}

/// Queueing the entry of the operation being built leaves none to build.
pub proof fn lemma_queued<B, F, S, W>(driver: DriverInner<B, F, S, W>, token: Token)
    requires
        driver.wf(),
        driver.building == Some(token),
        driver.slab@.operation(token) matches Some(op) && op.lifecycle == Lifecycle::Described,
    ensures
        ({
            let op = driver.slab@.operation(token)->0;
            let after = driver.slab@.with_operation(
                token,
                Operation { lifecycle: Lifecycle::Built, ..op },
            );
            stages_wf(
                after,
                driver.registration_in_flight || op.payload.registers_buffers(),
                None,
            )
        }),
{
    let before = driver.slab@;
    let op = before.operation(token)->0;
    let index = token.spec_index();
    let after = before.with_operation(token, Operation { lifecycle: Lifecycle::Built, ..op });
    crate::token::law_token_is_its_fields(token);
    assert(before.slots[index].phase is Occupied);
    assert forall|i: int| 0 <= i < after.slots.len() implies registers(#[trigger] after.slots[i])
        == registers(before.slots[i]) by {}
    if op.payload.registers_buffers() {
        assert(in_flight(after.slots[index]));
    } else if driver.registration_in_flight {
        let i = choose|i: int|
            0 <= i < before.slots.len() && in_flight(#[trigger] before.slots[i]);
        assert(in_flight(after.slots[i]));
    }
    assert forall|i: int|
        0 <= i < after.slots.len() && (#[trigger] after.slots[i]).phase.is_in(
            crate::slab::Group::Described,
        ) implies false by {
        assert(before.slots[i].phase.is_in(crate::slab::Group::Described));
        assert(i != index);
        driver.slab.lemma_wf();
        crate::token::law_fields_round_trip(TokenKind::Operation, i, before.slots[i].generation);
    }
}

/// Moving an operation on, without touching its cancellation, keeps the payloads
/// and every hold.
pub proof fn lemma_replaced<B, F, S, W>(
    driver: DriverInner<B, F, S, W>,
    token: Token,
    op: Operation<OpPayload<B, F, S>>,
)
    requires
        driver.wf(),
        driver.slab@.operation(token) matches Some(was) && was.cancel == op.cancel,
        op.payload.wf(),
    ensures
        payloads_wf(driver.slab@.with_operation(token, op)),
        holds_wf(driver.cancel_holds@, driver.slab@.with_operation(token, op)),
        driver.slab@.operation(token)->0.payload.wf(),
        op.payload == driver.slab@.operation(token)->0.payload ==> registering(
            driver.slab@.with_operation(token, op),
        ) == registering(driver.slab@),
{
    let holds = driver.cancel_holds@;
    let after = driver.slab@.with_operation(token, op);
    crate::token::law_token_is_its_fields(token);
    assert(driver.slab@.slots[token.spec_index()].phase is Occupied);
    if op.payload == driver.slab@.operation(token)->0.payload {
        assert forall|i: int| 0 <= i < after.slots.len() implies registers(
            #[trigger] after.slots[i],
        ) == registers(driver.slab@.slots[i]) by {}
        if registering(after) {
            let i = choose|i: int|
                0 <= i < after.slots.len() && registers(#[trigger] after.slots[i]);
            assert(registers(driver.slab@.slots[i]));
        }
        if registering(driver.slab@) {
            let i = choose|i: int|
                0 <= i < driver.slab@.slots.len() && registers(#[trigger] driver.slab@.slots[i]);
            assert(registers(after.slots[i]));
        }
    }
    assert forall|k: int| 0 <= k < holds.len() implies after.awaits_cancel(
        (#[trigger] holds[k]).0,
    ) by {
        assert(driver.slab@.awaits_cancel(holds[k].0));
    }
}

} // verus!
