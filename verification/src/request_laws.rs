//! What holds of what the driver is asked for: which requests it accepts, what it asks
//! of the ring for them, and which cancellations it owes.

use crate::driver::{
    CancelRequest, CancelTarget, Carried, Completion, Delivery, DriverInner, OpPayload, PendingRegistration,
    ShutdownMode,
};
use crate::error::{BufError, Error};
use crate::handle::{Dropped, FileTarget, HandleRef, Queued};
use crate::pass::{Action, Pass, Stage, Sweep};
use crate::registry::{RegisteredBuf, RegisteredBuffers};
use crate::slab::{CancelState, Lifecycle, Observer};
use crate::token::Token;
use vstd::prelude::*;

verus! {

/// A queue entry names the very file its operation was asked to target: a registered one
/// by its own index, and one of the caller's by its own handle, with the file kept open.
pub proof fn law_an_entry_names_its_target<F>(target: FileTarget<F>)
    ensures
        target matches FileTarget::Registered { index } ==> {
            &&& target.spec_handle() == HandleRef::Registered(index)
            &&& target.spec_file() is None
            &&& target.spec_index() == Some(index)
        },
        target matches FileTarget::Owned { file, raw } ==> {
            &&& target.spec_handle() == HandleRef::Raw(raw)
            &&& target.spec_file() == Some(file)
            &&& target.spec_index() is None
        },
{
}

/// Uninitialized memory is never handed to the kernel by an ordinary write either: one is
/// accepted exactly when the driver runs, the ring implements writes, a slot is free, and
/// the buffer holds as many initialized bytes as are to be written.
pub proof fn law_an_accepted_write_is_initialized<B, F, S, W>(
    driver: DriverInner<B, F, S, W>,
    buffer: Carried<B>,
    initialized: usize,
    len: u32,
    supported: Result<(), Error>,
)
    ensures
        driver.transfer_refusal(supported, len, buffer.spec_initialized(initialized)) is None <==> {
            &&& driver.shutdown == ShutdownMode::Running
            &&& supported is Ok
            &&& driver.slab@.free.len() > 0 || driver.slab@.slots.len() < 65_536
            &&& match buffer {
                Carried::Owned(_) => len <= initialized,
                Carried::Registered(handle) => len <= handle.initialized,
            }
        },
{
}

/// An ordinary read never reaches past its buffer: one is accepted exactly when the driver
/// runs, the ring implements reads, a slot is free, and the buffer can take as many bytes
/// as are to be read.
pub proof fn law_an_accepted_read_fits<B, F, S, W>(
    driver: DriverInner<B, F, S, W>,
    buffer: Carried<B>,
    capacity: usize,
    len: u32,
    supported: Result<(), Error>,
)
    ensures
        driver.transfer_refusal(supported, len, buffer.spec_capacity(capacity)) is None <==> {
            &&& driver.shutdown == ShutdownMode::Running
            &&& supported is Ok
            &&& driver.slab@.free.len() > 0 || driver.slab@.slots.len() < 65_536
            &&& match buffer {
                Carried::Owned(_) => len <= capacity,
                Carried::Registered(handle) => len <= handle.extent,
            }
        },
{
}

/// A refused transfer says why, and by how much: shutdown comes first, then what the ring
/// lacks, then the buffer, then the driver's own limit.
pub proof fn law_a_refused_transfer_says_why<B, F, S, W>(
    driver: DriverInner<B, F, S, W>,
    len: u32,
    available: usize,
    supported: Result<(), Error>,
    error: Error,
)
    requires
        driver.transfer_refusal(supported, len, available) == Some(error),
    ensures
        driver.shutdown != ShutdownMode::Running ==> error == Error::ShuttingDown,
        driver.shutdown == ShutdownMode::Running && supported is Err ==> error == supported->Err_0,
        driver.shutdown == ShutdownMode::Running && supported is Ok && len > available ==> (
        error matches Error::Buf(BufError::TooSmall { requested, available: offered }) && requested
            as int == len as int && offered as int == available as int),
        driver.shutdown == ShutdownMode::Running && supported is Ok && len <= available ==> error
            == Error::TooManyOperations && driver.slab@.free.len() == 0
            && driver.slab@.slots.len() >= 65_536,
{
}

/// A driver that was asked to shut down takes on nothing: every transfer, flush,
/// registration and checkout is refused as such.
pub proof fn law_shutdown_refuses_all_work<B, F, S, W>(
    driver: DriverInner<B, F, S, W>,
    supported: Result<(), Error>,
    len: u32,
    available: usize,
    target: FileTarget<F>,
    buffer: RegisteredBuf<B>,
    offset: u32,
    is_write: bool,
    buffers: Seq<B>,
    files: Seq<std::rc::Rc<F>>,
    collection: RegisteredBuffers,
)
    requires
        driver.shutdown != ShutdownMode::Running,
        buffers.len() > 0,
        files.len() > 0,
    ensures
        driver.refusal(supported) == Some(Error::ShuttingDown),
        driver.transfer_refusal(supported, len, available) == Some(Error::ShuttingDown),
        driver.registered_refusal(target, buffer, offset, len, is_write, supported) == Some(
            Error::ShuttingDown,
        ),
        driver.registration_refusal(buffers, supported) == Some(Error::ShuttingDown),
        driver.file_registration_refusal(files, supported) == Some(Error::ShuttingDown),
        collection.checkout_refusal(driver) == Some(Error::ShuttingDown),
{
}

/// An operation against a registered buffer is accepted exactly when the driver runs, the
/// ring implements it, the handle is of the current registration, its range lies within
/// what the buffer offers, a registered file it names is registered, and a slot is free.
pub proof fn law_registered_operations_are_accepted_exactly<B, F, S, W>(
    driver: DriverInner<B, F, S, W>,
    target: FileTarget<F>,
    buffer: RegisteredBuf<B>,
    offset: u32,
    len: u32,
    is_write: bool,
    supported: Result<(), Error>,
)
    ensures
        driver.registered_refusal(target, buffer, offset, len, is_write, supported) is None <==> {
            &&& driver.shutdown == ShutdownMode::Running
            &&& supported is Ok
            &&& driver.buffer_registration matches Some(current)
            &&& current.id == buffer.registry
            &&& buffer.index < current.slots@.len()
            &&& is_write ==> offset + len <= current.slots@[buffer.index as int].initialized
            &&& !is_write ==> offset + len <= current.slots@[buffer.index as int].extent
            &&& target matches FileTarget::Registered { index } ==> (
            driver.file_registration matches Some(registration) && index < registration.count)
            &&& driver.slab@.free.len() > 0 || driver.slab@.slots.len() < 65_536
        },
{
}

/// A range that is refused is told with its own numbers, and with what the buffer offers.
pub proof fn law_a_refused_range_tells_its_numbers<B, F, S, W>(
    driver: DriverInner<B, F, S, W>,
    index: u32,
    offset: u32,
    len: u32,
    for_write: bool,
)
    ensures
        driver.range_refusal(index, offset, len, for_write) matches Some(error) ==> {
            ||| (error == Error::InvalidRegisteredIndex { index }
                && !(driver.buffer_registration matches Some(current) && index
                < current.slots@.len()))
            ||| {
                &&& driver.buffer_registration matches Some(current)
                &&& index < current.slots@.len()
                &&& error matches Error::RegisteredRangeOutOfBounds {
                    index: named,
                    offset: from,
                    length,
                    extent,
                }
                &&& named == index
                &&& from as int == offset as int
                &&& length as int == len as int
                &&& extent as int == if for_write {
                    current.slots@[index as int].initialized as int
                } else {
                    current.slots@[index as int].extent as int
                }
                &&& offset + len > extent
            }
        },
{
}

/// Buffers are registered exactly when there are some, the driver runs, no other set is
/// being registered, every buffer of the current set is in its place, the ring implements
/// it, and a slot is free. One that is not in its place is told by its index.
pub proof fn law_buffers_are_registered_exactly_when_they_can_be<B, F, S, W>(
    driver: DriverInner<B, F, S, W>,
    buffers: Seq<B>,
    supported: Result<(), Error>,
)
    ensures
        driver.registration_refusal(buffers, supported) is None <==> {
            &&& buffers.len() > 0
            &&& driver.shutdown == ShutdownMode::Running
            &&& !driver.registration_in_flight
            &&& driver.buffer_registration matches Some(current) ==> forall|i: int|
                0 <= i < current.slots@.len() ==> (#[trigger] current.slots@[i]).held is Some
            &&& supported is Ok
            &&& driver.slab@.free.len() > 0 || driver.slab@.slots.len() < 65_536
        },
        driver.checked_out() matches Some(index) ==> {
            &&& driver.buffer_registration matches Some(current)
            &&& 0 <= index < current.slots@.len()
            &&& current.slots@[index].held is None
            &&& forall|i: int| 0 <= i < index ==> (#[trigger] current.slots@[i]).held is Some
        },
{
    match &driver.buffer_registration {
        Some(current) => {
            current.lemma_checked_out(0);
        },
        None => {},
    }
}

/// A registered extent is the buffer's capacity as far as a descriptor can tell it, and
/// what counts as initialized is what the caller had initialized, within the extent.
pub proof fn law_descriptions_cover_what_fits(
    capacities: Seq<usize>,
    lengths: Seq<usize>,
    extents: Seq<usize>,
    watermarks: Seq<usize>,
    i: int,
)
    requires
        capacities.len() == lengths.len(),
        crate::handle::described(capacities, lengths, extents, watermarks),
        0 <= i < capacities.len(),
    ensures
        extents.len() == capacities.len(),
        watermarks.len() == capacities.len(),
        extents[i] <= capacities[i],
        extents[i] <= 0xFFFF_FFFF,
        capacities[i] <= 0xFFFF_FFFF ==> extents[i] == capacities[i],
        capacities[i] > 0xFFFF_FFFF ==> extents[i] == 0xFFFF_FFFF,
        watermarks[i] <= lengths[i],
        watermarks[i] <= extents[i],
        lengths[i] <= extents[i] ==> watermarks[i] == lengths[i],
        lengths[i] > extents[i] ==> watermarks[i] == extents[i],
{
}

/// A checkout gets as far as the collection exactly when the driver is there and runs, no
/// other set is being registered, and the collection is the current one.
pub proof fn law_only_the_current_collection_gives_buffers<B, F, S, W>(
    driver: DriverInner<B, F, S, W>,
    buffers: RegisteredBuffers,
)
    ensures
        buffers.checkout_refusal(driver) is None <==> {
            &&& !driver.torn_down
            &&& driver.shutdown == ShutdownMode::Running
            &&& !driver.registration_in_flight
            &&& driver.buffer_registration matches Some(current) && current.id == buffers.id
        },
        !driver.torn_down && driver.shutdown == ShutdownMode::Running
            && driver.registration_in_flight ==> buffers.checkout_refusal(driver) == Some(
            Error::RegistrationPending,
        ),
        !driver.torn_down && driver.shutdown == ShutdownMode::Running
            && !driver.registration_in_flight && !(driver.buffer_registration matches Some(current)
            && current.id == buffers.id) ==> buffers.checkout_refusal(driver) == Some(
            Error::RegistrationSuperseded,
        ),
{
}

/// Whether `request` cancels the operation that `token` names: it names the operation, its
/// own completion comes under a cancellation's token for the same slot and generation, and
/// it targets the operation's own file.
pub open spec fn cancels<B, F, S>(
    request: CancelRequest<F>,
    token: Token,
    payload: OpPayload<B, F, S>,
) -> bool {
    let reports = Token(request.user_data);
    &&& request.op_to_cancel == token.0
    &&& request.op_to_cancel != 0
    &&& reports.0 % 2 == 1
    &&& reports.0 as int / 2 == token.0 as int / 2
    &&& match request.target {
        CancelTarget::Owned(file) => payload.file == Some(file),
        CancelTarget::Registered(index) => payload.file is None && payload.registered_file == Some(
            index,
        ),
    }
}

/// A cancellation is asked of the ring exactly when it can do something: for an operation
/// the kernel has, that was never cancelled and names a file, by a driver that is not torn
/// down. It names that operation and its file, which is held open for it, and the operation
/// counts as cancelled from then on. Otherwise nothing is asked.
pub proof fn law_a_cancel_names_its_operation<B, F, S, W>(
    driver: DriverInner<B, F, S, W>,
    token: Token,
    after: DriverInner<B, F, S, W>,
    request: Option<CancelRequest<F>>,
)
    requires
        driver.wf(),
        driver.cancel_requested(token, after, request),
    ensures
        request is Some <==> {
            &&& !driver.torn_down
            &&& token.0 % 2 == 0
            &&& driver.slab@.operation(token) matches Some(op)
            &&& op.lifecycle == Lifecycle::Submitted
            &&& op.cancel == CancelState::NeverRequested
            &&& op.payload.file is Some || op.payload.registered_file is Some
        },
        request matches Some(request) ==> {
            let op = driver.slab@.operation(token)->0;
            &&& cancels(request, token, *op.payload)
            &&& after.slab@.operation(token) matches Some(next)
            &&& next.cancel == CancelState::Pending
            &&& next.payload == op.payload
            &&& next.lifecycle == op.lifecycle
            &&& next.observer == op.observer
            &&& op.payload.file matches Some(file) ==> after.cancel_holds@.contains(
                (Token(request.user_data), file),
            )
        },
        request is None ==> after.slab == driver.slab && after.cancel_holds
            == driver.cancel_holds,
        forall|k: int|
            0 <= k < driver.cancel_holds@.len() ==> after.cancel_holds@.contains(
                #[trigger] driver.cancel_holds@[k],
            ),
        after.pending_submit == driver.pending_submit,
        after.shutdown == driver.shutdown,
        after.buffer_registration == driver.buffer_registration,
{
    driver.slab.lemma_wf();
    crate::token::law_token_is_its_fields(token);
    if driver.slab@.operation(token) is Some {
        crate::driver_laws::law_no_operation_is_named_zero(driver, token);
    }
    if request is Some {
        let op = driver.slab@.operation(token)->0;
        match op.payload.file {
            Some(file) => {
                crate::driver::lemma_pushed(driver.cancel_holds@, (token.spec_cancel(), file));
            },
            None => {},
        }
    }
    assert forall|k: int| 0 <= k < driver.cancel_holds@.len() implies after.cancel_holds@.contains(
        #[trigger] driver.cancel_holds@[k],
    ) by {
        assert(driver.cancel_holds@.contains(driver.cancel_holds@[k]));
    }
}

/// A cancellation that was enqueued is owed a submission and a pass, and changes nothing
/// else; one that was not is owed neither on its own account.
pub proof fn law_an_enqueued_cancel_is_owed_a_submission<B, F, S, W>(
    driver: DriverInner<B, F, S, W>,
    cancel: Token,
    enqueued: bool,
    after: DriverInner<B, F, S, W>,
)
    requires
        driver.cancel_settled(cancel, enqueued, after),
    ensures
        enqueued ==> after.pending_submit && after.nudged && after.slab == driver.slab
            && after.cancel_holds == driver.cancel_holds,
        !enqueued ==> after.pending_submit == driver.pending_submit && after.nudged
            == driver.nudged,
        after.deferred_cancels == driver.deferred_cancels,
        after.driver_waker == driver.driver_waker,
        after.shutdown == driver.shutdown,
{
}

/// Once a cancellation has reported, its operation cannot be cancelled again: that it was
/// cancelled is kept for as long as the operation is there. What else there is of the
/// operation stays as it is.
pub proof fn law_a_reported_cancel_is_not_repeated<B, F, S, W>(
    driver: DriverInner<B, F, S, W>,
    completion: Completion,
    after: DriverInner<B, F, S, W>,
    delivery: Option<Delivery<B, F, S>>,
    token: Token,
    end: DriverInner<B, F, S, W>,
    request: Option<CancelRequest<F>>,
)
    requires
        driver.wf(),
        completion.user_data % 2 == 1,
        token.0 as int == completion.user_data as int - 1,
        driver.reaped(completion, after, delivery),
        driver.slab@.operation(token) matches Some(op) && op.cancel == CancelState::Pending,
        after.cancel_requested(token, end, request),
    ensures
        delivery is None,
        after.slab@.operation(token) matches Some(next) && next.cancel == CancelState::Completed
            && next.payload == driver.slab@.operation(token)->0.payload && next.lifecycle
            == driver.slab@.operation(token)->0.lifecycle,
        request is None,
{
    driver.slab.lemma_wf();
    crate::token::law_token_is_its_fields(token);
    crate::token::law_token_is_its_fields(Token(completion.user_data));
}

/// Files are registered exactly when there are some, the driver runs, the ring implements
/// it, and a slot is free.
pub proof fn law_files_are_registered_exactly_when_they_can_be<B, F, S, W>(
    driver: DriverInner<B, F, S, W>,
    files: Seq<std::rc::Rc<F>>,
    supported: Result<(), Error>,
)
    ensures
        driver.file_registration_refusal(files, supported) is None <==> {
            &&& files.len() > 0
            &&& driver.shutdown == ShutdownMode::Running
            &&& supported is Ok
            &&& driver.slab@.free.len() > 0 || driver.slab@.slots.len() < 65_536
        },
        files.len() > 0 && driver.shutdown == ShutdownMode::Running ==> (
        supported matches Err(error) ==> driver.file_registration_refusal(files, supported) == Some(
            error,
        )),
{
}

/// A cancellation asked for before the kernel has the operation is remembered, and so is
/// every one that was remembered already: none is dropped on account of another.
pub proof fn law_an_early_cancel_is_remembered<B, F, S, W>(
    driver: DriverInner<B, F, S, W>,
    token: Token,
    after: DriverInner<B, F, S, W>,
    request: Option<CancelRequest<F>>,
)
    requires
        driver.cancel_requested(token, after, request),
    ensures
        !driver.torn_down && (driver.slab@.operation(token) matches Some(op) && op.lifecycle
            != Lifecycle::Submitted) ==> after.deferred_cancels@.contains(token),
        forall|t: Token|
            driver.deferred_cancels@.contains(t) ==> #[trigger] after.deferred_cancels@.contains(t),
        forall|t: Token| #[trigger]
            after.deferred_cancels@.contains(t) ==> t == token
                || driver.deferred_cancels@.contains(t),
{
    let list = driver.deferred_cancels@;
    crate::driver::lemma_pushed(list, token);
    assert forall|t: Token| #[trigger] after.deferred_cancels@.contains(t) implies t == token
        || list.contains(t) by {
        if after.deferred_cancels@ == list.push(token) {
            let k = after.deferred_cancels@.index_of(t);
            if k < list.len() {
                assert(list[k] == t);
            }
        }
    }
}

/// The sweep that follows a successful submission starts at the first of the remembered
/// cancellations and has all of them before it; none is left to be remembered.
pub proof fn law_remembered_cancels_are_swept<B, F, S, W>(
    pass: Pass<B, F, S>,
    driver: DriverInner<B, F, S, W>,
    entries: u32,
    after: Pass<B, F, S>,
    driver_after: DriverInner<B, F, S, W>,
)
    requires
        pass.stage is Submitting,
        pass.submit_noted(driver, Ok(entries), after, driver_after),
    ensures
        after.stage matches Stage::Cancel { sweep: Sweep::Deferred, tokens, at: 0 } && (forall|
            t: Token,
        |
            driver.deferred_cancels@.contains(t) <==> #[trigger] tokens@.contains(t)),
        driver_after.deferred_cancels@.len() == 0,
{
}

/// A sweep passes over none of its tokens: each step deals with the next one, and asks the
/// ring to cancel it exactly when that can do something.
pub proof fn law_a_sweep_visits_every_token<B, F, S, W>(
    pass: Pass<B, F, S>,
    driver: DriverInner<B, F, S, W>,
    after: Pass<B, F, S>,
    driver_after: DriverInner<B, F, S, W>,
    action: Action<F>,
)
    requires
        driver.wf(),
        pass.stage matches Stage::Cancel { tokens, at, .. } && at < tokens@.len(),
        pass.advanced(driver, after, driver_after, action),
    ensures
        ({
            let sweep = pass.stage->Cancel_sweep;
            let tokens = pass.stage->Cancel_tokens;
            let at = pass.stage->Cancel_at;
            let token = tokens@[at as int];
            let due = {
                &&& !driver.torn_down
                &&& token.0 % 2 == 0
                &&& driver.slab@.operation(token) matches Some(op)
                &&& op.lifecycle == Lifecycle::Submitted
                &&& op.cancel == CancelState::NeverRequested
                &&& op.payload.file is Some || op.payload.registered_file is Some
            };
            if due {
                let op = driver.slab@.operation(token)->0;
                &&& action matches Action::BuildCancel(request)
                &&& cancels(request, token, *op.payload)
                &&& after.stage == (Stage::Cancelling {
                    sweep,
                    tokens,
                    at: (at + 1) as usize,
                    cancel: Token(request.user_data),
                })
                &&& driver_after.slab@.operation(token) matches Some(next)
                &&& next.cancel == CancelState::Pending
                &&& next.payload == op.payload
            } else {
                &&& action == Action::<F>::Continue
                &&& after.stage == (Stage::Cancel { sweep, tokens, at: (at + 1) as usize })
                &&& driver_after == driver
            }
        }),
{
    driver.slab.lemma_wf();
    let token = pass.stage->Cancel_tokens@[pass.stage->Cancel_at as int];
    crate::token::law_token_is_its_fields(token);
    if driver.slab@.operation(token) is Some {
        crate::driver_laws::law_no_operation_is_named_zero(driver, token);
    }
}

/// Behind the remembered cancellations come those of the operations whose futures are
/// gone: every one that the kernel has and that was never cancelled.
pub proof fn law_abandoned_operations_are_swept<B, F, S, W>(
    pass: Pass<B, F, S>,
    driver: DriverInner<B, F, S, W>,
    after: Pass<B, F, S>,
    driver_after: DriverInner<B, F, S, W>,
    action: Action<F>,
    token: Token,
)
    requires
        driver.wf(),
        pass.stage matches Stage::Cancel { sweep: Sweep::Deferred, tokens, at } && at
            >= tokens@.len(),
        pass.advanced(driver, after, driver_after, action),
        token.0 % 2 == 0,
    ensures
        driver_after == driver,
        after.stage matches Stage::Cancel { sweep: Sweep::Abandoned, tokens, at: 0 } && (
        tokens@.contains(token) <==> (driver.slab@.operation(token) matches Some(op) && op.lifecycle
            == Lifecycle::Submitted && op.cancel == CancelState::NeverRequested && op.observer
            == Observer::Detached)),
{
    driver.slab.lemma_wf();
    crate::token::law_token_is_its_fields(token);
    crate::slab_laws::law_listed_tokens_name_the_group(
        driver.slab@,
        crate::slab::Group::Abandoned,
    );
    let listed = after.stage->Cancel_tokens@;
    if listed.contains(token) {
        let k = listed.index_of(token);
        assert(driver.slab@.operation(listed[k]) is Some);
    }
    if driver.slab@.operation(token) matches Some(op) && op.lifecycle == Lifecycle::Submitted
        && op.cancel == CancelState::NeverRequested && op.observer == Observer::Detached {
        assert(driver.slab@.slots[token.spec_index()].phase.is_in(crate::slab::Group::Abandoned));
    }
}

/// An entry that reached the queue is owed a submission and a pass, and its operation is
/// past the point of being given up; one that did not leaves nothing behind, and what it
/// carried comes back with the error. No other operation is touched.
pub proof fn law_a_queued_entry_is_owed_a_submission<B, F, S, W>(
    driver: DriverInner<B, F, S, W>,
    token: Token,
    built: Result<(), Error>,
    after: DriverInner<B, F, S, W>,
    queued: Queued<B, F, S, W>,
    other: Token,
)
    requires
        driver.wf(),
        driver.is_described(token),
        driver.entry_settled(token, built, after, queued),
        other.0 % 2 == 0,
        other != token,
    ensures
        built is Ok ==> {
            &&& after.pending_submit
            &&& after.nudged
            &&& queued == Queued::<B, F, S, W>::Queued(driver.driver_waker)
            &&& after.driver_waker is None
            &&& after.slab@.operation(token) matches Some(op)
            &&& op.lifecycle == Lifecycle::Built
            &&& op.payload == driver.slab@.operation(token)->0.payload
            &&& op.observer == driver.slab@.operation(token)->0.observer
            &&& op.cancel == driver.slab@.operation(token)->0.cancel
            &&& after.registration_in_flight <==> driver.registration_in_flight || (
            op.payload.pending_registration matches Some(PendingRegistration::Buffers { .. }))
        },
        built matches Err(error) ==> {
            &&& queued == Queued::<B, F, S, W>::Rejected(
                error,
                driver.slab@.operation(token)->0.payload,
            )
            &&& after.slab@.operation(token) is None
            &&& after.pending_submit == driver.pending_submit
            &&& after.registration_in_flight == driver.registration_in_flight
            &&& after.driver_waker == driver.driver_waker
        },
        after.building is None,
        after.slab@.operation(other) == driver.slab@.operation(other),
{
    driver.slab.lemma_wf();
    crate::token::law_token_is_its_fields(token);
    crate::token::law_token_is_its_fields(other);
}

/// A dropped future detaches its operation. One that is queued stays as it is otherwise,
/// and nothing is asked; one the kernel has is cancelled, if that can do something, and
/// the parked driver is woken for it.
pub proof fn law_a_dropped_future_detaches_its_operation<B, F, S, W>(
    driver: DriverInner<B, F, S, W>,
    token: Token,
    after: DriverInner<B, F, S, W>,
    dropped: Dropped<F, W>,
)
    requires
        driver.wf(),
        token.0 % 2 == 0,
        driver.future_gone(token, after, dropped),
        driver.slab@.operation(token) matches Some(op) && op.lifecycle != Lifecycle::Described,
    ensures
        ({
            let op = driver.slab@.operation(token)->0;
            let due = {
                &&& !driver.torn_down
                &&& op.lifecycle == Lifecycle::Submitted
                &&& op.cancel == CancelState::NeverRequested
                &&& op.payload.file is Some || op.payload.registered_file is Some
            };
            &&& after.slab@.operation(token) matches Some(next)
            &&& next.observer == Observer::Detached
            &&& next.payload == op.payload
            &&& next.lifecycle == op.lifecycle
            &&& next.cancel == if due {
                CancelState::Pending
            } else {
                op.cancel
            }
            &&& dropped.request is Some <==> due
            &&& dropped.request matches Some(request) ==> cancels(request, token, *op.payload)
            &&& op.lifecycle == Lifecycle::Submitted ==> dropped.waker == driver.driver_waker
            &&& op.lifecycle == Lifecycle::Built ==> dropped.waker is None
        }),
{
    driver.slab.lemma_wf();
    crate::token::law_token_is_its_fields(token);
    crate::driver_laws::law_no_operation_is_named_zero(driver, token);
}

/// Dropping a future whose operation is over changes nothing, and asks for nothing.
pub proof fn law_a_late_drop_changes_nothing<B, F, S, W>(
    driver: DriverInner<B, F, S, W>,
    token: Token,
    after: DriverInner<B, F, S, W>,
    dropped: Dropped<F, W>,
)
    requires
        driver.future_gone(token, after, dropped),
        crate::slab_laws::is_over(driver.slab@, token),
    ensures
        after == driver,
        dropped.request is None,
        dropped.waker is None,
{
}

/// An operation that was never built gives its registered buffer back to its registration
/// when its future is dropped, at once.
pub proof fn law_an_unbuilt_operation_returns_its_buffer<B, F, S, W>(
    driver: DriverInner<B, F, S, W>,
    token: Token,
    after: DriverInner<B, F, S, W>,
    dropped: Dropped<F, W>,
    handle: RegisteredBuf<B>,
)
    requires
        driver.wf(),
        driver.future_gone(token, after, dropped),
        driver.slab@.operation(token) matches Some(op) && op.lifecycle == Lifecycle::Described
            && op.payload.buffer == Some(Carried::Registered(handle)),
        driver.buffer_registration matches Some(current) && current.id == handle.registry
            && handle.index < current.slots@.len()
            && current.slots@[handle.index as int].held is None
            && current.slots@[handle.index as int].extent == handle.extent,
    ensures
        after.buffer_registration matches Some(registry) && registry.slots@.len()
            == driver.buffer_registration->0.slots@.len()
            && registry.slots@[handle.index as int].held == Some(handle.buffer),
        dropped.request is None,
{
}

} // verus!
