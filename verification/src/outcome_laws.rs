//! What holds of how operations end: what a completion, a drain or a teardown delivers.

use crate::driver::{
    Carried, Completion, Delivery, DriverInner, OpPayload, PendingRegistration, Resource,
    ShutdownMode,
};
use crate::error::Error;
use crate::pass::{Action, Pass, Stage, Sweep};
use crate::registry::RegisteredBuf;
use crate::slab::{CancelState, Group, Lifecycle, Observer, Phase, SlabView, SlotView};
use crate::teardown::{Released, StepOutcome};
use crate::token::Token;
use vstd::prelude::*;

verus! {

/// An operation succeeds exactly when its completion's code is not negative, and then with
/// the whole count that the completion carries.
pub proof fn law_a_byte_count_arrives_whole<B, F, S, W>(
    driver: DriverInner<B, F, S, W>,
    completion: Completion,
    after: DriverInner<B, F, S, W>,
    delivery: Delivery<B, F, S>,
)
    requires
        driver.reaped(completion, after, Some(delivery)),
    ensures
        delivery.result is Ok <==> completion.code >= 0,
        completion.code >= 0 && completion.information <= 0xFFFF_FFFF ==> (
        delivery.result matches Ok(n) && n as int == completion.information as int),
{
}

/// A completion is told to whoever awaits its operation, and to nobody else: there is a
/// delivery exactly when the user data names a live operation, and it goes to that
/// operation's slot.
pub proof fn law_a_completion_goes_to_its_operation<B, F, S, W>(
    driver: DriverInner<B, F, S, W>,
    completion: Completion,
    after: DriverInner<B, F, S, W>,
    delivery: Option<Delivery<B, F, S>>,
)
    requires
        driver.wf(),
        driver.reaped(completion, after, delivery),
    ensures
        delivery is Some <==> completion.user_data % 2 == 0 && driver.slab@.operation(
            Token(completion.user_data),
        ) is Some,
        delivery matches Some(told) ==> {
            let op = driver.slab@.operation(Token(completion.user_data))->0;
            &&& told.slot == op.payload.slot
            &&& after.slab@.operation(Token(completion.user_data)) is None
        },
        after.pending_submit == driver.pending_submit,
        after.deferred_cancels == driver.deferred_cancels,
        after.shutdown == driver.shutdown,
        after.torn_down == driver.torn_down,
        after.submissions == driver.submissions,
        after.submitted_entries == driver.submitted_entries,
{
    driver.slab.lemma_wf();
    crate::token::law_token_is_its_fields(Token(completion.user_data));
}

/// A registered buffer comes back as itself, and counts as initialized what it did before,
/// and beyond that as far as the transfer reached without leaving a gap, within the
/// extent. A failed transfer, or one that was not into the registration, changes no count.
pub proof fn law_a_transfer_is_counted_in_its_buffer<B, F, S, W>(
    driver: DriverInner<B, F, S, W>,
    completion: Completion,
    after: DriverInner<B, F, S, W>,
    delivery: Delivery<B, F, S>,
    handle: RegisteredBuf<B>,
)
    requires
        driver.wf(),
        driver.reaped(completion, after, Some(delivery)),
        driver.slab@.operation(Token(completion.user_data)) matches Some(op)
            && op.payload.pending_registration is None && op.payload.buffer == Some(
            Carried::Registered(handle),
        ),
    ensures
        ({
            let op = driver.slab@.operation(Token(completion.user_data))->0;
            let out = driver.buffer_registration matches Some(current) && current.id
                == handle.registry && handle.index < current.slots@.len()
                && current.slots@[handle.index as int].held is None
                && current.slots@[handle.index as int].extent == handle.extent;
            let was = if out {
                driver.buffer_registration->0.slots@[handle.index as int].initialized as int
            } else {
                handle.initialized as int
            };
            let counts = op.payload.registered_buffer is Some && delivery.result is Ok;
            let (_, offset) = op.payload.registered_buffer->0;
            let start = offset as int;
            let end = start + delivery.result->Ok_0;
            let now = if counts && start <= was && end > was {
                if end <= handle.extent {
                    end
                } else {
                    handle.extent as int
                }
            } else {
                was
            };
            &&& op.observer == Observer::Live ==> {
                &&& delivery.resource matches Some(Resource::Buffer(Carried::Registered(back)))
                &&& back.registry == handle.registry
                &&& back.index == handle.index
                &&& back.extent == handle.extent
                &&& back.buffer == handle.buffer
                &&& back.initialized as int == now
            }
            &&& op.observer == Observer::Detached ==> delivery.resource is None
            &&& out ==> {
                let slots = driver.buffer_registration->0.slots@;
                &&& after.buffer_registration matches Some(registry)
                &&& registry.id == handle.registry
                &&& registry.slots@.len() == slots.len()
                &&& registry.slots@[handle.index as int].initialized as int == now
                &&& registry.slots@[handle.index as int].extent == handle.extent
                &&& registry.slots@[handle.index as int].held == if op.observer
                    == Observer::Detached {
                    Some(handle.buffer)
                } else {
                    None
                }
                &&& forall|i: int|
                    0 <= i < slots.len() && i != handle.index ==> (#[trigger] registry.slots@[i])
                        == slots[i]
            }
            &&& !out ==> after.buffer_registration == driver.buffer_registration
        }),
{
    let op = driver.slab@.operation(Token(completion.user_data))->0;
    assert(op.payload.wf());
    match &driver.buffer_registration {
        Some(current) => {
            if handle.index < current.slots@.len() {
                assert(current.slots@[handle.index as int].wf());
            }
        },
        None => {},
    }
}

/// Buffers whose registration succeeds are the current set from then on, each in its place
/// with its extent and its initialized prefix, under an identity of their own, which the
/// caller gets; the set they supersede is kept. Where it fails they all come back, and
/// nothing is superseded.
pub proof fn law_registered_buffers_become_the_current_set<B, F, S, W>(
    driver: DriverInner<B, F, S, W>,
    completion: Completion,
    after: DriverInner<B, F, S, W>,
    delivery: Delivery<B, F, S>,
    buffers: Vec<B>,
    extents: Vec<usize>,
    watermarks: Vec<usize>,
)
    requires
        driver.wf(),
        driver.reaped(completion, after, Some(delivery)),
        driver.slab@.operation(Token(completion.user_data)) matches Some(op)
            && op.payload.pending_registration == Some(
            PendingRegistration::<B, F>::Buffers { buffers, extents, watermarks },
        ),
    ensures
        !after.registration_in_flight,
        completion.code >= 0 ==> {
            &&& after.buffer_registration matches Some(registry)
            &&& registry.id.driver == driver.driver_id
            &&& registry.id.token.0 == completion.user_data
            &&& registry.slots@.len() == buffers@.len()
            &&& forall|i: int|
                0 <= i < buffers@.len() ==> {
                    &&& (#[trigger] registry.slots@[i]).held == Some(buffers@[i])
                    &&& registry.slots@[i].extent == extents@[i]
                    &&& registry.slots@[i].initialized <= extents@[i]
                    &&& watermarks@[i] <= extents@[i] ==> registry.slots@[i].initialized
                        == watermarks@[i]
                    &&& watermarks@[i] > extents@[i] ==> registry.slots@[i].initialized
                        == extents@[i]
                }
            &&& delivery.resource matches Some(Resource::Collection(collection))
            &&& collection.id == registry.id
            &&& collection.count == buffers@.len()
            &&& after.retired_buffer_registrations@ == match driver.buffer_registration {
                Some(previous) => driver.retired_buffer_registrations@.push(previous),
                None => driver.retired_buffer_registrations@,
            }
        },
        completion.code < 0 ==> {
            &&& delivery.resource matches Some(Resource::Unregistered(pending))
            &&& pending == (PendingRegistration::<B, F>::Buffers { buffers, extents, watermarks })
            &&& after.buffer_registration == driver.buffer_registration
            &&& after.retired_buffer_registrations == driver.retired_buffer_registrations
        },
{
    let op = driver.slab@.operation(Token(completion.user_data))->0;
    assert(op.payload.wf());
}

/// Files whose registration succeeds are the current set from then on, all of them, and
/// the set they supersede is kept. Where it fails they come back, and nothing is
/// superseded.
pub proof fn law_registered_files_become_the_current_set<B, F, S, W>(
    driver: DriverInner<B, F, S, W>,
    completion: Completion,
    after: DriverInner<B, F, S, W>,
    delivery: Delivery<B, F, S>,
    files: Vec<std::rc::Rc<F>>,
)
    requires
        driver.reaped(completion, after, Some(delivery)),
        driver.slab@.operation(Token(completion.user_data)) matches Some(op)
            && op.payload.pending_registration == Some(PendingRegistration::<B, F>::Files { files }),
    ensures
        completion.code >= 0 ==> {
            &&& after.file_registration matches Some(registration)
            &&& registration.files == files
            &&& registration.count == files@.len()
            &&& delivery.resource is None
            &&& after.retired_file_registrations@ == match driver.file_registration {
                Some(previous) => driver.retired_file_registrations@.push(previous),
                None => driver.retired_file_registrations@,
            }
        },
        completion.code < 0 ==> {
            &&& delivery.resource == Some(
                Resource::Unregistered(PendingRegistration::<B, F>::Files { files }),
            )
            &&& after.file_registration == driver.file_registration
            &&& after.retired_file_registrations == driver.retired_file_registrations
        },
        after.buffer_registration == driver.buffer_registration,
        after.registration_in_flight == driver.registration_in_flight,
{
    assert(files.len() == files@.len());
}

/// What goes back to the caller of an operation that the driver ends itself is an error
/// that says so, and all that the operation carried.
pub proof fn law_an_abandoned_operation_returns_what_it_carried<B, F, S>(
    payload: OpPayload<B, F, S>,
)
    ensures
        payload.abandoned().slot == payload.slot,
        payload.abandoned().result == Err::<u32, Error>(Error::AbandonedAtShutdown),
        payload.pending_registration matches Some(pending) ==> payload.abandoned().resource == Some(
            Resource::Unregistered(pending),
        ),
        payload.pending_registration is None ==> match payload.buffer {
            Some(buffer) => payload.abandoned().resource == Some(Resource::<B, F>::Buffer(buffer)),
            None => payload.abandoned().resource is None,
        },
{
}

/// The slots of a group are counted one by one: a live operation is live and outstanding; a
/// slot that waits for a cancellation to report is outstanding, and so is the kernel's; and
/// an operation is in the group of the stage it has reached.
pub proof fn law_groups_are_counted_exactly<P>(slots: Seq<SlotView<P>>)
    ensures
        crate::slab::count(slots, Group::Live) == slots.filter(
            |slot: SlotView<P>| slot.phase is Occupied,
        ).len(),
        crate::slab::count(slots, Group::Outstanding) == slots.filter(
            |slot: SlotView<P>| slot.phase is Occupied || slot.phase is Tombstone,
        ).len(),
        crate::slab::count(slots, Group::AwaitingKernel) == slots.filter(
            |slot: SlotView<P>|
                slot.phase is Tombstone || (slot.phase matches Phase::Occupied(op) && op.lifecycle
                    == Lifecycle::Submitted),
        ).len(),
        crate::slab::count(slots, Group::Described) == slots.filter(
            |slot: SlotView<P>|
                slot.phase matches Phase::Occupied(op) && op.lifecycle == Lifecycle::Described,
        ).len(),
        crate::slab::count(slots, Group::Built) == slots.filter(
            |slot: SlotView<P>|
                slot.phase matches Phase::Occupied(op) && op.lifecycle == Lifecycle::Built,
        ).len(),
        crate::slab::count(slots, Group::Uncancelled) == slots.filter(
            |slot: SlotView<P>|
                slot.phase matches Phase::Occupied(op) && op.lifecycle == Lifecycle::Submitted
                    && op.cancel == CancelState::NeverRequested,
        ).len(),
        crate::slab::count(slots, Group::Abandoned) == slots.filter(
            |slot: SlotView<P>|
                slot.phase matches Phase::Occupied(op) && op.lifecycle == Lifecycle::Submitted
                    && op.cancel == CancelState::NeverRequested && op.observer
                    == Observer::Detached,
        ).len(),
    decreases slots.len(),
{
    reveal(Seq::filter);
    if slots.len() > 0 {
        law_groups_are_counted_exactly(slots.drop_last());
    }
}

/// A drain is over exactly when no slot expects a completion any more. It is given up on
/// exactly when some do, the kernel owes none of them, and submission has failed eight
/// times in a row or more. Otherwise it goes on.
pub proof fn law_a_drain_ends_exactly_when_it_can<B, F, S, W>(driver: DriverInner<B, F, S, W>)
    ensures
        ({
            let slots = driver.slab@.slots;
            let idle = forall|i: int|
                0 <= i < slots.len() ==> (#[trigger] slots[i]).phase is Vacant
                    || slots[i].phase is Retired;
            let kernel_owes_none = forall|i: int|
                0 <= i < slots.len() ==> !((#[trigger] slots[i]).phase is Tombstone) && !(
                slots[i].phase matches Phase::Occupied(op) && op.lifecycle
                    == Lifecycle::Submitted);
            match driver.spec_drain_outcome() {
                StepOutcome::Quiescent => idle,
                StepOutcome::UnsubmittableResidue => !idle && kernel_owes_none
                    && driver.submit_failures >= 8,
                StepOutcome::Progressing => !idle && !(kernel_owes_none && driver.submit_failures
                    >= 8),
            }
        }),
{
    let slots = driver.slab@.slots;
    crate::slab_laws::law_empty_group(driver.slab@, Group::Outstanding);
    crate::slab_laws::law_empty_group(driver.slab@, Group::AwaitingKernel);
    if forall|i: int| 0 <= i < slots.len() ==> !(#[trigger] slots[i]).phase.is_in(
        Group::Outstanding,
    ) {
        assert forall|i: int| 0 <= i < slots.len() implies (#[trigger] slots[i]).phase is Vacant
            || slots[i].phase is Retired by {
            assert(!slots[i].phase.is_in(Group::Outstanding));
        }
    } else {
        let i = choose|i: int|
            0 <= i < slots.len() && (#[trigger] slots[i]).phase.is_in(Group::Outstanding);
        assert(!(slots[i].phase is Vacant || slots[i].phase is Retired));
    }
    if forall|i: int| 0 <= i < slots.len() ==> !(#[trigger] slots[i]).phase.is_in(
        Group::AwaitingKernel,
    ) {
        assert forall|i: int| 0 <= i < slots.len() implies !((
        #[trigger] slots[i]).phase is Tombstone) && !(slots[i].phase matches Phase::Occupied(op)
            && op.lifecycle == Lifecycle::Submitted) by {
            assert(!slots[i].phase.is_in(Group::AwaitingKernel));
        }
    } else {
        let i = choose|i: int|
            0 <= i < slots.len() && (#[trigger] slots[i]).phase.is_in(Group::AwaitingKernel);
        assert(slots[i].phase is Tombstone || (slots[i].phase matches Phase::Occupied(op)
            && op.lifecycle == Lifecycle::Submitted));
    }
}

/// A drain step waits exactly when something is outstanding and every queue entry has been
/// accepted, and then for all that is outstanding.
pub proof fn law_a_drain_waits_for_everything<B, F, S, W>(driver: DriverInner<B, F, S, W>)
    requires
        driver.wf(),
    ensures
        ({
            let slots = driver.slab@.slots;
            let outstanding = slots.filter(
                |slot: SlotView<OpPayload<B, F, S>>|
                    slot.phase is Occupied || slot.phase is Tombstone,
            ).len();
            let queued = exists|i: int|
                0 <= i < slots.len() && ((#[trigger] slots[i]).phase matches Phase::Occupied(op)
                    && op.lifecycle == Lifecycle::Built);
            match driver.spec_drain_wait() {
                Some(n) => !queued && outstanding > 0 && n as int == outstanding as int,
                None => queued || outstanding == 0,
            }
        }),
{
    let slots = driver.slab@.slots;
    driver.slab.lemma_wf();
    law_groups_are_counted_exactly(slots);
    crate::slab::lemma_count_bound(slots, Group::Outstanding);
    crate::slab_laws::law_empty_group(driver.slab@, Group::Built);
    if forall|i: int| 0 <= i < slots.len() ==> !(#[trigger] slots[i]).phase.is_in(Group::Built) {
        assert forall|i: int| 0 <= i < slots.len() implies !((
        #[trigger] slots[i]).phase matches Phase::Occupied(op) && op.lifecycle
            == Lifecycle::Built) by {
            assert(!slots[i].phase.is_in(Group::Built));
        }
    } else {
        let i = choose|i: int|
            0 <= i < slots.len() && (#[trigger] slots[i]).phase.is_in(Group::Built);
        assert(slots[i].phase matches Phase::Occupied(op) && op.lifecycle == Lifecycle::Built);
    }
}

/// A submission that succeeds hands the kernel every queued operation and no other, and
/// changes nothing else of any; it is counted once, with the entries it covered, and leaves
/// none owed. One that fails hands over none.
pub proof fn law_a_submission_hands_over_what_was_queued<B, F, S, W>(
    pass: Pass<B, F, S>,
    driver: DriverInner<B, F, S, W>,
    result: Result<u32, Error>,
    after: Pass<B, F, S>,
    driver_after: DriverInner<B, F, S, W>,
    token: Token,
)
    requires
        driver.wf(),
        pass.stage is Submitting,
        pass.can_count(driver, result),
        pass.submit_noted(driver, result, after, driver_after),
    ensures
        result matches Ok(entries) ==> {
            &&& driver_after.submissions == driver.submissions + 1
            &&& driver_after.submitted_entries == driver.submitted_entries + entries
            &&& !driver_after.pending_submit
            &&& driver_after.submit_failures == 0
            &&& driver_after.deferred_reports == driver.deferred_reports
            &&& driver_after.slab@.slots.len() == driver.slab@.slots.len()
            &&& driver_after.slab@.free == driver.slab@.free
            &&& match driver.slab@.operation(token) {
                Some(op) => {
                    &&& driver_after.slab@.operation(token) matches Some(next)
                    &&& next.lifecycle == if op.lifecycle == Lifecycle::Described {
                        Lifecycle::Described
                    } else {
                        Lifecycle::Submitted
                    }
                    &&& next.payload == op.payload
                    &&& next.observer == op.observer
                    &&& next.cancel == op.cancel
                },
                None => driver_after.slab@.operation(token) is None,
            }
        },
        result matches Err(error) ==> {
            &&& after.stage is CancelEverything
            &&& driver_after.slab == driver.slab
            &&& driver_after.pending_submit == driver.pending_submit
            &&& driver_after.submissions == driver.submissions
            &&& driver_after.submitted_entries == driver.submitted_entries
            &&& driver.submit_failures == 0 ==> driver_after.deferred_reports@
                == driver.deferred_reports@.push(error)
            &&& driver_after.deferred_reports@ != driver.deferred_reports@
                ==> driver_after.deferred_reports@ == driver.deferred_reports@.push(error)
        },
{
    if token.spec_index() < driver.slab@.slots.len() {
        assert(driver.slab@.promoted().slots[token.spec_index()]
            == driver.slab@.slots[token.spec_index()].promoted());
    }
}

/// What came of a drain step's wait is ignored, whatever it was: the step goes on to reap.
pub proof fn law_the_outcome_of_a_wait_is_ignored<B, F, S, W>(
    pass: Pass<B, F, S>,
    driver: DriverInner<B, F, S, W>,
    result: Result<u32, Error>,
    after: Pass<B, F, S>,
    driver_after: DriverInner<B, F, S, W>,
)
    requires
        pass.stage is Waiting,
        pass.submit_noted(driver, result, after, driver_after),
    ensures
        driver_after == driver,
        after.stage is Reap,
        after.deliveries == pass.deliveries,
        after.draining == pass.draining,
{
}

/// A pass submits what is queued before it looks for completions, exactly when a submission
/// is owed, and without waiting; a drain step that waits does so for a quarter of a second
/// at most; and a pass that is not a drain step never waits.
pub proof fn law_a_pass_submits_what_is_owed<B, F, S, W>(
    pass: Pass<B, F, S>,
    driver: DriverInner<B, F, S, W>,
    after: Pass<B, F, S>,
    driver_after: DriverInner<B, F, S, W>,
    action: Action<F>,
)
    requires
        pass.advanced(driver, after, driver_after, action),
    ensures
        after.draining == pass.draining,
        pass.stage is Begin ==> after.stage is Submit && action is Continue,
        pass.stage is Submit && driver.pending_submit ==> after.stage is Submitting && action == (
        Action::<F>::Submit { wait: 0, milliseconds: 0 }),
        pass.stage is Submit && !driver.pending_submit ==> action is Continue
            && after.stage is CancelEverything,
        pass.stage is Wait && pass.draining ==> match driver.spec_drain_wait() {
            Some(wait) => after.stage is Waiting && action == (Action::<F>::Submit {
                wait,
                milliseconds: 250,
            }),
            None => after.stage is Reap && action is Continue,
        },
        pass.stage is Wait && !pass.draining ==> after.stage is Reap && action is Continue,
        pass.stage is Reap ==> after.stage is Popping && action is PopCompletion,
        pass.stage matches Stage::Cancel { sweep, tokens, at } ==> (at >= tokens@.len() ==> {
            &&& action is Continue
            &&& driver_after == driver
            &&& sweep == Sweep::Deferred ==> (after.stage matches Stage::Cancel {
                sweep: Sweep::Abandoned,
                at: 0,
                ..
            })
            &&& sweep == Sweep::Abandoned ==> after.stage is CancelEverything
            &&& sweep == Sweep::Everything ==> after.stage is Wait
        }),
        !(pass.stage is Cancel) ==> !(action is BuildCancel),
        !(pass.stage is Begin && pass.draining) ==> after.deliveries == pass.deliveries,
        !(pass.stage is Begin && pass.draining) && !(pass.stage is Cancel) ==> driver_after
            == driver,
{
}

/// A drain step ends every operation for which nothing was queued: it is over, and its
/// caller gets what it carried, with the error that says so, behind all that was to be
/// delivered already.
pub proof fn law_a_drain_step_ends_what_was_never_queued<B, F, S, W>(
    pass: Pass<B, F, S>,
    driver: DriverInner<B, F, S, W>,
    after: Pass<B, F, S>,
    driver_after: DriverInner<B, F, S, W>,
    action: Action<F>,
    token: Token,
)
    requires
        driver.wf(),
        pass.stage is Begin,
        pass.draining,
        pass.advanced(driver, after, driver_after, action),
        token.0 % 2 == 0,
        driver.slab@.operation(token) matches Some(op) && op.lifecycle == Lifecycle::Described,
    ensures
        driver_after.slab@.operation(token) is None,
        pass.deliveries@.is_prefix_of(after.deliveries@),
        ({
            let payload = driver.slab@.operation(token)->0.payload;
            exists|k: int|
                pass.deliveries@.len() <= k < after.deliveries@.len() && {
                    let told = #[trigger] after.deliveries@[k];
                    &&& told.slot == payload.slot
                    &&& told.result == Err::<u32, Error>(Error::AbandonedAtShutdown)
                    &&& payload.pending_registration matches Some(pending) ==> told.resource
                        == Some(Resource::Unregistered(pending))
                    &&& payload.pending_registration is None ==> match payload.buffer {
                        Some(buffer) => told.resource == Some(Resource::<B, F>::Buffer(buffer)),
                        None => told.resource is None,
                    }
                }
        }),
{
    let slab = driver.slab@;
    let done = crate::slab::tokens(slab.slots, Group::Described);
    driver.slab.lemma_wf();
    crate::token::law_token_is_its_fields(token);
    crate::slab_laws::law_listed_tokens_name_the_group(slab, Group::Described);
    assert(slab.slots[token.spec_index()].phase.is_in(Group::Described));
    assert(done.contains(token));
    lemma_each_is_ended(slab, done, token);
    let told = slab.operation(token)->0.payload.abandoned();
    let results = crate::driver::abandoned_all(slab, done);
    let j = results.index_of(told);
    assert(after.deliveries@[pass.deliveries@.len() + j] == told);
}

/// Each of the operations that are abandoned in order is over in the end, and its result is
/// among those that go out.
proof fn lemma_each_is_ended<B, F, S>(
    slab: SlabView<OpPayload<B, F, S>>,
    done: Seq<Token>,
    token: Token,
)
    requires
        done.contains(token),
        slab.operation(token) is Some,
        forall|j: int, k: int|
            0 <= j < k < done.len() ==> (#[trigger] done[j]).spec_index() < (
            #[trigger] done[k]).spec_index(),
    ensures
        crate::driver::abandoned_all(slab, done).contains(
            slab.operation(token)->0.payload.abandoned(),
        ),
        crate::driver::completed_all(slab, done).operation(token) is None,
        token.spec_index() < crate::driver::completed_all(slab, done).slots.len(),
    decreases done.len(),
{
    let shorter = done.drop_last();
    let last = done.last();
    let k = done.index_of(token);
    let told = slab.operation(token)->0.payload.abandoned();
    let before = crate::driver::abandoned_all(slab, shorter);
    let all = crate::driver::abandoned_all(slab, done);
    assert forall|i: int, j: int| 0 <= i < j < shorter.len() implies (
    #[trigger] shorter[i]).spec_index() < (#[trigger] shorter[j]).spec_index() by {
        assert(done[i].spec_index() < done[j].spec_index());
    }
    if k < shorter.len() {
        assert(shorter[k] == token);
        lemma_each_is_ended(slab, shorter, token);
        let i = before.index_of(told);
        assert(all[i] == told);
        assert(done[k].spec_index() < done[done.len() - 1].spec_index());
    } else {
        assert forall|i: int| 0 <= i < shorter.len() implies (#[trigger] shorter[i]).spec_index()
            != token.spec_index() by {
            assert(done[i].spec_index() < done[done.len() - 1].spec_index());
        }
        crate::driver_laws::lemma_untouched(slab, shorter, token);
        assert(all[before.len() as int] == told);
    }
}

/// Teardown wakes every future that awaits its end, each by its own waker, and hands every
/// registration out as it was, the superseded ones first.
pub proof fn law_teardown_wakes_every_waiter<B, F, S, W>(
    driver: DriverInner<B, F, S, W>,
    after: DriverInner<B, F, S, W>,
    released: Released<B, F, S, W>,
)
    requires
        driver.closed(after, released),
    ensures
        released.wakers@.len() == driver.shutdown_waiters@.len(),
        forall|i: int|
            0 <= i < driver.shutdown_waiters@.len() ==> (#[trigger] driver.shutdown_waiters@[i]).1
                == released.wakers@[i],
        after.shutdown_waiters@.len() == 0,
        released.registrations@.len() == driver.retired_buffer_registrations@.len() + if driver.buffer_registration is Some {
            1int
        } else {
            0
        },
        forall|i: int|
            0 <= i < driver.retired_buffer_registrations@.len() ==> released.registrations@[i]
                == #[trigger] driver.retired_buffer_registrations@[i],
        driver.buffer_registration matches Some(current) ==> released.registrations@.last()
            == current,
        after.buffer_registration is None,
        after.file_registration is None,
        !after.registration_in_flight,
        after.driver_waker is None,
        after.torn_down,
{
}

/// Shutdown goes one way: from running over graceful to immediate.
pub proof fn law_shutdown_modes_are_ordered(mode: ShutdownMode)
    ensures
        mode.spec_max(ShutdownMode::Running) == mode,
        ShutdownMode::Running.spec_max(mode) == mode,
        ShutdownMode::Graceful.spec_max(mode) == if mode == ShutdownMode::Immediate {
            ShutdownMode::Immediate
        } else {
            ShutdownMode::Graceful
        },
        ShutdownMode::Immediate.spec_max(mode) == ShutdownMode::Immediate,
        ShutdownMode::Running.rank() < ShutdownMode::Graceful.rank(),
        ShutdownMode::Graceful.rank() < ShutdownMode::Immediate.rank(),
{
}

} // verus!
