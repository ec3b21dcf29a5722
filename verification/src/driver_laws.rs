//! What holds of the driver as a whole, across events.

use crate::driver::{
    CancelRequest, CancelTarget, Carried, Completion, Delivery, DriverInner, OpPayload, Resource,
    ShutdownMode,
};
use crate::error::Error;
use crate::future::{BufOpState, OpFuture, RegisteredOpFuture, ResultSlot};
use crate::handle::{Dropped, FileTarget};
use crate::pass::{Action, Pass, Stage, Sweep};
use crate::registry::{RegisteredBuf, RegisteredBuffers};
use crate::sequential::Guarded;
use crate::slab::{Group, Lifecycle, Observer, SlabView};
use crate::teardown::{Released, StepOutcome};
use crate::token::{Token, TokenKind};
use std::rc::Rc;
use vstd::prelude::*;

verus! {

/// Whether the operation that `token` names goes on: it is still there, with what it
/// carries, and no further from the kernel than before.
pub open spec fn goes_on<P>(before: SlabView<P>, after: SlabView<P>, token: Token) -> bool {
    before.operation(token) matches Some(op) && (after.operation(token) matches Some(next)
        && next.payload == op.payload && op.lifecycle.rank() <= next.lifecycle.rank())
}

/// A driver turns into what it turns into in any number of events.
pub proof fn law_history_composes<B, F, S, W>(
    a: DriverInner<B, F, S, W>,
    b: DriverInner<B, F, S, W>,
    c: DriverInner<B, F, S, W>,
)
    requires
        a.leads_to(b),
        b.leads_to(c),
    ensures
        a.leads_to(c),
        a.leads_to(a),
{
    crate::slab_laws::law_evolution_composes(a.slab@, b.slab@, c.slab@);
    crate::driver::lemma_still_kept(a.slab@, b.slab@, c.slab@);
}

/// What an operation was started with comes back with its own completion, whatever
/// happened in between, and to whoever was to be told: an ordinary operation's buffer
/// as it was lent, a registered one with its initialized prefix brought up to date,
/// and the resources of a registration that failed. With it comes the completion's own
/// count of bytes, if the operation succeeded.
pub proof fn law_what_was_lent_comes_back<B, F, S, W>(
    driver: DriverInner<B, F, S, W>,
    later: DriverInner<B, F, S, W>,
    completion: Completion,
    after: DriverInner<B, F, S, W>,
    delivery: Option<Delivery<B, F, S>>,
)
    requires
        driver.leads_to(later),
        Token(completion.user_data).spec_kind() == TokenKind::Operation,
        driver.slab@.operation(Token(completion.user_data)) is Some,
        later.slab@.operation(Token(completion.user_data)) is Some,
        later.reaped(completion, after, delivery),
    ensures
        ({
            let lent = driver.slab@.operation(Token(completion.user_data))->0.payload;
            let observer = later.slab@.operation(Token(completion.user_data))->0.observer;
            &&& delivery matches Some(delivery)
            &&& delivery.slot == lent.slot
            &&& completion.ends_as(delivery.result)
            &&& delivery.result is Ok <==> completion.code >= 0
            &&& completion.code >= 0 && completion.information <= u32::MAX ==> (
            delivery.result matches Ok(n) && n as int == completion.information as int)
            &&& lent.pending_registration is None ==> match lent.buffer {
                Some(Carried::Registered(handle)) => observer == Observer::Live
                    ==> delivery.resource == Some(
                    Resource::<B, F>::Buffer(
                        Carried::Registered(
                            later.handed_back(lent, handle, delivery.result),
                        ),
                    ),
                ),
                Some(buffer) => delivery.resource == Some(Resource::<B, F>::Buffer(buffer)),
                None => delivery.resource is None,
            }
            &&& lent.pending_registration matches Some(pending) ==> (delivery.result is Err
                ==> delivery.resource == Some(Resource::Unregistered(pending)))
        }),
{
    let index = Token(completion.user_data).spec_index();
    assert(driver.slab@.slots[index].generation == later.slab@.slots[index].generation);
}

/// Whatever happens, shutdown never relaxes, a finished teardown stays finished, and
/// the submission counts never decrease.
pub proof fn law_nothing_is_taken_back<B, F, S, W>(
    driver: DriverInner<B, F, S, W>,
    later: DriverInner<B, F, S, W>,
)
    requires
        driver.leads_to(later),
    ensures
        driver.shutdown != ShutdownMode::Running ==> later.shutdown != ShutdownMode::Running,
        driver.shutdown == ShutdownMode::Immediate ==> later.shutdown == ShutdownMode::Immediate,
        driver.torn_down ==> later.torn_down,
        driver.submissions <= later.submissions,
        driver.submitted_entries <= later.submitted_entries,
{
}

/// Whatever happens, an operation that is over is never live again: a completion that
/// arrives for it later is ignored.
pub proof fn law_late_completions_are_ignored<B, F, S, W>(
    driver: DriverInner<B, F, S, W>,
    later: DriverInner<B, F, S, W>,
    completion: Completion,
    after: DriverInner<B, F, S, W>,
    delivery: Option<Delivery<B, F, S>>,
)
    requires
        driver.leads_to(later),
        Token(completion.user_data).spec_kind() == TokenKind::Operation,
        crate::slab_laws::is_over(driver.slab@, Token(completion.user_data)),
        later.reaped(completion, after, delivery),
    ensures
        delivery is None,
        after == later,
{
    crate::slab_laws::law_stale_tokens_stay_stale(
        driver.slab@,
        later.slab@,
        Token(completion.user_data),
    );
}

/// Starting an operation parks what it carries under a token of its own and disturbs
/// no other operation.
pub proof fn law_starting_disturbs_no_other<B, F, S, W>(
    driver: DriverInner<B, F, S, W>,
    payload: OpPayload<B, F, S>,
    after: DriverInner<B, F, S, W>,
    other: Token,
)
    requires
        driver.wf(),
        !driver.slab@.is_full(),
        driver.parked(payload, after),
        driver.slab@.operation(other) is Some,
    ensures
        driver.slab@.operation(driver.slab@.next_token()) is None,
        after.slab@.operation(driver.slab@.next_token()) matches Some(op) && *op.payload == payload
            && op.lifecycle == Lifecycle::Described && op.observer == Observer::Live,
        after.slab@.operation(other) == driver.slab@.operation(other),
{
    driver.slab.lemma_wf();
    crate::slab_laws::law_issued_tokens_are_fresh(driver.slab@, Box::new(payload), other);
}

/// A submission ends no operation, whether it succeeds or fails. On success what was
/// queued is the kernel's. A failure changes no operation at all, delivers nothing,
/// and leaves the submission owed: it is not the failure of any operation.
pub proof fn law_a_submission_ends_no_operation<B, F, S, W>(
    pass: Pass<B, F, S>,
    driver: DriverInner<B, F, S, W>,
    result: Result<u32, Error>,
    after: Pass<B, F, S>,
    driver_after: DriverInner<B, F, S, W>,
    token: Token,
)
    requires
        driver.wf(),
        pass.submit_noted(driver, result, after, driver_after),
        driver.slab@.operation(token) is Some,
    ensures
        goes_on(driver.slab@, driver_after.slab@, token),
        after.deliveries == pass.deliveries,
        result is Err ==> driver_after.slab == driver.slab && driver_after.pending_submit
            == driver.pending_submit && driver_after.deferred_cancels == driver.deferred_cancels,
        !(pass.stage is Waiting) && result is Ok && driver.slab@.operation(token)->0.lifecycle
            == Lifecycle::Built ==> driver_after.slab@.operation(token)->0.lifecycle
            == Lifecycle::Submitted,
{
    if !(pass.stage is Waiting) && result is Ok {
        let index = token.spec_index();
        assert(driver.slab@.promoted().slots[index] == driver.slab@.slots[index].promoted());
    }
}

/// Asking for a cancellation ends no operation, neither the one it is for nor any
/// other: a buffer is never released by it.
pub proof fn law_cancelling_ends_no_operation<B, F, S, W>(
    driver: DriverInner<B, F, S, W>,
    token: Token,
    after: DriverInner<B, F, S, W>,
    request: Option<CancelRequest<F>>,
    other: Token,
)
    requires
        driver.wf(),
        driver.cancel_requested(token, after, request),
        driver.slab@.operation(other) is Some,
    ensures
        goes_on(driver.slab@, after.slab@, other),
{
}

/// A cancellation that was asked for before the kernel had the operation can be
/// issued once the operation is promoted; so can that of a queued operation whose
/// future was dropped, which is then among those the driver cancels.
pub proof fn law_promotion_makes_cancelling_possible<B, F, S, W>(
    driver: DriverInner<B, F, S, W>,
    after: DriverInner<B, F, S, W>,
    token: Token,
)
    requires
        driver.wf(),
        !driver.torn_down,
        token.0 != 0,
        driver.slab@.can_cancel(token),
        driver.slab@.operation(token)->0.lifecycle == Lifecycle::Built,
        driver.slab@.operation(token)->0.payload.file is Some || driver.slab@.operation(
            token,
        )->0.payload.registered_file is Some,
        after.slab@ == driver.slab@.promoted(),
        after == (DriverInner { slab: after.slab, ..driver }),
    ensures
        !driver.can_issue_cancel(token),
        after.can_issue_cancel(token),
        driver.slab@.operation(token)->0.observer == Observer::Detached ==> crate::slab::tokens(
            after.slab@.slots,
            Group::Abandoned,
        ).contains(token),
{
    driver.slab.lemma_wf();
    let index = token.spec_index();
    let slab = driver.slab@;
    let promoted = slab.promoted();
    crate::token::law_token_is_its_fields(token);
    assert(promoted.slots[index] == slab.slots[index].promoted());
    assert(promoted.is_valid()) by {
        assert forall|i: int| 0 <= i < promoted.slots.len() implies crate::token::FIRST_GENERATION
            <= #[trigger] promoted.slots[i].generation <= crate::token::GENERATION_MASK by {
            assert(promoted.slots[i] == slab.slots[i].promoted());
        }
        assert forall|k: int| 0 <= k < promoted.free.len() implies 0
            <= #[trigger] promoted.free[k] < promoted.slots.len()
            && promoted.slots[promoted.free[k]].phase is Vacant by {
            assert(promoted.slots[promoted.free[k]] == slab.slots[slab.free[k]].promoted());
        }
        assert forall|i: int|
            0 <= i < promoted.slots.len() && #[trigger] promoted.slots[i].phase is Vacant implies promoted.free.contains(
        i) by {
            assert(promoted.slots[i] == slab.slots[i].promoted());
            assert(slab.slots[i].phase is Vacant);
        }
    }
    crate::slab_laws::law_listed_tokens_name_the_group(promoted, Group::Abandoned);
}

/// A request that could not be enqueued leaves no trace: the operation and the files
/// held open are as they were, so it can be made again.
pub proof fn law_a_refused_cancel_leaves_no_trace<B, F, S, W>(
    driver: DriverInner<B, F, S, W>,
    token: Token,
    between: DriverInner<B, F, S, W>,
    request: CancelRequest<F>,
    after: DriverInner<B, F, S, W>,
)
    requires
        driver.wf(),
        driver.cancel_issued(token, between, Some(request)),
        between.cancel_settled(token.spec_cancel(), false, after),
    ensures
        after.slab@ == driver.slab@,
        after.cancel_holds@ == driver.cancel_holds@,
        after.can_issue_cancel(token),
        after == (DriverInner { slab: after.slab, cancel_holds: after.cancel_holds, ..driver }),
{
    driver.slab.lemma_wf();
    crate::slab_laws::law_refused_requests_can_be_repeated(driver.slab@, token);
    crate::token::law_token_is_its_fields(token);
    crate::token::law_fields_round_trip(
        TokenKind::Cancel,
        token.spec_index(),
        token.spec_generation(),
    );
    let holds = driver.cancel_holds@;
    let cancel = token.spec_cancel();
    assert forall|k: int| 0 <= k < holds.len() implies (#[trigger] holds[k]).0 != cancel by {
        assert(driver.slab@.awaits_cancel(holds[k].0));
    }
    lemma_none_released(holds, cancel);
    match driver.cancel_target(token) {
        CancelTarget::Owned(file) => {
            assert(holds.push((cancel, file)).drop_last() =~= holds);
        },
        CancelTarget::Registered(_) => {},
    }
}

/// A cancellation that has no hold drops none.
proof fn lemma_none_released<F>(holds: Seq<(Token, Rc<F>)>, cancel: Token)
    requires
        forall|k: int| 0 <= k < holds.len() ==> (#[trigger] holds[k]).0 != cancel,
    ensures
        crate::driver::released(holds, cancel) == holds,
    decreases holds.len(),
{
    if holds.len() > 0 {
        let shorter = holds.drop_last();
        assert forall|k: int| 0 <= k < shorter.len() implies (#[trigger] shorter[k]).0 != cancel by {
            assert(holds[k] == shorter[k]);
        }
        lemma_none_released(shorter, cancel);
        assert(holds[holds.len() - 1].0 != cancel);
        assert(shorter.push(holds.last()) =~= holds);
    }
}

/// The file a cancellation names is held open until that cancellation reports: any
/// other completion, its target's included, leaves the hold in place, and its own
/// drops it.
pub proof fn law_a_cancel_holds_its_file_until_it_reports<B, F, S, W>(
    driver: DriverInner<B, F, S, W>,
    completion: Completion,
    after: DriverInner<B, F, S, W>,
    delivery: Option<Delivery<B, F, S>>,
    hold: (Token, Rc<F>),
)
    requires
        driver.wf(),
        driver.reaped(completion, after, delivery),
        driver.cancel_holds@.contains(hold),
    ensures
        Token(completion.user_data) != hold.0 ==> after.cancel_holds@.contains(hold),
        Token(completion.user_data) == hold.0 ==> forall|k: int|
            0 <= k < after.cancel_holds@.len() ==> (#[trigger] after.cancel_holds@[k]).0 != hold.0,
{
    let holds = driver.cancel_holds@;
    let i = holds.index_of(hold);
    assert(driver.slab@.awaits_cancel(holds[i].0));
    if Token(completion.user_data).spec_kind() == TokenKind::Cancel {
        lemma_others_stay(holds, Token(completion.user_data), hold);
    }
}

/// Dropping one cancellation's holds drops all of them, and nothing else.
proof fn lemma_others_stay<F>(holds: Seq<(Token, Rc<F>)>, cancel: Token, hold: (Token, Rc<F>))
    ensures
        forall|k: int|
            0 <= k < crate::driver::released(holds, cancel).len() ==> (
            #[trigger] crate::driver::released(holds, cancel)[k]).0 != cancel,
        holds.contains(hold) && hold.0 != cancel ==> crate::driver::released(
            holds,
            cancel,
        ).contains(hold),
    decreases holds.len(),
{
    if holds.len() > 0 {
        let shorter = holds.drop_last();
        let kept = crate::driver::released(shorter, cancel);
        let all = crate::driver::released(holds, cancel);
        lemma_others_stay(shorter, cancel, hold);
        assert forall|k: int| 0 <= k < all.len() implies (#[trigger] all[k]).0 != cancel by {
            if k < kept.len() {
                assert(all[k] == kept[k]);
            }
        }
        if holds.contains(hold) && hold.0 != cancel {
            let i = holds.index_of(hold);
            if i < shorter.len() {
                assert(shorter[i] == hold);
                let j = kept.index_of(hold);
                assert(all[j] == hold);
            } else {
                assert(all[kept.len() as int] == hold);
            }
        }
    }
}

/// Dropping a future frees nothing the platform may touch: every operation that has a
/// queue entry goes on, that of the dropped future included, and every other does too.
pub proof fn law_dropping_a_future_releases_no_queued_buffer<B, F, S, W>(
    driver: DriverInner<B, F, S, W>,
    token: Token,
    after: DriverInner<B, F, S, W>,
    dropped: Dropped<F, W>,
    other: Token,
)
    requires
        driver.wf(),
        token.spec_kind() == TokenKind::Operation,
        other.spec_kind() == TokenKind::Operation,
        driver.future_gone(token, after, dropped),
        driver.slab@.operation(other) matches Some(op) && (op.lifecycle != Lifecycle::Described
            || other != token),
    ensures
        goes_on(driver.slab@, after.slab@, other),
{
    crate::token::law_token_is_its_fields(token);
    crate::token::law_token_is_its_fields(other);
}

/// An operation that was never built is given up with its future, at once.
pub proof fn law_dropping_an_unbuilt_operation_ends_it<B, F, S, W>(
    driver: DriverInner<B, F, S, W>,
    token: Token,
    after: DriverInner<B, F, S, W>,
    dropped: Dropped<F, W>,
)
    requires
        driver.wf(),
        driver.future_gone(token, after, dropped),
        driver.slab@.operation(token) matches Some(op) && op.lifecycle == Lifecycle::Described,
    ensures
        crate::slab_laws::is_over(after.slab@, token),
        dropped.request is None,
{
    driver.slab.lemma_wf();
    crate::token::law_token_is_its_fields(token);
}

/// Only an operation's own completion ends it: whatever else completes, a
/// cancellation of it included, it keeps what it carries, its progress and its
/// future.
pub proof fn law_only_its_own_completion_ends_an_operation<B, F, S, W>(
    driver: DriverInner<B, F, S, W>,
    completion: Completion,
    after: DriverInner<B, F, S, W>,
    delivery: Option<Delivery<B, F, S>>,
    token: Token,
)
    requires
        driver.wf(),
        driver.reaped(completion, after, delivery),
        token.spec_kind() == TokenKind::Operation,
        token.0 != completion.user_data,
        driver.slab@.operation(token) is Some,
    ensures
        after.slab@.operation(token) matches Some(op) && op.payload == driver.slab@.operation(
            token,
        )->0.payload && op.lifecycle == driver.slab@.operation(token)->0.lifecycle && op.observer
            == driver.slab@.operation(token)->0.observer,
{
    driver.slab.lemma_wf();
    crate::token::law_token_is_its_fields(token);
    crate::token::law_token_is_its_fields(Token(completion.user_data));
}

/// A completion delivers its operation's result once: seen again, it is ignored.
pub proof fn law_a_completion_delivers_once<B, F, S, W>(
    driver: DriverInner<B, F, S, W>,
    completion: Completion,
    between: DriverInner<B, F, S, W>,
    delivery: Option<Delivery<B, F, S>>,
    after: DriverInner<B, F, S, W>,
    again: Option<Delivery<B, F, S>>,
)
    requires
        driver.wf(),
        Token(completion.user_data).spec_kind() == TokenKind::Operation,
        driver.reaped(completion, between, delivery),
        between.reaped(completion, after, again),
    ensures
        again is None,
        after == between,
{
    let token = Token(completion.user_data);
    driver.slab.lemma_wf();
    if driver.slab@.operation(token) is Some {
        crate::slab_laws::law_completion_is_final(driver.slab@, token);
    }
}

/// A drain step resolves what was never queued and nothing else: an operation with a
/// queue entry is left exactly as it is.
pub proof fn law_a_drain_resolves_only_the_unqueued<P>(slab: SlabView<P>, token: Token)
    requires
        slab.is_valid(),
        slab.operation(token) matches Some(op) && op.lifecycle != Lifecycle::Described,
    ensures
        crate::driver::completed_all(
            slab,
            crate::slab::tokens(slab.slots, Group::Described),
        ).operation(token) == slab.operation(token),
{
    let done = crate::slab::tokens(slab.slots, Group::Described);
    crate::slab_laws::law_listed_tokens_name_the_group(slab, Group::Described);
    assert forall|k: int| 0 <= k < done.len() implies (#[trigger] done[k]).spec_index()
        != token.spec_index() by {
        assert(slab.operation(done[k]) is Some);
    }
    lemma_untouched(slab, done, token);
}

/// Completing operations in other slots leaves a slot as it is.
pub proof fn lemma_untouched<P>(slab: SlabView<P>, done: Seq<Token>, token: Token)
    requires
        slab.names(token),
        forall|k: int|
            0 <= k < done.len() ==> (#[trigger] done[k]).spec_index() != token.spec_index(),
    ensures
        crate::driver::completed_all(slab, done).slots.len() == slab.slots.len(),
        crate::driver::completed_all(slab, done).slots[token.spec_index()]
            == slab.slots[token.spec_index()],
    decreases done.len(),
{
    if done.len() > 0 {
        let shorter = done.drop_last();
        assert forall|k: int| 0 <= k < shorter.len() implies (#[trigger] shorter[k]).spec_index()
            != token.spec_index() by {
            assert(done[k] == shorter[k]);
        }
        lemma_untouched(slab, shorter, token);
        assert(done[done.len() - 1].spec_index() != token.spec_index());
    }
}

/// Abandoning a queue entry is sound: a drain gives up on what is left only when the
/// kernel holds none of it.
pub proof fn law_residue_never_reached_the_kernel<B, F, S, W>(
    driver: DriverInner<B, F, S, W>,
    index: int,
)
    requires
        driver.spec_drain_outcome() == StepOutcome::UnsubmittableResidue,
        0 <= index < driver.slab@.slots.len(),
    ensures
        !driver.slab@.slots[index].phase.is_in(Group::AwaitingKernel),
        driver.submit_failures >= crate::teardown::RESIDUE_ATTEMPTS,
{
    crate::slab_laws::law_empty_group(driver.slab@, Group::AwaitingKernel);
}

/// A drain is over only when nothing is outstanding: no operation is left, and no
/// cancellation either.
pub proof fn law_a_finished_drain_leaves_nothing_outstanding<B, F, S, W>(
    driver: DriverInner<B, F, S, W>,
    index: int,
)
    requires
        driver.spec_drain_outcome() == StepOutcome::Quiescent,
        0 <= index < driver.slab@.slots.len(),
    ensures
        !(driver.slab@.slots[index].phase is Occupied),
        !(driver.slab@.slots[index].phase is Tombstone),
{
    crate::slab_laws::law_empty_group(driver.slab@, Group::Outstanding);
}

/// The drain waits only with every queue entry accepted, and never with nothing
/// outstanding.
pub proof fn law_a_drain_waits_only_for_the_kernel<B, F, S, W>(
    driver: DriverInner<B, F, S, W>,
    index: int,
)
    requires
        driver.spec_drain_wait() is Some,
        0 <= index < driver.slab@.slots.len(),
    ensures
        !driver.slab@.slots[index].phase.is_in(Group::Built),
        driver.group_count(Group::Outstanding) > 0,
{
    crate::slab_laws::law_empty_group(driver.slab@, Group::Built);
}

/// A drain step of an immediate shutdown sets out to cancel everything the kernel
/// holds that was never cancelled; that of a graceful one cancels nothing of its own
/// accord.
pub proof fn law_an_immediate_drain_cancels_everything<B, F, S, W>(
    pass: Pass<B, F, S>,
    driver: DriverInner<B, F, S, W>,
    after: Pass<B, F, S>,
    driver_after: DriverInner<B, F, S, W>,
    action: Action<F>,
    token: Token,
)
    requires
        driver.wf(),
        pass.stage is CancelEverything,
        pass.advanced(driver, after, driver_after, action),
    ensures
        pass.draining && driver.shutdown == ShutdownMode::Immediate ==> (after.stage matches Stage::Cancel {
            sweep: Sweep::Everything,
            tokens,
            at: 0,
        } && (driver.slab@.can_cancel(token) && driver.slab@.operation(token)->0.lifecycle
            == Lifecycle::Submitted ==> tokens@.contains(token))),
        driver.shutdown != ShutdownMode::Immediate ==> after.stage is Wait && driver_after == driver,
{
    driver.slab.lemma_wf();
    crate::token::law_token_is_its_fields(token);
    crate::slab_laws::law_listed_tokens_name_the_group(driver.slab@, Group::Uncancelled);
    if driver.slab@.can_cancel(token) && driver.slab@.operation(token)->0.lifecycle
        == Lifecycle::Submitted {
        assert(driver.slab@.slots[token.spec_index()].phase.is_in(Group::Uncancelled));
    }
}

/// Teardown abandons nothing: every operation still there gets a result with what it
/// carried, one for each; every file held open, every registration and every waker is
/// let go; and nothing is left.
pub proof fn law_teardown_returns_everything<B, F, S, W>(
    driver: DriverInner<B, F, S, W>,
    after: DriverInner<B, F, S, W>,
    released: Released<B, F, S, W>,
    token: Token,
)
    requires
        driver.wf(),
        driver.closed(after, released),
    ensures
        released.deliveries@.len() == driver.group_count(Group::Live),
        driver.slab@.operation(token) matches Some(op) ==> released.deliveries@.contains(
            op.payload.abandoned(),
        ),
        after.slab@.operation(token) is None,
        after.cancel_holds@.len() == 0,
        after.registries().len() == 0,
        after.file_sets().len() == 0,
        released.registrations@.map_values(
            |registry: crate::registry::RegistryInner<B>| registry.id,
        ) == driver.registries(),
        released.wakers@.len() == driver.shutdown_waiters@.len(),
        after.torn_down,
{
    driver.slab.lemma_wf();
    crate::slab_laws::law_draining_releases_everything(driver.slab@);
    crate::slab_laws::law_empty_group(after.slab@, Group::Live);
    if driver.slab@.operation(token) is Some {
        let op = driver.slab@.operation(token)->0;
        lemma_payload_listed(driver.slab@.slots, token.spec_index());
        let all = crate::slab::payloads(driver.slab@.slots);
        let k = all.index_of(op.payload);
        assert(released.deliveries@[k] == op.payload.abandoned());
    }
    if after.slab@.operation(token) is Some {
        assert(after.slab@.slots[token.spec_index()].phase.is_in(Group::Live));
    }
    assert(released.registrations@.map_values(
        |registry: crate::registry::RegistryInner<B>| registry.id,
    ) =~= driver.registries());
}

/// A registered handle whose operation has reported finds its way back even if nobody
/// collects it: dropping the future gives up the handle that lies in its slot, and the
/// registration takes the buffer back.
pub proof fn law_an_uncollected_handle_goes_back<B, F, S, W>(
    driver: DriverInner<B, F, S, W>,
    completion: Completion,
    after: DriverInner<B, F, S, W>,
    delivery: Delivery<B, F, S>,
    slot: ResultSlot<B, F, W>,
    future: RegisteredOpFuture<B>,
    end: DriverInner<B, F, S, W>,
)
    requires
        driver.wf(),
        driver.reaped(completion, after, Some(delivery)),
        driver.slab@.operation(Token(completion.user_data)) matches Some(op) && op.observer
            == Observer::Live && (op.payload.buffer matches Some(Carried::Registered(handle))
            && driver.buffer_registration matches Some(current) && current.takes_back(handle)),
        future.state == BufOpState::<B>::Waiting(
            OpFuture { token: Token(completion.user_data), finished: false },
        ),
        future.state.left(slot.resolved(delivery)).1 matches Some(handle) ==> after.buffer_released(
            handle,
            end,
        ),
    ensures
        future.state.left(slot.resolved(delivery)).0 is None,
        future.state.left(slot.resolved(delivery)).1 matches Some(handle) && (
        end.buffer_registration matches Some(current) && current.slots@[handle.index as int].held
            == Some(handle.buffer) && current.slots@[handle.index as int].initialized
            == handle.initialized),
{
    driver.slab.lemma_wf();
    crate::token::law_token_is_its_fields(Token(completion.user_data));
    let op = driver.slab@.operation(Token(completion.user_data))->0;
    assert(op.payload.wf());
}

/// The guard an operation was started with stays with the operation whatever happens,
/// the drop of its future included, and leaves with the operation's own completion.
pub proof fn law_a_guard_leaves_with_its_operation<B, F, S, G, W>(
    driver: DriverInner<B, F, Guarded<S, G>, W>,
    later: DriverInner<B, F, Guarded<S, G>, W>,
    completion: Completion,
    after: DriverInner<B, F, Guarded<S, G>, W>,
    delivery: Option<Delivery<B, F, Guarded<S, G>>>,
)
    requires
        driver.leads_to(later),
        Token(completion.user_data).spec_kind() == TokenKind::Operation,
        driver.slab@.operation(Token(completion.user_data)) is Some,
        later.slab@.operation(Token(completion.user_data)) is Some,
        later.reaped(completion, after, delivery),
    ensures
        ({
            let token = Token(completion.user_data);
            let guard = driver.slab@.operation(token)->0.payload.slot.guard;
            &&& later.slab@.operation(token)->0.payload.slot.guard == guard
            &&& delivery matches Some(delivery)
            &&& delivery.slot.guard == guard
        }),
{
    let index = Token(completion.user_data).spec_index();
    assert(driver.slab@.slots[index].generation == later.slab@.slots[index].generation);
}

/// What an operation was started with comes back at teardown too, whatever happened in
/// between, if the operation is still there.
pub proof fn law_teardown_gives_back_what_was_lent<B, F, S, W>(
    driver: DriverInner<B, F, S, W>,
    later: DriverInner<B, F, S, W>,
    after: DriverInner<B, F, S, W>,
    released: Released<B, F, S, W>,
    token: Token,
)
    requires
        driver.leads_to(later),
        later.wf(),
        later.closed(after, released),
        driver.slab@.operation(token) is Some,
        later.slab@.operation(token) is Some,
    ensures
        released.deliveries@.contains(driver.slab@.operation(token)->0.payload.abandoned()),
{
    let index = token.spec_index();
    assert(driver.slab@.slots[index].generation == later.slab@.slots[index].generation);
    law_teardown_returns_everything(later, after, released, token);
}

/// A live slot's payload is among the payloads.
proof fn lemma_payload_listed<P>(slots: Seq<crate::slab::SlotView<P>>, index: int)
    requires
        0 <= index < slots.len(),
        slots[index].phase is Occupied,
    ensures
        crate::slab::payloads(slots).contains(slots[index].phase->Occupied_0.payload),
    decreases slots.len(),
{
    let shorter = crate::slab::payloads(slots.drop_last());
    let all = crate::slab::payloads(slots);
    let payload = slots[index].phase->Occupied_0.payload;
    if index < slots.len() - 1 {
        lemma_payload_listed(slots.drop_last(), index);
        let k = shorter.index_of(payload);
        assert(all[k] == payload);
    } else {
        assert(all[shorter.len() as int] == payload);
    }
}

/// A driver that is torn down has nothing more to give: a checkout is refused as if
/// by one that is gone, and asking for a cancellation does nothing.
pub proof fn law_a_torn_down_driver_refuses<B, F, S, W>(
    driver: DriverInner<B, F, S, W>,
    buffers: RegisteredBuffers,
    token: Token,
    after: DriverInner<B, F, S, W>,
    request: Option<CancelRequest<F>>,
)
    requires
        driver.torn_down,
        driver.cancel_requested(token, after, request),
    ensures
        buffers.checkout_refusal(driver) == Some(Error::ShuttingDown),
        request is None,
        after == driver,
{
}

/// Between calls, the flag that a buffer registration is in flight is set exactly
/// while an operation that registers buffers is there, and there is one at most.
pub proof fn law_one_buffer_registration_at_a_time<B, F, S, W>(
    driver: DriverInner<B, F, S, W>,
    one: Token,
    two: Token,
)
    requires
        driver.wf(),
        driver.building is None,
    ensures
        driver.registration_in_flight <==> crate::driver::registering(driver.slab@),
        driver.slab@.operation(one) matches Some(op) && op.payload.registers_buffers() ==> (
        driver.slab@.operation(two) matches Some(other) && other.payload.registers_buffers()
            ==> one.spec_operation() == two.spec_operation()),
{
    let slab = driver.slab@;
    if driver.registration_in_flight {
        let i = choose|i: int|
            0 <= i < slab.slots.len() && crate::driver::in_flight(#[trigger] slab.slots[i]);
        assert(crate::driver::registers(slab.slots[i]));
    }
    if crate::driver::registering(slab) {
        let i = choose|i: int|
            0 <= i < slab.slots.len() && crate::driver::registers(#[trigger] slab.slots[i]);
        assert(!slab.slots[i].phase.is_in(Group::Described));
        assert(crate::driver::in_flight(slab.slots[i]));
    }
    if slab.operation(one) is Some && slab.operation(one)->0.payload.registers_buffers()
        && slab.operation(two) is Some && slab.operation(two)->0.payload.registers_buffers() {
        assert(crate::driver::registers(slab.slots[one.spec_index()]));
        assert(crate::driver::registers(slab.slots[two.spec_index()]));
    }
}

/// A file registration completing while buffers are being registered leaves the flag
/// as it is.
pub proof fn law_file_registrations_leave_the_flag_alone<B, F, S, W>(
    driver: DriverInner<B, F, S, W>,
    completion: Completion,
    after: DriverInner<B, F, S, W>,
    delivery: Option<Delivery<B, F, S>>,
)
    requires
        driver.wf(),
        driver.reaped(completion, after, delivery),
        driver.slab@.operation(Token(completion.user_data)) matches Some(op)
            && !op.payload.registers_buffers(),
    ensures
        after.registration_in_flight == driver.registration_in_flight,
        after.buffer_registration is Some == driver.buffer_registration is Some,
        after.retired_buffer_registrations == driver.retired_buffer_registrations,
{
}

/// No handle outlives its registration's currency: nothing is checked out of a
/// superseded registration, and nothing of the current one while a new set is being
/// registered, when checking out is refused.
pub proof fn law_no_handle_is_left_behind<B, F, S, W>(
    driver: DriverInner<B, F, S, W>,
    handle: RegisteredBuf<B>,
    buffers: RegisteredBuffers,
    k: int,
)
    requires
        driver.wf(),
    ensures
        0 <= k < driver.retired_buffer_registrations@.len() ==> !(
        driver.retired_buffer_registrations@[k].takes_back(handle)),
        driver.registration_in_flight ==> (driver.buffer_registration matches Some(current)
            ==> !current.takes_back(handle)) && buffers.checkout_refusal(driver) is Some,
{
    if driver.registration_in_flight {
        let slab = driver.slab@;
        let i = choose|i: int|
            0 <= i < slab.slots.len() && crate::driver::in_flight(#[trigger] slab.slots[i]);
        assert(crate::driver::registers(slab.slots[i]));
        assert(crate::driver::registering(slab));
    }
}

/// A handle is accepted only where it came from: by the driver that registered its
/// buffer, and while that registration is the current one. No other registration of
/// that driver, retired ones included, goes by the same identity.
pub proof fn law_handles_are_accepted_only_where_they_came_from<B, F, S, W>(
    driver: DriverInner<B, F, S, W>,
    target: FileTarget<F>,
    buffer: RegisteredBuf<B>,
    offset: u32,
    len: u32,
    is_write: bool,
    supported: Result<(), Error>,
    k: int,
)
    requires
        driver.wf(),
        driver.registered_refusal(target, buffer, offset, len, is_write, supported) is None,
    ensures
        buffer.registry.driver == driver.driver_id,
        driver.buffer_registration matches Some(current) && current.id == buffer.registry,
        0 <= k < driver.retired_buffer_registrations@.len()
            ==> driver.retired_buffer_registrations@[k].id != buffer.registry,
{
    let ids = driver.registries();
    let n = driver.retired_buffer_registrations@.len() as int;
    assert(ids[n] == buffer.registry);
    if 0 <= k < n {
        assert(ids[k] == driver.retired_buffer_registrations@[k].id);
    }
}

/// Uninitialized memory is never handed to the kernel: a write that is accepted reads
/// nothing past the initialized prefix, and a read that is accepted stays within the
/// registered extent.
pub proof fn law_accepted_ranges_stay_in_bounds<B, F, S, W>(
    driver: DriverInner<B, F, S, W>,
    target: FileTarget<F>,
    buffer: RegisteredBuf<B>,
    offset: u32,
    len: u32,
    is_write: bool,
    supported: Result<(), Error>,
)
    requires
        driver.wf(),
        driver.registered_refusal(target, buffer, offset, len, is_write, supported) is None,
    ensures
        is_write ==> (driver.buffer_registration matches Some(current) && offset + len
            <= current.slots@[buffer.index as int].initialized),
        !is_write ==> (driver.buffer_registration matches Some(current) && offset + len
            <= current.slots@[buffer.index as int].extent),
{
}

/// How many of the first `failures` submission failures of a streak are reported.
pub open spec fn reports_of(failures: nat) -> nat
    decreases failures,
{
    if failures == 0 {
        0
    } else {
        reports_of((failures - 1) as nat) + if failures == 1 || failures % 64 == 0 {
            1nat
        } else {
            0nat
        }
    }
}

/// A persistently stuck queue does not flood the observer: of a streak of failures
/// the first is reported, and then one in sixty-four.
pub proof fn law_failures_are_reported_sparingly(failures: nat)
    ensures
        failures > 0 ==> reports_of(failures) == 1 + failures / 64,
        failures == 0 ==> reports_of(failures) == 0,
    decreases failures,
{
    if failures > 1 {
        law_failures_are_reported_sparingly((failures - 1) as nat);
    } else {
        assert(reports_of(0) == 0);
    }
}

/// The failures of a streak are counted one by one and never wrap, and a success ends
/// the streak.
pub proof fn law_a_streak_ends_with_success<B, F, S, W>(
    pass: Pass<B, F, S>,
    driver: DriverInner<B, F, S, W>,
    result: Result<u32, Error>,
    after: Pass<B, F, S>,
    driver_after: DriverInner<B, F, S, W>,
)
    requires
        !(pass.stage is Waiting),
        pass.submit_noted(driver, result, after, driver_after),
    ensures
        result is Ok ==> driver_after.submit_failures == 0,
        result is Err && driver.submit_failures < u32::MAX ==> driver_after.submit_failures
            == driver.submit_failures + 1,
        driver_after.deferred_reports@.len() - driver.deferred_reports@.len() == if result is Err {
            reports_of(crate::driver::one_more(driver.submit_failures) as nat) - reports_of(
                (crate::driver::one_more(driver.submit_failures) - 1) as nat,
            )
        } else {
            0
        },
{
}

/// Requests to shut down combine to the furthest of them, in whatever order they are
/// made and however often.
pub proof fn law_shutdown_requests_combine(a: ShutdownMode, b: ShutdownMode, c: ShutdownMode)
    ensures
        a.spec_max(a) == a,
        a.spec_max(b) == b.spec_max(a),
        a.spec_max(b).spec_max(c) == a.spec_max(b.spec_max(c)),
        a.rank() <= a.spec_max(b).rank(),
        a.spec_max(ShutdownMode::Immediate) == ShutdownMode::Immediate,
{
}

/// The tokens a driver hands out are never the user data zero, which a cancellation
/// would read as "everything on this handle".
pub proof fn law_no_operation_is_named_zero<B, F, S, W>(
    driver: DriverInner<B, F, S, W>,
    token: Token,
)
    requires
        driver.wf(),
        driver.slab@.operation(token) is Some,
    ensures
        token.0 != 0,
{
    driver.slab.lemma_wf();
    assert(driver.slab@.slots[token.spec_index()].generation >= crate::token::FIRST_GENERATION);
}

} // verus!
