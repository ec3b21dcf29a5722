//! What holds of waiting, across polls: for the driver's next pass, for its end, and
//! for an operation's result.

use crate::driver::{Carried, Delivery, DriverInner, Resource};
use crate::error::Error;
use crate::event::{ArmedState, EventWaitFuture, Waited};
use crate::future::{BufOpState, OpFuture, Resolution, ResultSlot};
use crate::io_ring::{ReadFut, ReadFutState, ReadPoll};
use crate::join::Received;
use crate::oneshot::{Channel, ChannelState, RecvError, SendError};
use crate::park::Parked;
use vstd::prelude::*;

verus! {

/// No wakeup is lost between the check and the park. A poll that finds work resolves;
/// one that does not leaves behind the waker that the next nudge takes, and the one
/// that the next signal takes.
pub proof fn law_no_wakeup_is_lost<B, F, S, W>(
    driver: DriverInner<B, F, S, W>,
    armed: ArmedState<W>,
    waker: W,
    other: W,
    driver_after: DriverInner<B, F, S, W>,
    armed_after: ArmedState<W>,
    parked: Parked<W>,
)
    requires
        crate::park::park_polled(driver, armed, waker, other, driver_after, armed_after, parked),
    ensures
        driver.nudged || armed.signalled ==> parked.ready,
        !parked.ready ==> driver_after.driver_waker == Some(waker) && armed_after.waker == Some(
            other,
        ),
{
}

/// The wakers are held only while the driver is parked: a poll that resolves leaves
/// none behind.
pub proof fn law_a_resolved_park_leaves_no_waker<B, F, S, W>(
    driver: DriverInner<B, F, S, W>,
    armed: ArmedState<W>,
    waker: W,
    other: W,
    driver_after: DriverInner<B, F, S, W>,
    armed_after: ArmedState<W>,
    parked: Parked<W>,
)
    requires
        crate::park::park_polled(driver, armed, waker, other, driver_after, armed_after, parked),
        parked.ready,
    ensures
        driver_after.driver_waker is None,
        armed_after.waker is None,
{
}

/// However many nudges precede a pass, they bring about one: the poll that consumes
/// them leaves none, and with no signal outstanding the next poll parks. A signal
/// outstanding beside them is not consumed with them.
pub proof fn law_nudges_collapse<B, F, S, W>(
    driver: DriverInner<B, F, S, W>,
    armed: ArmedState<W>,
    waker: W,
    other: W,
    driver_after: DriverInner<B, F, S, W>,
    armed_after: ArmedState<W>,
    parked: Parked<W>,
    next_driver: DriverInner<B, F, S, W>,
    next_armed: ArmedState<W>,
    next: Parked<W>,
)
    requires
        crate::park::park_polled(driver, armed, waker, other, driver_after, armed_after, parked),
        driver.nudged,
        crate::park::park_polled(
            driver_after,
            armed_after,
            waker,
            other,
            next_driver,
            next_armed,
            next,
        ),
    ensures
        parked.ready,
        next.ready == armed.signalled,
{
}

/// Whoever polls last is woken: a later poll's waker takes the place of an earlier
/// one's, which is handed out for dropping.
pub proof fn law_the_task_driving_now_is_woken<B, F, S, W>(
    driver: DriverInner<B, F, S, W>,
    armed: ArmedState<W>,
    waker: W,
    other: W,
    driver_after: DriverInner<B, F, S, W>,
    armed_after: ArmedState<W>,
    parked: Parked<W>,
)
    requires
        crate::park::park_polled(driver, armed, waker, other, driver_after, armed_after, parked),
        !parked.ready,
    ensures
        driver_after.driver_waker == Some(waker),
        driver.driver_waker matches Some(earlier) ==> parked.evicted@ == seq![earlier],
        driver.driver_waker is None ==> parked.evicted@.len() == 0,
{
}

/// A future that awaits the end of teardown has one waker recorded, the latest, no
/// matter how often it is polled; every other waiter keeps its own.
pub proof fn law_waiters_do_not_accumulate<W>(
    waiters: Seq<(u64, W)>,
    next: u64,
    id: u64,
    first: W,
    second: W,
    other: (u64, W),
)
    requires
        crate::driver::waiters_wf(waiters, next),
    ensures
        other.0 != id ==> (crate::park::waiting(waiters, id, first).contains(other)
            <==> waiters.contains(other)),
        ({
            let once = crate::park::waiting(waiters, id, first);
            let twice = crate::park::waiting(once, id, second);
            &&& once.contains((id, first))
            &&& twice.contains((id, second))
            &&& first != second ==> !twice.contains((id, first))
            &&& once.len() <= waiters.len() + 1
            &&& twice.len() == once.len()
            &&& twice == crate::park::waiting(waiters, id, second)
        }),
{
    let once = crate::park::waiting(waiters, id, first);
    let k = crate::park::waiter_at(waiters, id, 0);
    crate::park::lemma_waiter_at(waiters, id, 0);
    crate::park::lemma_waiter_at(once, id, 0);
    assert(once[k].0 == id);
    let j = crate::park::waiter_at(once, id, 0);
    if j < k {
        assert(once[j] == waiters[j]);
    }
    assert(j == k);
    let twice = crate::park::waiting(once, id, second);
    assert(once[k] == (id, first));
    assert(twice[k] == (id, second));
    if first != second && twice.contains((id, first)) {
        let i = twice.index_of((id, first));
        assert(i != k);
        assert(once[i] == twice[i]);
        assert(once[i] == waiters[i]);
        assert(waiters[i].0 == id && waiters[k].0 == id);
    }
    if waiters.contains(other) && other.0 != id {
        let i = waiters.index_of(other);
        assert(once[i] == other);
    }
    if once.contains(other) && other.0 != id {
        let i = once.index_of(other);
        assert(waiters[i] == other);
    }
    assert(crate::park::waiting(once, id, second) =~= crate::park::waiting(waiters, id, second));
}

/// A future that stops waiting for the end of teardown leaves no waker behind, and
/// takes no other's with it.
pub proof fn law_an_abandoned_wait_leaves_no_waker<W>(
    waiters: Seq<(u64, W)>,
    id: u64,
    other: (u64, W),
)
    requires
        other.0 != id,
    ensures
        forall|k: int|
            0 <= k < crate::park::not_waiting(waiters, id).len() ==> (
            #[trigger] crate::park::not_waiting(waiters, id)[k]).0 != id,
        crate::park::not_waiting(waiters, id).contains(other) <==> waiters.contains(other),
    decreases waiters.len(),
{
    if waiters.len() > 0 {
        let shorter = waiters.drop_last();
        let kept = crate::park::not_waiting(shorter, id);
        let all = crate::park::not_waiting(waiters, id);
        law_an_abandoned_wait_leaves_no_waker(shorter, id, other);
        assert forall|k: int| 0 <= k < all.len() implies (#[trigger] all[k]).0 != id by {
            if k < kept.len() {
                assert(all[k] == kept[k]);
            }
        }
        if waiters.contains(other) {
            let i = waiters.index_of(other);
            if i < shorter.len() {
                assert(shorter[i] == other);
                let j = kept.index_of(other);
                assert(all[j] == other);
            } else {
                assert(all[kept.len() as int] == other);
            }
        }
        if all.contains(other) {
            let j = all.index_of(other);
            if j < kept.len() {
                assert(kept[j] == other);
                let i = shorter.index_of(other);
                assert(waiters[i] == other);
            } else {
                assert(waiters[waiters.len() - 1] == other);
            }
        }
    }
}

/// A result that was left in a slot is what the next poll collects, as it was left;
/// it is collected once.
pub proof fn law_a_result_is_collected_once<B, F, S, W>(
    slot: ResultSlot<B, F, W>,
    delivery: Delivery<B, F, S>,
    future: OpFuture,
    waker: W,
    future_after: OpFuture,
    slot_after: ResultSlot<B, F, W>,
    collected: Option<Resolution<B, F>>,
    future_end: OpFuture,
    slot_end: ResultSlot<B, F, W>,
    again: Option<Resolution<B, F>>,
)
    requires
        future.polled(slot.resolved(delivery), waker, future_after, slot_after, collected),
        future_after.polled(slot_after, waker, future_end, slot_end, again),
    ensures
        collected == Some(Resolution { result: delivery.result, resource: delivery.resource }),
        future_after.finished,
        again is None,
{
}

/// The task that polled last is the one woken when the result arrives, and a poll
/// before that collects nothing.
pub proof fn law_the_last_poller_is_woken<B, F, W>(
    slot: ResultSlot<B, F, W>,
    future: OpFuture,
    first: W,
    second: W,
    between: OpFuture,
    slot_between: ResultSlot<B, F, W>,
    after: OpFuture,
    slot_after: ResultSlot<B, F, W>,
    one: Option<Resolution<B, F>>,
    two: Option<Resolution<B, F>>,
)
    requires
        slot.completed is None,
        future.polled(slot, first, between, slot_between, one),
        between.polled(slot_between, second, after, slot_after, two),
    ensures
        one is None,
        two is None,
        slot_after.waker == Some(second),
        after == future,
{
}

/// A signal is sticky: one raised while nobody polls is seen by the next poll, and
/// by that poll only.
pub proof fn law_a_signal_is_seen_once<W>(armed: ArmedState<W>, waker: W)
    ensures
        armed.signalled_by_callback().polled_by(waker) == (true, ArmedState::<W> {
            signalled: false,
            waker: None,
        }),
        (ArmedState::<W> { signalled: false, waker: None }).polled_by(waker) == (
            false,
            ArmedState { signalled: false, waker: Some(waker) },
        ),
{
}

/// What a dropped future gives up is all it held: the operation to detach, exactly while
/// its result has not come, and the registered handle that came with the result, or that
/// never left.
pub proof fn law_a_dropped_future_gives_up_what_it_held<B, F, W>(
    state: BufOpState<B>,
    slot: ResultSlot<B, F, W>,
)
    ensures
        state matches BufOpState::Waiting(op) ==> {
            &&& state.left(slot).0 is Some <==> !op.finished && slot.completed is None
            &&& state.left(slot).0 matches Some(token) ==> token == op.token
            &&& slot.completed is None ==> state.left(slot).1 is None
            &&& slot.completed matches Some(resolution) ==> match resolution.resource {
                Some(Resource::Buffer(Carried::Registered(handle))) => state.left(slot).1 == Some(
                    handle,
                ),
                _ => state.left(slot).1 is None,
            }
        },
        state matches BufOpState::Failed(_, buffer) ==> {
            &&& state.left(slot).0 is None
            &&& match buffer {
                Carried::Registered(handle) => state.left(slot).1 == Some(handle),
                Carried::Owned(_) => state.left(slot).1 is None,
            }
        },
        state is Done ==> state.left(slot).0 is None && state.left(slot).1 is None,
{
}

/// A read that succeeds leaves a registered buffer with as many initialized bytes as it
/// read, within the extent, and otherwise as it was; one that fails, or that was into a
/// buffer of the caller's own, leaves the buffer as it was.
pub proof fn law_a_read_counts_what_it_read<B>(result: Result<u32, Error>, buffer: Carried<B>)
    ensures
        result is Err ==> crate::future::read_into(result, buffer) == buffer,
        buffer is Owned ==> crate::future::read_into(result, buffer) == buffer,
        result matches Ok(transferred) ==> (buffer matches Carried::Registered(handle) ==> {
            &&& crate::future::read_into(result, buffer) matches Carried::Registered(back)
            &&& back.registry == handle.registry
            &&& back.index == handle.index
            &&& back.extent == handle.extent
            &&& back.buffer == handle.buffer
            &&& transferred <= handle.extent ==> back.initialized == transferred
            &&& transferred > handle.extent ==> back.initialized == handle.extent
        }),
{
}

/// A registration's caller gets the collection it made, or its resources with the error
/// that kept them from being registered.
pub proof fn law_a_registration_answers_with_its_outcome<B, F>(resolution: Resolution<B, F>)
    ensures
        resolution.result is Ok <==> crate::future::registration_outcome(resolution) is Ok,
        resolution.result is Ok ==> match resolution.resource {
            Some(Resource::Collection(collection)) => crate::future::registration_outcome(
                resolution,
            )->Ok_0 == Some(collection),
            _ => crate::future::registration_outcome(resolution)->Ok_0 is None,
        },
        resolution.result matches Err(error) ==> {
            let (told, back) = crate::future::registration_outcome(resolution)->Err_0;
            &&& told == error
            &&& match resolution.resource {
                Some(Resource::Unregistered(pending)) => back == Some(pending),
                _ => back is None,
            }
        },
{
}

/// A poll of the park touches nothing of the driver but the nudge and its waker, and evicts
/// the waker that was there, if one was.
pub proof fn law_a_park_touches_nothing_else<B, F, S, W>(
    driver: DriverInner<B, F, S, W>,
    armed: ArmedState<W>,
    waker: W,
    other: W,
    driver_after: DriverInner<B, F, S, W>,
    armed_after: ArmedState<W>,
    parked: Parked<W>,
)
    requires
        crate::park::park_polled(driver, armed, waker, other, driver_after, armed_after, parked),
    ensures
        driver_after == (DriverInner {
            nudged: driver_after.nudged,
            driver_waker: driver_after.driver_waker,
            ..driver
        }),
        !driver_after.nudged,
        parked.ready ==> driver.nudged || armed.signalled,
        driver.nudged ==> armed_after.signalled == armed.signalled,
        !driver.nudged ==> !armed_after.signalled,
        driver.driver_waker matches Some(earlier) ==> parked.evicted@.len() > 0
            && parked.evicted@[0] == earlier,
        !driver.nudged && armed.signalled ==> parked.evicted@.len() > 0 && parked.evicted@.last()
            == waker,
        driver.nudged && driver.driver_waker is None ==> parked.evicted@.len() == 0,
{
}

/// A wait for one signal ends when its callback has sent, or is gone without having sent,
/// which is told apart; and then its registration, and no other, is given up.
pub proof fn law_a_wait_ends_with_its_callback<H>(
    wait: EventWaitFuture<H>,
    received: Received<()>,
    after: EventWaitFuture<H>,
    waited: Waited<H>,
)
    requires
        wait.state is Waiting,
        wait.receives(received, after, waited),
    ensures
        received is Pending <==> waited is Pending,
        received is Value <==> waited is Signalled,
        received is Canceled <==> waited is Lost,
        waited matches Waited::Signalled(handle) ==> handle == wait.state->wait_handle
            && after.state is Completed,
        waited matches Waited::Lost(handle) ==> handle == wait.state->wait_handle
            && after.state is Completed,
        waited is Pending ==> after == wait,
{
}

/// A read awaited through a channel gives back the very buffer that was sent, succeeds
/// exactly when the code that came with it is not negative, and tells the code otherwise.
pub proof fn law_a_channelled_read_gives_its_buffer_back(
    read: ReadFut,
    received: Received<(Vec<u8>, i32)>,
    after: ReadFut,
    polled: ReadPoll,
)
    requires
        read.receives(received, after, polled),
    ensures
        received is Pending <==> polled is Pending,
        received is Canceled <==> polled is DriverClosed,
        received matches Received::Value((buffer, code)) ==> {
            &&& polled matches ReadPoll::Ready((result, back))
            &&& back == buffer
            &&& result is Ok <==> code >= 0
            &&& result matches Err(error) ==> error.code == code
            &&& after.state == ReadFutState::Completed
        },
        !(received is Value) ==> after.state == ReadFutState::SubmitSignalled,
        after.rx == read.rx,
{
}

/// A receiver that waits is woken by the sending: the waker it left last is there when the
/// value is sent, and the sender is told so.
pub proof fn law_a_waiting_receiver_is_woken<T, W>(
    channel: Channel<T, W>,
    waker: W,
    between: Channel<T, W>,
    received: Option<Result<T, RecvError>>,
    value: T,
    after: Channel<T, W>,
    answer: Result<bool, SendError<T>>,
)
    requires
        channel.state is Empty,
        channel.polled(waker, between, received),
        between.sent(value, after, answer),
    ensures
        received is None,
        answer == Ok::<bool, SendError<T>>(true),
        after.waker == Some(waker),
        after.state == ChannelState::Data(value),
{
}

} // verus!
