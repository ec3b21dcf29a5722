//! What holds of the task runtime, across steps.

use crate::join::Received;
use crate::oneshot::RecvError;
use crate::rt::{JoinError, RunAction, RunStage, Runtime, Task, TaskId, WakerRegistry, WakerType};
use vstd::prelude::*;

verus! {

/// A task that waits and is woken becomes ready; one that waits and is not goes on
/// waiting. Waking a task that does not wait changes nothing, so waking one twice
/// does no more than waking it once.
pub proof fn law_woken_tasks_become_ready<F>(
    ready: Seq<Task<F>>,
    waiting: Map<TaskId, Task<F>>,
    woken: Seq<TaskId>,
    id: TaskId,
)
    requires
        waiting.contains_key(id),
    ensures
        ({
            let (now_ready, now_waiting) = crate::rt::awoken(ready, waiting, woken);
            if woken.contains(id) {
                &&& now_ready.contains(waiting[id])
                &&& !now_waiting.contains_key(id)
            } else {
                &&& now_waiting.contains_key(id)
                &&& now_waiting[id] == waiting[id]
            }
        }),
    decreases woken.len(),
{
    if woken.len() > 0 {
        let shorter = woken.drop_last();
        law_woken_tasks_become_ready(ready, waiting, shorter, id);
        let (r, w) = crate::rt::awoken(ready, waiting, shorter);
        let (now_ready, now_waiting) = crate::rt::awoken(ready, waiting, woken);
        if shorter.contains(id) {
            let k = shorter.index_of(id);
            assert(woken[k] == id);
            let j = r.index_of(waiting[id]);
            assert(now_ready[j] == waiting[id]);
        } else if woken.last() == id {
            assert(woken[woken.len() - 1] == id);
            assert(now_ready[r.len() as int] == waiting[id]);
        } else {
            assert forall|k: int| 0 <= k < woken.len() implies woken[k] != id by {
                if k < shorter.len() {
                    assert(shorter[k] == woken[k]);
                }
            }
        }
    }
}

/// Waking loses no task and makes none: as many wait or are ready as before, and
/// those that were ready stay so, in front.
pub proof fn law_waking_loses_no_task<F>(
    ready: Seq<Task<F>>,
    waiting: Map<TaskId, Task<F>>,
    woken: Seq<TaskId>,
)
    requires
        waiting.dom().finite(),
    ensures
        ({
            let (now_ready, now_waiting) = crate::rt::awoken(ready, waiting, woken);
            &&& now_waiting.dom().finite()
            &&& now_ready.len() + now_waiting.dom().len() == ready.len() + waiting.dom().len()
            &&& ready.is_prefix_of(now_ready)
        }),
    decreases woken.len(),
{
    if woken.len() > 0 {
        law_waking_loses_no_task(ready, waiting, woken.drop_last());
    }
}

/// A task is in one place only: it is ready, spawned or being polled once, and then
/// it does not wait.
pub proof fn law_a_task_is_in_one_place<F>(runtime: Runtime<F>, i: int, j: int)
    requires
        runtime.wf(),
        0 <= i < runtime.active().len(),
        0 <= j < runtime.active().len(),
    ensures
        runtime.active()[i] == runtime.active()[j] ==> i == j,
        !runtime.waiting_tasks@.contains_key(runtime.active()[i]),
{
}

/// No wakeup is lost by a step: once the ready tasks are through and the run goes on, every
/// task that waits and was woken, by either registry, is ready and waits no longer; every
/// other goes on waiting; and nothing that was ready is lost.
pub proof fn law_a_step_loses_no_wakeup<F>(
    runtime: Runtime<F>,
    registry: WakerRegistry,
    after: Runtime<F>,
    registry_after: WakerRegistry,
    action: RunAction<F>,
    id: TaskId,
)
    requires
        runtime.stage is Woken,
        runtime.stepped(registry, false, after, registry_after, action),
    ensures
        runtime.waiting_tasks@.contains_key(id) && (
        runtime.waker_registry.woken_tasks@.contains(id) || registry.woken_tasks@.contains(id)) ==> {
            &&& after.ready_queue@.contains(runtime.waiting_tasks@[id])
            &&& !after.waiting_tasks@.contains_key(id)
        },
        runtime.waiting_tasks@.contains_key(id) && !(
        runtime.waker_registry.woken_tasks@.contains(id) || registry.woken_tasks@.contains(id)) ==> {
            &&& after.waiting_tasks@.contains_key(id)
            &&& after.waiting_tasks@[id] == runtime.waiting_tasks@[id]
        },
        !runtime.waiting_tasks@.contains_key(id) ==> !after.waiting_tasks@.contains_key(id),
        runtime.ready_queue@.is_prefix_of(after.ready_queue@),
        after.waker_registry.woken_tasks@.len() == 0,
        registry_after.woken_tasks@.len() == 0,
        after.waker_registry.wakers == runtime.waker_registry.wakers,
        registry_after.wakers == registry.wakers,
        after.task_spawner == runtime.task_spawner,
        after.stage is Round,
        action is Yield <==> after.ready_queue@.len() == 0 && !after.waiting_tasks@.is_empty(),
        !(action is Yield) ==> action is Continue,
{
    let local = runtime.waker_registry.woken_tasks@;
    let remote = registry.woken_tasks@;
    let (ready, waiting) = crate::rt::awoken(
        runtime.ready_queue@,
        runtime.waiting_tasks@,
        local,
    );
    lemma_ready_stay_in_front(runtime.ready_queue@, runtime.waiting_tasks@, local);
    lemma_ready_stay_in_front(ready, waiting, remote);
    if runtime.waiting_tasks@.contains_key(id) {
        law_woken_tasks_become_ready(runtime.ready_queue@, runtime.waiting_tasks@, local, id);
        if waiting.contains_key(id) {
            law_woken_tasks_become_ready(ready, waiting, remote, id);
        } else {
            lemma_only_waiting_tasks_wait(ready, waiting, remote, id);
            let k = ready.index_of(runtime.waiting_tasks@[id]);
            assert(after.ready_queue@[k] == runtime.waiting_tasks@[id]);
        }
    } else {
        lemma_only_waiting_tasks_wait(runtime.ready_queue@, runtime.waiting_tasks@, local, id);
        lemma_only_waiting_tasks_wait(ready, waiting, remote, id);
    }
}

/// Waking leaves the ready tasks in front.
proof fn lemma_ready_stay_in_front<F>(
    ready: Seq<Task<F>>,
    waiting: Map<TaskId, Task<F>>,
    woken: Seq<TaskId>,
)
    ensures
        ready.is_prefix_of(crate::rt::awoken(ready, waiting, woken).0),
    decreases woken.len(),
{
    if woken.len() > 0 {
        lemma_ready_stay_in_front(ready, waiting, woken.drop_last());
    }
}

/// Waking makes no task wait.
proof fn lemma_only_waiting_tasks_wait<F>(
    ready: Seq<Task<F>>,
    waiting: Map<TaskId, Task<F>>,
    woken: Seq<TaskId>,
    id: TaskId,
)
    requires
        !waiting.contains_key(id),
    ensures
        !crate::rt::awoken(ready, waiting, woken).1.contains_key(id),
    decreases woken.len(),
{
    if woken.len() > 0 {
        lemma_only_waiting_tasks_wait(ready, waiting, woken.drop_last(), id);
    }
}

/// Woken tasks become ready in the order in which they were woken, behind those that were
/// ready already.
pub proof fn law_tasks_become_ready_in_the_order_they_are_woken<F>(
    ready: Seq<Task<F>>,
    waiting: Map<TaskId, Task<F>>,
    woken: Seq<TaskId>,
)
    requires
        woken.no_duplicates(),
        forall|k: int| 0 <= k < woken.len() ==> waiting.contains_key(#[trigger] woken[k]),
    ensures
        ({
            let (now_ready, now_waiting) = crate::rt::awoken(ready, waiting, woken);
            &&& now_ready == ready + woken.map_values(|id: TaskId| waiting[id])
            &&& forall|id: TaskId| #[trigger]
                now_waiting.contains_key(id) <==> waiting.contains_key(id) && !woken.contains(id)
        }),
    decreases woken.len(),
{
    let (now_ready, now_waiting) = crate::rt::awoken(ready, waiting, woken);
    if woken.len() > 0 {
        let shorter = woken.drop_last();
        let last = woken.last();
        assert forall|k: int| 0 <= k < shorter.len() implies waiting.contains_key(
            #[trigger] shorter[k],
        ) by {
            assert(woken[k] == shorter[k]);
        }
        law_tasks_become_ready_in_the_order_they_are_woken(ready, waiting, shorter);
        let (r, w) = crate::rt::awoken(ready, waiting, shorter);
        assert(woken[woken.len() - 1] == last);
        assert(waiting.contains_key(last));
        assert(!shorter.contains(last)) by {
            if shorter.contains(last) {
                let k = shorter.index_of(last);
                assert(woken[k] == woken[woken.len() - 1]);
            }
        }
        assert(w.contains_key(last));
        law_woken_tasks_become_ready(ready, waiting, shorter, last);
        assert(w[last] == waiting[last]);
        assert(woken.map_values(|id: TaskId| waiting[id]) =~= shorter.map_values(
            |id: TaskId| waiting[id],
        ).push(waiting[last]));
        assert(now_ready =~= ready + woken.map_values(|id: TaskId| waiting[id]));
        assert forall|id: TaskId| #[trigger] now_waiting.contains_key(id) <==> waiting.contains_key(
            id,
        ) && !woken.contains(id) by {
            if woken.contains(id) && id != last {
                let k = woken.index_of(id);
                assert(shorter[k] == id);
            }
            if shorter.contains(id) {
                let k = shorter.index_of(id);
                assert(woken[k] == id);
            }
        }
    } else {
        assert(now_ready =~= ready + woken.map_values(|id: TaskId| waiting[id]));
    }
}

/// Ready tasks are polled first come, first served: a step hands out the one at the front,
/// with a waker of its own that is registered where its kind of waker goes, and the others
/// keep their order.
pub proof fn law_ready_tasks_are_polled_in_order<F>(
    runtime: Runtime<F>,
    registry: WakerRegistry,
    stop: bool,
    after: Runtime<F>,
    registry_after: WakerRegistry,
    action: RunAction<F>,
)
    requires
        runtime.stage is Pop,
        runtime.stepped(registry, stop, after, registry_after, action),
    ensures
        runtime.ready_queue@.len() > 0 ==> {
            let first = runtime.ready_queue@[0];
            &&& action matches RunAction::Poll(task, waker)
            &&& task == first
            &&& waker.task_id == first.id
            &&& waker.waker_type == first.waker_type
            &&& after.stage == RunStage::Polling(first.id)
            &&& after.ready_queue@.len() == runtime.ready_queue@.len() - 1
            &&& forall|k: int|
                0 <= k < after.ready_queue@.len() ==> #[trigger] after.ready_queue@[k]
                    == runtime.ready_queue@[k + 1]
            &&& first.waker_type == WakerType::SingleThreaded
                ==> after.waker_registry.wakers@.contains(first.id)
            &&& first.waker_type == WakerType::ThreadSafe ==> registry_after.wakers@.contains(
                first.id,
            )
        },
        runtime.ready_queue@.len() == 0 ==> action is Continue && after.stage is Woken
            && after.ready_queue == runtime.ready_queue,
        forall|id: TaskId|
            runtime.waker_registry.wakers@.contains(id)
                ==> #[trigger] after.waker_registry.wakers@.contains(id),
        forall|id: TaskId|
            registry.wakers@.contains(id) ==> #[trigger] registry_after.wakers@.contains(id),
        after.waker_registry.woken_tasks@ == runtime.waker_registry.woken_tasks@,
        registry_after.woken_tasks@ == registry.woken_tasks@,
        after.waiting_tasks@ == runtime.waiting_tasks@,
        after.task_spawner == runtime.task_spawner,
{
}

/// A task that is complete is gone, and nothing wakes it any more; one that is not waits,
/// with its wakers in place. Every other task stays where it is.
pub proof fn law_a_polled_task_waits_or_is_gone<F>(
    runtime: Runtime<F>,
    registry: WakerRegistry,
    task: Task<F>,
    complete: bool,
    after: Runtime<F>,
    registry_after: WakerRegistry,
    other: TaskId,
)
    requires
        runtime.settled(registry, task, complete, after, registry_after),
        other != task.id,
    ensures
        complete ==> {
            &&& !after.waker_registry.wakers@.contains(task.id)
            &&& !registry_after.wakers@.contains(task.id)
            &&& after.waiting_tasks@ == runtime.waiting_tasks@
        },
        !complete ==> {
            &&& after.waiting_tasks@.contains_key(task.id)
            &&& after.waiting_tasks@[task.id] == task
            &&& after.waker_registry.wakers@ == runtime.waker_registry.wakers@
            &&& registry_after.wakers@ == registry.wakers@
        },
        after.waiting_tasks@.contains_key(other) <==> runtime.waiting_tasks@.contains_key(other),
        runtime.waiting_tasks@.contains_key(other) ==> after.waiting_tasks@[other]
            == runtime.waiting_tasks@[other],
        after.waker_registry.wakers@.contains(other)
            <==> runtime.waker_registry.wakers@.contains(other),
        registry_after.wakers@.contains(other) <==> registry.wakers@.contains(other),
        after.waker_registry.woken_tasks@ == runtime.waker_registry.woken_tasks@,
        registry_after.woken_tasks@ == registry.woken_tasks@,
        after.ready_queue == runtime.ready_queue,
        after.task_spawner == runtime.task_spawner,
        after.running == runtime.running,
        after.stage is Polled,
{
}

/// Spawned tasks get their turn: a round that begins, and one that goes on after a task was
/// polled, has every spawned task ready behind those that were ready already, in the order
/// in which they were spawned.
pub proof fn law_spawned_tasks_get_their_turn<F>(
    runtime: Runtime<F>,
    registry: WakerRegistry,
    stop: bool,
    after: Runtime<F>,
    registry_after: WakerRegistry,
    action: RunAction<F>,
)
    requires
        runtime.stage is Polled || (runtime.stage is Round && runtime.running && !stop),
        runtime.stepped(registry, stop, after, registry_after, action),
    ensures
        after.ready_queue@.len() == runtime.ready_queue@.len()
            + runtime.task_spawner.pending_spawns@.len(),
        forall|k: int|
            0 <= k < runtime.ready_queue@.len() ==> after.ready_queue@[k]
                == #[trigger] runtime.ready_queue@[k],
        forall|k: int|
            0 <= k < runtime.task_spawner.pending_spawns@.len() ==> after.ready_queue@[k
                + runtime.ready_queue@.len()] == #[trigger] runtime.task_spawner.pending_spawns@[k],
        after.task_spawner.pending_spawns@.len() == 0,
        after.task_spawner.next_task_id == runtime.task_spawner.next_task_id,
        after.waiting_tasks@ == runtime.waiting_tasks@,
        after.waker_registry == runtime.waker_registry,
        registry_after == registry,
        runtime.stage is Polled ==> action is Continue && after.stage == if stop {
            RunStage::Woken
        } else {
            RunStage::Pop
        },
{
}

/// A run ends where it is asked whether to go on, when it was stopped, and otherwise only
/// when no task is ready, spawned or waiting.
pub proof fn law_a_run_ends_when_nothing_is_left<F>(
    runtime: Runtime<F>,
    registry: WakerRegistry,
    stop: bool,
    after: Runtime<F>,
    registry_after: WakerRegistry,
    action: RunAction<F>,
)
    requires
        !(runtime.stage is Idle),
        !(runtime.stage is Polling),
        runtime.stepped(registry, stop, after, registry_after, action),
    ensures
        action is Finished <==> {
            ||| runtime.stage is Woken && stop
            ||| runtime.stage is Round && {
                ||| stop
                ||| !runtime.running
                ||| (runtime.ready_queue@.len() == 0
                    && runtime.task_spawner.pending_spawns@.len() == 0
                    && runtime.waiting_tasks@.is_empty())
            }
        },
        action is Finished ==> !after.running && after.stage is Idle,
        !(action is Finished) ==> after.running == runtime.running && !(after.stage is Idle),
{
}

/// A spawned task is the last of those spawned, as it was given, under an identifier that
/// no task had; the others stay where they are.
pub proof fn law_a_spawned_task_is_new<F>(
    runtime: Runtime<F>,
    future: F,
    waker_type: WakerType,
    after: Runtime<F>,
    id: TaskId,
)
    requires
        runtime.spawned(future, waker_type, after, id),
    ensures
        !runtime.knows(id),
        after.task_spawner.pending_spawns@.len() == runtime.task_spawner.pending_spawns@.len() + 1,
        after.task_spawner.pending_spawns@.last().id == id,
        after.task_spawner.pending_spawns@.last().future == future,
        after.task_spawner.pending_spawns@.last().waker_type == waker_type,
        forall|k: int|
            0 <= k < runtime.task_spawner.pending_spawns@.len()
                ==> after.task_spawner.pending_spawns@[k]
                == #[trigger] runtime.task_spawner.pending_spawns@[k],
        after.task_spawner.next_task_id > id,
        after.ready_queue == runtime.ready_queue,
        after.waiting_tasks == runtime.waiting_tasks,
        after.stage == runtime.stage,
        after.running == runtime.running,
{
}

/// Whoever joins a task gets the value the task left, or hears that none will come; while
/// neither is there the task is not joined.
pub proof fn law_joining_gives_the_result<T>(received: Option<Result<T, RecvError>>)
    ensures
        received is None <==> crate::rt::spec_joined(received) is None,
        received matches Some(Ok(value)) ==> crate::rt::spec_joined(received) == Some(
            Ok::<T, JoinError>(value),
        ),
        received matches Some(Err(_)) ==> crate::rt::spec_joined(received) == Some(
            Err::<T, JoinError>(JoinError::TaskAborted),
        ),
{
}

/// The same holds of a task whose result comes from another thread.
pub proof fn law_joining_across_threads_gives_the_result<T>(received: Received<T>)
    ensures
        received is Pending <==> received.spec_joined() is None,
        received matches Received::Value(value) ==> received.spec_joined() == Some(
            Ok::<T, JoinError>(value),
        ),
        received is Canceled ==> received.spec_joined() == Some(
            Err::<T, JoinError>(JoinError::TaskAborted),
        ),
{
}

} // verus!
