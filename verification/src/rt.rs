//! A minimal single-threaded task runtime: who runs next, and who waits.
//!
//! The runtime keeps the tasks; polling one is the caller's business. A run goes in
//! steps: [`Runtime::step`] names a task to poll, and the caller says through
//! [`Runtime::task_polled`] what came of it.

use crate::join::ThreadSafeJoinHandle;
use crate::oneshot::{Channel, Receiver, RecvError};
use futures::channel::oneshot::Receiver as Remote;
use std::collections::{HashMap, HashSet, VecDeque};
use vstd::prelude::*;

verus! {

broadcast use vstd::std_specs::hash::group_hash_axioms;

/// Unique identifier for tasks.
pub type TaskId = u64;

/// Type of waker to use for a task.
#[derive(Debug, Clone, Copy, PartialEq, Eq, Structural)]
pub enum WakerType {
    /// Woken from the runtime's own thread.
    SingleThreaded,
    /// Woken from any thread.
    ThreadSafe,
}

/// A spawned task with an ID.
#[derive(Debug)]
pub struct Task<F> {
    /// Unique identifier for the task.
    pub id: TaskId,
    /// The future to be executed.
    pub future: F,
    /// Type of waker to use for the task.
    pub waker_type: WakerType,
}

/// The waker of a task: wakes it through the registry of its type.
#[derive(Debug, Clone, Copy, PartialEq, Eq, Structural)]
pub struct TaskWaker {
    /// The task to wake.
    pub task_id: TaskId,
    /// The registry to wake it through.
    pub waker_type: WakerType,
}

/// Error returned when a task join fails.
#[derive(Debug, Clone, Copy, PartialEq, Eq, Structural)]
pub enum JoinError {
    /// The task ended without leaving a result.
    TaskAborted,
}

/// Registry for managing wakers across tasks.
#[derive(Debug)]
pub struct WakerRegistry {
    /// The tasks that have a waker.
    pub wakers: HashSet<TaskId>,
    /// The tasks that have been woken, in order.
    pub woken_tasks: Vec<TaskId>,
}

impl WakerRegistry {
    /// Creates an empty registry.
    pub fn new() -> (registry: Self)
        ensures
            registry.wakers@ == Set::<TaskId>::empty(),
            registry.woken_tasks@.len() == 0,
    {
        WakerRegistry { wakers: HashSet::new(), woken_tasks: Vec::new() }
    }

    /// Gives a task a waker.
    pub fn register_waker(&mut self, task_id: TaskId)
        ensures
            final(self).wakers@ == old(self).wakers@.insert(task_id),
            final(self).woken_tasks == old(self).woken_tasks,
    {
        self.wakers.insert(task_id);
    }

    /// Takes a task's waker away.
    pub fn remove_waker(&mut self, task_id: TaskId)
        ensures
            final(self).wakers@ == old(self).wakers@.remove(task_id),
            final(self).woken_tasks == old(self).woken_tasks,
    {
        self.wakers.remove(&task_id);
        assert(self.wakers@ =~= old(self).wakers@.remove(task_id));
    }

    /// Wakes a task, if it has a waker.
    pub fn wake_task(&mut self, task_id: TaskId)
        ensures
            final(self).wakers == old(self).wakers,
            final(self).woken_tasks@ == if old(self).wakers@.contains(task_id) {
                old(self).woken_tasks@.push(task_id)
            } else {
                old(self).woken_tasks@
            },
            old(self).wakers@.contains(task_id) ==> final(self).woken_tasks@.contains(task_id),
            forall|id: TaskId|
                old(self).woken_tasks@.contains(id) ==> #[trigger] final(self).woken_tasks@.contains(id),
    {
        if self.wakers.contains(&task_id) {
            self.woken_tasks.push(task_id);
            proof {
                crate::driver::lemma_pushed(old(self).woken_tasks@, task_id);
            }
        }
    }

    /// Takes the tasks that have been woken.
    pub fn get_and_clear_woken_tasks(&mut self) -> (woken: Vec<TaskId>)
        ensures
            woken@ == old(self).woken_tasks@,
            final(self).woken_tasks@.len() == 0,
            final(self).wakers == old(self).wakers,
    {
        let mut woken: Vec<TaskId> = Vec::new();
        std::mem::swap(&mut woken, &mut self.woken_tasks);
        woken
    }
}

/// A handle that can be used to wake a task from other threads.
#[derive(Debug, Clone, Copy, PartialEq, Eq, Structural)]
pub struct ThreadSafeWakerHandle {
    /// The task to wake.
    pub task_id: TaskId,
}

impl ThreadSafeWakerHandle {
    /// Wakes the associated task, through the registry shared between threads.
    pub fn wake(&self, registry: &mut WakerRegistry)
        ensures
            final(registry).wakers == old(registry).wakers,
            final(registry).woken_tasks@ == if old(registry).wakers@.contains(self.task_id) {
                old(registry).woken_tasks@.push(self.task_id)
            } else {
                old(registry).woken_tasks@
            },
            old(registry).wakers@.contains(self.task_id) ==> final(registry).woken_tasks@.contains(
                self.task_id,
            ),
            forall|id: TaskId|
                old(registry).woken_tasks@.contains(id)
                    ==> #[trigger] final(registry).woken_tasks@.contains(id),
    {
        registry.wake_task(self.task_id);
    }
}

/// Hands out task identifiers, and keeps new tasks until the runtime takes them.
#[derive(Debug)]
pub struct TaskSpawner<F> {
    /// The identifier of the next task.
    pub next_task_id: TaskId,
    /// The tasks spawned since the runtime last looked, in order.
    pub pending_spawns: VecDeque<Task<F>>,
}

impl<F> TaskSpawner<F> {
    /// Creates a spawner that has spawned nothing.
    pub fn new() -> (spawner: Self)
        ensures
            spawner.next_task_id == 0,
            spawner.pending_spawns@.len() == 0,
    {
        TaskSpawner { next_task_id: 0, pending_spawns: VecDeque::new() }
    }

    /// Spawns a task.
    pub fn spawn(&mut self, future: F, waker_type: WakerType) -> (id: TaskId)
        requires
            old(self).next_task_id < u64::MAX,
        ensures
            id == old(self).next_task_id,
            final(self).next_task_id == id + 1,
            final(self).pending_spawns@ == old(self).pending_spawns@.push(
                Task { id, future, waker_type },
            ),
    {
        let id: TaskId = self.next_task_id;
        self.next_task_id = id + 1;
        self.pending_spawns.push_back(Task { id, future, waker_type });
        id
    }

    /// Takes the tasks spawned since the last time.
    pub fn take_pending_spawns(&mut self) -> (tasks: VecDeque<Task<F>>)
        ensures
            tasks@ == old(self).pending_spawns@,
            final(self).pending_spawns@.len() == 0,
            final(self).next_task_id == old(self).next_task_id,
    {
        let mut tasks: VecDeque<Task<F>> = VecDeque::new();
        std::mem::swap(&mut tasks, &mut self.pending_spawns);
        tasks
    }
}

/// How far a run has got.
#[derive(Debug, Clone, Copy, PartialEq, Eq, Structural)]
pub enum RunStage {
    /// No run is in progress.
    Idle,
    /// A round is to begin.
    Round,
    /// The next ready task is to be polled.
    Pop,
    /// A task is being polled.
    Polling(TaskId),
    /// A task has been polled.
    Polled,
    /// No further task is to be polled in this round, and woken ones are to be made
    /// ready.
    Woken,
}

/// What a run needs next.
#[derive(Debug)]
pub enum RunAction<F> {
    /// Nothing: go on.
    Continue,
    /// Poll a task with the given waker.
    Poll(Task<F>, TaskWaker),
    /// Yield to other threads: every task waits.
    Yield,
    /// Nothing: the run is over.
    Finished,
}

/// A bare minimal single-threaded runtime.
#[derive(Debug)]
pub struct Runtime<F> {
    /// Queue of ready tasks to be executed.
    pub ready_queue: VecDeque<Task<F>>,
    /// Map of task IDs to tasks that are waiting to be woken.
    pub waiting_tasks: HashMap<TaskId, Task<F>>,
    /// Whether the runtime should keep running.
    pub running: bool,
    /// Wakers of the tasks woken from the runtime's own thread.
    pub waker_registry: WakerRegistry,
    /// Spawner for spawning tasks, also from within other tasks.
    pub task_spawner: TaskSpawner<F>,
    /// How far the run has got.
    pub stage: RunStage,
}

/// The identifiers of tasks.
pub open spec fn ids<F>(tasks: Seq<Task<F>>) -> Seq<TaskId> {
    tasks.map_values(|task: Task<F>| task.id)
}

/// The tasks that are ready and those that wait, once the tasks named by `woken`
/// have been woken in order.
pub open spec fn awoken<F>(
    ready: Seq<Task<F>>,
    waiting: Map<TaskId, Task<F>>,
    woken: Seq<TaskId>,
) -> (Seq<Task<F>>, Map<TaskId, Task<F>>)
    decreases woken.len(),
{
    if woken.len() == 0 {
        (ready, waiting)
    } else {
        let (r, w) = awoken(ready, waiting, woken.drop_last());
        if w.contains_key(woken.last()) {
            (r.push(w[woken.last()]), w.remove(woken.last()))
        } else {
            (r, w)
        }
    }
}

impl<F> Runtime<F> {
    /// The tasks that are ready, spawned, or being polled.
    pub open spec fn active(self) -> Seq<TaskId> {
        ids(self.ready_queue@) + ids(self.task_spawner.pending_spawns@) + match self.stage {
            RunStage::Polling(id) => seq![id],
            _ => Seq::empty(),
        }
    }

    /// Whether a task has been spawned and has not finished.
    pub open spec fn knows(self, id: TaskId) -> bool {
        self.active().contains(id) || self.waiting_tasks@.contains_key(id)
    }

    /// Every task has an identifier of its own, and is in one place only.
    pub open spec fn wf(self) -> bool {
        &&& self.active().no_duplicates()
        &&& forall|k: int|
            0 <= k < self.active().len() ==> #[trigger] self.active()[k]
                < self.task_spawner.next_task_id && !self.waiting_tasks@.contains_key(
                self.active()[k],
            )
        &&& forall|id: TaskId| #[trigger]
            self.waiting_tasks@.contains_key(id) ==> id < self.task_spawner.next_task_id
                && self.waiting_tasks@[id].id == id
    }

    /// Create a new runtime instance.
    pub fn new() -> (runtime: Self)
        ensures
            runtime.wf(),
            !runtime.running,
            runtime.ready_queue@.len() == 0,
            runtime.waiting_tasks@ == Map::<TaskId, Task<F>>::empty(),
            runtime.waker_registry.wakers@ == Set::<TaskId>::empty(),
            runtime.waker_registry.woken_tasks@.len() == 0,
            runtime.task_spawner.next_task_id == 0,
            runtime.task_spawner.pending_spawns@.len() == 0,
            runtime.stage == RunStage::Idle,
    {
        Runtime {
            ready_queue: VecDeque::new(),
            waiting_tasks: HashMap::new(),
            running: false,
            waker_registry: WakerRegistry::new(),
            task_spawner: TaskSpawner::new(),
            stage: RunStage::Idle,
        }
    }

    /// What spawning a task leaves.
    pub open spec fn spawned(
        self,
        future: F,
        waker_type: WakerType,
        after: Self,
        id: TaskId,
    ) -> bool {
        &&& id == self.task_spawner.next_task_id
        &&& !self.knows(id)
        &&& after.task_spawner.next_task_id == id + 1
        &&& after.task_spawner.pending_spawns@ == self.task_spawner.pending_spawns@.push(
            Task { id, future, waker_type },
        )
        &&& after == (Runtime { task_spawner: after.task_spawner, ..self })
    }

    /// Spawns a task of the given waker type.
    fn spawn_task(&mut self, future: F, waker_type: WakerType) -> (id: TaskId)
        requires
            old(self).wf(),
            old(self).task_spawner.next_task_id < u64::MAX,
        ensures
            final(self).wf(),
            old(self).spawned(future, waker_type, *final(self), id),
    {
        let ghost before = *self;
        let id: TaskId = self.task_spawner.spawn(future, waker_type);
        proof {
            let front = ids(before.ready_queue@) + ids(before.task_spawner.pending_spawns@);
            let back = match before.stage {
                RunStage::Polling(id) => seq![id],
                _ => Seq::empty(),
            };
            assert(ids(self.task_spawner.pending_spawns@) =~= ids(
                before.task_spawner.pending_spawns@,
            ).push(id));
            assert(self.active() =~= front.push(id) + back);
            assert(before.active() =~= front + back);
            assert(!before.active().contains(id)) by {
                if before.active().contains(id) {
                    let k = before.active().index_of(id);
                    assert(before.active()[k] < before.task_spawner.next_task_id);
                }
            }
            lemma_added(front, back, id);
            assert forall|k: int| 0 <= k < self.active().len() implies #[trigger] self.active()[k]
                < self.task_spawner.next_task_id && !self.waiting_tasks@.contains_key(
                self.active()[k],
            ) by {
                let x = self.active()[k];
                if x != id {
                    assert(self.active().contains(x));
                    let j = before.active().index_of(x);
                    assert(before.active()[j] == x);
                }
            }
        }
        id
    }

    /// Spawn a future onto the runtime.
    ///
    /// The task runs once a run gets to it. Its identifier is one no task had
    /// before.
    pub fn spawn(&mut self, future: F) -> (id: TaskId)
        requires
            old(self).wf(),
            old(self).task_spawner.next_task_id < u64::MAX,
        ensures
            final(self).wf(),
            old(self).spawned(future, WakerType::SingleThreaded, *final(self), id),
    {
        self.spawn_task(future, WakerType::SingleThreaded)
    }

    /// Spawn a future with thread-safe waker support. `receiver` is where it leaves
    /// its result.
    pub fn spawn_thread_safe<T>(
        &mut self,
        future: F,
        receiver: Remote<T>,
    ) -> (handle: ThreadSafeJoinHandle<T>)
        requires
            old(self).wf(),
            old(self).task_spawner.next_task_id < u64::MAX,
        ensures
            final(self).wf(),
            handle.receiver == receiver,
            old(self).spawned(
                future,
                WakerType::ThreadSafe,
                *final(self),
                handle.waker_handle.task_id,
            ),
    {
        let task_id: TaskId = self.spawn_task(future, WakerType::ThreadSafe);
        ThreadSafeJoinHandle { receiver, waker_handle: ThreadSafeWakerHandle { task_id } }
    }

    /// Spawn a future nobody awaits.
    pub fn spawn_detached(&mut self, future: F)
        requires
            old(self).wf(),
            old(self).task_spawner.next_task_id < u64::MAX,
        ensures
            final(self).wf(),
            old(self).spawned(
                future,
                WakerType::SingleThreaded,
                *final(self),
                old(self).task_spawner.next_task_id,
            ),
    {
        self.spawn_task(future, WakerType::SingleThreaded);
    }

    /// Get a thread-safe waker handle for a task.
    pub fn get_thread_safe_waker(&self, task_id: TaskId) -> (handle: ThreadSafeWakerHandle)
        ensures
            handle.task_id == task_id,
    {
        ThreadSafeWakerHandle { task_id }
    }

    /// Stop the runtime.
    pub fn stop(&mut self)
        ensures
            *final(self) == (Runtime { running: false, ..*old(self) }),
    {
        self.running = false;
    }

    /// Check if the runtime is currently running.
    pub fn is_running(&self) -> (running: bool)
        ensures
            running == self.running,
    {
        self.running
    }

    /// Get the number of pending tasks: those ready, those waiting, and those just
    /// spawned.
    pub fn pending_tasks(&self) -> (n: usize)
        requires
            self.ready_queue@.len() + self.waiting_tasks@.len()
                + self.task_spawner.pending_spawns@.len() <= usize::MAX,
        ensures
            n == self.ready_queue@.len() + self.waiting_tasks@.len()
                + self.task_spawner.pending_spawns@.len(),
            n == 0 <==> self.ready_queue@.len() == 0 && self.waiting_tasks@.len() == 0
                && self.task_spawner.pending_spawns@.len() == 0,
    {
        self.ready_queue.len() + self.waiting_tasks.len() + self.task_spawner.pending_spawns.len()
    }

    /// Process any newly spawned tasks and move them to the ready queue.
    pub fn process_new_spawns(&mut self)
        requires
            old(self).wf(),
        ensures
            final(self).wf(),
            final(self).active() == old(self).active(),
            final(self).ready_queue@ == old(self).ready_queue@
                + old(self).task_spawner.pending_spawns@,
            final(self).task_spawner.pending_spawns@.len() == 0,
            final(self).task_spawner.next_task_id == old(self).task_spawner.next_task_id,
            *final(self) == (Runtime {
                ready_queue: final(self).ready_queue,
                task_spawner: final(self).task_spawner,
                ..*old(self)
            }),
    {
        let mut new_tasks = self.task_spawner.take_pending_spawns();
        self.ready_queue.append(&mut new_tasks);
        assert(self.active() =~= old(self).active());
    }

    /// Makes the tasks named by `woken` ready, in order. One that does not wait is
    /// passed over.
    fn make_ready(&mut self, woken: Vec<TaskId>)
        requires
            old(self).wf(),
        ensures
            final(self).wf(),
            (final(self).ready_queue@, final(self).waiting_tasks@) == awoken(
                old(self).ready_queue@,
                old(self).waiting_tasks@,
                woken@,
            ),
            forall|id: TaskId| #[trigger] final(self).knows(id) <==> old(self).knows(id),
            *final(self) == (Runtime {
                ready_queue: final(self).ready_queue,
                waiting_tasks: final(self).waiting_tasks,
                ..*old(self)
            }),
    {
        let mut i: usize = 0;
        while i < woken.len()
            invariant
                i <= woken@.len(),
                self.wf(),
                (self.ready_queue@, self.waiting_tasks@) == awoken(
                    old(self).ready_queue@,
                    old(self).waiting_tasks@,
                    woken@.take(i as int),
                ),
                forall|id: TaskId| #[trigger] self.knows(id) <==> old(self).knows(id),
                *self == (Runtime {
                    ready_queue: self.ready_queue,
                    waiting_tasks: self.waiting_tasks,
                    ..*old(self)
                }),
            decreases woken@.len() - i,
        {
            let ghost before = *self;
            assert(woken@.take(i + 1).drop_last() =~= woken@.take(i as int));
            let id: TaskId = woken[i];
            match self.waiting_tasks.remove(&id) {
                Some(task) => {
                    assert(self.waiting_tasks@ =~= before.waiting_tasks@.remove(id));
                    self.ready_queue.push_back(task);
                    proof {
                        lemma_made_ready(before, *self, task);
                    }
                },
                None => {
                    assert(self.waiting_tasks@ =~= before.waiting_tasks@);
                    assert(self.active() =~= before.active());
                    assert forall|x: TaskId| #[trigger] self.knows(x) <==> old(self).knows(x) by {
                        assert(before.knows(x) <==> old(self).knows(x));
                    }
                },
            }
            i = i + 1;
        }
        assert(woken@.take(i as int) =~= woken@);
    }

    /// Process tasks that have been woken up.
    pub fn process_woken_tasks(&mut self)
        requires
            old(self).wf(),
        ensures
            final(self).wf(),
            (final(self).ready_queue@, final(self).waiting_tasks@) == awoken(
                old(self).ready_queue@,
                old(self).waiting_tasks@,
                old(self).waker_registry.woken_tasks@,
            ),
            forall|id: TaskId| #[trigger] final(self).knows(id) <==> old(self).knows(id),
            final(self).waker_registry.wakers == old(self).waker_registry.wakers,
            final(self).waker_registry.woken_tasks@.len() == 0,
            *final(self) == (Runtime {
                ready_queue: final(self).ready_queue,
                waiting_tasks: final(self).waiting_tasks,
                waker_registry: final(self).waker_registry,
                ..*old(self)
            }),
    {
        let woken = self.waker_registry.get_and_clear_woken_tasks();
        assert(self.active() =~= old(self).active());
        let ghost cleared = *self;
        assert forall|id: TaskId| #[trigger] cleared.knows(id) <==> old(self).knows(id) by {}
        self.make_ready(woken);
        assert forall|id: TaskId| #[trigger] self.knows(id) <==> old(self).knows(id) by {
            assert(cleared.knows(id) <==> old(self).knows(id));
        }
    }

    /// Process tasks that have been woken up from other threads.
    pub fn process_thread_safe_woken_tasks(&mut self, registry: &mut WakerRegistry)
        requires
            old(self).wf(),
        ensures
            final(self).wf(),
            (final(self).ready_queue@, final(self).waiting_tasks@) == awoken(
                old(self).ready_queue@,
                old(self).waiting_tasks@,
                old(registry).woken_tasks@,
            ),
            forall|id: TaskId| #[trigger] final(self).knows(id) <==> old(self).knows(id),
            final(registry).wakers == old(registry).wakers,
            final(registry).woken_tasks@.len() == 0,
            *final(self) == (Runtime {
                ready_queue: final(self).ready_queue,
                waiting_tasks: final(self).waiting_tasks,
                ..*old(self)
            }),
    {
        let woken = registry.get_and_clear_woken_tasks();
        self.make_ready(woken);
    }

    /// Begin a run: until all tasks are complete, or it is stopped.
    pub fn run(&mut self)
        requires
            old(self).stage == RunStage::Idle,
        ensures
            *final(self) == (Runtime { running: true, stage: RunStage::Round, ..*old(self) }),
    {
        self.running = true;
        self.stage = RunStage::Round;
    }

    /// What ending a run leaves.
    pub open spec fn finished(self, after: Self, action: RunAction<F>) -> bool {
        &&& action == RunAction::<F>::Finished
        &&& after == (Runtime { running: false, stage: RunStage::Idle, ..self })
    }

    /// What taking in the newly spawned tasks leaves.
    pub open spec fn took_spawns(self, after: Self) -> bool {
        &&& after.ready_queue@ == self.ready_queue@ + self.task_spawner.pending_spawns@
        &&& after.task_spawner.pending_spawns@.len() == 0
        &&& after.task_spawner.next_task_id == self.task_spawner.next_task_id
    }

    /// What one step of a run leaves, given whether whoever runs it wants to stop.
    pub open spec fn stepped(
        self,
        registry: WakerRegistry,
        stop: bool,
        after: Self,
        registry_after: WakerRegistry,
        action: RunAction<F>,
    ) -> bool {
        match self.stage {
            RunStage::Round => {
                &&& registry_after == registry
                &&& if !self.running || stop {
                    self.finished(after, action)
                } else {
                    let between = Runtime {
                        ready_queue: after.ready_queue,
                        task_spawner: after.task_spawner,
                        ..self
                    };
                    &&& self.took_spawns(after)
                    &&& if after.ready_queue@.len() == 0 && self.waiting_tasks@.is_empty() {
                        between.finished(after, action)
                    } else {
                        &&& action == RunAction::<F>::Continue
                        &&& after == (Runtime { stage: RunStage::Pop, ..between })
                    }
                }
            },
            RunStage::Pop => if self.ready_queue@.len() == 0 {
                &&& registry_after == registry
                &&& action == RunAction::<F>::Continue
                &&& after == (Runtime { stage: RunStage::Woken, ..self })
            } else {
                let task = self.ready_queue@[0];
                &&& action == RunAction::Poll(
                    task,
                    TaskWaker { task_id: task.id, waker_type: task.waker_type },
                )
                &&& after.ready_queue@ == self.ready_queue@.skip(1)
                &&& after == (Runtime {
                    ready_queue: after.ready_queue,
                    waker_registry: after.waker_registry,
                    stage: RunStage::Polling(task.id),
                    ..self
                })
                &&& after.waker_registry.woken_tasks == self.waker_registry.woken_tasks
                &&& registry_after.woken_tasks == registry.woken_tasks
                &&& match task.waker_type {
                    WakerType::SingleThreaded => {
                        &&& after.waker_registry.wakers@ == self.waker_registry.wakers@.insert(
                            task.id,
                        )
                        &&& registry_after == registry
                    },
                    WakerType::ThreadSafe => {
                        &&& after.waker_registry == self.waker_registry
                        &&& registry_after.wakers@ == registry.wakers@.insert(task.id)
                    },
                }
            },
            RunStage::Polled => {
                let between = Runtime {
                    ready_queue: after.ready_queue,
                    task_spawner: after.task_spawner,
                    ..self
                };
                &&& registry_after == registry
                &&& self.took_spawns(after)
                &&& action == RunAction::<F>::Continue
                &&& after == (Runtime {
                    stage: if stop {
                        RunStage::Woken
                    } else {
                        RunStage::Pop
                    },
                    ..between
                })
            },
            RunStage::Woken => if stop {
                registry_after == registry && self.finished(after, action)
            } else {
                let (ready, waiting) = awoken(
                    self.ready_queue@,
                    self.waiting_tasks@,
                    self.waker_registry.woken_tasks@,
                );
                &&& (after.ready_queue@, after.waiting_tasks@) == awoken(
                    ready,
                    waiting,
                    registry.woken_tasks@,
                )
                &&& after.waker_registry.wakers == self.waker_registry.wakers
                &&& after.waker_registry.woken_tasks@.len() == 0
                &&& registry_after.wakers == registry.wakers
                &&& registry_after.woken_tasks@.len() == 0
                &&& after == (Runtime {
                    ready_queue: after.ready_queue,
                    waiting_tasks: after.waiting_tasks,
                    waker_registry: after.waker_registry,
                    stage: RunStage::Round,
                    ..self
                })
                &&& action == if after.ready_queue@.len() == 0 && !after.waiting_tasks@.is_empty() {
                    RunAction::<F>::Yield
                } else {
                    RunAction::<F>::Continue
                }
            },
            _ => {
                &&& registry_after == registry
                &&& action == RunAction::<F>::Finished
                &&& after == self
            },
        }
    }

    /// Takes one step of a run. `registry` is the one through which other threads
    /// wake tasks, and `stop` whether whoever runs wants to stop.
    ///
    /// A round takes in newly spawned tasks, polls every ready task in turn, and
    /// then makes woken tasks ready. Whoever runs is asked before a round, after each
    /// task, and after the last. A run ends when nothing is ready and nothing waits,
    /// or when it is stopped.
    pub fn step(&mut self, registry: &mut WakerRegistry, stop: bool) -> (action: RunAction<F>)
        requires
            old(self).wf(),
            !(old(self).stage is Polling),
        ensures
            final(self).wf(),
            old(self).stepped(*old(registry), stop, *final(self), *final(registry), action),
            forall|id: TaskId| #[trigger] final(self).knows(id) <==> old(self).knows(id),
            old(self).stage is Woken && !stop ==> forall|id: TaskId|
                old(self).waiting_tasks@.contains_key(id) && (
                old(self).waker_registry.woken_tasks@.contains(id)
                    || old(registry).woken_tasks@.contains(id)) ==> final(self).ready_queue@.contains(
                    #[trigger] old(self).waiting_tasks@[id],
                ) && !final(self).waiting_tasks@.contains_key(id),
    {
        match self.stage {
            RunStage::Round => {
                if !self.running || stop {
                    self.finish();
                    return RunAction::Finished;
                }
                self.process_new_spawns();
                if self.ready_queue.len() == 0 && self.waiting_tasks.is_empty() {
                    self.finish();
                    return RunAction::Finished;
                }
                self.stage = RunStage::Pop;
                assert(self.active() =~= old(self).active());
                RunAction::Continue
            },
            RunStage::Pop => {
                if self.ready_queue.len() == 0 {
                    self.stage = RunStage::Woken;
                    assert(self.active() =~= old(self).active());
                    return RunAction::Continue;
                }
                let task = self.ready_queue.pop_front().unwrap();
                let waker = self.create_waker(registry, task.id, task.waker_type);
                self.stage = RunStage::Polling(task.id);
                proof {
                    lemma_popped(*old(self), *self, task);
                }
                RunAction::Poll(task, waker)
            },
            RunStage::Polled => {
                self.process_new_spawns();
                self.stage = if stop {
                    RunStage::Woken
                } else {
                    RunStage::Pop
                };
                assert(self.active() =~= old(self).active());
                RunAction::Continue
            },
            RunStage::Woken => {
                if stop {
                    self.finish();
                    return RunAction::Finished;
                }
                let ghost before = *self;
                self.process_woken_tasks();
                let ghost between = *self;
                self.process_thread_safe_woken_tasks(registry);
                let ghost processed = *self;
                self.stage = RunStage::Round;
                assert(self.active() =~= processed.active());
                assert forall|id: TaskId| #[trigger] self.knows(id) <==> old(self).knows(id) by {
                    assert(processed.knows(id) <==> between.knows(id));
                    assert(between.knows(id) <==> before.knows(id));
                }
                let action = if self.ready_queue.len() == 0 && !self.waiting_tasks.is_empty() {
                    RunAction::Yield
                } else {
                    RunAction::Continue
                };
                proof {
                    lemma_no_wakeup_is_lost(before, *old(registry), *self, *registry, action);
                }
                action
            },
            _ => RunAction::Finished,
        }
    }

    /// Ends the run.
    fn finish(&mut self)
        requires
            old(self).wf(),
            !(old(self).stage is Polling),
        ensures
            final(self).wf(),
            final(self).active() == old(self).active(),
            *final(self) == (Runtime { running: false, stage: RunStage::Idle, ..*old(self) }),
    {
        self.running = false;
        self.stage = RunStage::Idle;
        assert(self.active() =~= old(self).active());
    }

    /// Creates a waker for a task, registered where its type wants it.
    fn create_waker(
        &mut self,
        registry: &mut WakerRegistry,
        task_id: TaskId,
        waker_type: WakerType,
    ) -> (waker: TaskWaker)
        ensures
            waker == (TaskWaker { task_id, waker_type }),
            *final(self) == (Runtime {
                waker_registry: final(self).waker_registry,
                ..*old(self)
            }),
            final(self).waker_registry.woken_tasks == old(self).waker_registry.woken_tasks,
            final(registry).woken_tasks == old(registry).woken_tasks,
            match waker_type {
                WakerType::SingleThreaded => {
                    &&& final(self).waker_registry.wakers@
                        == old(self).waker_registry.wakers@.insert(task_id)
                    &&& *final(registry) == *old(registry)
                },
                WakerType::ThreadSafe => {
                    &&& final(self).waker_registry == old(self).waker_registry
                    &&& final(registry).wakers@ == old(registry).wakers@.insert(task_id)
                },
            },
    {
        match waker_type {
            WakerType::SingleThreaded => {
                self.waker_registry.register_waker(task_id);
            },
            WakerType::ThreadSafe => {
                registry.register_waker(task_id);
            },
        }
        TaskWaker { task_id, waker_type }
    }

    /// What taking note of a polled task leaves.
    pub open spec fn settled(
        self,
        registry: WakerRegistry,
        task: Task<F>,
        complete: bool,
        after: Self,
        registry_after: WakerRegistry,
    ) -> bool {
        if complete {
            &&& after.waker_registry.wakers@ == self.waker_registry.wakers@.remove(task.id)
            &&& after.waker_registry.woken_tasks == self.waker_registry.woken_tasks
            &&& registry_after.wakers@ == registry.wakers@.remove(task.id)
            &&& registry_after.woken_tasks == registry.woken_tasks
            &&& after == (Runtime {
                waker_registry: after.waker_registry,
                stage: RunStage::Polled,
                ..self
            })
        } else {
            &&& after.waiting_tasks@ == self.waiting_tasks@.insert(task.id, task)
            &&& registry_after == registry
            &&& after == (Runtime {
                waiting_tasks: after.waiting_tasks,
                stage: RunStage::Polled,
                ..self
            })
        }
    }

    /// Takes note of what came of polling a task.
    ///
    /// A task that is complete loses its wakers and is gone; any other waits to be
    /// woken.
    pub fn task_polled(&mut self, registry: &mut WakerRegistry, task: Task<F>, complete: bool)
        requires
            old(self).wf(),
            old(self).stage == RunStage::Polling(task.id),
        ensures
            final(self).wf(),
            old(self).settled(*old(registry), task, complete, *final(self), *final(registry)),
            if complete {
                &&& !final(self).knows(task.id)
                &&& forall|id: TaskId|
                    id != task.id ==> (#[trigger] final(self).knows(id) <==> old(self).knows(id))
            } else {
                &&& forall|id: TaskId| #[trigger] final(self).knows(id) <==> old(self).knows(id)
                &&& final(self).waiting_tasks@.contains_key(task.id)
                &&& final(self).waiting_tasks@[task.id] == task
            },
    {
        let ghost id = task.id;
        if complete {
            self.waker_registry.remove_waker(task.id);
            registry.remove_waker(task.id);
        } else {
            self.waiting_tasks.insert(task.id, task);
        }
        self.stage = RunStage::Polled;
        proof {
            let was = old(self).active();
            let now = self.active();
            assert(was =~= now.push(id));
            assert(was[was.len() - 1] == id);
            assert forall|k: int| 0 <= k < now.len() implies #[trigger] now[k]
                < self.task_spawner.next_task_id && !self.waiting_tasks@.contains_key(now[k]) by {
                assert(was[k] == now[k]);
            }
            assert forall|i: int, j: int|
                0 <= i < now.len() && 0 <= j < now.len() && i != j implies now[i] != now[j] by {
                assert(was[i] == now[i]);
                assert(was[j] == now[j]);
            }
            assert forall|x: TaskId| x != id implies (now.contains(x) <==> was.contains(x)) by {
                if now.contains(x) {
                    let k = now.index_of(x);
                    assert(was[k] == x);
                }
                if was.contains(x) {
                    let k = was.index_of(x);
                    assert(now[k] == x);
                }
            }
            assert(!now.contains(id)) by {
                if now.contains(id) {
                    let k = now.index_of(id);
                    assert(was[k] == id);
                }
            }
        }
    }
}

/// Of the tasks that wait, all that were woken are ready after the step.
proof fn lemma_no_wakeup_is_lost<F>(
    before: Runtime<F>,
    registry: WakerRegistry,
    after: Runtime<F>,
    registry_after: WakerRegistry,
    action: RunAction<F>,
)
    requires
        before.stage is Woken,
        before.stepped(registry, false, after, registry_after, action),
    ensures
        forall|id: TaskId|
            before.waiting_tasks@.contains_key(id) && (
            before.waker_registry.woken_tasks@.contains(id) || registry.woken_tasks@.contains(id))
                ==> after.ready_queue@.contains(#[trigger] before.waiting_tasks@[id])
                && !after.waiting_tasks@.contains_key(id),
{
    assert forall|id: TaskId|
        before.waiting_tasks@.contains_key(id) && (before.waker_registry.woken_tasks@.contains(id)
            || registry.woken_tasks@.contains(id)) implies after.ready_queue@.contains(
        #[trigger] before.waiting_tasks@[id],
    ) && !after.waiting_tasks@.contains_key(id) by {
        crate::rt_laws::law_a_step_loses_no_wakeup(
            before,
            registry,
            after,
            registry_after,
            action,
            id,
        );
    }
}

/// Taking the first ready task to poll it loses none.
proof fn lemma_popped<F>(before: Runtime<F>, after: Runtime<F>, task: Task<F>)
    requires
        before.wf(),
        !(before.stage is Polling),
        before.ready_queue@.len() > 0,
        task == before.ready_queue@[0],
        after.ready_queue@ == before.ready_queue@.skip(1),
        after.waiting_tasks == before.waiting_tasks,
        after.task_spawner == before.task_spawner,
        after.stage == RunStage::Polling(task.id),
    ensures
        after.wf(),
        forall|id: TaskId| #[trigger] after.knows(id) <==> before.knows(id),
{
    let was = before.active();
    let now = after.active();
    let n = was.len() as int;
    assert(now.len() == n);
    assert(was[0] == task.id);
    assert forall|k: int| 0 <= k < n - 1 implies now[k] == was[k + 1] by {}
    assert(now[n - 1] == task.id);
    assert forall|i: int, j: int| 0 <= i < n && 0 <= j < n && i != j implies now[i] != now[j] by {
        let a = if i == n - 1 { 0 } else { i + 1 };
        let b = if j == n - 1 { 0 } else { j + 1 };
        assert(was[a] == now[i]);
        assert(was[b] == now[j]);
    }
    assert forall|k: int| 0 <= k < n implies #[trigger] now[k] < after.task_spawner.next_task_id
        && !after.waiting_tasks@.contains_key(now[k]) by {
        let a = if k == n - 1 { 0 } else { k + 1 };
        assert(was[a] == now[k]);
    }
    assert forall|id: TaskId| #[trigger] after.knows(id) <==> before.knows(id) by {
        if now.contains(id) {
            let k = now.index_of(id);
            let a = if k == n - 1 { 0 } else { k + 1 };
            assert(was[a] == id);
        }
        if was.contains(id) {
            let a = was.index_of(id);
            let k = if a == 0 { n - 1 } else { a - 1 };
            assert(now[k] == id);
        }
    }
}

/// What a task's channel means to whoever joins the task: where nothing will be sent
/// any more, the task was aborted.
pub open spec fn spec_joined<T>(received: Option<Result<T, RecvError>>) -> Option<
    Result<T, JoinError>,
> {
    match received {
        Some(Ok(value)) => Some(Ok(value)),
        Some(Err(_)) => Some(Err(JoinError::TaskAborted)),
        None => None,
    }
}

/// A handle that can be awaited to get the result of a spawned task.
#[derive(Debug)]
pub struct JoinHandle {
    /// Where the task leaves its result.
    pub receiver: Receiver,
}

impl JoinHandle {
    /// Polls for the task's result.
    pub fn poll<T, W>(&mut self, channel: &mut Channel<T, W>, waker: W) -> (joined: Option<
        Result<T, JoinError>,
    >)
        ensures
            exists|received: Option<Result<T, RecvError>>|
                #[trigger] old(channel).polled(waker, *final(channel), received) && joined
                    == spec_joined(received),
    {
        match self.receiver.poll(channel, waker) {
            Some(Ok(value)) => Some(Ok(value)),
            Some(Err(_)) => Some(Err(JoinError::TaskAborted)),
            None => None,
        }
    }
}

impl<F> Default for Runtime<F> {
    fn default() -> (runtime: Self)
        ensures
            runtime.wf(),
            !runtime.running,
            runtime.ready_queue@.len() == 0,
            runtime.waiting_tasks@ == Map::<TaskId, Task<F>>::empty(),
            runtime.task_spawner.pending_spawns@.len() == 0,
            runtime.stage == RunStage::Idle,
    {
        Runtime::new()
    }
}

/// Moving a task from those that wait to those that are ready loses none.
proof fn lemma_made_ready<F>(before: Runtime<F>, after: Runtime<F>, task: Task<F>)
    requires
        before.wf(),
        before.waiting_tasks@.contains_key(task.id),
        before.waiting_tasks@[task.id] == task,
        after.waiting_tasks@ == before.waiting_tasks@.remove(task.id),
        after.ready_queue@ == before.ready_queue@.push(task),
        after.task_spawner == before.task_spawner,
        after.stage == before.stage,
    ensures
        after.wf(),
        forall|id: TaskId| #[trigger] after.knows(id) <==> before.knows(id),
{
    let front = ids(before.ready_queue@);
    let back = ids(before.task_spawner.pending_spawns@) + match before.stage {
        RunStage::Polling(id) => seq![id],
        _ => Seq::empty(),
    };
    assert(before.active() =~= front + back);
    assert(ids(after.ready_queue@) =~= front.push(task.id));
    assert(after.active() =~= front.push(task.id) + back);
    assert(!before.active().contains(task.id)) by {
        if before.active().contains(task.id) {
            let k = before.active().index_of(task.id);
            assert(!before.waiting_tasks@.contains_key(before.active()[k]));
        }
    }
    lemma_added(front, back, task.id);
    assert forall|k: int| 0 <= k < after.active().len() implies #[trigger] after.active()[k]
        < after.task_spawner.next_task_id && !after.waiting_tasks@.contains_key(after.active()[k]) by {
        let x = after.active()[k];
        assert(after.active().contains(x));
        if x != task.id {
            let j = before.active().index_of(x);
            assert(before.active()[j] == x);
        }
    }
    assert forall|id: TaskId| #[trigger] after.knows(id) <==> before.knows(id) by {
        assert(after.active().contains(id) <==> id == task.id || before.active().contains(id));
    }
}

/// Adding a new element in the middle keeps elements distinct.
proof fn lemma_added(front: Seq<TaskId>, back: Seq<TaskId>, id: TaskId)
    requires
        (front + back).no_duplicates(),
        !(front + back).contains(id),
    ensures
        (front.push(id) + back).no_duplicates(),
        forall|x: TaskId|
            #[trigger] (front.push(id) + back).contains(x) <==> x == id || (front + back).contains(
                x,
            ),
{
    let was = front + back;
    let now = front.push(id) + back;
    let n = front.len() as int;
    assert forall|i: int, j: int| 0 <= i < now.len() && 0 <= j < now.len() && i != j implies now[i]
        != now[j] by {
        let a = if i <= n { i } else { i - 1 };
        let b = if j <= n { j } else { j - 1 };
        if i == n {
            assert(was[b] == now[j]);
            assert(was.contains(was[b]));
        } else if j == n {
            assert(was[a] == now[i]);
            assert(was.contains(was[a]));
        } else {
            assert(was[a] == now[i]);
            assert(was[b] == now[j]);
        }
    }
    assert forall|x: TaskId| #[trigger] now.contains(x) <==> x == id || was.contains(x) by {
        if now.contains(x) && x != id {
            let i = now.index_of(x);
            let a = if i <= n { i } else { i - 1 };
            assert(was[a] == x);
        }
        if was.contains(x) {
            let a = was.index_of(x);
            let i = if a < n { a } else { a + 1 };
            assert(now[i] == x);
        }
        assert(now[n] == id);
    }
}

/// A future that yields control once.
#[derive(Debug)]
pub struct YieldNow {
    /// Whether control has been yielded.
    pub yielded: bool,
}

impl YieldNow {
    /// A future that has not yielded.
    pub fn new() -> (future: Self)
        ensures
            !future.yielded,
    {
        YieldNow { yielded: false }
    }

    /// Polls the future. The first poll is pending, and its task is to be woken at
    /// once so that it is polled again; from then on it is ready.
    pub fn poll(&mut self) -> (ready: bool)
        ensures
            ready == old(self).yielded,
            final(self).yielded,
    {
        if self.yielded {
            true
        } else {
            self.yielded = true;
            false
        }
    }
}

} // verus!
