//! The task runtime and its channels, running real futures.

use futures::channel::oneshot as remote;
use std::cell::RefCell;
use std::future::Future;
use std::pin::Pin;
use std::rc::Rc;
use std::sync::{Arc, Mutex};
use std::task::{Context, Poll, Wake, Waker};
use win_ioring::join::{Received, ThreadSafeJoinHandle};
use win_ioring::oneshot::{self, Channel, RecvError, SendError};
use win_ioring::rt::{
    JoinError, JoinHandle, RunAction, Runtime, ThreadSafeWakerHandle, WakerRegistry, WakerType,
    YieldNow,
};

type Job = Pin<Box<dyn Future<Output = ()>>>;

/// Wakes a task from the runtime's own thread.
struct Local {
    id: u64,
    woken: Arc<Mutex<Vec<u64>>>,
}

impl Wake for Local {
    fn wake(self: Arc<Self>) {
        self.woken.lock().unwrap().push(self.id);
    }
}

/// Wakes a task from any thread.
struct Shared {
    handle: ThreadSafeWakerHandle,
    registry: Arc<Mutex<WakerRegistry>>,
}

impl Wake for Shared {
    fn wake(self: Arc<Self>) {
        self.handle.wake(&mut self.registry.lock().unwrap());
    }
}

/// Polls what the runtime names.
#[derive(Clone)]
struct Executor {
    core: Rc<RefCell<Runtime<Job>>>,
    registry: Arc<Mutex<WakerRegistry>>,
    woken: Arc<Mutex<Vec<u64>>>,
}

struct Join<T> {
    handle: JoinHandle,
    channel: Rc<RefCell<Channel<T, Waker>>>,
}

impl<T> Future for Join<T> {
    type Output = Result<T, JoinError>;

    fn poll(self: Pin<&mut Self>, cx: &mut Context<'_>) -> Poll<Self::Output> {
        let this = self.get_mut();
        let mut channel = this.channel.borrow_mut();
        match this.handle.poll(&mut channel, cx.waker().clone()) {
            Some(joined) => Poll::Ready(joined),
            None => Poll::Pending,
        }
    }
}

struct RemoteJoin<T> {
    handle: ThreadSafeJoinHandle<T>,
}

impl<T> Future for RemoteJoin<T> {
    type Output = Result<T, JoinError>;

    fn poll(self: Pin<&mut Self>, cx: &mut Context<'_>) -> Poll<Self::Output> {
        match self.get_mut().handle.poll(cx) {
            Some(joined) => Poll::Ready(joined),
            None => Poll::Pending,
        }
    }
}

struct Tx<T> {
    half: oneshot::Sender,
    channel: Rc<RefCell<Channel<T, Waker>>>,
}

struct Rx<T> {
    half: oneshot::Receiver,
    channel: Rc<RefCell<Channel<T, Waker>>>,
}

fn channel<T>() -> (Tx<T>, Rx<T>) {
    let (sender, receiver, made) = oneshot::channel();
    let shared = Rc::new(RefCell::new(made));
    (Tx { half: sender, channel: Rc::clone(&shared) }, Rx { half: receiver, channel: shared })
}

impl<T> Tx<T> {
    fn send(self, value: T) -> Result<(), SendError<T>> {
        let mut channel = self.channel.borrow_mut();
        if self.half.send(&mut channel, value)? {
            channel.waker.as_ref().unwrap().wake_by_ref();
        }
        Ok(())
    }
}

impl<T> Future for Rx<T> {
    type Output = Result<T, RecvError>;

    fn poll(self: Pin<&mut Self>, cx: &mut Context<'_>) -> Poll<Self::Output> {
        let this = self.get_mut();
        let mut channel = this.channel.borrow_mut();
        match this.half.poll(&mut channel, cx.waker().clone()) {
            Some(received) => Poll::Ready(received),
            None => Poll::Pending,
        }
    }
}

struct Yielding(YieldNow);

impl Future for Yielding {
    type Output = ();

    fn poll(mut self: Pin<&mut Self>, cx: &mut Context<'_>) -> Poll<()> {
        if self.0.poll() {
            Poll::Ready(())
        } else {
            cx.waker().wake_by_ref();
            Poll::Pending
        }
    }
}

fn yield_now() -> Yielding {
    Yielding(YieldNow::new())
}

impl Executor {
    fn new() -> Executor {
        Executor {
            core: Rc::new(RefCell::new(Runtime::new())),
            registry: Arc::new(Mutex::new(WakerRegistry::new())),
            woken: Arc::new(Mutex::new(Vec::new())),
        }
    }

    fn spawn<F>(&self, future: F) -> Join<F::Output>
    where
        F: Future + 'static,
    {
        let (tx, rx) = channel();
        let job = async move {
            let result = future.await;
            let _ = tx.send(result);
        };
        self.core.borrow_mut().spawn(Box::pin(job));
        Join { handle: JoinHandle { receiver: rx.half }, channel: rx.channel }
    }

    fn spawn_detached<F>(&self, future: F)
    where
        F: Future<Output = ()> + 'static,
    {
        self.core.borrow_mut().spawn_detached(Box::pin(future));
    }

    fn spawn_thread_safe<F>(&self, future: F) -> RemoteJoin<F::Output>
    where
        F: Future + 'static,
        F::Output: 'static,
    {
        let (tx, rx) = remote::channel();
        let job = async move {
            let result = future.await;
            let _ = tx.send(result);
        };
        let handle = self.core.borrow_mut().spawn_thread_safe(Box::pin(job), rx);
        RemoteJoin { handle }
    }

    fn pending_tasks(&self) -> usize {
        self.core.borrow().pending_tasks()
    }

    fn take_wakes(&self) {
        let woken: Vec<u64> = self.woken.lock().unwrap().drain(..).collect();
        for id in woken {
            self.core.borrow_mut().waker_registry.wake_task(id);
        }
    }

    fn run_until(&self, mut should_stop: impl FnMut() -> bool) {
        self.core.borrow_mut().run();
        assert!(self.core.borrow().is_running());
        loop {
            self.take_wakes();
            let stop = should_stop();
            let action = {
                let mut registry = self.registry.lock().unwrap();
                self.core.borrow_mut().step(&mut registry, stop)
            };
            match action {
                RunAction::Continue | RunAction::Yield => {}
                RunAction::Finished => break,
                RunAction::Poll(mut task, waker) => {
                    let waker = match waker.waker_type {
                        WakerType::SingleThreaded => Waker::from(Arc::new(Local {
                            id: waker.task_id,
                            woken: Arc::clone(&self.woken),
                        })),
                        WakerType::ThreadSafe => Waker::from(Arc::new(Shared {
                            handle: ThreadSafeWakerHandle { task_id: waker.task_id },
                            registry: Arc::clone(&self.registry),
                        })),
                    };
                    let mut cx = Context::from_waker(&waker);
                    let complete = task.future.as_mut().poll(&mut cx).is_ready();
                    self.take_wakes();
                    let mut registry = self.registry.lock().unwrap();
                    self.core.borrow_mut().task_polled(&mut registry, task, complete);
                }
            }
        }
        assert!(!self.core.borrow().is_running());
    }

    fn run(&self) {
        self.run_until(|| false);
    }

    fn block_on<F>(&self, future: F) -> F::Output
    where
        F: Future + 'static,
        F::Output: 'static,
    {
        let result = Rc::new(RefCell::new(None));
        let place = Rc::clone(&result);
        self.spawn_detached(async move {
            let output = future.await;
            *place.borrow_mut() = Some(output);
        });
        self.run_until(|| result.borrow().is_some());
        let output = result.borrow_mut().take();
        output.expect("Future should have completed")
    }
}

#[test]
fn test_runtime_creation() {
    let runtime: Runtime<Job> = Runtime::new();
    assert!(!runtime.is_running());
    assert_eq!(runtime.pending_tasks(), 0);
    let default: Runtime<Job> = Runtime::default();
    assert_eq!(default.pending_tasks(), 0);
}

#[test]
fn test_spawn_and_run() {
    let runtime = Executor::new();

    runtime.spawn(async {
        println!("Hello from async task!");
    });

    assert_eq!(runtime.pending_tasks(), 1);
    runtime.run();
    assert_eq!(runtime.pending_tasks(), 0);
}

#[test]
fn test_yield_now() {
    let runtime = Executor::new();

    runtime.spawn(async {
        println!("Before yield");
        yield_now().await;
        println!("After yield");
    });

    runtime.run();
    assert_eq!(runtime.pending_tasks(), 0);
}

#[test]
fn test_multiple_tasks() {
    let runtime = Executor::new();

    for i in 0..3 {
        runtime.spawn(async move {
            println!("Task {i}");
            yield_now().await;
            println!("Task {i} after yield");
        });
    }

    runtime.run();
    assert_eq!(runtime.pending_tasks(), 0);
}

#[test]
fn test_oneshot_channel() {
    let runtime = Executor::new();
    let (sender, receiver) = channel::<i32>();

    // Spawn receiver task
    runtime.spawn(async move {
        match receiver.await {
            Ok(value) => println!("Received: {value}"),
            Err(_) => println!("Receive error"),
        }
    });

    // Spawn sender task
    runtime.spawn(async move {
        println!("Sending value...");
        sender.send(42).unwrap();
        println!("Value sent!");
    });

    runtime.run();
}

#[test]
fn test_oneshot_communication_between_tasks() {
    let runtime = Executor::new();
    let (tx1, rx1) = channel::<String>();
    let (tx2, rx2) = channel::<i32>();

    // Task 1: waits for string, then sends number
    runtime.spawn(async move {
        let message = rx1.await.unwrap();
        println!("Task 1 received: {message}");
        tx2.send(message.len() as i32).unwrap();
        println!("Task 1 sent length: {}", message.len());
    });

    // Task 2: sends string, then waits for number
    runtime.spawn(async move {
        tx1.send("Hello, World!".to_string()).unwrap();
        println!("Task 2 sent string");

        let length = rx2.await.unwrap();
        println!("Task 2 received length: {length}");
        assert_eq!(length, 13);
    });

    runtime.run();
}

#[test]
fn test_multiple_oneshot_channels() {
    let runtime = Executor::new();
    let mut senders = Vec::new();
    let mut receivers = Vec::new();

    // Create multiple channels
    for _ in 0..3 {
        let (tx, rx) = channel::<i32>();
        senders.push(tx);
        receivers.push(rx);
    }

    // Spawn receiver tasks
    for (i, rx) in receivers.into_iter().enumerate() {
        runtime.spawn(async move {
            let value = rx.await.unwrap();
            println!("Receiver {i} got: {value}");
            assert_eq!(value, i as i32 * 10);
        });
    }

    // Spawn sender tasks
    for (i, tx) in senders.into_iter().enumerate() {
        runtime.spawn(async move {
            let value = i as i32 * 10;
            tx.send(value).unwrap();
            println!("Sender {i} sent: {value}");
        });
    }

    runtime.run();
}

#[test]
fn test_spawn_from_within_task() {
    let runtime = Executor::new();
    let handle = runtime.clone();

    runtime.spawn(async move {
        println!("Parent task starting");

        // Spawn a child task from within the task
        handle.spawn(async {
            println!("Child task 1 executing");
        });

        // Spawn another child task
        handle.spawn(async {
            println!("Child task 2 executing");
            yield_now().await;
            println!("Child task 2 after yield");
        });

        yield_now().await;
        println!("Parent task after yield");
    });

    runtime.run();
    assert_eq!(runtime.pending_tasks(), 0);
}

#[test]
fn test_recursive_spawning() {
    let runtime = Executor::new();
    let handle = runtime.clone();

    runtime.spawn(async move {
        println!("Level 1 task");

        let handle_clone = handle.clone();
        handle.spawn(async move {
            println!("Level 2 task");

            handle_clone.spawn(async {
                println!("Level 3 task");
            });

            yield_now().await;
            println!("Level 2 task after yield");
        });

        yield_now().await;
        println!("Level 1 task after yield");
    });

    runtime.run();
    assert_eq!(runtime.pending_tasks(), 0);
}

#[test]
fn test_spawn_with_communication() {
    let runtime = Executor::new();
    let handle = runtime.clone();
    let (tx1, rx1) = channel::<String>();
    let (tx2, rx2) = channel::<i32>();

    runtime.spawn(async move {
        println!("Main task starting");

        // Spawn a task that will send data
        handle.spawn(async move {
            println!("Sender task running");
            tx1.send("Hello from spawned task!".to_string()).unwrap();
        });

        // Wait for the message
        let message = rx1.await.unwrap();
        println!("Main task received: {message}");

        // Spawn another task with the message length
        let handle_clone = handle.clone();
        handle_clone.spawn(async move {
            tx2.send(message.len() as i32).unwrap();
        });

        let length = rx2.await.unwrap();
        println!("Message length: {length}");
        assert_eq!(length, 24);
    });

    runtime.run();
}

#[test]
fn test_block_on_simple() {
    let runtime = Executor::new();

    let result = runtime.block_on(async { 42 });

    assert_eq!(result, 42);
}

#[test]
fn test_block_on_with_yield() {
    let runtime = Executor::new();

    let result = runtime.block_on(async {
        yield_now().await;
        "Hello, World!"
    });

    assert_eq!(result, "Hello, World!");
}

#[test]
fn test_block_on_with_communication() {
    let runtime = Executor::new();
    let handle = runtime.clone();

    let result = runtime.block_on(async move {
        let (tx, rx) = channel::<i32>();

        // Spawn a task that will send a value
        handle.spawn(async move {
            yield_now().await;
            tx.send(123).unwrap();
        });

        // Wait for the value
        rx.await.unwrap()
    });

    assert_eq!(result, 123);
}

#[test]
fn test_block_on_with_multiple_spawns() {
    let runtime = Executor::new();
    let handle = runtime.clone();

    let result = runtime.block_on(async move {
        let (tx1, rx1) = channel::<String>();
        let (tx2, rx2) = channel::<i32>();

        // Spawn first task
        handle.spawn_detached(async move {
            yield_now().await;
            tx1.send("First".to_string()).unwrap();
        });

        // Spawn second task
        let handle_clone = handle.clone();
        handle_clone.spawn_detached(async move {
            yield_now().await;
            tx2.send(456).unwrap();
        });

        // Wait for both results
        let msg = rx1.await.unwrap();
        let num = rx2.await.unwrap();

        format!("{msg}: {num}")
    });

    assert_eq!(result, "First: 456");
}

#[test]
fn test_join_handle_basic() {
    let runtime = Executor::new();

    let join_handle = runtime.spawn(async {
        yield_now().await;
        42
    });

    let result = runtime.block_on(async move { join_handle.await.unwrap() });

    assert_eq!(result, 42);
}

#[test]
fn test_join_handle_string_result() {
    let runtime = Executor::new();

    let join_handle = runtime.spawn(async {
        yield_now().await;
        "Hello from task!".to_string()
    });

    let result = runtime.block_on(async move { join_handle.await.unwrap() });

    assert_eq!(result, "Hello from task!");
}

#[test]
fn test_multiple_join_handles() {
    let runtime = Executor::new();

    let handle1 = runtime.spawn(async {
        yield_now().await;
        10
    });

    let handle2 = runtime.spawn(async {
        yield_now().await;
        20
    });

    let handle3 = runtime.spawn(async {
        yield_now().await;
        30
    });

    let result = runtime.block_on(async move {
        let a = handle1.await.unwrap();
        let b = handle2.await.unwrap();
        let c = handle3.await.unwrap();
        a + b + c
    });

    assert_eq!(result, 60);
}

#[test]
fn test_join_handle_with_communication() {
    let runtime = Executor::new();
    let handle = runtime.clone();

    let join_handle = runtime.spawn(async move {
        let (tx, rx) = channel::<i32>();

        // Spawn a task that will send a value
        handle.spawn_detached(async move {
            yield_now().await;
            tx.send(100).unwrap();
        });

        // Wait for the value and return it
        rx.await.unwrap()
    });

    let result = runtime.block_on(async move { join_handle.await.unwrap() });

    assert_eq!(result, 100);
}

#[test]
fn test_nested_join_handles() {
    let runtime = Executor::new();
    let handle = runtime.clone();

    let join_handle = runtime.spawn(async move {
        let inner_handle = handle.spawn(async {
            yield_now().await;
            "inner result".to_string()
        });

        let inner_result = inner_handle.await.unwrap();
        format!("outer: {inner_result}")
    });

    let result = runtime.block_on(async move { join_handle.await.unwrap() });

    assert_eq!(result, "outer: inner result");
}

#[test]
fn test_spawn_thread_safe_basic() {
    let runtime = Executor::new();

    let join_handle = runtime.spawn_thread_safe(async {
        yield_now().await;
        42
    });

    let result = runtime.block_on(async move { join_handle.await.unwrap() });

    assert_eq!(result, 42);
}

#[test]
fn test_spawn_thread_safe_with_waker_handle() {
    let runtime = Executor::new();

    let join_handle = runtime.spawn_thread_safe(async {
        yield_now().await;
        "thread-safe task result".to_string()
    });

    // Get the waker handle for potential cross-thread waking
    let _waker_handle = join_handle.handle.waker_handle();

    let result = runtime.block_on(async move { join_handle.await.unwrap() });

    assert_eq!(result, "thread-safe task result");
}

#[test]
fn test_spawn_thread_safe_from_handle() {
    let runtime = Executor::new();
    let handle = runtime.clone();

    let join_handle = runtime.spawn(async move {
        let thread_safe_handle = handle.spawn_thread_safe(async {
            yield_now().await;
            100
        });

        thread_safe_handle.await.unwrap()
    });

    let result = runtime.block_on(async move { join_handle.await.unwrap() });

    assert_eq!(result, 100);
}

#[test]
fn test_thread_safe_join_handle_uses_futures_oneshot() {
    let rt = Executor::new();

    // Spawn a thread-safe task
    let join_handle = rt.spawn_thread_safe(async { 42 });

    // Verify we can get a waker handle (this proves it's using the thread-safe version)
    let _waker_handle = join_handle.handle.waker_handle();

    // Complete the task
    let result = rt.block_on(join_handle).unwrap();
    assert_eq!(result, 42);
}

#[test]
fn test_mixed_spawn_types() {
    let runtime = Executor::new();
    let handle = runtime.clone();

    let join_handle = runtime.spawn(async move {
        // Regular spawn
        let regular_handle = handle.spawn(async {
            yield_now().await;
            10
        });

        // Thread-safe spawn
        let thread_safe_handle = handle.spawn_thread_safe(async {
            yield_now().await;
            20
        });

        let a = regular_handle.await.unwrap();
        let b = thread_safe_handle.await.unwrap();
        a + b
    });

    let result = runtime.block_on(async move { join_handle.await.unwrap() });

    assert_eq!(result, 30);
}

#[test]
fn tasks_run_in_the_order_they_became_ready() {
    let runtime = Executor::new();
    let log = Rc::new(RefCell::new(Vec::new()));
    for i in 0..3 {
        let log = Rc::clone(&log);
        runtime.spawn(async move {
            log.borrow_mut().push(i);
            yield_now().await;
            log.borrow_mut().push(i + 10);
        });
    }
    runtime.run();
    assert_eq!(*log.borrow(), vec![0, 1, 2, 10, 11, 12]);
}

#[test]
fn a_stopped_run_keeps_its_tasks() {
    let runtime = Executor::new();
    for _ in 0..3 {
        runtime.spawn(async { yield_now().await });
    }
    let polled = Rc::new(RefCell::new(0));
    let seen = Rc::clone(&polled);
    runtime.spawn_detached(async move {
        *seen.borrow_mut() += 1;
    });
    runtime.run_until(|| true);
    assert_eq!(*polled.borrow(), 0);
    assert_eq!(runtime.pending_tasks(), 4);
    runtime.run();
    assert_eq!(*polled.borrow(), 1);
    assert_eq!(runtime.pending_tasks(), 0);
}

#[test]
fn a_woken_task_is_made_ready_once() {
    let mut runtime: Runtime<u8> = Runtime::new();
    let mut registry = WakerRegistry::new();
    let id = runtime.spawn(7);
    runtime.run();
    assert!(matches!(runtime.step(&mut registry, false), RunAction::Continue));
    let task = match runtime.step(&mut registry, false) {
        RunAction::Poll(task, waker) => {
            assert_eq!((task.id, task.future), (id, 7));
            assert_eq!(waker.waker_type, WakerType::SingleThreaded);
            task
        }
        _ => panic!("a ready task is polled"),
    };
    // Woken twice while it is being polled, and once for a task that does not exist.
    runtime.waker_registry.wake_task(id);
    runtime.waker_registry.wake_task(id);
    runtime.waker_registry.wake_task(99);
    assert_eq!(runtime.waker_registry.woken_tasks, vec![id, id]);
    runtime.task_polled(&mut registry, task, false);
    assert_eq!(runtime.pending_tasks(), 1);
    runtime.process_woken_tasks();
    assert_eq!(runtime.ready_queue.len(), 1);
    assert_eq!(runtime.waiting_tasks.len(), 0);
}

#[test]
fn a_runtime_whose_tasks_all_wait_yields() {
    let mut runtime: Runtime<u8> = Runtime::new();
    let mut registry = WakerRegistry::new();
    let handle = {
        let (_tx, rx) = remote::channel::<()>();
        runtime.spawn_thread_safe(1, rx).waker_handle()
    };
    assert_eq!(runtime.get_thread_safe_waker(handle.task_id), handle);
    runtime.run();
    runtime.step(&mut registry, false);
    let task = match runtime.step(&mut registry, false) {
        RunAction::Poll(task, _) => task,
        _ => panic!("a ready task is polled"),
    };
    runtime.task_polled(&mut registry, task, false);
    runtime.step(&mut registry, false);
    runtime.step(&mut registry, false);
    assert!(matches!(runtime.step(&mut registry, false), RunAction::Yield));
    // Woken from elsewhere, it is ready again after the next round.
    handle.wake(&mut registry);
    runtime.process_thread_safe_woken_tasks(&mut registry);
    assert_eq!(runtime.ready_queue.len(), 1);
    runtime.stop();
    assert!(matches!(runtime.step(&mut registry, false), RunAction::Finished));
    assert!(!runtime.is_running());
    assert_eq!(runtime.pending_tasks(), 1);
}

#[test]
fn a_value_is_received_once() {
    let waker = Waker::noop();
    let (sender, mut receiver, mut shared) = oneshot::channel::<i32, Waker>();
    assert!(receiver.poll(&mut shared, waker.clone()).is_none());
    assert_eq!(sender.send(&mut shared, 9), Ok(true), "a receiver that waits is to be woken");
    assert_eq!(receiver.poll(&mut shared, waker.clone()), Some(Ok(9)));
    assert_eq!(receiver.poll(&mut shared, waker.clone()), Some(Err(RecvError)));
}

#[test]
fn sending_to_a_dropped_receiver_gives_the_value_back() {
    let (sender, receiver, mut shared) = oneshot::channel::<i32, Waker>();
    receiver.dropped(&mut shared);
    assert_eq!(sender.send(&mut shared, 5), Err(SendError(5)));
}

#[test]
fn a_task_that_leaves_no_result_was_aborted() {
    let runtime = Executor::new();
    let (tx, rx) = remote::channel::<i32>();
    drop(tx);
    let handle = runtime.core.borrow_mut().spawn_thread_safe(Box::pin(async {}), rx);
    let joined = runtime.block_on(RemoteJoin { handle });
    assert_eq!(joined, Err(JoinError::TaskAborted));
    assert_eq!(Received::<i32>::Canceled.joined(), Some(Err(JoinError::TaskAborted)));
    assert_eq!(Received::Value(3).joined(), Some(Ok(3)));
    assert_eq!(Received::<i32>::Pending.joined(), None);

    let (_, receiver, mut shared) = oneshot::channel::<i32, Waker>();
    shared.state = oneshot::ChannelState::Closed;
    let mut handle = JoinHandle { receiver };
    let joined = handle.poll(&mut shared, Waker::noop().clone());
    assert_eq!(joined, Some(Err(JoinError::TaskAborted)));
}

#[test]
fn test_thread_safe_cross_thread_communication_simple() {
    let rt = Executor::new();

    // A thread-safe task that waits for what never comes.
    let join_handle = rt.spawn_thread_safe(futures::future::pending::<i32>());
    let waker_handle = join_handle.handle.waker_handle();

    // Another wakes it through the registry that threads share.
    let registry = Arc::clone(&rt.registry);
    let sender_handle = rt.spawn_thread_safe(async move {
        waker_handle.wake(&mut registry.lock().unwrap());
        42
    });

    let result = rt.block_on(async { sender_handle.await.unwrap() });

    assert_eq!(result, 42);
}

#[test]
fn test_cross_runtime_communication() {
    // Two runtimes, joined by a channel of `futures`.
    let (futures_tx, futures_rx) = remote::channel::<i32>();
    let rt1 = Executor::new();
    let rt2 = Executor::new();

    let received = rt2.spawn_thread_safe(async move { futures_rx.await.unwrap_or(-1) });
    let sent = rt1.spawn_thread_safe(async move {
        for _ in 0..10 {
            yield_now().await;
        }
        let _ = futures_tx.send(123);
        "sender_done"
    });

    let sender_result = rt1.block_on(async move { sent.await.unwrap() });
    let received_value = rt2.block_on(async move { received.await.unwrap() });

    assert_eq!(sender_result, "sender_done");
    assert_eq!(received_value, 123);
}
