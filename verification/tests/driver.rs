//! The driver, run against a stand-in for the platform.

use std::cell::{Cell, RefCell};
use std::collections::VecDeque;
use std::rc::Rc;
use win_ioring::driver::{
    CancelRequest, CancelTarget, Carried, Completion, Delivery, DriverInner, ShutdownMode,
};
use win_ioring::error::{BufError, Condition, Error, RingError};
use win_ioring::event::ArmedState;
use win_ioring::future::{
    registered, BufOpState, BufResult, FlushFuture, FlushState, OpFuture, ReadFuture, ReadOutcome,
    Registered, RegisteredOpFuture, RegistrationFuture, ResultSlot, WriteFuture,
};
use win_ioring::handle::{
    DataRef, Entry, EntryKind, FileTarget, HandleRef, OperationId, Queued, SubmissionCounts,
};
use win_ioring::park::{drop_park, poll_park, ShutdownComplete};
use win_ioring::pass::{Action, Next, Pass};
use win_ioring::registry::{RegisteredBuf, RegisteredBuffers, RegistryInner};
use win_ioring::sequential::Guarded;
use win_ioring::slab::{Lifecycle, Lookup, Observer};
use win_ioring::teardown::{
    begin_drop, may_retry_close, Setup, StepOutcome, Teardown, DRAIN_TIMEOUT_MS, RESIDUE_ATTEMPTS,
    SLOW_DRAIN_INTERVAL,
};
use win_ioring::token::{Token, TokenKind};

/// A waker that counts how often it was woken.
type Waker = Rc<Cell<usize>>;
type Slot<B> = Rc<RefCell<ResultSlot<B, String, Waker>>>;
type Driver<B> = DriverInner<B, String, Slot<B>, Waker>;

/// The platform's "unspecified failure".
const E_FAIL: i32 = 0x8000_4005_u32 as i32;
/// The platform's "operation aborted".
const ABORTED: i32 = 0x8007_03E3_u32 as i32;
/// The platform's "element not found".
const NOT_FOUND: i32 = 0x8007_0490_u32 as i32;

/// A file that answers at once.
const FILE: isize = 10;
/// A pipe nobody writes to: its reads stay with the kernel.
const PIPE: isize = 20;

fn waker() -> Waker {
    Rc::new(Cell::new(0))
}

fn wake(waker: Option<Waker>) {
    if let Some(waker) = waker {
        waker.set(waker.get() + 1);
    }
}

#[derive(Clone, Copy)]
enum Work {
    Transfer { stuck: bool, len: u32 },
    Registration { code: i32 },
    Cancel { target: usize },
}

/// The platform's ring.
struct Ring {
    capacity: usize,
    queue: Vec<(usize, Work)>,
    held: Vec<usize>,
    done: VecDeque<Completion>,
    fail_next_submits: u32,
    withhold_reaps: u32,
    fail_next_cancels: u32,
    cancel_attempts: u32,
    fail_next_registration: bool,
    waits: usize,
    submits: usize,
}

fn completion(user_data: usize, code: i32, information: usize) -> Completion {
    Completion { user_data, code, information }
}

impl Ring {
    fn new(capacity: usize) -> Ring {
        Ring {
            capacity,
            queue: Vec::new(),
            held: Vec::new(),
            done: VecDeque::new(),
            fail_next_submits: 0,
            withhold_reaps: 0,
            fail_next_cancels: 0,
            cancel_attempts: 0,
            fail_next_registration: false,
            waits: 0,
            submits: 0,
        }
    }

    fn build(&mut self, user_data: usize, work: Work) -> Result<(), Error> {
        if self.queue.len() >= self.capacity {
            return Err(Error::of_condition(Condition::QueueFull));
        }
        self.queue.push((user_data, work));
        Ok(())
    }

    fn build_cancel(&mut self, request: &CancelRequest<String>) -> bool {
        self.cancel_attempts += 1;
        if self.fail_next_cancels > 0 {
            self.fail_next_cancels -= 1;
            return false;
        }
        assert_ne!(request.op_to_cancel, 0, "zero would cancel everything on the handle");
        let work = Work::Cancel { target: request.op_to_cancel };
        self.build(request.user_data, work).is_ok()
    }

    fn submit(&mut self, wait: usize) -> Result<u32, Error> {
        if wait > 0 {
            self.waits += 1;
        } else {
            self.submits += 1;
            if self.fail_next_submits > 0 {
                self.fail_next_submits -= 1;
                return Err(Error::of_code(E_FAIL));
            }
        }
        let taken: Vec<(usize, Work)> = self.queue.drain(..).collect();
        let entries = taken.len() as u32;
        for (user_data, work) in taken {
            match work {
                Work::Transfer { stuck: true, .. } => self.held.push(user_data),
                Work::Transfer { stuck: false, len } => {
                    self.done.push_back(completion(user_data, 0, len as usize));
                }
                Work::Registration { code } => self.done.push_back(completion(user_data, code, 0)),
                Work::Cancel { target } => {
                    let found = self.held.iter().position(|held| *held == target);
                    if let Some(at) = found {
                        self.held.remove(at);
                        self.done.push_back(completion(target, ABORTED, 0));
                    }
                    let code = if found.is_some() { 0 } else { NOT_FOUND };
                    self.done.push_back(completion(user_data, code, 0));
                }
            }
        }
        if self.done.len() < wait {
            return Err(Error::of_code(E_FAIL));
        }
        Ok(entries)
    }

    /// An operation the kernel held reports.
    fn finish(&mut self, user_data: usize, code: i32, information: usize) {
        self.held.retain(|held| *held != user_data);
        self.done.push_back(completion(user_data, code, information));
    }
}

/// A driver, its ring, and whoever observes its errors.
struct Sim<B> {
    driver: Driver<B>,
    ring: Ring,
    armed: ArmedState<Waker>,
    observed: Vec<Error>,
    passes: usize,
}

struct Reading<B> {
    future: ReadFuture<B>,
    slot: Slot<B>,
}

struct Registering<B> {
    future: RegistrationFuture,
    slot: Slot<B>,
}

struct Transferring<B> {
    future: RegisteredOpFuture<B>,
    slot: Slot<B>,
}

fn empty_slot<B>() -> Slot<B> {
    Rc::new(RefCell::new(ResultSlot::new()))
}

fn work_of(entry: &Entry) -> Work {
    let stuck = entry.handle == HandleRef::Raw(PIPE);
    Work::Transfer { stuck, len: entry.len }
}

fn file() -> Rc<String> {
    Rc::new("sample.txt".to_string())
}

impl<B> Sim<B> {
    fn new() -> Sim<B> {
        Sim::with_capacity(64)
    }

    fn with_capacity(capacity: usize) -> Sim<B> {
        Sim {
            driver: DriverInner::new(1),
            ring: Ring::new(capacity),
            armed: ArmedState::new(),
            observed: Vec::new(),
            passes: 0,
        }
    }

    fn read(&mut self, raw: isize, buffer: B, capacity: usize, len: u32, offset: u64) -> Reading<B> {
        let slot = empty_slot();
        let started = self.driver.try_read(
            file(),
            raw,
            Carried::Owned(buffer),
            capacity,
            len,
            offset,
            0,
            Ok(()),
            Rc::clone(&slot),
        );
        let future = match started {
            Err((error, buffer)) => ReadFuture::failed(error, buffer),
            Ok(entry) => {
                let token = Token::from_user_data(entry.user_data);
                let built = self.ring.build(entry.user_data, work_of(&entry));
                match self.driver.entry_built(token, built) {
                    Queued::Queued(waker) => {
                        wake(waker);
                        ReadFuture::pending(token)
                    }
                    Queued::Rejected(error, payload) => {
                        ReadFuture::failed(error, payload.buffer.unwrap())
                    }
                }
            }
        };
        Reading { future, slot }
    }

    fn register(
        &mut self,
        buffers: Vec<B>,
        sizes: &[usize],
    ) -> Result<Registering<B>, Registered<B>> {
        let slot = empty_slot();
        let lengths = sizes.to_vec();
        let started = self.driver.start_register_buffers(
            buffers,
            sizes.to_vec(),
            lengths,
            Ok(()),
            Rc::clone(&slot),
        );
        match started {
            Err((error, buffers)) => Err(Registered::Failed(error, buffers)),
            Ok(token) => {
                let code = if self.ring.fail_next_registration { E_FAIL } else { 0 };
                self.ring.fail_next_registration = false;
                let built = self.ring.build(token.as_user_data(), Work::Registration { code });
                match self.driver.entry_built(token, built) {
                    Queued::Queued(waker) => {
                        wake(waker);
                        let future = RegistrationFuture { inner: OpFuture::pending(token) };
                        Ok(Registering { future, slot })
                    }
                    Queued::Rejected(error, payload) => Err(Registered::Failed(
                        error,
                        win_ioring::handle::unbox_payload(payload),
                    )),
                }
            }
        }
    }

    fn register_files(&mut self, files: Vec<Rc<String>>) -> Registering<B> {
        let slot = empty_slot();
        let token =
            self.driver.start_register_files(files, Ok(()), Rc::clone(&slot)).expect("accepted");
        let built = self.ring.build(token.as_user_data(), Work::Registration { code: 0 });
        match self.driver.entry_built(token, built) {
            Queued::Queued(waker) => wake(waker),
            Queued::Rejected(error, _) => panic!("not queued: {error:?}"),
        }
        Registering { future: RegistrationFuture { inner: OpFuture::pending(token) }, slot }
    }

    fn transfer(
        &mut self,
        target: FileTarget<String>,
        buffer: RegisteredBuf<B>,
        offset: u32,
        len: u32,
        is_write: bool,
    ) -> Transferring<B> {
        let slot = empty_slot();
        let started = self.driver.try_registered_op(
            target,
            buffer,
            offset,
            len,
            0,
            is_write,
            Ok(()),
            Rc::clone(&slot),
        );
        let state = match started {
            Err((error, buffer)) => BufOpState::Failed(error, Carried::Registered(buffer)),
            Ok(entry) => {
                let token = Token::from_user_data(entry.user_data);
                let built = self.ring.build(entry.user_data, work_of(&entry));
                match self.driver.entry_built(token, built) {
                    Queued::Queued(waker) => {
                        wake(waker);
                        BufOpState::Waiting(OpFuture::pending(token))
                    }
                    Queued::Rejected(error, payload) => {
                        BufOpState::Failed(error, payload.buffer.unwrap())
                    }
                }
            }
        };
        Transferring { future: RegisteredOpFuture { state }, slot }
    }

    fn build_request(&mut self, request: Option<CancelRequest<String>>) {
        if let Some(request) = request {
            let enqueued = self.ring.build_cancel(&request);
            self.driver.cancel_built(Token::from_user_data(request.user_data), enqueued);
        }
    }

    fn cancel(&mut self, id: OperationId) {
        let asked = self.driver.cancel(id);
        self.build_request(asked.request);
        wake(asked.waker);
    }

    fn detach(&mut self, state: &BufOpState<B>) {
        if let BufOpState::Waiting(op) = state {
            if let Some(token) = op.to_detach() {
                let dropped = self.driver.future_dropped(token);
                self.build_request(dropped.request);
                wake(dropped.waker);
            }
        }
    }

    fn drop_read(&mut self, reading: Reading<B>) {
        self.detach(&reading.future.state);
    }

    fn drop_transfer(&mut self, transferring: Transferring<B>) {
        self.detach(&transferring.future.state);
    }

    fn deliver(&mut self, deliveries: Vec<Delivery<B, String, Slot<B>>>) {
        for delivery in deliveries {
            let slot = Rc::clone(&delivery.slot);
            let woken = slot.borrow_mut().resolve(delivery);
            wake(woken);
        }
    }

    fn flush_reports(&mut self) {
        let reports = self.driver.take_reports();
        self.observed.extend(reports);
    }

    fn run(&mut self, mut pass: Pass<B, String, Slot<B>>, reap: bool) {
        let mut popped_any = false;
        loop {
            match pass.advance(&mut self.driver) {
                Action::Continue => {}
                Action::Submit { wait, milliseconds } => {
                    assert_eq!(milliseconds, if wait > 0 { DRAIN_TIMEOUT_MS } else { 0 });
                    let result = self.ring.submit(wait);
                    pass.submitted(&mut self.driver, result);
                }
                Action::BuildCancel(request) => {
                    let enqueued = self.ring.build_cancel(&request);
                    pass.cancel_built(&mut self.driver, enqueued);
                }
                Action::PopCompletion => {
                    let withheld = !popped_any && (!reap || self.ring.withhold_reaps > 0);
                    if withheld && reap {
                        self.ring.withhold_reaps -= 1;
                    }
                    popped_any = true;
                    let next = if withheld { None } else { self.ring.done.pop_front() };
                    pass.popped(&mut self.driver, Ok(next));
                }
                Action::Finish => break,
            }
        }
        self.deliver(pass.deliveries);
    }

    /// Hands queued entries to the kernel, and looks at no completion.
    fn submit_pending(&mut self) {
        self.run(Pass::drive(), false);
    }

    /// One pass of the driver's loop.
    fn pass(&mut self) {
        self.passes += 1;
        self.run(Pass::drive(), true);
        self.flush_reports();
    }

    fn drain_step(&mut self) -> StepOutcome {
        self.run(Pass::drain(), true);
        self.driver.drain_outcome()
    }

    /// Passes until nothing is outstanding.
    fn settle(&mut self) {
        for _ in 0..1000 {
            self.pass();
            if self.driver.outstanding() == 0 {
                return;
            }
        }
        panic!("ring did not settle");
    }

    fn close(&mut self) -> Vec<RegistryInner<B>> {
        let released = self.driver.close_and_release();
        self.deliver(released.deliveries);
        for waker in released.wakers {
            wake(Some(waker));
        }
        self.flush_reports();
        released.registrations
    }

    /// What dropping the driver does.
    fn drop_driver(&mut self) -> Vec<RegistryInner<B>> {
        if !begin_drop(&mut self.driver) {
            return Vec::new();
        }
        let mut teardown = Teardown::new();
        loop {
            self.run(Pass::drain(), true);
            let outcome = teardown.step_finished(&mut self.driver);
            self.flush_reports();
            if outcome != StepOutcome::Progressing {
                break;
            }
            assert!(teardown.steps < 1000, "the drain does not converge");
        }
        self.close()
    }
}

impl Sim<Vec<u8>> {
    fn read_vec(&mut self, raw: isize, buffer: Vec<u8>, len: u32, offset: u64) -> Reading<Vec<u8>> {
        let capacity = buffer.len();
        self.read(raw, buffer, capacity, len, offset)
    }

    fn register_vecs(&mut self, sizes: &[usize]) -> RegisteredBuffers {
        let buffers: Vec<Vec<u8>> = sizes.iter().map(|n| vec![0_u8; *n]).collect();
        let mut registering = match self.register(buffers, sizes) {
            Ok(registering) => registering,
            Err(refused) => panic!("refused: {:?}", refused.err()),
        };
        for _ in 0..10 {
            self.pass();
            if let Some(outcome) = poll_registration(&mut registering) {
                return outcome.unwrap();
            }
        }
        panic!("the registration never completed");
    }

    fn check_out(
        &mut self,
        buffers: &RegisteredBuffers,
        index: u32,
    ) -> Result<RegisteredBuf<Vec<u8>>, Error> {
        buffers.check_out(Some(&mut self.driver), index)
    }

    /// The kernel writes into a parked buffer and reports.
    fn arrives(&mut self, token: Token, bytes: &[u8]) {
        let payload = self.driver.slab.payload_mut(token).expect("still parked");
        match payload.buffer.as_mut() {
            Some(Carried::Owned(buffer)) => buffer[..bytes.len()].copy_from_slice(bytes),
            _ => panic!("no buffer of the caller's own"),
        }
        self.ring.finish(token.as_user_data(), 0, bytes.len());
    }
}

fn poll_read<B>(reading: &mut Reading<B>, waker: &Waker) -> Option<ReadOutcome<B>> {
    let mut slot = reading.slot.borrow_mut();
    reading.future.poll(&mut slot, None, Rc::clone(waker))
}

fn poll_transfer<B>(
    transferring: &mut Transferring<B>,
) -> Option<BufResult<u32, Carried<B>>> {
    let mut slot = transferring.slot.borrow_mut();
    transferring.future.poll(&mut slot, waker())
}

fn poll_registration<B>(registering: &mut Registering<B>) -> Option<Registered<B>> {
    let mut slot = registering.slot.borrow_mut();
    registering.future.poll(&mut slot, waker()).map(registered)
}

fn owned<B>(buffer: Carried<B>) -> B {
    match buffer {
        Carried::Owned(buffer) => buffer,
        Carried::Registered(_) => panic!("a buffer of the caller's own was expected"),
    }
}

fn handle_of<B>(buffer: Carried<B>) -> RegisteredBuf<B> {
    match buffer {
        Carried::Registered(handle) => handle,
        Carried::Owned(_) => panic!("a registered buffer was expected"),
    }
}

/// A caller's buffer that records its own destruction.
#[derive(Debug)]
struct Counting(Rc<Cell<usize>>);

impl Drop for Counting {
    fn drop(&mut self) {
        self.0.set(self.0.get() + 1);
    }
}

/// The task that drives.
enum Drive {
    Running,
    Parked,
    Done,
}

struct Driving {
    state: Drive,
}

impl Driving {
    fn new() -> Driving {
        Driving { state: Drive::Running }
    }

    /// Polls the driving task; returns whether it has finished.
    fn poll<B>(&mut self, sim: &mut Sim<B>, waker: &Waker) -> bool {
        loop {
            match self.state {
                Drive::Done => return true,
                Drive::Running => {
                    sim.pass();
                    match sim.driver.next_after_pass() {
                        Next::Teardown => {
                            sim.drop_driver();
                            self.state = Drive::Done;
                        }
                        Next::Retry => {
                            wake(Some(Rc::clone(waker)));
                            return false;
                        }
                        Next::Park => self.state = Drive::Parked,
                    }
                }
                Drive::Parked => {
                    let parked = poll_park(
                        &mut sim.driver,
                        &mut sim.armed,
                        Rc::clone(waker),
                        Rc::clone(waker),
                    );
                    if !parked.ready {
                        return false;
                    }
                    self.state = Drive::Running;
                }
            }
        }
    }

    fn abandon<B>(self, sim: &mut Sim<B>) {
        if matches!(self.state, Drive::Parked) {
            drop_park(&mut sim.driver, &mut sim.armed);
        }
    }
}

#[test]
fn a_buffer_result_reports_success_and_failure() {
    let failed: BufResult<u32, Vec<u8>> =
        BufResult::new(Err(Error::Ring(RingError::QueueFull)), vec![1]);
    assert!(!failed.is_ok());
    assert!(matches!(failed.err(), Some(Error::Ring(RingError::QueueFull))));

    let ok: BufResult<u32, Vec<u8>> = BufResult::new(Ok(3), vec![1, 2, 3]);
    assert!(ok.is_ok());
    assert!(ok.err().is_none());
    let (n, buf) = ok.unwrap();
    assert_eq!(n, 3);
    assert_eq!(buf, vec![1, 2, 3]);
}

#[test]
fn shutdown_complete_resolves_after_teardown() {
    let mut sim: Sim<Vec<u8>> = Sim::new();
    let w = waker();

    let mut before = ShutdownComplete::new();
    assert!(!before.poll(&mut sim.driver, Rc::clone(&w)), "teardown has not happened yet");
    assert_eq!(sim.driver.shutdown_waiters.len(), 1, "the waiter must be registered");

    // Re-polling must replace this future's waker, not add a second.
    assert!(!before.poll(&mut sim.driver, Rc::clone(&w)));
    assert_eq!(sim.driver.shutdown_waiters.len(), 1, "re-polling must not accumulate wakers");

    sim.drop_driver();
    assert_eq!(w.get(), 1, "the end of teardown wakes the waiter");

    assert!(
        before.poll(&mut sim.driver, Rc::clone(&w)),
        "the signal must resolve once teardown has finished"
    );
    let mut after = ShutdownComplete::new();
    assert!(
        after.poll(&mut sim.driver, Rc::clone(&w)),
        "the signal must resolve immediately when teardown is already done"
    );
}

#[test]
fn shutdown_complete_handles_several_waiters_and_abandonment() {
    let mut sim: Sim<Vec<u8>> = Sim::new();
    let w = waker();

    let mut a = ShutdownComplete::new();
    let mut b = ShutdownComplete::new();
    let mut abandoned = ShutdownComplete::new();
    assert!(!a.poll(&mut sim.driver, Rc::clone(&w)));
    assert!(!b.poll(&mut sim.driver, Rc::clone(&w)));
    assert!(!abandoned.poll(&mut sim.driver, Rc::clone(&w)));
    assert_eq!(sim.driver.shutdown_waiters.len(), 3);

    // Abandoning a wait must deregister it.
    abandoned.dropped(&mut sim.driver);
    assert_eq!(sim.driver.shutdown_waiters.len(), 2, "a dropped waiter must be removed");

    sim.drop_driver();
    assert!(a.poll(&mut sim.driver, Rc::clone(&w)));
    assert!(b.poll(&mut sim.driver, Rc::clone(&w)));
}

#[test]
fn a_dropped_future_returns_its_handle_only_once_the_operation_reports() {
    let mut sim = Sim::new();
    let collection = sim.register_vecs(&[64]);

    let buffer = sim.check_out(&collection, 0).expect("index 0 exists");
    let target = FileTarget::Owned { file: file(), raw: FILE };
    let fut = sim.transfer(target, buffer, 0, 8, false);
    sim.submit_pending();

    // Withhold reaping so the operation cannot report, then abandon it.
    sim.drop_transfer(fut);
    assert!(
        matches!(sim.check_out(&collection, 0), Err(Error::BufferCheckedOut { index: 0 })),
        "the buffer must stay out while the kernel may still be writing it"
    );

    // Once the driver observes the completion, the handle is released.
    sim.settle();
    let back = sim
        .check_out(&collection, 0)
        .expect("the buffer must return once the operation reports");
    assert_eq!(back.buf_len(), 64, "the registered prefix was whole to begin with");
    sim.driver.release_buffer(back);

    sim.driver.shutdown_now();
    sim.drop_driver();
}

#[test]
fn re_registering_is_refused_while_a_handle_is_checked_out() {
    let mut sim = Sim::new();
    let collection = sim.register_vecs(&[64]);

    let held = sim.check_out(&collection, 0).expect("index 0 exists");

    match sim.register(vec![vec![0_u8; 32]], &[32]) {
        Err(Registered::Failed(Error::BufferCheckedOut { index }, returned)) => {
            assert_eq!(index, 0);
            assert_eq!(returned.len(), 1, "the caller's buffers must come back");
        }
        _ => panic!("expected BufferCheckedOut"),
    }

    // Returning the handle lifts the refusal.
    sim.driver.release_buffer(held);
    let second = sim.register_vecs(&[32]);
    assert_eq!(second.len(), 1);

    sim.driver.shutdown_now();
    sim.drop_driver();
}

#[test]
fn a_second_registration_is_refused_while_one_is_in_flight() {
    let mut sim = Sim::new();

    let mut first = sim.register(vec![vec![0_u8; 64]], &[64]).ok().expect("accepted");
    assert!(poll_registration(&mut first).is_none());
    assert!(
        sim.driver.registration_in_flight,
        "the first request must be recorded as in flight"
    );

    match sim.register(vec![vec![0_u8; 32]], &[32]) {
        Err(Registered::Failed(Error::RegistrationPending, returned)) => {
            assert_eq!(returned.len(), 1, "the caller's buffers must come back");
        }
        _ => panic!("expected RegistrationPending"),
    }

    sim.driver.shutdown_now();
    sim.drop_driver();
    assert!(poll_registration(&mut first).expect("resolved").is_ok());
}

#[test]
fn checkout_is_refused_while_a_registration_is_in_flight() {
    let mut sim = Sim::new();
    let collection = sim.register_vecs(&[64]);

    let mut fut = sim.register(vec![vec![0_u8; 32]], &[32]).ok().expect("accepted");
    assert!(poll_registration(&mut fut).is_none());

    assert!(
        matches!(sim.check_out(&collection, 0), Err(Error::RegistrationPending)),
        "no handle may be taken while a registration is in flight"
    );

    sim.driver.shutdown_now();
    sim.drop_driver();
}

#[test]
fn a_superseded_collection_stops_yielding_handles() {
    let mut sim = Sim::new();
    let first = sim.register_vecs(&[64]);
    let second = sim.register_vecs(&[32]);

    assert!(
        matches!(sim.check_out(&first, 0), Err(Error::RegistrationSuperseded)),
        "the superseded collection must refuse"
    );
    sim.check_out(&second, 0).expect("the current collection still yields");
    assert_eq!(sim.driver.retired_buffer_registrations.len(), 1, "the old set is retained");

    sim.driver.shutdown_now();
    sim.drop_driver();
}

#[test]
fn checkout_is_refused_once_the_driver_is_gone_but_held_bytes_survive() {
    let mut sim = Sim::new();
    let collection = sim.register_vecs(&[16]);

    let mut held = sim.check_out(&collection, 0).expect("index 0 exists");
    held.fill(sim.driver.buffer_registration.as_mut(), b"survives").expect("room enough");

    sim.driver.shutdown_now();
    sim.drop_driver();

    assert!(
        matches!(sim.check_out(&collection, 1), Err(Error::ShuttingDown)),
        "a dead driver can issue no operation, so it yields no handle"
    );
    let gone: Option<&mut Driver<Vec<u8>>> = None;
    assert!(matches!(collection.check_out(gone, 0), Err(Error::ShuttingDown)));
    drop(sim);
    assert_eq!(
        &held.bytes()[..8],
        b"survives",
        "an outstanding handle must keep its bytes readable"
    );
}

#[test]
fn a_retired_registration_survives_until_nothing_holds_it() {
    let drops = Rc::new(Cell::new(0));
    let mut sim: Sim<Counting> = Sim::new();

    let buffers = vec![Counting(Rc::clone(&drops))];
    let mut fut = sim.register(buffers, &[32]).ok().expect("accepted");
    sim.pass();
    let first = poll_registration(&mut fut).expect("completed").unwrap();
    assert_eq!(first.len(), 1);

    // Supersede it, then let the driver go.
    let other = Rc::new(Cell::new(0));
    let mut fut = sim.register(vec![Counting(Rc::clone(&other))], &[16]).ok().expect("accepted");
    sim.pass();
    let _second = poll_registration(&mut fut).expect("completed").unwrap();
    assert_eq!(drops.get(), 0);

    sim.driver.shutdown_now();
    let registrations = sim.drop_driver();
    assert_eq!(drops.get(), 0, "a collection still held must keep its buffers alive");
    assert_eq!(registrations.len(), 2);
    assert_eq!(registrations[0].id, first.id);

    drop(registrations);
    assert_eq!(drops.get(), 1, "releasing the last reference is what frees it");
}

#[test]
fn a_file_registration_does_not_clear_the_buffer_registration_flag() {
    let mut sim = Sim::new();

    // A buffer registration in flight that has not reported.
    let mut pending = sim.register(vec![vec![0_u8; 8]], &[8]).ok().expect("accepted");
    sim.submit_pending();
    let late = sim.ring.done.pop_front().expect("its completion");
    assert!(sim.driver.registration_in_flight);

    let mut files = sim.register_files(vec![file()]);
    sim.pass();
    let outcome = files.future.poll(&mut files.slot.borrow_mut(), waker()).expect("completed");
    assert!(matches!(outcome, Ok(None)), "a file registration yields no collection");
    assert!(
        sim.driver.file_registration.is_some(),
        "the file registration must have completed for this test to mean anything"
    );

    assert!(
        sim.driver.registration_in_flight,
        "a file registration must leave a pending buffer registration's flag alone"
    );

    sim.ring.done.push_back(late);
    sim.pass();
    assert!(!sim.driver.registration_in_flight);
    assert!(poll_registration(&mut pending).expect("completed").is_ok());
    sim.driver.shutdown_now();
    sim.drop_driver();
}

#[test]
fn a_full_submission_queue_returns_the_buffer_with_the_error() {
    let capacity = 2_u32;
    let mut sim = Sim::with_capacity(capacity as usize);

    // Build without ever submitting, so the queue can only fill up.
    let mut held = Vec::new();
    let mut rejected = None;
    for i in 0..(capacity + 4) {
        let marker = (i % 251) as u8;
        let fut = sim.read_vec(FILE, vec![marker; 16], 8, 0);
        // A rejected operation never reached the kernel, so it has no identifier.
        match fut.future.operation_id() {
            Some(_) => held.push(fut),
            None => {
                rejected = Some((marker, fut));
                break;
            }
        }
    }

    let (marker, mut fut) = rejected.expect("the submission queue never filled up");
    let outcome = poll_read(&mut fut, &waker()).expect("a rejection resolves at once").outcome;
    assert!(
        matches!(outcome.err(), Some(Error::Ring(RingError::QueueFull))),
        "expected QueueFull, got {:?}",
        outcome.err()
    );
    assert_eq!(
        owned(outcome.buffer),
        vec![marker; 16],
        "the rejected read must return the caller's buffer untouched"
    );
    assert_eq!(held.len(), 2);

    for fut in held {
        sim.drop_read(fut);
    }
    sim.driver.shutdown();
    sim.settle();
}

#[test]
fn registered_handle_operations_can_be_cancelled() {
    let mut sim = Sim::new();
    let mut files = sim.register_files(vec![file()]);
    let collection = sim.register_vecs(&[64]);
    assert!(files.future.poll(&mut files.slot.borrow_mut(), waker()).is_some());
    assert!(sim.driver.file_registration.is_some());
    assert!(sim.driver.buffer_registration.is_some());

    let buffer = sim.check_out(&collection, 0).expect("index 0 exists");
    let fut = sim.transfer(FileTarget::Registered { index: 0 }, buffer, 0, 8, false);
    let id = fut.future.operation_id().expect("the registered read must have been built");

    // Reach the submitted state, which is the only one a cancellation can act on.
    sim.submit_pending();
    assert!(!sim.driver.pending_submit);

    sim.cancel(id);
    assert!(
        sim.driver.pending_submit,
        "a registered-handle operation must accept a cancellation"
    );
    assert!(
        sim.driver.cancel_holds.is_empty(),
        "a registered handle needs no hold: the driver owns it already"
    );

    // Everything must settle.
    sim.drop_transfer(fut);
    sim.settle();
    sim.driver.shutdown();
}

#[test]
fn operations_built_together_share_one_submission() {
    let mut sim = Sim::new();

    let a = sim.read_vec(FILE, vec![0_u8; 64], 8, 0);
    let b = sim.read_vec(FILE, vec![0_u8; 64], 8, 8);
    let c = sim.read_vec(FILE, vec![0_u8; 64], 8, 16);
    assert_eq!(
        sim.driver.slab.outstanding(),
        3,
        "all three must be built before anything is submitted"
    );
    assert!(sim.driver.pending_submit);

    // A single submission covers all three: nothing is left owed.
    sim.submit_pending();
    assert!(
        !sim.driver.pending_submit,
        "one submission must cover every entry built since the last one"
    );

    for fut in [a, b, c] {
        sim.drop_read(fut);
    }
    sim.settle();
    sim.driver.shutdown();
}

#[test]
fn one_submission_covers_every_entry_built_since_the_last() {
    let mut sim = Sim::new();
    let before = sim.driver.submission_counts();

    let futures: Vec<Reading<Vec<u8>>> =
        (0..4).map(|i| sim.read_vec(FILE, vec![0_u8; 64], 8, i * 8)).collect();
    assert_eq!(
        sim.driver.slab.outstanding(),
        4,
        "all four must be built before anything is submitted"
    );

    sim.submit_pending();

    let after = sim.driver.submission_counts();
    assert_eq!(
        after.submissions - before.submissions,
        1,
        "four operations built together must cost exactly one submission"
    );
    assert_eq!(
        after.entries - before.entries,
        4,
        "that one submission must have covered all four entries"
    );

    for fut in futures {
        sim.drop_read(fut);
    }
    sim.settle();
    sim.driver.shutdown();
}

#[test]
fn submission_counts_start_at_zero_and_only_grow() {
    let mut sim = Sim::new();

    let initial = sim.driver.submission_counts();
    assert_eq!(
        initial,
        SubmissionCounts { submissions: 0, entries: 0 },
        "a driver that has submitted nothing must report nothing"
    );

    let mut previous = initial;
    let mut futures = Vec::new();
    for round in 0..3 {
        futures.push(sim.read_vec(FILE, vec![0_u8; 64], 8, round * 8));
        sim.submit_pending();
        let now = sim.driver.submission_counts();
        assert!(
            now.submissions >= previous.submissions && now.entries >= previous.entries,
            "counts must never decrease: {previous:?} then {now:?}"
        );
        previous = now;
    }
    assert!(
        previous.submissions > 0 && previous.entries > 0,
        "three submitted rounds must have moved both counters"
    );

    for fut in futures {
        sim.drop_read(fut);
    }
    sim.settle();
    sim.driver.shutdown();
}

#[test]
fn submission_failure_is_not_the_operations_result() {
    let mut sim = Sim::new();

    // Arrange for the next two submissions to fail.
    sim.ring.fail_next_submits = 2;
    let mut fut = sim.read_vec(FILE, vec![0_u8; 64], 20, 0);

    // First attempt fails. The slot must stay retained and the future must not be
    // resolved.
    sim.submit_pending();
    assert!(sim.driver.pending_submit, "entries must stay queued on failure");
    assert_eq!(sim.driver.slab.outstanding(), 1);
    sim.flush_reports();
    assert_eq!(sim.observed.len(), 1, "the first failure is reported");

    let w = waker();
    assert!(
        poll_read(&mut fut, &w).is_none(),
        "a submission failure must not resolve the future"
    );

    // Second attempt fails too; still no resolution.
    sim.submit_pending();
    assert!(sim.driver.pending_submit);

    // Third attempt is allowed through.
    sim.submit_pending();
    assert!(!sim.driver.pending_submit, "a successful retry clears the pending flag");

    sim.settle();
    assert_eq!(w.get(), 1, "the waiting task is woken once");
    assert!(poll_read(&mut fut, &w).is_some());
}

#[test]
fn cancelling_before_submission_is_honoured_on_promotion() {
    let mut sim = Sim::new();

    let fut = sim.read_vec(FILE, vec![0_u8; 128], 64, 0);
    let id = fut.future.operation_id().expect("read was built");
    let token = id.0;

    // The operation is only built; the kernel has never seen it.
    assert_eq!(sim.driver.slab.state(token).map(|s| s.0), Some(Lifecycle::Built));

    sim.cancel(id);
    // Cancelling repeatedly must not queue the request twice.
    sim.cancel(id);
    sim.cancel(id);

    assert_eq!(
        sim.driver.deferred_cancels.len(),
        1,
        "the request should be remembered exactly once"
    );
    assert!(
        sim.driver.cancel_holds.is_empty(),
        "nothing can be cancelled before the kernel has the operation"
    );

    // Submission promotes the operation, at which point the remembered request must
    // actually be issued.
    sim.submit_pending();
    assert!(
        sim.driver.deferred_cancels.is_empty(),
        "the remembered request should have been consumed"
    );
    assert!(
        !sim.driver.cancel_holds.is_empty(),
        "cancelling before submission was silently lost"
    );

    // The caller still observes the operation's own terminal result.
    sim.settle();
    sim.drop_read(fut);
    sim.driver.shutdown();
}

#[test]
fn dropping_a_submitted_operation_cancels_it_immediately() {
    let mut sim = Sim::new();

    let fut = sim.read_vec(FILE, vec![0_u8; 128], 64, 0);
    let token = fut.future.operation_id().expect("read was built").0;

    // Hand it to the kernel, so the drop below takes the submitted path.
    sim.submit_pending();
    assert_eq!(
        sim.driver.slab.state(token).map(|s| s.0),
        Some(Lifecycle::Submitted),
        "the operation must be submitted for this test to mean anything"
    );
    assert!(sim.driver.cancel_holds.is_empty(), "nothing should be cancelled yet");

    sim.drop_read(fut);

    // A cancellation was issued straight away, and it holds the file open independently
    // of the target's own payload.
    assert!(
        !sim.driver.cancel_holds.is_empty(),
        "dropping a submitted operation must cancel it immediately"
    );
    assert!(
        sim.driver.slab.detached_submitted_uncancelled().is_empty(),
        "the operation should no longer be a deferred candidate"
    );

    sim.settle();
    sim.driver.shutdown();
}

#[test]
fn shutdown_requests_are_idempotent_across_handles() {
    let mut sim: Sim<Vec<u8>> = Sim::new();

    assert!(!sim.driver.is_shutting_down());
    sim.driver.shutdown();
    assert!(sim.driver.is_shutting_down());

    sim.driver.shutdown();
    sim.driver.shutdown();
    assert_eq!(
        sim.driver.shutdown,
        ShutdownMode::Graceful,
        "repeating a graceful request must not change the mode"
    );
}

#[test]
fn shutdown_escalates_but_never_downgrades() {
    let mut sim: Sim<Vec<u8>> = Sim::new();

    sim.driver.shutdown();
    assert_eq!(sim.driver.shutdown, ShutdownMode::Graceful);

    sim.driver.shutdown_now();
    assert_eq!(
        sim.driver.shutdown,
        ShutdownMode::Immediate,
        "graceful must escalate to immediate"
    );

    // The reverse must not happen.
    sim.driver.shutdown();
    assert_eq!(
        sim.driver.shutdown,
        ShutdownMode::Immediate,
        "immediate must not downgrade to graceful"
    );
    assert!(ShutdownMode::Running < ShutdownMode::Graceful);
    assert!(ShutdownMode::Graceful < ShutdownMode::Immediate);
    assert!(ShutdownMode::Graceful.at_least(ShutdownMode::Graceful));
    assert!(!ShutdownMode::Graceful.at_least(ShutdownMode::Immediate));
}

#[test]
fn submissions_are_refused_once_shutdown_is_requested() {
    for escalate in [false, true] {
        let mut sim = Sim::new();

        if escalate {
            sim.driver.shutdown_now();
        } else {
            sim.driver.shutdown();
        }

        let mut fut = sim.read_vec(FILE, vec![0_u8; 32], 32, 0);
        match poll_read(&mut fut, &waker()) {
            Some(out) => assert!(
                out.outcome.err().is_some(),
                "a post-shutdown submission must fail, not succeed"
            ),
            None => panic!("a post-shutdown submission must not pend"),
        }
    }
}

#[test]
fn cancellation_is_not_suppressed_by_a_shutdown_in_progress() {
    let mut sim = Sim::new();

    let fut = sim.read_vec(FILE, vec![0_u8; 128], 64, 0);
    let token = fut.future.operation_id().expect("read was built").0;
    sim.submit_pending();
    assert_eq!(
        sim.driver.slab.state(token).map(|s| s.0),
        Some(Lifecycle::Submitted),
        "the operation must be submitted for this test to mean anything"
    );

    // Shutdown is under way but teardown has not completed.
    sim.driver.shutdown_now();
    assert!(!sim.driver.torn_down);

    sim.drop_read(fut);
    assert!(
        !sim.driver.cancel_holds.is_empty(),
        "a shutdown in progress must not suppress cancellation"
    );

    sim.settle();
}

#[test]
fn cancellation_is_deferred_until_a_built_operation_is_submitted() {
    let mut sim = Sim::new();

    // Built but deliberately not submitted yet.
    let fut = sim.read_vec(FILE, vec![0_u8; 128], 64, 0);
    let token = fut.future.operation_id().expect("read was built").0;
    assert_eq!(sim.driver.slab.state(token).map(|s| s.0), Some(Lifecycle::Built));

    sim.drop_read(fut);

    // Detached, still built, and not yet cancellable.
    assert_eq!(sim.driver.slab.state(token), Some((Lifecycle::Built, Observer::Detached)));
    assert_eq!(
        sim.driver.slab.detached_submitted_uncancelled().len(),
        0,
        "a built operation is not yet a cancellation candidate"
    );

    // Submitting promotes it, and the driver must cancel it at that point.
    sim.submit_pending();
    assert!(
        sim.driver.slab.detached_submitted_uncancelled().is_empty(),
        "the abandoned operation should have been cancelled on promotion"
    );
    assert!(
        !sim.driver.cancel_holds.is_empty(),
        "a deferred cancellation should hold the file open"
    );

    // Settle so teardown is clean.
    sim.settle();
    sim.driver.shutdown();
}

#[test]
fn teardown_releases_caller_buffers_but_never_early() {
    let drops = Rc::new(Cell::new(0));
    let mut sim: Sim<Counting> = Sim::new();

    // Detach the operation, so nothing but the driver owns the buffer and only teardown
    // can release it.
    let fut = sim.read(FILE, Counting(Rc::clone(&drops)), 128, 64, 0);
    let token = fut.future.operation_id().expect("read was built").0;
    sim.submit_pending();
    assert_eq!(
        sim.driver.slab.state(token).map(|s| s.0),
        Some(Lifecycle::Submitted),
        "the operation must reach the kernel for this test to mean anything"
    );
    sim.drop_read(fut);

    // Refuse to observe completions for several steps. The operation stays outstanding,
    // and its buffer must not be released while it is.
    sim.ring.withhold_reaps = 6;
    for _ in 0..3 {
        let outcome = sim.drain_step();
        assert_eq!(
            outcome,
            StepOutcome::Progressing,
            "the operation should still be outstanding while reaping is withheld"
        );
        assert_eq!(
            drops.get(),
            0,
            "a buffer must not be released before its operation has reported"
        );
    }

    sim.drop_driver();
    assert_eq!(
        drops.get(),
        1,
        "teardown must release the caller's buffer once the operation reports"
    );
}

#[test]
fn teardown_resolves_waiting_futures_and_returns_their_buffers() {
    let mut sim = Sim::new();
    let buffer = vec![7_u8; 128];
    let address = format!("{:p}", buffer.as_slice());

    let mut fut = sim.read_vec(FILE, buffer, 64, 0);

    // Register a waker so the future is genuinely waiting.
    let w = waker();
    assert!(poll_read(&mut fut, &w).is_none());

    sim.drop_driver();
    assert_eq!(w.get(), 1);

    match poll_read(&mut fut, &w) {
        Some(out) => {
            assert_eq!(out.initialized, Some(64), "what was transferred counts as initialized");
            let buffer = owned(out.outcome.buffer);
            assert_eq!(buffer.capacity(), 128, "the caller's own buffer must come back");
            assert_eq!(format!("{:p}", buffer.as_slice()), address);
        }
        None => panic!("a future was left pending after teardown"),
    }

    // Nothing may be submitted after teardown.
    let mut outcome = sim.read_vec(FILE, vec![0_u8; 64], 20, 0);
    match poll_read(&mut outcome, &w) {
        Some(o) => assert!(o.outcome.err().is_some()),
        None => panic!("a post-teardown submission should fail immediately"),
    }
}

#[test]
fn teardown_releases_registered_buffers() {
    let drops = Rc::new(Cell::new(0));
    let mut sim: Sim<Counting> = Sim::new();

    let mut fut = sim.register(vec![Counting(Rc::clone(&drops))], &[32]).ok().expect("accepted");
    assert!(poll_registration(&mut fut).is_none());

    // Let the registration land so the driver adopts it.
    sim.pass();
    assert!(poll_registration(&mut fut).is_some());
    assert!(
        sim.driver.buffer_registration.is_some(),
        "the registration must have been adopted"
    );
    assert_eq!(drops.get(), 0);

    // Strand an operation, built but never submitted, so the drain has real work to do,
    // then tear down. Everything must come back.
    let spare = Rc::new(Cell::new(0));
    let stranded = sim.read(FILE, Counting(Rc::clone(&spare)), 64, 20, 0);
    assert_eq!(sim.driver.slab.outstanding(), 1);
    drop(sim.drop_driver());
    sim.drop_read(stranded);

    assert_eq!(
        drops.get(),
        1,
        "teardown must release registered buffers once the ring is closed"
    );
    assert_eq!(spare.get(), 1);
}

#[test]
fn drive_wakes_itself_when_a_submission_retry_is_owed() {
    let mut sim = Sim::new();

    // Keep submission failing so the retry path stays active.
    sim.ring.fail_next_submits = 5;
    let fut = sim.read_vec(FILE, vec![0_u8; 64], 20, 0);

    let w = waker();
    let mut drive = Driving::new();

    let before = w.get();
    assert!(!drive.poll(&mut sim, &w));
    let after = w.get();

    assert!(
        after > before,
        "the driver parked without waking itself, so the retry would never happen"
    );
    assert!(sim.driver.pending_submit, "the retry should still be owed");

    // Let it through and settle so teardown is clean.
    sim.ring.fail_next_submits = 0;
    for _ in 0..200 {
        if drive.poll(&mut sim, &w) || sim.driver.slab.outstanding() == 0 {
            break;
        }
    }
    assert_eq!(sim.driver.slab.outstanding(), 0);
    sim.drop_read(fut);
    sim.driver.shutdown();
}

#[test]
fn persistent_submission_failure_throttles_reporting_but_keeps_retrying() {
    let mut sim = Sim::new();

    sim.ring.fail_next_submits = 100;
    let fut = sim.read_vec(FILE, vec![0_u8; 64], 20, 0);

    for _ in 0..100 {
        sim.submit_pending();
        sim.flush_reports();
    }

    let failures = sim.driver.submit_failures;
    assert!(failures == 100, "every attempt must actually be retried, saw {failures}");
    assert!(
        sim.driver.pending_submit,
        "the entries stay queued while submission keeps failing"
    );
    assert!(sim.observed.len() < 10, "observer flooded with {} reports", sim.observed.len());
    // The first of the streak, and the sixty-fourth.
    assert_eq!(sim.observed.len(), 2);

    // Let the operation through and settle, so teardown is clean.
    sim.ring.fail_next_submits = 0;
    sim.submit_pending();
    assert!(
        !sim.driver.pending_submit,
        "a successful retry after a long failure streak must still land"
    );
    assert_eq!(sim.driver.submit_failures, 0);
    sim.settle();
    sim.drop_read(fut);
    sim.driver.shutdown();
}

#[test]
fn unknown_completions_are_discarded() {
    let mut sim = Sim::new();

    let fut = sim.read_vec(FILE, vec![0_u8; 64], 20, 0);
    let live = fut.future.operation_id().expect("read was submitted");

    // A token for a slot index that was never allocated.
    let bogus = Token::from_user_data(0xDEAD_BEEF);
    assert!(sim.driver.slab.complete(bogus).is_none());
    assert!(!sim.driver.slab.complete_cancel(bogus));
    // The live operation is untouched.
    assert_eq!(sim.driver.slab.lookup(live.0), Lookup::Live);
    assert!(sim.driver.reap(completion(0xDEAD_BEEF, 0, 3)).is_none());
    assert!(sim.driver.reap(completion(0xDEAD_BEEE, 0, 3)).is_none());
    assert_eq!(sim.driver.slab.lookup(live.0), Lookup::Live);

    sim.drop_read(fut);
    sim.driver.shutdown();
}

#[test]
fn detached_operations_release_on_completion() {
    let drops = Rc::new(Cell::new(0));
    let mut sim: Sim<Counting> = Sim::new();

    let fut = sim.read(FILE, Counting(Rc::clone(&drops)), 64, 20, 0);
    sim.submit_pending();

    // Dropping the future must leave the operation outstanding.
    sim.drop_read(fut);
    assert_eq!(
        sim.driver.slab.outstanding(),
        1,
        "a dropped future must not release the buffer"
    );
    assert_eq!(drops.get(), 0);

    // Only the completion releases it.
    sim.settle();
    assert_eq!(drops.get(), 1);

    sim.driver.shutdown();
}

#[test]
fn unbuilt_operations_release_immediately() {
    let mut sim = Sim::new();

    // A rejected read never reaches the slab at all.
    let rejected = sim.read_vec(FILE, vec![0_u8; 4], 64, 0);
    assert!(rejected.future.operation_id().is_none());
    assert_eq!(sim.driver.slab.outstanding(), 0);

    sim.driver.shutdown();
}

#[test]
fn a_registration_failing_at_completion_returns_the_buffers() {
    let mut sim = Sim::new();

    sim.ring.fail_next_registration = true;
    let mut fut = sim.register(vec![vec![7_u8; 16]], &[16]).ok().expect("accepted");
    assert!(
        poll_registration(&mut fut).is_none(),
        "the registration must reach the platform before it can fail"
    );

    sim.pass();

    match poll_registration(&mut fut).expect("the registration must resolve") {
        Registered::Failed(_, returned) => {
            assert_eq!(returned, vec![vec![7_u8; 16]], "the buffer must come back");
        }
        Registered::Accepted(_) => panic!("a failed registration must not be accepted"),
    }

    // Nothing was adopted, so the driver still has no registration.
    assert!(sim.driver.buffer_registration.is_none());
    assert!(!sim.driver.registration_in_flight);

    sim.driver.shutdown();
}

#[test]
fn cancelling_one_operation_leaves_its_siblings_alone() {
    let mut sim = Sim::new();

    assert_eq!(
        sim.driver.slab.outstanding(),
        0,
        "the next operation must be the driver's first, so it takes slot zero"
    );
    let first = sim.read_vec(PIPE, vec![0_u8; 16], 16, 0);
    let mut second = sim.read_vec(PIPE, vec![0_u8; 16], 16, 0);
    let token = second.future.operation_id().expect("the read was built").0;
    assert_ne!(
        first.future.operation_id().expect("the read was built").0.as_user_data(),
        0,
        "the first operation's user data must not be the platform's cancel-everything value"
    );

    let w = waker();
    assert!(poll_read(&mut second, &w).is_none());
    sim.submit_pending();

    // Dropping the future cancels just this one operation.
    sim.drop_read(first);

    for _ in 0..20 {
        sim.pass();
        assert!(
            poll_read(&mut second, &w).is_none(),
            "the surviving read must still be in flight"
        );
    }
    assert_eq!(sim.driver.outstanding(), 1);

    // It is still a working operation, not merely an unreported one.
    sim.arrives(token, b"kept");
    sim.pass();
    let out = poll_read(&mut second, &w)
        .expect("the surviving read must complete once data arrives");
    assert_eq!(
        out.outcome.result.expect("the surviving read must not have been cancelled") as usize,
        4
    );
    assert_eq!(&owned(out.outcome.buffer)[..4], b"kept");

    sim.driver.shutdown_now();
    sim.drop_driver();
}

#[test]
fn a_wait_timeout_during_the_drain_is_not_a_failure() {
    let mut sim = Sim::new();

    let mut fut = sim.read_vec(PIPE, vec![0_u8; 16], 16, 0);
    let w = waker();
    assert!(poll_read(&mut fut, &w).is_none());

    // Graceful, so nothing cancels the read and every wait must time out.
    sim.driver.shutdown();

    // More rounds than it takes for repeated submission failures to be treated as
    // unsubmittable residue.
    for _ in 0..=RESIDUE_ATTEMPTS {
        let outcome = sim.drain_step();
        assert_eq!(
            outcome,
            StepOutcome::Progressing,
            "a timed-out wait must never be mistaken for an unsubmittable queue"
        );
    }
    assert!(sim.ring.waits > 0);
    assert_eq!(
        sim.driver.submit_failures, 0,
        "a wait timeout must not count as a submission failure"
    );

    sim.driver.shutdown_now();
    sim.drop_driver();
    assert!(poll_read(&mut fut, &w).is_some());
}

#[test]
fn entries_the_kernel_never_accepted_are_abandoned_only_after_the_ring_closes() {
    let mut sim = Sim::new();

    // More refusals than it takes to declare the queue unsubmittable.
    sim.ring.fail_next_submits = RESIDUE_ATTEMPTS * 4;
    let mut fut = sim.read_vec(FILE, vec![0_u8; 128], 64, 0);
    let w = waker();
    assert!(poll_read(&mut fut, &w).is_none());
    assert_eq!(
        sim.driver.slab.built().len(),
        1,
        "the entry must be queued but unaccepted for this test to mean anything"
    );

    sim.driver.shutdown_now();
    sim.drop_driver();
    assert_eq!(sim.ring.waits, 0, "no waiting submission with an entry unaccepted");

    match poll_read(&mut fut, &w) {
        Some(out) => {
            assert!(
                matches!(out.outcome.result, Err(Error::AbandonedAtShutdown)),
                "an operation the driver ended itself must say so: {:?}",
                out.outcome.result
            );
            assert_eq!(
                owned(out.outcome.buffer).capacity(),
                128,
                "the caller's own buffer must come back"
            );
        }
        None => panic!("an unsubmittable entry left its future pending"),
    }
}

#[test]
fn a_registration_the_kernel_never_accepted_still_returns_its_buffers() {
    let mut sim = Sim::new();

    sim.ring.fail_next_submits = RESIDUE_ATTEMPTS * 4;
    let mut fut = sim
        .register(vec![vec![7_u8; 16], vec![9_u8; 32]], &[16, 32])
        .ok()
        .expect("accepted");
    assert!(poll_registration(&mut fut).is_none());
    assert_eq!(
        sim.driver.slab.built().len(),
        1,
        "the registration must be queued but unaccepted for this test to mean anything"
    );

    sim.driver.shutdown_now();
    sim.drop_driver();

    match poll_registration(&mut fut) {
        Some(Registered::Failed(e, returned)) => {
            assert!(
                matches!(e, Error::AbandonedAtShutdown),
                "an abandoned registration must report the teardown error: {e:?}"
            );
            assert_eq!(
                returned,
                vec![vec![7_u8; 16], vec![9_u8; 32]],
                "the caller's own buffers must come back"
            );
        }
        Some(Registered::Accepted(_)) => {
            panic!("a registration the kernel never accepted must not report success")
        }
        None => panic!("an unsubmittable registration left its future pending"),
    }
}

#[test]
fn a_completed_shutdown_closes_the_files_its_operations_held() {
    let mut sim: Sim<Vec<u8>> = Sim::new();
    let kept = file();

    let slot = empty_slot();
    let entry = sim
        .driver
        .try_read(
            Rc::clone(&kept),
            FILE,
            Carried::Owned(vec![0_u8; 8]),
            8,
            8,
            0,
            0,
            Ok(()),
            Rc::clone(&slot),
        )
        .expect("accepted");
    let token = Token::from_user_data(entry.user_data);
    let built = sim.ring.build(entry.user_data, work_of(&entry));
    sim.driver.entry_built(token, built);
    let dropped = sim.driver.future_dropped(token);
    assert!(dropped.request.is_none(), "the kernel has nothing to cancel yet");
    assert_eq!(
        Rc::strong_count(&kept),
        2,
        "the driver must still be holding the file for this test to mean anything"
    );

    // Once submitted, the cancellation holds the file too, on its own account.
    sim.submit_pending();
    assert_eq!(Rc::strong_count(&kept), 3);

    sim.driver.shutdown_now();
    sim.drop_driver();

    assert_eq!(
        Rc::strong_count(&kept),
        1,
        "a completed shutdown must have closed the file the operation held"
    );
}

#[test]
fn a_registration_in_flight_at_an_immediate_shutdown_completes_naturally() {
    let mut sim = Sim::new();

    let mut fut = sim.register(vec![vec![7_u8; 16]], &[16]).ok().expect("accepted");
    assert!(
        poll_registration(&mut fut).is_none(),
        "the registration must reach the platform before the shutdown"
    );
    sim.submit_pending();
    assert_eq!(
        sim.driver.slab.awaiting_kernel(),
        1,
        "the kernel must hold the registration when the shutdown begins"
    );

    sim.driver.shutdown_now();
    assert_eq!(
        sim.ring.cancel_attempts, 0,
        "a registration names no file, so nothing can be cancelled for it"
    );

    let mut outcome = StepOutcome::Progressing;
    for _ in 0..32 {
        outcome = sim.drain_step();
        if outcome != StepOutcome::Progressing {
            break;
        }
    }
    assert_eq!(outcome, StepOutcome::Quiescent);
    assert_eq!(sim.ring.cancel_attempts, 0);

    match poll_registration(&mut fut) {
        Some(Registered::Accepted(_)) => {}
        Some(Registered::Failed(e, _)) => {
            panic!("the registration must complete naturally, not fail: {e:?}")
        }
        None => panic!("the registration was left pending by the drain"),
    }

    sim.drop_driver();
}

#[test]
fn a_shutdown_with_nothing_outstanding_does_not_wait() {
    let mut sim: Sim<Vec<u8>> = Sim::new();

    assert_eq!(sim.driver.slab.outstanding(), 0);
    sim.driver.shutdown();

    let outcome = sim.drain_step();

    assert_eq!(outcome, StepOutcome::Quiescent);
    assert_eq!(
        sim.ring.waits, 0,
        "an empty drain must not issue a wait it does not need"
    );
    assert_eq!(sim.ring.submits, 0);

    sim.drop_driver();
}

#[test]
fn a_drain_that_will_not_converge_reports_itself_but_is_throttled() {
    let mut sim = Sim::new();

    let fut = sim.read_vec(FILE, vec![0_u8; 128], 64, 0);
    sim.submit_pending();
    sim.drop_read(fut);

    // Long enough that the drain cannot converge before the throttle has had to make a
    // decision more than once.
    let rounds = SLOW_DRAIN_INTERVAL * 3;
    sim.ring.withhold_reaps = rounds;
    sim.drop_driver();

    let stalls: Vec<String> = sim
        .observed
        .iter()
        .map(|e| e.message())
        .filter(|r| r.contains("outstanding"))
        .collect();
    assert!(!stalls.is_empty(), "a drain that will not converge must report itself");
    assert!(
        stalls.len() <= (rounds / SLOW_DRAIN_INTERVAL) as usize,
        "reports must be throttled to one per interval, not emitted every pass: {} for {rounds} rounds",
        stalls.len()
    );
    assert!(stalls[0].contains('1'), "the report must name the outstanding count: {}", stalls[0]);
}

#[test]
fn a_drain_abandoned_by_dropping_the_driver_future_can_be_resumed() {
    let mut sim = Sim::new();

    let mut fut = sim.read_vec(FILE, vec![0_u8; 128], 64, 0);
    let w = waker();
    assert!(poll_read(&mut fut, &w).is_none());

    sim.driver.shutdown_now();

    // Take a step of the drain, then abandon it.
    sim.ring.withhold_reaps = 64;
    assert_eq!(sim.drain_step(), StepOutcome::Progressing);
    assert!(
        !sim.driver.torn_down,
        "teardown must be unfinished for abandoning it to mean anything"
    );

    // A fresh call resumes rather than returning as though it were done.
    sim.ring.withhold_reaps = 0;
    let mut drive = Driving::new();
    assert!(drive.poll(&mut sim, &w));
    assert!(sim.driver.torn_down, "a resumed drain must finish teardown");
    assert!(!sim.driver.must_not_be_destroyed());
    assert!(poll_read(&mut fut, &w).is_some());
}

#[test]
fn a_drain_retries_cancellations_the_platform_refuses() {
    let operations: u32 = 2;
    let mut sim = Sim::new();

    let mut first = sim.read_vec(PIPE, vec![0_u8; 16], 16, 0);
    let mut second = sim.read_vec(PIPE, vec![0_u8; 16], 16, 0);
    let w = waker();
    assert!(poll_read(&mut first, &w).is_none());
    assert!(poll_read(&mut second, &w).is_none());

    sim.driver.shutdown_now();
    // Enough refusals for two full rounds against both operations.
    sim.ring.fail_next_cancels = 2 * operations;

    for _ in 0..2 {
        assert_eq!(
            sim.drain_step(),
            StepOutcome::Progressing,
            "nothing can finish while every cancellation is refused"
        );
    }

    assert!(
        sim.ring.cancel_attempts > operations,
        "a refused cancellation must be retried, not recorded as done: {} attempts for {operations} operations",
        sim.ring.cancel_attempts
    );
    assert!(
        poll_read(&mut first, &w).is_none() && poll_read(&mut second, &w).is_none(),
        "a refused cancellation must not resolve its operation"
    );
    assert!(sim.driver.cancel_holds.is_empty(), "a refused cancellation holds nothing");

    // With the refusals exhausted, the retries get through and the drain finishes.
    sim.drop_driver();
    assert!(
        poll_read(&mut first, &w).is_some() && poll_read(&mut second, &w).is_some(),
        "every operation must be resolved by the time teardown ends"
    );
}

#[test]
fn a_graceful_drain_can_be_escalated_to_immediate() {
    let mut sim = Sim::new();

    let mut fut = sim.read_vec(PIPE, vec![0_u8; 16], 16, 0);
    let w = waker();
    assert!(poll_read(&mut fut, &w).is_none());

    sim.driver.shutdown();

    // A graceful drain waits for an operation that will never finish, and does not
    // cancel it.
    for _ in 0..2 {
        assert_eq!(
            sim.drain_step(),
            StepOutcome::Progressing,
            "a graceful drain cannot finish while an operation is stuck"
        );
    }
    assert_eq!(
        sim.ring.cancel_attempts, 0,
        "a graceful shutdown must not cancel anything"
    );
    assert!(poll_read(&mut fut, &w).is_none());

    // Escalate part-way through.
    sim.driver.shutdown_now();

    let mut outcome = StepOutcome::Progressing;
    for _ in 0..32 {
        outcome = sim.drain_step();
        if outcome != StepOutcome::Progressing {
            break;
        }
    }
    assert_eq!(
        outcome,
        StepOutcome::Quiescent,
        "escalation must let a stalled drain finish"
    );
    assert!(
        sim.ring.cancel_attempts > 0,
        "escalation must reach the operations still in flight"
    );
    let out = poll_read(&mut fut, &w).expect("the escalated operation must be resolved");
    assert!(matches!(out.outcome.result, Err(Error::Other(e)) if e.code == ABORTED));

    sim.drop_driver();
}

#[test]
fn an_operation_reporting_mid_drain_is_still_delivered() {
    let mut sim = Sim::new();

    let mut fut = sim.read_vec(PIPE, vec![0_u8; 16], 16, 0);
    let token = fut.future.operation_id().expect("built").0;
    let w = waker();
    assert!(poll_read(&mut fut, &w).is_none());

    sim.driver.shutdown();

    assert_eq!(sim.drain_step(), StepOutcome::Progressing);
    assert_eq!(
        sim.driver.slab.awaiting_kernel(),
        1,
        "the kernel must still hold the read once the drain has begun"
    );
    assert!(poll_read(&mut fut, &w).is_none());

    // Only now does the operation become able to report.
    sim.arrives(token, b"late");

    let mut outcome = StepOutcome::Progressing;
    for _ in 0..32 {
        outcome = sim.drain_step();
        if outcome != StepOutcome::Progressing {
            break;
        }
    }
    assert_eq!(outcome, StepOutcome::Quiescent);

    match poll_read(&mut fut, &w) {
        Some(out) => {
            let transferred = out
                .outcome
                .result
                .expect("a report that arrived during the drain must survive it");
            assert_eq!(transferred as usize, 4);
            assert_eq!(
                &owned(out.outcome.buffer)[..4],
                b"late",
                "the caller's own data must come back"
            );
        }
        None => panic!("a report delivered during the drain was lost"),
    }

    sim.drop_driver();
}

#[test]
fn an_immediate_shutdown_leaves_operations_it_did_not_issue_alone() {
    const EXTERNAL_USER_DATA: usize = 0xE0E0;
    let mut sim = Sim::new();

    // Work somebody else handed to the kernel.
    sim.ring.held.push(EXTERNAL_USER_DATA);

    let mut ours = sim.read_vec(PIPE, vec![0_u8; 16], 16, 0);
    let w = waker();
    assert!(poll_read(&mut ours, &w).is_none());

    sim.driver.shutdown_now();
    let mut outcome = StepOutcome::Progressing;
    for _ in 0..32 {
        outcome = sim.drain_step();
        if outcome != StepOutcome::Progressing {
            break;
        }
    }
    assert_eq!(
        outcome,
        StepOutcome::Quiescent,
        "the driver's own operation must be cancelled and drained"
    );
    assert!(poll_read(&mut ours, &w).is_some());
    sim.drop_driver();

    assert_eq!(
        sim.ring.held,
        vec![EXTERNAL_USER_DATA],
        "an immediate shutdown must not cancel an operation the driver never issued"
    );
    // A completion that is not the driver's own is ignored.
    assert!(sim.driver.reap(completion(EXTERNAL_USER_DATA, 0, 4)).is_none());
}

#[test]
fn work_queued_before_the_first_poll_is_seen_on_the_first_pass() {
    let mut sim = Sim::new();

    // Queue before the driver has ever been polled, so there is no waker to take and the
    // flag is the only record that survives.
    let mut fut = sim.read_vec(FILE, vec![0_u8; 64], 20, 0);
    assert!(
        sim.driver.nudged,
        "queuing work must leave a durable record even with no driver parked"
    );

    let w = waker();
    let mut drive = Driving::new();

    assert!(!drive.poll(&mut sim, &w));
    assert!(!sim.driver.nudged, "the first pass must consume the nudge");
    assert!(sim.passes >= 1, "the nudge raised before any poll must produce a pass");

    for _ in 0..200 {
        if poll_read(&mut fut, &w).is_some() {
            break;
        }
        drive.poll(&mut sim, &w);
    }
    sim.driver.shutdown_now();
    assert!(drive.poll(&mut sim, &w));
}

#[test]
fn work_queued_while_the_driver_runs_is_seen_without_parking() {
    let mut sim: Sim<Vec<u8>> = Sim::new();
    let w = waker();
    let mut drive = Driving::new();

    // A poll with nothing outstanding: one pass, then it parks.
    let before = sim.passes;
    assert!(!drive.poll(&mut sim, &w));
    assert_eq!(sim.passes - before, 1, "an idle poll should run exactly one pass");

    // Polling again while still parked resumes inside the park.
    let before = sim.passes;
    assert!(!drive.poll(&mut sim, &w));
    assert_eq!(
        sim.passes - before,
        0,
        "a re-poll with nothing outstanding must not run a pass"
    );

    // Raise the flag the way code inside a pass does.
    let wakes_before = w.get();
    sim.driver.mark_nudged();
    assert_eq!(
        w.get(),
        wakes_before,
        "marking must not wake; this is the path where no waker exists"
    );

    let before = sim.passes;
    assert!(!drive.poll(&mut sim, &w));
    assert_eq!(
        sim.passes - before,
        1,
        "the park must resolve on the flag and run a pass, not suspend"
    );
    assert!(!sim.driver.nudged, "the park must consume the flag");

    sim.driver.shutdown_now();
    assert!(drive.poll(&mut sim, &w));
}

#[test]
fn a_nudge_between_the_check_and_the_park_still_causes_a_pass() {
    let mut sim: Sim<Vec<u8>> = Sim::new();
    let w = waker();
    let mut drive = Driving::new();

    // Park with nothing to do.
    assert!(!drive.poll(&mut sim, &w));
    let passes = sim.passes;
    assert!(sim.driver.driver_waker.is_some(), "the driver should have parked");

    // Raise a nudge with the driver parked.
    let before = w.get();
    wake(sim.driver.nudge());
    assert!(w.get() > before, "a nudge raised against a parked driver must wake it");

    assert!(!drive.poll(&mut sim, &w));
    assert_eq!(
        sim.passes,
        passes + 1,
        "a nudge must produce another pass, not merely another suspension"
    );

    sim.driver.shutdown_now();
    assert!(drive.poll(&mut sim, &w));
}

#[test]
fn a_nudge_reaches_the_task_that_is_driving_now() {
    let mut sim: Sim<Vec<u8>> = Sim::new();
    let first = waker();
    let second = waker();
    let mut drive = Driving::new();

    // Park under the first waker, then re-poll under the second.
    assert!(!drive.poll(&mut sim, &first));
    assert!(!drive.poll(&mut sim, &second));

    let first_before = first.get();
    let second_before = second.get();
    wake(sim.driver.nudge());

    assert_eq!(
        first.get(),
        first_before,
        "the waker from the previous park must not be used"
    );
    assert!(
        second.get() > second_before,
        "the nudge must reach whichever task is driving now"
    );

    sim.driver.shutdown_now();
    assert!(drive.poll(&mut sim, &second));
}

#[test]
fn repeated_nudges_before_a_pass_produce_one_pass() {
    let mut sim: Sim<Vec<u8>> = Sim::new();
    let w = waker();
    let mut drive = Driving::new();

    assert!(!drive.poll(&mut sim, &w));
    let passes = sim.passes;

    wake(sim.driver.nudge());
    wake(sim.driver.nudge());
    wake(sim.driver.nudge());

    // Three nudges, one outstanding pass: the flag collapses them, and only the first
    // found a waker to take.
    assert_eq!(w.get(), 1, "only the nudge that found the driver parked should wake it");
    assert!(!drive.poll(&mut sim, &w));
    assert_eq!(
        sim.passes,
        passes + 1,
        "three nudges must produce one additional pass, not three"
    );

    sim.driver.shutdown_now();
    assert!(drive.poll(&mut sim, &w));
}

#[test]
fn shutdown_wakes_a_parked_driver_on_its_own() {
    let mut sim: Sim<Vec<u8>> = Sim::new();
    let w = waker();
    let mut drive = Driving::new();

    assert!(!drive.poll(&mut sim, &w));
    let before = w.get();

    // No completion can arrive, so if shutdown does not wake the park itself, nothing
    // ever will.
    wake(sim.driver.shutdown_now());
    assert!(w.get() > before, "a shutdown request must wake a parked driver by itself");

    assert!(drive.poll(&mut sim, &w), "the driver should have torn down");
    assert!(sim.driver.torn_down);
}

#[test]
fn a_nudge_after_shutdown_does_not_obstruct_teardown() {
    let mut sim: Sim<Vec<u8>> = Sim::new();
    let w = waker();
    let mut drive = Driving::new();

    assert!(!drive.poll(&mut sim, &w));
    sim.driver.shutdown_now();
    // Raise a nudge mid-teardown; it must be inert rather than obstructive.
    sim.driver.nudge();

    assert!(drive.poll(&mut sim, &w), "nudges during teardown must not prevent it");
    assert!(sim.driver.torn_down);
}

#[test]
fn an_abandoned_park_leaves_no_waker_behind() {
    let mut sim: Sim<Vec<u8>> = Sim::new();
    let w = waker();

    let mut drive = Driving::new();
    assert!(!drive.poll(&mut sim, &w));
    assert!(
        sim.driver.driver_waker.is_some(),
        "a parked driver should have recorded its waker"
    );
    drive.abandon(&mut sim);

    assert!(
        sim.driver.driver_waker.is_none(),
        "an abandoned park must not leave its waker behind"
    );
    assert!(sim.armed.waker.is_none());

    // A fresh driving task still sees work raised while nobody was driving.
    sim.driver.nudge();
    assert!(sim.driver.nudged);

    sim.driver.shutdown_now();
    let mut drive = Driving::new();
    assert!(drive.poll(&mut sim, &w));
}

#[test]
fn a_completion_signalled_mid_pass_is_not_lost() {
    let mut sim = Sim::new();

    sim.ring.withhold_reaps = 1;
    let mut fut = sim.read_vec(FILE, vec![0_u8; 64], 20, 0);

    let w = waker();
    let mut drive = Driving::new();

    // The pass submits and reaps nothing; the completion is signalled before the park.
    sim.driver.take_nudge();
    sim.pass();
    wake(sim.armed.callback());
    let mut resolved = false;
    for _ in 0..10 {
        drive.poll(&mut sim, &w);
        if poll_read(&mut fut, &w).is_some() {
            resolved = true;
            break;
        }
    }
    assert!(resolved, "a completion signalled while the driver was mid-pass was lost");

    sim.driver.shutdown_now();
    assert!(drive.poll(&mut sim, &w));
}

#[test]
fn a_driver_polled_by_a_new_task_is_still_woken_by_a_completion() {
    let mut sim = Sim::new();
    let first = waker();
    let second = waker();
    let mut drive = Driving::new();

    // Park under the first waker with nothing outstanding, then re-poll under the second.
    assert!(!drive.poll(&mut sim, &first));
    assert!(!drive.poll(&mut sim, &second));

    let first_before = first.get();
    let mut fut = sim.read_vec(PIPE, vec![0_u8; 64], 20, 0);
    let token = fut.future.operation_id().expect("built").0;
    assert!(!drive.poll(&mut sim, &second));

    sim.arrives(token, b"data");
    let before = second.get();
    wake(sim.armed.callback());
    assert!(second.get() > before, "the wake must reach whichever task is driving now");
    assert!(!drive.poll(&mut sim, &second));
    assert!(poll_read(&mut fut, &second).is_some(), "the read should have completed");
    assert_eq!(
        first.get(),
        first_before,
        "the waker from the earlier park must not be used"
    );

    sim.driver.shutdown_now();
    assert!(drive.poll(&mut sim, &second));
}

#[test]
fn a_driver_whose_wait_cannot_be_armed_reports_it() {
    let setup = Setup::new().armed(Err(Error::of_code(E_FAIL)));
    assert!(
        matches!(setup, Setup::Abandon(Error::Other(e)) if e.code == E_FAIL),
        "a wait that cannot be armed must fail construction"
    );
    // So must a ring that refuses its completion event.
    let setup = Setup::new().armed(Ok(())).installed(Err(Error::of_code(E_FAIL)));
    assert!(matches!(setup, Setup::Abandon(Error::Other(e)) if e.code == E_FAIL));
    // A driver built afterwards works normally.
    assert!(matches!(Setup::new().armed(Ok(())), Setup::Install));
    assert!(matches!(Setup::new().armed(Ok(())).installed(Ok(())), Setup::Ready));
    let mut sim: Sim<Vec<u8>> = Sim::new();
    sim.drop_driver();
}

#[test]
fn entries_name_what_the_caller_asked_for() {
    let mut sim: Sim<Vec<u8>> = Sim::new();
    let buffer = Carried::Owned(vec![1, 2, 3, 4]);
    let slot = empty_slot();
    let entry =
        sim.driver.try_write(file(), FILE, buffer, 3, 3, 99, 2, 5, Ok(()), slot).expect("accepted");
    let token = Token::new(TokenKind::Operation, 0, 1);
    assert_eq!(
        entry,
        Entry {
            kind: EntryKind::Write { flags: 2 },
            handle: HandleRef::Raw(FILE),
            data: DataRef::Parked,
            len: 3,
            offset: 99,
            user_data: token.as_user_data(),
            sqe_flags: 5,
        }
    );
    sim.driver.entry_built(token, Ok(()));

    let entry = sim.driver.try_flush(file(), FILE, 7, 1, Ok(()), empty_slot()).expect("accepted");
    assert_eq!(entry.kind, EntryKind::Flush { mode: 7 });
    assert_eq!(entry.user_data, Token::new(TokenKind::Operation, 1, 1).as_user_data());
}

#[test]
fn transfers_are_bounded_by_what_the_buffer_offers() {
    let mut sim: Sim<Vec<u8>> = Sim::new();
    // A read is bounded by the capacity, a write by what is initialized.
    let refused = sim
        .driver
        .try_read(
            file(),
            FILE,
            Carried::Owned(vec![5]),
            1,
            2,
            0,
            0,
            Ok(()),
            empty_slot(),
        )
        .unwrap_err();
    assert!(matches!(
        refused.0,
        Error::Buf(BufError::TooSmall { requested: 2, available: 1 })
    ));
    assert_eq!(owned(refused.1), vec![5]);
    let refused = sim
        .driver
        .try_write(
            file(),
            FILE,
            Carried::Owned(vec![6, 6]),
            1,
            2,
            0,
            0,
            0,
            Ok(()),
            empty_slot(),
        )
        .unwrap_err();
    assert!(matches!(
        refused.0,
        Error::Buf(BufError::TooSmall { requested: 2, available: 1 })
    ));
    assert_eq!(owned(refused.1), vec![6, 6]);
    // What the ring lacks is said before the buffer is looked at.
    let lacking = Err(Error::Ring(RingError::UnsupportedOp));
    let refused = sim
        .driver
        .try_read(file(), FILE, Carried::Owned(vec![5]), 1, 2, 0, 0, lacking, empty_slot())
        .unwrap_err();
    assert!(matches!(refused.0, Error::Ring(RingError::UnsupportedOp)));
    let refused = sim
        .driver
        .try_flush(file(), FILE, 0, 0, Err(Error::Ring(RingError::UnsupportedOp)), empty_slot())
        .unwrap_err();
    assert!(matches!(refused, Error::Ring(RingError::UnsupportedOp)));
    assert_eq!(sim.driver.outstanding(), 0);
}

#[test]
fn a_driver_tracks_only_so_many_operations() {
    let mut sim: Sim<Vec<u8>> = Sim::with_capacity(100_000);
    for _ in 0..win_ioring::token::MAX_SLOTS {
        let entry =
            sim.driver.try_flush(file(), FILE, 0, 0, Ok(()), empty_slot()).expect("room left");
        sim.driver.entry_built(Token::from_user_data(entry.user_data), Ok(()));
    }
    let refused = sim.driver.try_flush(file(), FILE, 0, 0, Ok(()), empty_slot()).unwrap_err();
    assert!(matches!(refused, Error::TooManyOperations));
    let refused = sim
        .driver
        .try_read(file(), FILE, Carried::Owned(vec![3]), 1, 1, 0, 0, Ok(()), empty_slot())
        .unwrap_err();
    assert!(matches!(refused.0, Error::TooManyOperations));
    assert_eq!(owned(refused.1), vec![3]);
    let refused = sim
        .driver
        .start_register_buffers(vec![vec![9]], vec![1], vec![1], Ok(()), empty_slot())
        .unwrap_err();
    assert!(matches!(refused.0, Error::TooManyOperations));
    assert_eq!(refused.1, vec![vec![9]]);
    let refused = sim.driver.start_register_files(vec![file()], Ok(()), empty_slot()).unwrap_err();
    assert!(matches!(refused, Error::TooManyOperations));
}

#[test]
fn empty_registrations_are_refused_before_anything_else() {
    let mut sim: Sim<Vec<u8>> = Sim::new();
    sim.driver.shutdown();
    let refused = sim
        .driver
        .start_register_buffers(Vec::new(), Vec::new(), Vec::new(), Ok(()), empty_slot())
        .unwrap_err();
    assert!(matches!(refused.0, Error::MissingField { field: "buffers" }));
    let refused = sim.driver.start_register_files(Vec::new(), Ok(()), empty_slot()).unwrap_err();
    assert!(matches!(refused, Error::MissingField { field: "files" }));
    let refused = sim
        .driver
        .start_register_buffers(vec![vec![1]], vec![1], vec![1], Ok(()), empty_slot())
        .unwrap_err();
    assert!(matches!(refused.0, Error::ShuttingDown));
    let refused = sim.driver.start_register_files(vec![file()], Ok(()), empty_slot()).unwrap_err();
    assert!(matches!(refused, Error::ShuttingDown));
}

#[test]
fn registered_transfers_are_validated_in_order() {
    let mut sim: Sim<Vec<u8>> = Sim::new();
    let mut other: Sim<Vec<u8>> = Sim { driver: DriverInner::new(2), ..Sim::new() };
    let here = sim.register_vecs(&[16]);
    let there = other.register_vecs(&[16]);
    let target = || FileTarget::Owned { file: file(), raw: FILE };

    // Another driver's handle is refused, and comes back.
    let foreign = other.check_out(&there, 0).unwrap();
    let mut fut = sim.transfer(target(), foreign, 0, 4, false);
    let out = poll_transfer(&mut fut).expect("refused at once");
    assert!(matches!(out.err(), Some(Error::RegistrationSuperseded)));
    let foreign = handle_of(out.buffer);
    other.driver.release_buffer(foreign);

    // A read is bounded by the extent.
    let mut buffer = sim.check_out(&here, 0).unwrap();
    buffer.set_buf_init(sim.driver.buffer_registration.as_mut(), 4);
    let mut fut = sim.transfer(target(), buffer, 10, 7, false);
    let out = poll_transfer(&mut fut).expect("refused at once");
    assert!(matches!(
        out.err(),
        Some(Error::RegisteredRangeOutOfBounds { index: 0, offset: 10, length: 7, extent: 16 })
    ));

    // A write is bounded by what is initialized.
    let mut fut = sim.transfer(target(), handle_of(out.buffer), 1, 4, true);
    let out = poll_transfer(&mut fut).expect("refused at once");
    assert!(matches!(
        out.err(),
        Some(Error::RegisteredRangeOutOfBounds { index: 0, offset: 1, length: 4, extent: 4 })
    ));

    // A registered file has to be registered.
    let unknown = FileTarget::Registered { index: 3 };
    let mut fut = sim.transfer(unknown, handle_of(out.buffer), 0, 4, true);
    let out = poll_transfer(&mut fut).expect("refused at once");
    assert!(matches!(out.err(), Some(Error::InvalidRegisteredIndex { index: 3 })));

    // In bounds it is accepted, and names the buffer by its index.
    let buffer = handle_of(out.buffer);
    let entry = sim
        .driver
        .try_registered_op(target(), buffer, 0, 4, 77, true, Ok(()), empty_slot())
        .expect("accepted");
    assert_eq!(entry.kind, EntryKind::Write { flags: 0 });
    assert_eq!(entry.data, DataRef::Registered { index: 0, offset: 0 });
    assert_eq!(entry.handle, HandleRef::Raw(FILE));
    assert_eq!((entry.len, entry.offset, entry.sqe_flags), (4, 77, 0));

    // With nothing registered there is no index to name.
    let mut bare: Sim<Vec<u8>> = Sim::new();
    let stray = other.check_out(&there, 0).unwrap();
    let mut fut = bare.transfer(target(), stray, 0, 4, false);
    let out = poll_transfer(&mut fut).expect("refused at once");
    assert!(matches!(out.err(), Some(Error::InvalidRegisteredIndex { index: 0 })));
}

#[test]
fn a_registered_read_extends_the_initialized_prefix() {
    let mut sim: Sim<Vec<u8>> = Sim::new();
    let buffers = sim.register_vecs(&[32]);
    let mut buffer = sim.check_out(&buffers, 0).unwrap();
    buffer.set_buf_init(sim.driver.buffer_registration.as_mut(), 4);
    let target = FileTarget::Owned { file: file(), raw: FILE };
    let mut fut = sim.transfer(target, buffer, 4, 8, false);
    assert!(poll_transfer(&mut fut).is_none());
    sim.settle();
    let out = poll_transfer(&mut fut).expect("completed");
    assert_eq!(out.result.ok(), Some(8));
    let buffer = handle_of(out.buffer);
    assert_eq!(buffer.buf_len(), 12);

    // One that lands past the mark does not.
    let target = FileTarget::Owned { file: file(), raw: FILE };
    let mut fut = sim.transfer(target, buffer, 16, 8, false);
    sim.settle();
    let out = poll_transfer(&mut fut).expect("completed");
    let buffer = handle_of(out.buffer);
    assert_eq!(buffer.buf_len(), 12);

    // A dropped one carries its new mark back into the collection.
    let target = FileTarget::Owned { file: file(), raw: FILE };
    let fut = sim.transfer(target, buffer, 12, 4, false);
    sim.submit_pending();
    sim.drop_transfer(fut);
    sim.settle();
    let buffer = sim.check_out(&buffers, 0).expect("returned");
    assert_eq!(buffer.buf_len(), 16);
}

#[test]
fn a_full_queue_hands_a_registration_and_a_handle_back() {
    let mut sim: Sim<Vec<u8>> = Sim::with_capacity(1);
    let buffers = sim.register_vecs(&[8]);
    let first = sim.read_vec(FILE, vec![0; 4], 4, 0);
    assert!(first.future.operation_id().is_some());

    let buffer = sim.check_out(&buffers, 0).unwrap();
    let target = FileTarget::Owned { file: file(), raw: FILE };
    let mut fut = sim.transfer(target, buffer, 0, 4, false);
    assert!(fut.future.operation_id().is_none());
    let out = poll_transfer(&mut fut).expect("refused at once");
    assert!(matches!(out.err(), Some(Error::Ring(RingError::QueueFull))));
    sim.driver.release_buffer(handle_of(out.buffer));

    match sim.register(vec![vec![3; 3]], &[3]) {
        Err(Registered::Failed(Error::Ring(RingError::QueueFull), returned)) => {
            assert_eq!(returned, vec![vec![3; 3]]);
        }
        _ => panic!("expected QueueFull"),
    }
    assert!(!sim.driver.registration_in_flight, "nothing is in flight");
    sim.check_out(&buffers, 0).expect("so checking out is not refused");
}

#[test]
fn extents_are_limited_to_what_a_descriptor_holds() {
    let mut sim: Sim<Vec<u8>> = Sim::new();
    let huge = u32::MAX as usize + 5;
    let mut registering = {
        let slot = empty_slot();
        let token = sim
            .driver
            .start_register_buffers(
                vec![vec![], vec![]],
                vec![huge, 8],
                vec![huge, 3],
                Ok(()),
                Rc::clone(&slot),
            )
            .expect("accepted");
        let built = sim.ring.build(token.as_user_data(), Work::Registration { code: 0 });
        sim.driver.entry_built(token, built);
        Registering { future: RegistrationFuture { inner: OpFuture::pending(token) }, slot }
    };
    sim.pass();
    assert!(poll_registration(&mut registering).expect("completed").is_ok());
    let current = sim.driver.buffer_registration.as_ref().unwrap();
    assert_eq!(current.extent(0), Some(u32::MAX as usize));
    assert_eq!(current.initialized(0), Some(u32::MAX as usize));
    assert_eq!(current.extent(1), Some(8));
    assert_eq!(current.initialized(1), Some(3));
}

#[test]
fn a_rejected_write_reports_through_its_slot() {
    let (mut write, mut slot): (WriteFuture, ResultSlot<Vec<u8>, String, Waker>) =
        WriteFuture::failed(Error::ShuttingDown, Carried::Owned(vec![4, 5]));
    assert!(write.operation_id().is_none());
    assert!(write.inner.to_detach().is_none(), "it never reached the driver");
    let out = write.poll(&mut slot, waker()).expect("resolved");
    assert!(matches!(out.err(), Some(Error::ShuttingDown)));
    assert_eq!(owned(out.buffer), vec![4, 5]);

    let token = Token::new(TokenKind::Operation, 3, 4);
    let mut write = WriteFuture::pending(token);
    let mut slot: ResultSlot<Vec<u8>, String, Waker> = ResultSlot::new();
    assert_eq!(write.operation_id(), Some(OperationId(token)));
    let w = waker();
    assert!(write.poll(&mut slot, Rc::clone(&w)).is_none());
    let woken = slot.resolve(Delivery {
        slot: (),
        result: Ok(2),
        resource: Some(win_ioring::driver::Resource::Buffer(Carried::Owned(vec![1, 2]))),
    });
    wake(woken);
    assert_eq!(w.get(), 1);
    let (n, buffer) = write.poll(&mut slot, w).expect("resolved").unwrap();
    assert_eq!(n, 2);
    assert_eq!(owned(buffer), vec![1, 2]);
    assert!(write.operation_id().is_none());
}

#[test]
fn a_flush_resolves_to_a_plain_result() {
    let mut sim: Sim<Vec<u8>> = Sim::new();
    let slot = empty_slot();
    let entry =
        sim.driver.try_flush(file(), FILE, 0, 0, Ok(()), Rc::clone(&slot)).expect("accepted");
    let token = Token::from_user_data(entry.user_data);
    let built = sim.ring.build(entry.user_data, work_of(&entry));
    sim.driver.entry_built(token, built);
    let mut flush = FlushFuture { state: FlushState::Waiting(OpFuture::pending(token)) };
    assert_eq!(flush.operation_id(), Some(OperationId(token)));
    assert!(flush.poll(&mut slot.borrow_mut(), waker()).is_none());
    sim.settle();
    assert!(matches!(flush.poll(&mut slot.borrow_mut(), waker()), Some(Ok(()))));

    let mut refused = FlushFuture { state: FlushState::Failed(Error::TooManyOperations) };
    assert!(refused.operation_id().is_none());
    let mut unused: ResultSlot<Vec<u8>, String, Waker> = ResultSlot::new();
    let out = refused.poll(&mut unused, waker());
    assert!(matches!(out, Some(Err(Error::TooManyOperations))));
}

#[test]
fn a_cancellation_names_the_file_its_target_named() {
    let mut sim: Sim<Vec<u8>> = Sim::new();
    let fut = sim.read_vec(PIPE, vec![0; 4], 4, 0);
    let token = fut.future.operation_id().unwrap().0;
    sim.submit_pending();
    let request = sim.driver.request_cancel(token).expect("submitted");
    assert_eq!(request.op_to_cancel, token.as_user_data());
    assert_eq!(request.user_data, token.to_cancel().as_user_data());
    assert!(matches!(&request.target, CancelTarget::Owned(name) if name.as_str() == "sample.txt"));
    assert_eq!(sim.driver.cancel_holds.len(), 1);
    // A second request is a no-op while the first is pending.
    assert!(sim.driver.request_cancel(token).is_none());
    sim.driver.cancel_built(token.to_cancel(), true);
    assert!(sim.driver.pending_submit);

    // The target reports first: the hold stays until the cancellation does.
    assert!(sim.driver.reap(completion(token.as_user_data(), ABORTED, 0)).is_some());
    assert_eq!(sim.driver.cancel_holds.len(), 1);
    assert_eq!(sim.driver.slab.lookup(token), Lookup::Tombstoned);
    assert!(sim.driver.reap(completion(token.to_cancel().as_user_data(), 0, 0)).is_none());
    assert!(sim.driver.cancel_holds.is_empty());
    assert_eq!(sim.driver.outstanding(), 0);
}

#[test]
fn a_completion_is_delivered_once() {
    let mut sim: Sim<Vec<u8>> = Sim::new();
    let fut = sim.read_vec(PIPE, vec![0; 4], 4, 0);
    let token = fut.future.operation_id().unwrap().0;
    sim.submit_pending();
    let delivery = sim.driver.reap(completion(token.as_user_data(), 0, 3)).expect("delivered");
    assert_eq!(delivery.result.ok(), Some(3));
    assert!(sim.driver.reap(completion(token.as_user_data(), 0, 3)).is_none());
}

#[test]
fn conditions_become_named_errors() {
    let named: [(u32, &str); 6] = [
        (0x8007_00E7, "PipeBusy"),
        (0x8007_006D, "PipeBroken"),
        (0x8007_00E8, "PipeBroken"),
        (0x8007_00E9, "PipeNoPeer"),
        (0x8007_0218, "PipeListening"),
        (0x8046_0002, "Ring(QueueFull)"),
    ];
    for (code, expected) in named {
        let failed = completion(0, code as i32, 9);
        assert_eq!(format!("{:?}", failed.result().unwrap_err()), expected);
    }
    match completion(0, -5, 9).result() {
        Err(Error::Other(error)) => {
            assert_eq!(error.code, -5);
            assert!(error.text.contains("0xFFFFFFFB"), "{}", error.text);
        }
        other => panic!("expected a platform error, got {other:?}"),
    }
    let fine = completion(0, 1, 9);
    assert_eq!(fine.result().ok(), Some(9), "a code that is not negative succeeds");
}

#[test]
fn slow_drains_are_reported_every_eighth_step() {
    let mut sim: Sim<Vec<u8>> = Sim::new();
    let _fut = sim.read_vec(PIPE, vec![0; 4], 4, 0);
    sim.submit_pending();
    let mut teardown = Teardown::new();
    for _ in 0..24 {
        assert_eq!(teardown.step_finished(&mut sim.driver), StepOutcome::Progressing);
    }
    sim.flush_reports();
    assert_eq!(sim.observed.len(), 3);
    assert!(matches!(sim.observed[0], Error::ShutdownStalled { outstanding: 1 }));
    assert_eq!(teardown.steps, 24);
}

#[test]
fn closing_is_tried_three_times() {
    assert!(may_retry_close(0));
    assert!(may_retry_close(2));
    assert!(!may_retry_close(3));
}

#[test]
fn a_failure_to_look_for_completions_is_reported() {
    let mut sim: Sim<Vec<u8>> = Sim::new();
    let mut pass: Pass<Vec<u8>, String, Slot<Vec<u8>>> = Pass::drive();
    loop {
        match pass.advance(&mut sim.driver) {
            Action::PopCompletion => pass.popped(&mut sim.driver, Err(Error::of_code(E_FAIL))),
            Action::Finish => break,
            _ => {}
        }
    }
    sim.flush_reports();
    assert!(matches!(sim.observed.as_slice(), [Error::Other(e)] if e.code == E_FAIL));
}

#[test]
fn a_drain_resolves_what_was_never_queued() {
    let mut sim: Sim<Vec<u8>> = Sim::new();
    let slot = empty_slot();
    sim.driver
        .try_read(
            file(),
            FILE,
            Carried::Owned(vec![8]),
            1,
            1,
            0,
            0,
            Ok(()),
            Rc::clone(&slot),
        )
        .expect("accepted");
    sim.driver.shutdown();
    assert_eq!(sim.drain_step(), StepOutcome::Quiescent);
    let resolution = slot.borrow_mut().completed.take().expect("resolved");
    assert!(matches!(resolution.result, Err(Error::AbandonedAtShutdown)));
}

#[test]
fn dropping_before_building_gives_the_buffer_up_at_once() {
    let drops = Rc::new(Cell::new(0));
    let mut sim: Sim<Counting> = Sim::new();
    let entry = sim
        .driver
        .try_read(
            file(),
            FILE,
            Carried::Owned(Counting(Rc::clone(&drops))),
            1,
            1,
            0,
            0,
            Ok(()),
            empty_slot(),
        )
        .expect("accepted");
    let dropped = sim.driver.future_dropped(Token::from_user_data(entry.user_data));
    assert!(dropped.request.is_none());
    assert_eq!(drops.get(), 1);
    assert_eq!(sim.driver.outstanding(), 0);
}

#[test]
fn an_abandoned_waiter_takes_no_other_with_it() {
    let mut sim: Sim<Vec<u8>> = Sim::new();
    let (one, two) = (waker(), waker());
    let mut a = ShutdownComplete::new();
    let mut b = ShutdownComplete::new();
    a.poll(&mut sim.driver, Rc::clone(&one));
    b.poll(&mut sim.driver, Rc::clone(&two));
    // A future that was never polled has nothing to take back.
    ShutdownComplete::new().dropped(&mut sim.driver);
    assert_eq!(sim.driver.shutdown_waiters.len(), 2);
    a.dropped(&mut sim.driver);
    sim.drop_driver();
    assert_eq!((one.get(), two.get()), (0, 1));
}

#[test]
fn a_read_on_an_empty_pipe_stays_in_flight() {
    let mut sim: Sim<Vec<u8>> = Sim::new();
    let mut fut = sim.read_vec(PIPE, vec![0_u8; 16], 16, 0);
    let w = waker();
    assert!(poll_read(&mut fut, &w).is_none());

    for _ in 0..50 {
        sim.pass();
    }
    assert!(poll_read(&mut fut, &w).is_none(), "must not complete on its own");
    assert_eq!(sim.driver.slab.awaiting_kernel(), 1, "the kernel must still be holding the read");

    let token = fut.future.operation_id().expect("submitted").0;
    sim.arrives(token, b"hello");
    sim.pass();
    assert_eq!(w.get(), 1, "whoever awaits the read is woken");
    let read = poll_read(&mut fut, &w).expect("the read must complete once data arrives");
    assert_eq!(read.outcome.result.expect("the read must succeed"), 5);
    assert_eq!(&owned(read.outcome.buffer)[..5], b"hello");
    sim.driver.shutdown();
}

#[test]
fn the_positional_api_is_not_guarded_on_a_pipe() {
    let mut sim: Sim<Vec<u8>> = Sim::new();
    let mut fut = sim.read_vec(PIPE, vec![0_u8; 5], 5, 4096);
    let token = fut.future.operation_id().expect("accepted at any offset").0;
    sim.pass();
    sim.arrives(token, b"hello");
    sim.pass();
    let read = poll_read(&mut fut, &waker()).expect("reported");
    assert_eq!(read.outcome.result.expect("the positional path must still work on a pipe"), 5);
    assert_eq!(&owned(read.outcome.buffer)[..5], b"hello");
}

#[test]
fn a_flush_on_an_undrained_pipe_waits_for_the_peer() {
    let mut sim: Sim<Vec<u8>> = Sim::new();
    let slot = empty_slot();
    let entry = sim
        .driver
        .try_flush(file(), PIPE, 0, 0, Ok(()), Rc::clone(&slot))
        .expect("accepted");
    let token = Token::from_user_data(entry.user_data);
    let built = sim.ring.build(entry.user_data, work_of(&entry));
    assert!(matches!(sim.driver.entry_built(token, built), Queued::Queued(_)));
    let mut flush = FlushFuture { state: FlushState::Waiting(OpFuture::pending(token)) };
    assert!(flush.poll(&mut slot.borrow_mut(), waker()).is_none());

    for _ in 0..200 {
        sim.pass();
    }
    assert!(
        flush.poll(&mut slot.borrow_mut(), waker()).is_none(),
        "a flush must not complete while the peer has not read"
    );

    // The peer drains.
    sim.ring.finish(entry.user_data, 0, 0);
    sim.pass();
    let flushed = flush.poll(&mut slot.borrow_mut(), waker());
    flushed.expect("reported").expect("the flush must complete once the peer has drained");
    assert_eq!(sim.driver.slab.awaiting_kernel(), 0, "and the operation retires");
}

#[test]
fn a_read_into_a_registered_buffer_of_ones_own_is_counted() {
    let mut sim: Sim<Vec<u8>> = Sim::new();
    let buffers = sim.register_vecs(&[16]);
    let handle = sim.check_out(&buffers, 0).unwrap();
    let slot = empty_slot();
    let entry = sim
        .driver
        .try_read(
            file(),
            FILE,
            Carried::Registered(handle),
            0,
            5,
            0,
            0,
            Ok(()),
            Rc::clone(&slot),
        )
        .expect("the extent is the bound");
    let token = Token::from_user_data(entry.user_data);
    let built = sim.ring.build(entry.user_data, work_of(&entry));
    sim.driver.entry_built(token, built);
    let mut future: ReadFuture<Vec<u8>> = ReadFuture::pending(token);
    sim.settle();
    assert_eq!(sim.driver.buffer_registration.as_ref().unwrap().initialized(0), Some(16));
    let current = sim.driver.buffer_registration.as_mut();
    let read = future.poll(&mut slot.borrow_mut(), current, waker()).expect("reported");
    assert!(read.initialized.is_none());
    assert_eq!(handle_of(read.outcome.buffer).buf_len(), 5);
    assert_eq!(sim.driver.buffer_registration.as_ref().unwrap().initialized(0), Some(5));
}

#[test]
fn a_transfer_is_counted_where_the_buffer_is_registered() {
    let mut sim: Sim<Vec<u8>> = Sim::new();
    let buffers = sim.register_vecs(&[32]);
    let mut buffer = sim.check_out(&buffers, 0).unwrap();
    assert!(buffer.begin_fill(sim.driver.buffer_registration.as_mut(), 4).is_ok());
    let target = FileTarget::Owned { file: file(), raw: FILE };
    let mut fut = sim.transfer(target, buffer, 0, 8, false);
    sim.settle();
    assert_eq!(sim.driver.buffer_registration.as_ref().unwrap().initialized(0), Some(8));
    assert!(sim.driver.check_registered_buffer(0, 0, 8, true).is_ok());
    assert!(sim.driver.check_registered_buffer(0, 1, 8, true).is_err());
    assert!(sim.driver.check_registered_buffer(0, 24, 8, false).is_ok());
    let out = poll_transfer(&mut fut).expect("completed");
    assert_eq!(handle_of(out.buffer).buf_len(), 8);
}

/// A guard that says when it is let go.
#[derive(Debug)]
struct Guard(Rc<Cell<bool>>);

impl Drop for Guard {
    fn drop(&mut self) {
        self.0.set(true);
    }
}

type GuardedDriver = DriverInner<Vec<u8>, String, Guarded<u8, Guard>, Waker>;

#[test]
fn a_guard_is_let_go_when_its_operation_reports() {
    let mut driver: GuardedDriver = DriverInner::new(1);
    let gone = Rc::new(Cell::new(false));
    let guard = Guard(Rc::clone(&gone));
    let entry = driver
        .read_sequential(file(), PIPE, Carried::Owned(vec![0; 4]), 4, 4, 9, guard, Ok(()), 7)
        .expect("accepted");
    assert_eq!((entry.kind, entry.offset, entry.sqe_flags), (EntryKind::Read, 9, 0));
    let token = Token::from_user_data(entry.user_data);
    driver.entry_built(token, Ok(()));
    driver.submit_accepted(1);
    // Dropping the future leaves the kernel reading.
    driver.future_dropped(token);
    assert!(!gone.get(), "the position may still move");
    let delivery = driver.reap(completion(entry.user_data, 0, 4)).expect("its own completion");
    assert_eq!(delivery.slot.slot, 7);
    assert!(!gone.get());
    drop(delivery);
    assert!(gone.get());

    // A refusal lets the guard go at once.
    let gone = Rc::new(Cell::new(false));
    let guard = Guard(Rc::clone(&gone));
    let refused = driver
        .write_sequential(file(), PIPE, Carried::Owned(vec![0; 4]), 3, 4, 0, guard, Ok(()), 7)
        .unwrap_err();
    assert!(matches!(
        refused.0,
        Error::Buf(BufError::TooSmall { requested: 4, available: 3 })
    ));
    assert!(gone.get());

    let plain: Guarded<u8, Guard> = Guarded::unguarded(3);
    assert!(plain.slot == 3 && plain.guard.is_none());
    let guard = Guard(Rc::clone(&gone));
    let entry = driver
        .write_sequential(file(), FILE, Carried::Owned(vec![0; 4]), 4, 4, 5, guard, Ok(()), 8)
        .expect("accepted");
    assert_eq!((entry.kind, entry.offset), (EntryKind::Write { flags: 0 }, 5));
}

#[test]
fn a_handle_nobody_collects_goes_back_to_its_collection() {
    let mut sim: Sim<Vec<u8>> = Sim::new();
    let buffers = sim.register_vecs(&[16]);
    let target = || FileTarget::Owned { file: file(), raw: FILE };

    // Reported, and dropped before it was polled.
    let handle = sim.check_out(&buffers, 0).unwrap();
    let fut = sim.transfer(target(), handle, 0, 4, false);
    sim.settle();
    assert!(matches!(sim.check_out(&buffers, 0), Err(Error::BufferCheckedOut { index: 0 })));
    let slot = Rc::try_unwrap(fut.slot).expect("the driver has let go of it").into_inner();
    let (detach, handle) = fut.future.dropped(slot);
    assert!(detach.is_none(), "it is over");
    sim.driver.release_buffer(handle.expect("it lay in the slot"));

    // Refused, and dropped before it was polled.
    let handle = sim.check_out(&buffers, 0).expect("back in its collection");
    let fut = sim.transfer(target(), handle, 0, 17, false);
    let slot = Rc::try_unwrap(fut.slot).expect("never shared").into_inner();
    let (detach, handle) = fut.future.dropped(slot);
    assert!(detach.is_none());
    sim.driver.release_buffer(handle.expect("it never left"));

    // Still with the kernel: there is an operation to detach and nothing to return.
    let handle = sim.check_out(&buffers, 0).expect("back again");
    let stuck = FileTarget::Owned { file: file(), raw: PIPE };
    let fut = sim.transfer(stuck, handle, 0, 4, false);
    sim.pass();
    let token = fut.future.operation_id().unwrap().0;
    let empty: ResultSlot<Vec<u8>, String, Waker> = ResultSlot::new();
    let (detach, handle) = fut.future.dropped(empty);
    assert_eq!(detach, Some(token));
    assert!(handle.is_none());

    // Reads and writes of a registered buffer as one's own do likewise.
    let read: ReadFuture<Vec<u8>> = ReadFuture::pending(token);
    let empty: ResultSlot<Vec<u8>, String, Waker> = ResultSlot::new();
    assert_eq!(read.dropped(empty).0, Some(token));
    let (write, slot): (WriteFuture, ResultSlot<Vec<u8>, String, Waker>) =
        WriteFuture::failed(Error::ShuttingDown, Carried::Owned(vec![1]));
    let (detach, handle) = write.dropped(slot);
    assert!(detach.is_none() && handle.is_none());
    let done: RegisteredOpFuture<Vec<u8>> = RegisteredOpFuture { state: BufOpState::Done };
    let empty: ResultSlot<Vec<u8>, String, Waker> = ResultSlot::new();
    let (detach, handle) = done.dropped(empty);
    assert!(detach.is_none() && handle.is_none());
}
