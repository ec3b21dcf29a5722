//! The end of a driver: draining until nothing is outstanding, then closing the
//! ring and releasing everything it kept alive.

use crate::driver::{Delivery, DriverInner, OpPayload, ShutdownMode};
use crate::error::Error;
use crate::registry::RegistryInner;
use crate::slab::Group;
use vstd::prelude::*;

verus! {

/// After how many drain steps a shutdown is considered slow enough to report.
pub const SLOW_DRAIN_STEPS: u32 = 8;

/// How often to repeat the report once a drain is considered slow.
pub const SLOW_DRAIN_INTERVAL: u32 = 8;

/// How many consecutive submission failures mark a queue entry unsubmittable.
pub const RESIDUE_ATTEMPTS: u32 = 8;

/// How many times to try closing the ring before giving up and aborting.
pub const CLOSE_ATTEMPTS: u32 = 3;

/// How long each drain round waits for outstanding operations to report.
pub const DRAIN_TIMEOUT_MS: usize = 250;

/// What one drain step established.
#[derive(Debug, Clone, Copy, PartialEq, Eq, Structural)]
pub enum StepOutcome {
    /// Nothing is outstanding; the ring can be closed.
    Quiescent,
    /// Work remains and the drain should continue.
    Progressing,
    /// Only queue entries the platform has repeatedly refused remain. They were
    /// never accepted, so closing the ring discards them safely.
    UnsubmittableResidue,
}

/// What a driver gives up once its ring is closed.
#[derive(Debug)]
pub struct Released<B, F, S, W> {
    /// Results for the operations whose entries the platform never accepted.
    pub deliveries: Vec<Delivery<B, F, S>>,
    /// The wakers of the futures awaiting the end of teardown.
    pub wakers: Vec<W>,
    /// The buffer registrations, the superseded ones first. The driver reaches them
    /// no longer; a collection that is still held may.
    pub registrations: Vec<RegistryInner<B>>,
}

/// The wakers of the futures awaiting the end of teardown.
pub open spec fn wakers_of<W>(waiters: Seq<(u64, W)>) -> Seq<W> {
    waiters.map_values(|waiter: (u64, W)| waiter.1)
}

/// The results that go out when every remaining payload is abandoned.
pub open spec fn abandoned_payloads<B, F, S>(
    payloads: Seq<Box<OpPayload<B, F, S>>>,
) -> Seq<Delivery<B, F, S>> {
    payloads.map_values(|payload: Box<OpPayload<B, F, S>>| payload.abandoned())
}

impl<B, F, S, W> DriverInner<B, F, S, W> {
    /// How many slots belong to `group`.
    pub open spec fn group_count(self, group: Group) -> nat {
        crate::slab::count(self.slab@.slots, group)
    }

    /// What a drain step that has reaped everything has established.
    pub open spec fn spec_drain_outcome(self) -> StepOutcome {
        if self.group_count(Group::Outstanding) == 0 {
            StepOutcome::Quiescent
        } else if self.group_count(Group::AwaitingKernel) == 0 && self.submit_failures
            >= RESIDUE_ATTEMPTS {
            StepOutcome::UnsubmittableResidue
        } else {
            StepOutcome::Progressing
        }
    }

    /// Returns what a drain step has established.
    ///
    /// With nothing outstanding the drain is over. Where nothing the platform
    /// accepted remains, yet entries are still queued and submission keeps
    /// failing, those entries were never seen by the kernel: closing the ring
    /// discards them, and their buffers were never exposed. That is the only case
    /// in which abandoning a queue entry is sound, and it is bounded so it cannot
    /// be reached by a merely slow ring.
    pub fn drain_outcome(&self) -> (outcome: StepOutcome)
        ensures
            outcome == self.spec_drain_outcome(),
    {
        if self.slab.outstanding() == 0 {
            return StepOutcome::Quiescent;
        }
        if self.slab.awaiting_kernel() == 0 && self.submit_failures >= RESIDUE_ATTEMPTS {
            return StepOutcome::UnsubmittableResidue;
        }
        StepOutcome::Progressing
    }

    /// How many completions a drain step waits for, where it waits at all.
    pub open spec fn spec_drain_wait(self) -> Option<usize> {
        if self.group_count(Group::Built) == 0 && self.group_count(Group::Outstanding) > 0 {
            Some(self.group_count(Group::Outstanding) as usize)
        } else {
            None
        }
    }

    /// Returns how many completions a drain step should wait for.
    ///
    /// `None` while a queue entry is still unaccepted: a waiting submission
    /// submits *and* waits in one call, and one that timed out could hand entries
    /// to the kernel while leaving them marked unsubmitted. Also `None` with
    /// nothing outstanding, so that an idle shutdown does not wait.
    pub fn drain_wait(&self) -> (wait: Option<usize>)
        requires
            self.wf(),
        ensures
            wait == self.spec_drain_wait(),
    {
        let built: usize = self.slab.built().len();
        proof {
            self.slab.lemma_wf();
            crate::slab_laws::law_listed_tokens_name_the_group(self.slab@, Group::Built);
        }
        if built == 0 {
            let waiting: usize = self.slab.outstanding();
            if waiting > 0 {
                return Some(waiting);
            }
        }
        None
    }

    /// Reports a drain that is taking an unusual number of steps.
    ///
    /// A drain is unbounded by design, so a stalled one would otherwise be
    /// indistinguishable from a hang. Throttled, so a long shutdown does not flood
    /// the observer.
    pub fn report_slow_drain(&mut self, steps: u32)
        ensures
            old(self).leads_to(*final(self)),
            final(self).deferred_reports@ == if steps >= SLOW_DRAIN_STEPS && steps
                % SLOW_DRAIN_INTERVAL == 0 && old(self).group_count(Group::Outstanding) > 0 {
                old(self).deferred_reports@.push(
                    Error::ShutdownStalled {
                        outstanding: old(self).group_count(Group::Outstanding) as usize,
                    },
                )
            } else {
                old(self).deferred_reports@
            },
            *final(self) == (DriverInner {
                deferred_reports: final(self).deferred_reports,
                ..*old(self)
            }),
    {
        if steps < SLOW_DRAIN_STEPS || steps % SLOW_DRAIN_INTERVAL != 0 {
            return ;
        }
        let outstanding: usize = self.slab.outstanding();
        if outstanding == 0 {
            return ;
        }
        self.report(Error::ShutdownStalled { outstanding });
    }

    /// What releasing everything leaves, and gives.
    pub open spec fn closed(self, after: Self, released: Released<B, F, S, W>) -> bool {
        &&& released.deliveries@ == abandoned_payloads(crate::slab::payloads(self.slab@.slots))
        &&& released.wakers@ == wakers_of(self.shutdown_waiters@)
        &&& released.registrations@ == match self.buffer_registration {
            Some(current) => self.retired_buffer_registrations@.push(current),
            None => self.retired_buffer_registrations@,
        }
        &&& after.slab@ == self.slab@.drained(self.slab@.slots.len() as int)
        &&& after.cancel_holds@.len() == 0
        &&& after.retired_buffer_registrations@.len() == 0
        &&& after.retired_file_registrations@.len() == 0
        &&& after.shutdown_waiters@.len() == 0
        &&& after == (DriverInner {
            slab: after.slab,
            cancel_holds: after.cancel_holds,
            buffer_registration: None,
            retired_buffer_registrations: after.retired_buffer_registrations,
            registration_in_flight: false,
            file_registration: None,
            retired_file_registrations: after.retired_file_registrations,
            driver_waker: None,
            nudged: false,
            torn_down: true,
            shutdown_waiters: after.shutdown_waiters,
            ..self
        })
    }

    /// Releases everything the ring was keeping alive, once it is closed.
    ///
    /// Nothing here is reachable by the kernel any more. Any payload still present
    /// belongs to a queue entry the platform never accepted; its future is owed a
    /// result and its buffer back. Returns those results, the wakers of the futures
    /// awaiting the end of teardown, and the buffer registrations.
    pub fn close_and_release(&mut self) -> (released: Released<B, F, S, W>)
        requires
            old(self).wf(),
        ensures
            final(self).wf(),
            old(self).leads_to(*final(self)),
            old(self).closed(*final(self), released),
    {
        let ghost before = *self;
        let payloads = self.slab.drain();
        proof {
            before.slab.lemma_wf();
            crate::slab_laws::law_draining_releases_everything(before.slab@);
            crate::slab_laws::law_empty_group(self.slab@, Group::Live);
        }
        let ghost all = payloads@;
        let mut deliveries: Vec<Delivery<B, F, S>> = Vec::new();
        for payload in it: payloads
            invariant
                it.seq() == all,
                deliveries@ == abandoned_payloads(all.take(it.index() as int)),
        {
            assert(abandoned_payloads(all.take(it.index() as int + 1)) =~= abandoned_payloads(
                all.take(it.index() as int),
            ).push(payload.abandoned()));
            deliveries.push(crate::driver::resolve_abandoned(payload));
        }
        assert(all.take(all.len() as int) =~= all);
        self.cancel_holds = Vec::new();
        let mut registrations: Vec<RegistryInner<B>> = Vec::new();
        std::mem::swap(&mut registrations, &mut self.retired_buffer_registrations);
        match self.buffer_registration.take() {
            Some(current) => {
                registrations.push(current);
            },
            None => {},
        }
        self.registration_in_flight = false;
        self.file_registration = None;
        self.retired_file_registrations = Vec::new();
        self.driver_waker = None;
        self.nudged = false;
        self.torn_down = true;
        let mut waiters: Vec<(u64, W)> = Vec::new();
        std::mem::swap(&mut waiters, &mut self.shutdown_waiters);
        let ghost waiting = waiters@;
        let mut wakers: Vec<W> = Vec::new();
        for waiter in it: waiters
            invariant
                it.seq() == waiting,
                wakers@ == wakers_of(waiting.take(it.index() as int)),
        {
            assert(wakers_of(waiting.take(it.index() as int + 1)) =~= wakers_of(
                waiting.take(it.index() as int),
            ).push(waiter.1));
            wakers.push(waiter.1);
        }
        assert(waiting.take(waiting.len() as int) =~= waiting);
        Released { deliveries, wakers, registrations }
    }

    /// Whether destroying the state now would release memory the kernel may still
    /// reach, because the ring is still open.
    ///
    /// Deliberately not also requiring work to be outstanding: registrations stay
    /// reachable by the kernel until the ring closes.
    pub fn must_not_be_destroyed(&self) -> (b: bool)
        ensures
            b == !self.torn_down,
    {
        !self.torn_down
    }
}

/// Returns whether to try closing the ring again after `failures` failed attempts.
///
/// While the ring is open the kernel may still reach its resources, so releasing
/// them is not an option; once the attempts are spent, only aborting is left.
pub fn may_retry_close(failures: u32) -> (retry: bool)
    ensures
        retry == (failures < CLOSE_ATTEMPTS),
        failures < 3 <==> retry,
{
    failures < CLOSE_ATTEMPTS
}

/// What setting a driver up needs next.
#[derive(Debug, Clone)]
pub enum Setup {
    /// Arm the wait the driver is going to park on.
    ///
    /// Everything that can fail comes before the ring is handed its completion
    /// event: a later failure would close the event under the ring.
    Arm,
    /// Hand the ring its completion event.
    Install,
    /// Nothing: the driver can be made.
    Ready,
    /// Close the ring, which nothing else owns, and give up.
    Abandon(Error),
}

impl Setup {
    /// Begins to set a driver up.
    pub fn new() -> (setup: Setup)
        ensures
            setup == Setup::Arm,
    {
        Setup::Arm
    }

    /// Takes note of whether the wait could be armed.
    pub fn armed(self, armed: Result<(), Error>) -> (next: Setup)
        requires
            self == Setup::Arm,
        ensures
            next == match armed {
                Ok(()) => Setup::Install,
                Err(error) => Setup::Abandon(error),
            },
    {
        match armed {
            Ok(()) => Setup::Install,
            Err(error) => Setup::Abandon(error),
        }
    }

    /// Takes note of whether the ring accepted its completion event.
    pub fn installed(self, installed: Result<(), Error>) -> (next: Setup)
        requires
            self == Setup::Install,
        ensures
            next == match installed {
                Ok(()) => Setup::Ready,
                Err(error) => Setup::Abandon(error),
            },
    {
        match installed {
            Ok(()) => Setup::Ready,
            Err(error) => Setup::Abandon(error),
        }
    }
}

/// A teardown in progress: the drain steps taken so far.
#[derive(Debug, Clone, Copy)]
pub struct Teardown {
    /// How many drain steps have been taken.
    pub steps: u32,
}

impl Teardown {
    /// Starts a teardown.
    pub fn new() -> (teardown: Teardown)
        ensures
            teardown.steps == 0,
    {
        Teardown { steps: 0 }
    }

    /// Takes note that a drain step has finished, reports a slow drain, and
    /// returns what the step established. The drain goes on exactly as long as the
    /// outcome is [`StepOutcome::Progressing`].
    pub fn step_finished<B, F, S, W>(
        &mut self,
        driver: &mut DriverInner<B, F, S, W>,
    ) -> (outcome: StepOutcome)
        ensures
            old(driver).leads_to(*final(driver)),
            final(self).steps == crate::driver::one_more(old(self).steps),
            outcome == old(driver).spec_drain_outcome(),
            final(driver).deferred_reports@ == if final(self).steps >= SLOW_DRAIN_STEPS
                && final(self).steps % SLOW_DRAIN_INTERVAL == 0 && old(driver).group_count(
                Group::Outstanding,
            ) > 0 {
                old(driver).deferred_reports@.push(
                    Error::ShutdownStalled {
                        outstanding: old(driver).group_count(Group::Outstanding) as usize,
                    },
                )
            } else {
                old(driver).deferred_reports@
            },
            *final(driver) == (DriverInner {
                deferred_reports: final(driver).deferred_reports,
                ..*old(driver)
            }),
            final(driver).deferred_reports@.len() == old(driver).deferred_reports@.len() <==> {
                ||| final(self).steps == 0
                ||| final(self).steps % 8 != 0
                ||| old(driver).group_count(Group::Outstanding) == 0
            },
    {
        let outcome = driver.drain_outcome();
        self.steps = self.steps.saturating_add(1);
        driver.report_slow_drain(self.steps);
        outcome
    }
}

/// Escalates a drop that nobody announced to an immediate shutdown.
///
/// A drop nobody asked for is an abrupt one: nothing is left to observe results,
/// so waiting for work to finish on its own would be waiting for nothing. Returns
/// `false` if teardown has already finished and there is nothing to do.
pub fn begin_drop<B, F, S, W>(driver: &mut DriverInner<B, F, S, W>) -> (drain: bool)
    ensures
        old(driver).leads_to(*final(driver)),
        drain == !old(driver).torn_down,
        *final(driver) == if old(driver).torn_down {
            *old(driver)
        } else {
            DriverInner { shutdown: ShutdownMode::Immediate, ..*old(driver) }
        },
{
    if driver.torn_down {
        return false;
    }
    driver.shutdown = ShutdownMode::Immediate;
    true
}

} // verus!
