//! One pass of the driver over its ring.
//!
//! A pass hands queued entries to the kernel, requests the cancellations that were
//! waiting for that, and reaps what has completed. A drain step is a pass that
//! also resolves what was never queued, cancels everything under an immediate
//! shutdown, and waits for completions.
//!
//! The ring belongs to the caller. [`Pass::advance`] says what to do with it next;
//! the caller does it and says what came of it, until the pass is finished.

use crate::driver::{CancelRequest, Completion, Delivery, DriverInner, ShutdownMode};
use crate::error::Error;
use crate::slab::Group;
use crate::teardown::DRAIN_TIMEOUT_MS;
use crate::token::Token;
use vstd::prelude::*;

verus! {

/// Which cancellations a pass is requesting.
#[derive(Debug, Clone, Copy, PartialEq, Eq, Structural)]
pub enum Sweep {
    /// Those asked for before the kernel had their operation.
    Deferred,
    /// Those of operations whose future was dropped while they were queued.
    Abandoned,
    /// Those of everything the kernel holds.
    Everything,
}

/// How far a pass has got.
#[derive(Debug)]
pub enum Stage {
    /// Nothing has been done.
    Begin,
    /// Queued entries are to be handed to the kernel.
    Submit,
    /// Entries are being handed to the kernel.
    Submitting,
    /// Cancellations are to be requested, from `at` on.
    Cancel {
        /// Which ones.
        sweep: Sweep,
        /// The operations to cancel.
        tokens: Vec<Token>,
        /// The next to look at.
        at: usize,
    },
    /// A cancellation is being built into the queue.
    Cancelling {
        /// Which ones are being requested.
        sweep: Sweep,
        /// The operations to cancel.
        tokens: Vec<Token>,
        /// The next to look at.
        at: usize,
        /// The cancellation being built.
        cancel: Token,
    },
    /// An immediate shutdown's cancellations are due.
    CancelEverything,
    /// A drain step's wait is due.
    Wait,
    /// Completions are being waited for.
    Waiting,
    /// Completions are to be reaped.
    Reap,
    /// A completion is being taken off the queue.
    Popping,
    /// The pass is over.
    Finished,
}

/// What to do with the ring next.
#[derive(Debug)]
pub enum Action<F> {
    /// Nothing: go on.
    Continue,
    /// Submit what is queued, waiting for this many completions at most this long.
    Submit {
        /// How many completions to wait for.
        wait: usize,
        /// For how long, in milliseconds.
        milliseconds: usize,
    },
    /// Build a cancellation into the queue.
    BuildCancel(CancelRequest<F>),
    /// Take a completion off the queue.
    PopCompletion,
    /// Nothing: the pass is over.
    Finish,
}

/// A pass in progress.
#[derive(Debug)]
pub struct Pass<B, F, S> {
    /// Whether this is a drain step.
    pub draining: bool,
    /// How far the pass has got.
    pub stage: Stage,
    /// The results to deliver once the pass is over, in order.
    pub deliveries: Vec<Delivery<B, F, S>>,
}

/// What the driver does once a pass of its loop is over.
#[derive(Debug, Clone, Copy, PartialEq, Eq, Structural)]
pub enum Next {
    /// Tear down: shutdown was requested.
    Teardown,
    /// Yield and come straight back: entries are queued that the kernel has not
    /// taken, and no completion can arrive to prompt a retry.
    Retry,
    /// Park until there is something to do.
    Park,
}

impl Stage {
    /// How many kinds of stage a pass can still go through, this one included.
    pub open spec fn rank(self) -> int {
        match self {
            Stage::Begin => 11,
            Stage::Submit => 10,
            Stage::Submitting => 9,
            Stage::Cancel { sweep: Sweep::Deferred, .. } => 8,
            Stage::Cancelling { sweep: Sweep::Deferred, .. } => 8,
            Stage::Cancel { sweep: Sweep::Abandoned, .. } => 7,
            Stage::Cancelling { sweep: Sweep::Abandoned, .. } => 7,
            Stage::CancelEverything => 6,
            Stage::Cancel { sweep: Sweep::Everything, .. } => 5,
            Stage::Cancelling { sweep: Sweep::Everything, .. } => 5,
            Stage::Wait => 4,
            Stage::Waiting => 3,
            Stage::Reap => 2,
            Stage::Popping => 1,
            Stage::Finished => 0,
        }
    }

    /// How many steps a sweep of cancellations has left at most.
    pub open spec fn left(self) -> int {
        match self {
            Stage::Cancel { tokens, at, .. } => if at <= tokens@.len() {
                2 * (tokens@.len() - at)
            } else {
                0
            },
            Stage::Cancelling { tokens, at, .. } => if at <= tokens@.len() {
                2 * (tokens@.len() - at) + 1
            } else {
                1
            },
            _ => 0,
        }
    }

    /// Whether a pass at this stage is closer to its end at `later`.
    pub open spec fn moves_on_to(self, later: Stage) -> bool {
        later.rank() < self.rank() || (later.rank() == self.rank() && later.left() < self.left())
    }
}

/// A pass comes to an end: every step and every answer takes it closer, but for a
/// completion that was taken off the queue, after which it looks for another. So it
/// goes on for as long as completions keep arriving, and no longer.
pub proof fn law_a_pass_moves_on<B, F, S, W>(
    pass: Pass<B, F, S>,
    driver: DriverInner<B, F, S, W>,
    after: Pass<B, F, S>,
    driver_after: DriverInner<B, F, S, W>,
    action: Action<F>,
    result: Result<u32, Error>,
)
    ensures
        pass.advanced(driver, after, driver_after, action) && !pass.is_awaiting()
            && !(pass.stage is Finished) ==> pass.stage.moves_on_to(after.stage),
        pass.submit_noted(driver, result, after, driver_after) && (pass.stage is Submitting
            || pass.stage is Waiting) ==> pass.stage.moves_on_to(after.stage),
        pass.stage matches Stage::Cancelling { sweep, tokens, at, .. } ==> pass.stage.moves_on_to(
            Stage::Cancel { sweep, tokens, at },
        ),
        pass.stage is Popping ==> pass.stage.moves_on_to(Stage::Finished),
        pass.stage.moves_on_to(after.stage) ==> !after.stage.moves_on_to(pass.stage),
{
    match pass.stage {
        Stage::Cancel { tokens, .. } => {
            assert(tokens.len() == tokens@.len());
        },
        _ => {},
    }
}

impl<B, F, S> Pass<B, F, S> {
    /// Begins a pass of the driver's loop.
    pub fn drive() -> (pass: Self)
        ensures
            !pass.draining,
            pass.stage == Stage::Begin,
            pass.deliveries@.len() == 0,
    {
        Pass { draining: false, stage: Stage::Begin, deliveries: Vec::new() }
    }

    /// Begins a drain step.
    pub fn drain() -> (pass: Self)
        ensures
            pass.draining,
            pass.stage == Stage::Begin,
            pass.deliveries@.len() == 0,
    {
        Pass { draining: true, stage: Stage::Begin, deliveries: Vec::new() }
    }

    /// Whether the pass waits to be told what came of an action.
    pub open spec fn is_awaiting(self) -> bool {
        self.stage is Submitting || self.stage is Cancelling || self.stage is Waiting
            || self.stage is Popping
    }

    /// What one step of a pass that awaits nothing leaves.
    pub open spec fn advanced<W>(
        self,
        driver: DriverInner<B, F, S, W>,
        after: Self,
        driver_after: DriverInner<B, F, S, W>,
        action: Action<F>,
    ) -> bool {
        &&& after.draining == self.draining
        &&& match self.stage {
            Stage::Begin => {
                let unqueued = crate::slab::tokens(driver.slab@.slots, Group::Described);
                &&& after.stage == Stage::Submit
                &&& action == Action::<F>::Continue
                &&& if self.draining {
                    &&& after.deliveries@ == self.deliveries@ + crate::driver::abandoned_all(
                        driver.slab@,
                        unqueued,
                    )
                    &&& driver_after.slab@ == crate::driver::completed_all(driver.slab@, unqueued)
                    &&& driver_after == (DriverInner { slab: driver_after.slab, ..driver })
                } else {
                    after.deliveries == self.deliveries && driver_after == driver
                }
            },
            Stage::Submit => {
                &&& after.deliveries == self.deliveries
                &&& driver_after == driver
                &&& if driver.pending_submit {
                    after.stage == Stage::Submitting && action == (Action::<F>::Submit {
                        wait: 0,
                        milliseconds: 0,
                    })
                } else {
                    after.stage == Stage::CancelEverything && action == Action::<F>::Continue
                }
            },
            Stage::Cancel { sweep, tokens, at } => {
                &&& after.deliveries == self.deliveries
                &&& if at < tokens@.len() {
                    if driver.can_issue_cancel(tokens@[at as int]) {
                        &&& driver.cancel_issued(
                            tokens@[at as int],
                            driver_after,
                            Some(driver.cancel_request(tokens@[at as int])),
                        )
                        &&& action == Action::BuildCancel(
                            driver.cancel_request(tokens@[at as int]),
                        )
                        &&& after.stage == (Stage::Cancelling {
                            sweep,
                            tokens,
                            at: (at + 1) as usize,
                            cancel: tokens@[at as int].spec_cancel(),
                        })
                    } else {
                        &&& driver_after == driver
                        &&& action == Action::<F>::Continue
                        &&& after.stage == (Stage::Cancel { sweep, tokens, at: (at + 1) as usize })
                    }
                } else {
                    &&& driver_after == driver
                    &&& action == Action::<F>::Continue
                    &&& match sweep {
                        Sweep::Deferred => after.stage matches Stage::Cancel {
                            sweep: Sweep::Abandoned,
                            tokens,
                            at: 0,
                        } && tokens@ == crate::slab::tokens(driver.slab@.slots, Group::Abandoned),
                        Sweep::Abandoned => after.stage == Stage::CancelEverything,
                        Sweep::Everything => after.stage == Stage::Wait,
                    }
                }
            },
            Stage::CancelEverything => {
                &&& after.deliveries == self.deliveries
                &&& driver_after == driver
                &&& action == Action::<F>::Continue
                &&& if self.draining && driver.shutdown == ShutdownMode::Immediate {
                    after.stage matches Stage::Cancel { sweep: Sweep::Everything, tokens, at: 0 }
                        && tokens@ == crate::slab::tokens(driver.slab@.slots, Group::Uncancelled)
                } else {
                    after.stage == Stage::Wait
                }
            },
            Stage::Wait => {
                &&& after.deliveries == self.deliveries
                &&& driver_after == driver
                &&& match driver.spec_drain_wait() {
                    Some(wait) if self.draining => after.stage == Stage::Waiting && action == (
                    Action::<F>::Submit { wait, milliseconds: DRAIN_TIMEOUT_MS }),
                    _ => after.stage == Stage::Reap && action == Action::<F>::Continue,
                }
            },
            Stage::Reap => {
                &&& after.deliveries == self.deliveries
                &&& driver_after == driver
                &&& after.stage == Stage::Popping
                &&& action == Action::<F>::PopCompletion
            },
            _ => {
                &&& after.deliveries == self.deliveries
                &&& driver_after == driver
                &&& after.stage == self.stage
                &&& action == Action::<F>::Finish
            },
        }
    }

    /// Takes the next step, and says what to do with the ring.
    pub fn advance<W>(&mut self, driver: &mut DriverInner<B, F, S, W>) -> (action: Action<F>)
        requires
            old(driver).wf(),
            !old(self).is_awaiting(),
        ensures
            final(driver).wf(),
            old(driver).leads_to(*final(driver)),
            old(self).advanced(*old(driver), *final(self), *final(driver), action),
    {
        let mut stage = Stage::Finished;
        std::mem::swap(&mut stage, &mut self.stage);
        match stage {
            Stage::Begin => {
                if self.draining {
                    let mut resolved = driver.resolve_unqueued();
                    self.deliveries.append(&mut resolved);
                }
                self.stage = Stage::Submit;
                Action::Continue
            },
            Stage::Submit => {
                if driver.pending_submit {
                    self.stage = Stage::Submitting;
                    Action::Submit { wait: 0, milliseconds: 0 }
                } else {
                    self.stage = Stage::CancelEverything;
                    Action::Continue
                }
            },
            Stage::Cancel { sweep, tokens, at } => {
                if at < tokens.len() {
                    let token = tokens[at];
                    match driver.issue_cancel(token) {
                        Some(request) => {
                            self.stage = Stage::Cancelling {
                                sweep,
                                tokens,
                                at: at + 1,
                                cancel: token.to_cancel(),
                            };
                            Action::BuildCancel(request)
                        },
                        None => {
                            self.stage = Stage::Cancel { sweep, tokens, at: at + 1 };
                            Action::Continue
                        },
                    }
                } else {
                    self.stage = match sweep {
                        Sweep::Deferred => Stage::Cancel {
                            sweep: Sweep::Abandoned,
                            tokens: driver.slab.detached_submitted_uncancelled(),
                            at: 0,
                        },
                        Sweep::Abandoned => Stage::CancelEverything,
                        Sweep::Everything => Stage::Wait,
                    };
                    Action::Continue
                }
            },
            Stage::CancelEverything => {
                self.stage = if self.draining && driver.shutdown == ShutdownMode::Immediate {
                    Stage::Cancel {
                        sweep: Sweep::Everything,
                        tokens: driver.slab.submitted_uncancelled(),
                        at: 0,
                    }
                } else {
                    Stage::Wait
                };
                Action::Continue
            },
            Stage::Wait => {
                if self.draining {
                    match driver.drain_wait() {
                        Some(wait) => {
                            self.stage = Stage::Waiting;
                            return Action::Submit { wait, milliseconds: DRAIN_TIMEOUT_MS };
                        },
                        None => {},
                    }
                }
                self.stage = Stage::Reap;
                Action::Continue
            },
            Stage::Reap => {
                self.stage = Stage::Popping;
                Action::PopCompletion
            },
            other => {
                self.stage = other;
                Action::Finish
            },
        }
    }

    /// Whether a submission that succeeds with `result` can still be counted.
    pub open spec fn can_count<W>(
        self,
        driver: DriverInner<B, F, S, W>,
        result: Result<u32, Error>,
    ) -> bool {
        self.stage is Submitting && result is Ok ==> driver.submissions < u64::MAX
            && driver.submitted_entries + result->Ok_0 <= u64::MAX
    }

    /// What a submission's result leaves.
    pub open spec fn submit_noted<W>(
        self,
        driver: DriverInner<B, F, S, W>,
        result: Result<u32, Error>,
        after: Self,
        driver_after: DriverInner<B, F, S, W>,
    ) -> bool {
        &&& after.draining == self.draining
        &&& after.deliveries == self.deliveries
        &&& match result {
            _ if self.stage is Waiting => after.stage == Stage::Reap && driver_after == driver,
            Ok(entries) => {
                &&& after.stage matches Stage::Cancel { sweep: Sweep::Deferred, tokens, at: 0 }
                &&& tokens@ == driver.deferred_cancels@
                &&& driver_after.deferred_cancels@.len() == 0
                &&& driver_after.slab@ == driver.slab@.promoted()
                &&& driver_after == (DriverInner {
                    submissions: (driver.submissions + 1) as u64,
                    submitted_entries: (driver.submitted_entries + entries) as u64,
                    pending_submit: false,
                    submit_failures: 0,
                    slab: driver_after.slab,
                    deferred_cancels: driver_after.deferred_cancels,
                    ..driver
                })
            },
            Err(error) => {
                let failures = crate::driver::one_more(driver.submit_failures);
                &&& after.stage == Stage::CancelEverything
                &&& driver_after.deferred_reports@ == if failures == 1 || failures % 64 == 0 {
                    driver.deferred_reports@.push(error)
                } else {
                    driver.deferred_reports@
                }
                &&& driver_after == (DriverInner {
                    submit_failures: failures,
                    deferred_reports: driver_after.deferred_reports,
                    ..driver
                })
            },
        }
    }

    /// Takes note of what came of a submission.
    ///
    /// On success the entries are the kernel's, and the cancellations that waited
    /// for that become due. On failure every entry stays in the submission queue,
    /// so the affected buffers stay retained and a retry is owed. What came of a
    /// drain step's wait is ignored: a wait that times out is reported as an error
    /// and is normal progress.
    pub fn submitted<W>(
        &mut self,
        driver: &mut DriverInner<B, F, S, W>,
        result: Result<u32, Error>,
    )
        requires
            old(driver).wf(),
            old(self).stage is Submitting || old(self).stage is Waiting,
            old(self).can_count(*old(driver), result),
        ensures
            final(driver).wf(),
            old(driver).leads_to(*final(driver)),
            old(self).submit_noted(*old(driver), result, *final(self), *final(driver)),
    {
        match self.stage {
            Stage::Submitting => match result {
                Ok(entries) => {
                    driver.submit_accepted(entries);
                    let mut tokens: Vec<Token> = Vec::new();
                    std::mem::swap(&mut tokens, &mut driver.deferred_cancels);
                    self.stage = Stage::Cancel { sweep: Sweep::Deferred, tokens, at: 0 };
                },
                Err(error) => {
                    driver.note_submit_failure(error);
                    self.stage = Stage::CancelEverything;
                },
            },
            _ => {
                self.stage = Stage::Reap;
            },
        }
    }

    /// Takes note of whether a cancellation was built into the queue.
    pub fn cancel_built<W>(&mut self, driver: &mut DriverInner<B, F, S, W>, enqueued: bool)
        requires
            old(driver).wf(),
            old(self).stage is Cancelling,
        ensures
            final(driver).wf(),
            old(driver).leads_to(*final(driver)),
            final(self).draining == old(self).draining,
            final(self).deliveries == old(self).deliveries,
            ({
                let cancel = old(self).stage->Cancelling_cancel;
                &&& final(self).stage == (Stage::Cancel {
                    sweep: old(self).stage->Cancelling_sweep,
                    tokens: old(self).stage->Cancelling_tokens,
                    at: old(self).stage->Cancelling_at,
                })
                &&& old(driver).cancel_settled(cancel, enqueued, *final(driver))
            }),
    {
        let mut stage = Stage::Finished;
        std::mem::swap(&mut stage, &mut self.stage);
        match stage {
            Stage::Cancelling { sweep, tokens, at, cancel } => {
                driver.cancel_built(cancel, enqueued);
                self.stage = Stage::Cancel { sweep, tokens, at };
            },
            other => {
                self.stage = other;
            },
        }
    }

    /// Takes note of what came off the completion queue.
    ///
    /// A completion is handled and the next is asked for; an empty queue ends the
    /// pass; a failure to look is reported and ends it too.
    pub fn popped<W>(
        &mut self,
        driver: &mut DriverInner<B, F, S, W>,
        popped: Result<Option<Completion>, Error>,
    )
        requires
            old(driver).wf(),
            old(self).stage is Popping,
        ensures
            final(driver).wf(),
            old(driver).leads_to(*final(driver)),
            final(self).draining == old(self).draining,
            match popped {
                Ok(Some(completion)) => {
                    &&& final(self).stage == Stage::Reap
                    &&& exists|delivery: Option<Delivery<B, F, S>>|
                        #[trigger] old(driver).reaped(completion, *final(driver), delivery)
                            && final(self).deliveries@ == match delivery {
                            Some(delivery) => old(self).deliveries@.push(delivery),
                            None => old(self).deliveries@,
                        }
                },
                Ok(None) => {
                    &&& final(self).stage == Stage::Finished
                    &&& final(self).deliveries == old(self).deliveries
                    &&& *final(driver) == *old(driver)
                },
                Err(error) => {
                    &&& final(self).stage == Stage::Finished
                    &&& final(self).deliveries == old(self).deliveries
                    &&& final(driver).deferred_reports@ == old(driver).deferred_reports@.push(error)
                    &&& *final(driver) == (DriverInner {
                        deferred_reports: final(driver).deferred_reports,
                        ..*old(driver)
                    })
                },
            },
            old(self).deliveries@.is_prefix_of(final(self).deliveries@),
            popped matches Ok(Some(completion)) ==> {
                let token = Token(completion.user_data);
                let live = completion.user_data % 2 == 0 && old(driver).slab@.operation(
                    token,
                ) is Some;
                &&& final(self).deliveries@.len() == old(self).deliveries@.len() + if live {
                    1int
                } else {
                    0
                }
                &&& live ==> {
                    let told = final(self).deliveries@.last();
                    &&& told.slot == old(driver).slab@.operation(token)->0.payload.slot
                    &&& told.result is Ok <==> completion.code >= 0
                    &&& completion.code >= 0 && completion.information <= u32::MAX ==> (
                    told.result matches Ok(n) && n as int == completion.information as int)
                }
            },
    {
        match popped {
            Ok(Some(completion)) => {
                match driver.reap(completion) {
                    Some(delivery) => {
                        self.deliveries.push(delivery);
                    },
                    None => {},
                }
                self.stage = Stage::Reap;
            },
            Ok(None) => {
                self.stage = Stage::Finished;
            },
            Err(error) => {
                driver.report(error);
                self.stage = Stage::Finished;
            },
        }
    }
}

impl<B, F, S, W> DriverInner<B, F, S, W> {
    /// Returns what to do once a pass of the driver's loop is over.
    pub fn next_after_pass(&self) -> (next: Next)
        ensures
            next == if self.shutdown != ShutdownMode::Running {
                Next::Teardown
            } else if self.pending_submit {
                Next::Retry
            } else {
                Next::Park
            },
            next == Next::Teardown <==> self.shutdown == ShutdownMode::Graceful || self.shutdown
                == ShutdownMode::Immediate,
            next == Next::Park ==> !self.pending_submit,
            next == Next::Retry ==> self.pending_submit,
    {
        if self.shutdown != ShutdownMode::Running {
            Next::Teardown
        } else if self.pending_submit {
            Next::Retry
        } else {
            Next::Park
        }
    }
}

} // verus!
