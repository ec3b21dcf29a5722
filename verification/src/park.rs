//! Suspending the driver until there is something to do, and waiting for its end.

use crate::driver::DriverInner;
use crate::event::ArmedState;
use vstd::prelude::*;

verus! {

/// What came of a poll of the park.
#[derive(Debug)]
pub struct Parked<W> {
    /// Whether the driver owes another pass.
    pub ready: bool,
    /// Wakers this poll put out of their place, to be dropped by the caller once
    /// nothing of the driver is borrowed: dropping one runs executor code.
    pub evicted: Vec<W>,
}

/// The wakers that a poll puts out of their place.
pub open spec fn evicted<W>(first: Option<W>, second: Option<W>) -> Seq<W> {
    let one = match first {
        Some(waker) => seq![waker],
        None => Seq::empty(),
    };
    match second {
        Some(waker) => one.push(waker),
        None => one,
    }
}

/// What a poll of the park leaves.
pub open spec fn park_polled<B, F, S, W>(
    driver: DriverInner<B, F, S, W>,
    armed: ArmedState<W>,
    waker: W,
    other: W,
    driver_after: DriverInner<B, F, S, W>,
    armed_after: ArmedState<W>,
    parked: Parked<W>,
) -> bool {
    &&& parked.ready == (driver.nudged || armed.signalled)
    &&& if driver.nudged {
        &&& parked.evicted@ == evicted(driver.driver_waker, None)
        &&& driver_after == (DriverInner { nudged: false, driver_waker: None, ..driver })
        &&& armed_after == (ArmedState { waker: None, ..armed })
    } else if armed.signalled {
        &&& parked.evicted@ == evicted(driver.driver_waker, Some(waker))
        &&& driver_after == (DriverInner { driver_waker: None, ..driver })
        &&& armed_after == (ArmedState::<W> { signalled: false, waker: None })
    } else {
        &&& parked.evicted@ == evicted(driver.driver_waker, None)
        &&& driver_after == (DriverInner { driver_waker: Some(waker), ..driver })
        &&& armed_after == (ArmedState { signalled: false, waker: Some(other) })
    }
}

/// Suspends the driver, unless something gives it work to do.
///
/// Two things can: the application queuing work or asking for shutdown, which
/// raises the nudge, and the platform announcing completions, which signals the
/// armed wait. `waker` is for the driver and `other` for the armed wait: they are
/// two copies of the polling task's waker.
///
/// Who is driving is recorded *before* the wait is consulted, and neither is left
/// in place by a poll that resolves.
pub fn poll_park<B, F, S, W>(
    driver: &mut DriverInner<B, F, S, W>,
    armed: &mut ArmedState<W>,
    waker: W,
    other: W,
) -> (parked: Parked<W>)
    ensures
        old(driver).leads_to(*final(driver)),
        park_polled(
            *old(driver),
            *old(armed),
            waker,
            other,
            *final(driver),
            *final(armed),
            parked,
        ),
{
    let mut out: Vec<W> = Vec::new();
    match driver.take_driver_waker() {
        Some(previous) => {
            out.push(previous);
        },
        None => {},
    }
    assert(out@ =~= evicted(old(driver).driver_waker, None));
    if driver.take_nudge() {
        armed.release_waker();
        return Parked { ready: true, evicted: out };
    }
    driver.driver_waker = Some(waker);
    if armed.poll_signalled(other) {
        match driver.take_driver_waker() {
            Some(own) => {
                out.push(own);
            },
            None => {},
        }
        return Parked { ready: true, evicted: out };
    }
    Parked { ready: false, evicted: out }
}

/// Takes note that the park was abandoned part-way: it must not leave its wakers
/// behind. The nudge and the signal are durable, so nothing is lost.
pub fn drop_park<B, F, S, W>(
    driver: &mut DriverInner<B, F, S, W>,
    armed: &mut ArmedState<W>,
) -> (evicted: Option<W>)
    ensures
        old(driver).leads_to(*final(driver)),
        evicted == old(driver).driver_waker,
        *final(driver) == (DriverInner { driver_waker: None, ..*old(driver) }),
        *final(armed) == (ArmedState { waker: None, ..*old(armed) }),
{
    armed.release_waker();
    driver.take_driver_waker()
}

/// Where the waiter tagged `id` stands from `from` on; the number of waiters if it
/// is not among them.
pub open spec fn waiter_at<W>(waiters: Seq<(u64, W)>, id: u64, from: int) -> int
    decreases waiters.len() - from,
{
    if from >= waiters.len() {
        waiters.len() as int
    } else if waiters[from].0 == id {
        from
    } else {
        waiter_at(waiters, id, from + 1)
    }
}

/// The waiters with the one tagged `id` waiting by `waker`: in its own place if it
/// has one, and at the end if it does not.
pub open spec fn waiting<W>(waiters: Seq<(u64, W)>, id: u64, waker: W) -> Seq<(u64, W)> {
    let k = waiter_at(waiters, id, 0);
    if k < waiters.len() {
        waiters.update(k, (id, waker))
    } else {
        waiters.push((id, waker))
    }
}

/// The waiters without those tagged `id`.
pub open spec fn not_waiting<W>(waiters: Seq<(u64, W)>, id: u64) -> Seq<(u64, W)>
    decreases waiters.len(),
{
    if waiters.len() == 0 {
        Seq::empty()
    } else if waiters.last().0 == id {
        not_waiting(waiters.drop_last(), id)
    } else {
        not_waiting(waiters.drop_last(), id).push(waiters.last())
    }
}

/// Resolves once the driver has finished tearing down.
#[derive(Debug)]
pub struct ShutdownComplete {
    /// Assigned on first poll, so a re-poll replaces this future's waker rather
    /// than registering a second one, and dropping removes exactly this entry.
    pub id: Option<u64>,
}

impl ShutdownComplete {
    /// Awaits the end of teardown.
    pub fn new() -> (future: Self)
        ensures
            future.id is None,
    {
        ShutdownComplete { id: None }
    }

    /// The tag this future has, or gets with its first poll.
    pub open spec fn tag<B, F, S, W>(self, driver: DriverInner<B, F, S, W>) -> u64 {
        match self.id {
            Some(id) => id,
            None => driver.next_waiter_id,
        }
    }

    /// Polls for the end of teardown; see [`ShutdownComplete`].
    pub fn poll<B, F, S, W>(
        &mut self,
        driver: &mut DriverInner<B, F, S, W>,
        waker: W,
    ) -> (ready: bool)
        requires
            old(driver).wf(),
            old(self).id matches Some(id) ==> id < old(driver).next_waiter_id,
            old(self).id is None ==> old(driver).next_waiter_id < u64::MAX,
        ensures
            final(driver).wf(),
            old(driver).leads_to(*final(driver)),
            ready == old(driver).torn_down,
            if old(driver).torn_down {
                *final(driver) == *old(driver) && *final(self) == *old(self)
            } else {
                let id = old(self).tag(*old(driver));
                &&& final(self).id == Some(id)
                &&& id < final(driver).next_waiter_id
                &&& final(driver).shutdown_waiters@ == waiting(
                    old(driver).shutdown_waiters@,
                    id,
                    waker,
                )
                &&& *final(driver) == (DriverInner {
                    shutdown_waiters: final(driver).shutdown_waiters,
                    next_waiter_id: if old(self).id is None {
                        (id + 1) as u64
                    } else {
                        old(driver).next_waiter_id
                    },
                    ..*old(driver)
                })
            },
    {
        if driver.torn_down {
            return true;
        }
        let id: u64 = match self.id {
            Some(id) => id,
            None => {
                let id: u64 = driver.next_waiter_id;
                driver.next_waiter_id = id + 1;
                self.id = Some(id);
                id
            },
        };
        let ghost before = driver.shutdown_waiters@;
        proof {
            lemma_waiter_at(before, id, 0);
        }
        let mut k: usize = 0;
        while k < driver.shutdown_waiters.len() && driver.shutdown_waiters[k].0 != id
            invariant
                k <= before.len(),
                driver.shutdown_waiters@ == before,
                waiter_at(before, id, 0) == waiter_at(before, id, k as int),
            decreases before.len() - k,
        {
            k = k + 1;
        }
        if k < driver.shutdown_waiters.len() {
            driver.shutdown_waiters[k] = (id, waker);
        } else {
            driver.shutdown_waiters.push((id, waker));
        }
        assert(driver.shutdown_waiters@ =~= waiting(before, id, waker));
        false
    }

    /// Abandons the wait, which must not leave a waker behind.
    pub fn dropped<B, F, S, W>(self, driver: &mut DriverInner<B, F, S, W>)
        requires
            old(driver).wf(),
        ensures
            final(driver).wf(),
            old(driver).leads_to(*final(driver)),
            match self.id {
                None => *final(driver) == *old(driver),
                Some(id) => {
                    &&& final(driver).shutdown_waiters@ == not_waiting(
                        old(driver).shutdown_waiters@,
                        id,
                    )
                    &&& *final(driver) == (DriverInner {
                        shutdown_waiters: final(driver).shutdown_waiters,
                        ..*old(driver)
                    })
                },
            },
    {
        let id: u64 = match self.id {
            Some(id) => id,
            None => {
                return ;
            },
        };
        let mut all: Vec<(u64, W)> = Vec::new();
        std::mem::swap(&mut all, &mut driver.shutdown_waiters);
        let ghost waiters = all@;
        let mut kept: Vec<(u64, W)> = Vec::new();
        for waiter in it: all
            invariant
                it.seq() == waiters,
                kept@ == not_waiting(waiters.take(it.index() as int), id),
        {
            assert(waiters.take(it.index() as int + 1).drop_last() =~= waiters.take(
                it.index() as int,
            ));
            if waiter.0 != id {
                kept.push(waiter);
            }
        }
        assert(waiters.take(waiters.len() as int) =~= waiters);
        proof {
            lemma_not_waiting(waiters, id, driver.next_waiter_id);
        }
        driver.shutdown_waiters = kept;
    }
}

/// What looking for a waiter finds out.
pub proof fn lemma_waiter_at<W>(waiters: Seq<(u64, W)>, id: u64, from: int)
    requires
        0 <= from <= waiters.len(),
    ensures
        from <= waiter_at(waiters, id, from) <= waiters.len(),
        waiter_at(waiters, id, from) < waiters.len() ==> waiters[waiter_at(waiters, id, from)].0
            == id,
        forall|k: int| from <= k < waiter_at(waiters, id, from) ==> (#[trigger] waiters[k]).0 != id,
    decreases waiters.len() - from,
{
    if from < waiters.len() && waiters[from].0 != id {
        lemma_waiter_at(waiters, id, from + 1);
    }
}

proof fn lemma_not_waiting<W>(waiters: Seq<(u64, W)>, id: u64, next: u64)
    requires
        crate::driver::waiters_wf(waiters, next),
    ensures
        crate::driver::waiters_wf(not_waiting(waiters, id), next),
        forall|k: int|
            0 <= k < not_waiting(waiters, id).len() ==> (#[trigger] not_waiting(waiters, id)[k]).0
                != id && waiters.contains(not_waiting(waiters, id)[k]),
    decreases waiters.len(),
{
    if waiters.len() > 0 {
        let shorter = waiters.drop_last();
        assert forall|j: int, k: int| 0 <= j < k < shorter.len() implies (#[trigger] shorter[j]).0
            != (#[trigger] shorter[k]).0 by {
            assert(waiters[j].0 != waiters[k].0);
        }
        assert forall|k: int| 0 <= k < shorter.len() implies (#[trigger] shorter[k]).0 < next by {
            assert(waiters[k].0 < next);
        }
        lemma_not_waiting(shorter, id, next);
        let kept = not_waiting(shorter, id);
        let all = not_waiting(waiters, id);
        assert forall|k: int| 0 <= k < all.len() implies (#[trigger] all[k]).0 != id
            && waiters.contains(all[k]) && all[k].0 < next by {
            if k < kept.len() {
                assert(all[k] == kept[k]);
                let i = shorter.index_of(kept[k]);
                assert(waiters[i] == kept[k]);
            } else {
                assert(waiters[waiters.len() - 1] == all[k]);
            }
        }
        assert forall|j: int, k: int| 0 <= j < k < all.len() implies (#[trigger] all[j]).0 != (
        #[trigger] all[k]).0 by {
            assert(all[j] == kept[j]);
            if k < kept.len() {
                assert(all[k] == kept[k]);
            } else {
                let i = shorter.index_of(kept[j]);
                assert(waiters[i].0 != waiters[waiters.len() - 1].0);
            }
        }
    }
}

} // verus!
