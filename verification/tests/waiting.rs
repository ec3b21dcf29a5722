//! The armed wait, its teardown, and the one-off wait.

use std::cell::Cell;
use std::rc::Rc;
use futures::channel::oneshot;
use std::task::Context;
use win_ioring::driver::DriverInner;
use win_ioring::event::{
    wait_succeeded, wait_timeout, ArmedEvent, ArmedState, EventWaitFuture, Registration, Step,
    WaitAction, Waited, INFINITE,
};
use win_ioring::join::Received;
use win_ioring::park::{drop_park, poll_park};

type Waker = Rc<Cell<usize>>;

fn waker() -> Waker {
    Rc::new(Cell::new(0))
}

fn wake(waker: Option<Waker>) {
    if let Some(waker) = waker {
        waker.set(waker.get() + 1);
    }
}

#[test]
fn a_signal_raised_before_the_first_poll_is_observed() {
    let mut armed: ArmedState<Waker> = ArmedState::new();
    wake(armed.callback());
    assert!(armed.poll_signalled(waker()));
}

#[test]
fn a_signal_raised_between_two_polls_is_observed_by_the_second() {
    let mut armed = ArmedState::new();
    let w = waker();
    assert!(!armed.poll_signalled(Rc::clone(&w)));
    wake(armed.callback());
    assert_eq!(w.get(), 1);
    assert!(armed.poll_signalled(w));
}

#[test]
fn resolving_consumes_the_signal() {
    let mut armed: ArmedState<Waker> = ArmedState::new();
    wake(armed.callback());
    assert!(armed.poll_signalled(waker()));
    assert!(!armed.poll_signalled(waker()), "a resolved poll must consume the signal");
}

#[test]
fn a_second_poller_replaces_the_first_pollers_waker() {
    let mut armed = ArmedState::new();
    let (first, second) = (waker(), waker());
    assert!(!armed.poll_signalled(Rc::clone(&first)));
    assert!(!armed.poll_signalled(Rc::clone(&second)));
    wake(armed.callback());
    assert_eq!((first.get(), second.get()), (0, 1));
}

#[test]
fn many_signals_before_one_poll_produce_one_resolution() {
    let mut armed: ArmedState<Waker> = ArmedState::new();
    for _ in 0..8 {
        wake(armed.callback());
    }
    assert!(armed.poll_signalled(waker()));
    assert!(!armed.poll_signalled(waker()));
}

#[test]
fn releasing_the_waker_does_not_lose_a_later_signal() {
    let mut armed = ArmedState::new();
    let w = waker();
    assert!(!armed.poll_signalled(Rc::clone(&w)));
    armed.release_waker();
    wake(armed.callback());
    assert_eq!(w.get(), 0, "a released waker must not be woken");
    assert!(armed.poll_signalled(w), "and yet the signal is seen");
}

#[test]
fn a_failure_to_arm_is_reported_and_reclaims_its_count() {
    assert!(ArmedEvent::new(false).is_none());
    let armed = ArmedEvent::new(true).expect("armed");
    assert_eq!(armed.registration, Registration::Live);
    assert!(armed.lent && armed.open);
}

#[test]
fn teardown_runs_unregister_then_reclaim_then_close() {
    let mut armed = ArmedEvent::new(true).expect("armed");
    assert!(armed.must_unregister());
    let steps = armed.teardown(Some(true));
    assert_eq!(
        steps,
        vec![Step::Unregister { succeeded: true }, Step::Reclaim, Step::Close]
    );
    assert!(!armed.lent && !armed.open);
}

#[test]
fn the_ordinary_drop_path_never_takes_the_release_guard() {
    // A used event, not merely a freshly armed one.
    let mut armed = ArmedEvent::new(true).expect("armed");
    let mut state: ArmedState<Waker> = ArmedState::new();
    wake(state.callback());
    assert!(state.poll_signalled(waker()));

    assert!(armed.must_unregister());
    let steps = armed.teardown(Some(true));
    assert!(!steps.iter().any(|step| matches!(step, Step::ReleaseSkipped(_))));
    assert_eq!(steps.first(), Some(&Step::Unregister { succeeded: true }));
}

#[test]
fn a_failed_unregister_neither_reclaims_nor_closes() {
    let mut armed = ArmedEvent::new(true).expect("armed");
    let steps = armed.teardown(Some(false));
    assert_eq!(steps, vec![Step::Unregister { succeeded: false }]);
    assert_eq!(armed.registration, Registration::Failed);
    assert!(armed.lent && armed.open);
}

#[test]
fn an_early_release_then_drop_unregisters_once_and_still_tears_down() {
    let mut armed = ArmedEvent::new(true).expect("armed");
    assert_eq!(armed.release_registration(Some(true)), Registration::Released);
    assert!(!armed.must_unregister(), "the drop must not unregister again");
    let steps = armed.teardown(None);
    assert_eq!(
        steps,
        vec![Step::ReleaseSkipped(Registration::Released), Step::Reclaim, Step::Close]
    );
}

#[test]
fn a_failed_release_is_not_retried_by_drop() {
    let mut armed = ArmedEvent::new(true).expect("armed");
    assert_eq!(armed.release_registration(Some(false)), Registration::Failed);
    assert!(!armed.must_unregister());
    let steps = armed.teardown(None);
    assert_eq!(steps, vec![Step::ReleaseSkipped(Registration::Failed)]);
    assert!(armed.lent && armed.open);
    // Releasing again does nothing.
    assert_eq!(armed.release_registration(None), Registration::Failed);
}

#[test]
fn a_wait_registers_once_and_unregisters_when_signalled() {
    let mut cx = Context::from_waker(std::task::Waker::noop());
    let mut wait: EventWaitFuture<u32> = EventWaitFuture::new();
    assert_eq!(wait.poll(), WaitAction::Register);
    assert_eq!(wait.registered(Err("refused")), Some("refused"));
    assert_eq!(wait.poll(), WaitAction::Register, "a failure leaves the wait as it was");
    let (tx, rx) = oneshot::channel();
    assert_eq!(wait.registered::<&str>(Ok((7, rx))), None);
    assert_eq!(wait.poll(), WaitAction::PollReceiver);
    assert_eq!(wait.poll_receiver(&mut cx), Waited::Pending);
    tx.send(()).unwrap();
    assert_eq!(wait.poll_receiver(&mut cx), Waited::Signalled(7));
    assert_eq!(wait.poll(), WaitAction::Ready);
    assert_eq!(wait.dropped(), None, "nothing is left to unregister");
}

#[test]
fn a_wait_given_up_midway_unregisters() {
    let mut wait: EventWaitFuture<u32> = EventWaitFuture::new();
    let (_tx, rx) = oneshot::channel();
    wait.registered::<()>(Ok((9, rx)));
    assert_eq!(wait.received(Received::Pending), Waited::Pending);
    assert_eq!(wait.dropped(), Some(9));
    let fresh: EventWaitFuture<u32> = EventWaitFuture::new();
    assert_eq!(fresh.dropped(), None);
}

#[test]
fn a_callback_that_never_sends_is_noticed() {
    let mut cx = Context::from_waker(std::task::Waker::noop());
    let mut wait: EventWaitFuture<u32> = EventWaitFuture::new();
    let (tx, rx) = oneshot::channel();
    drop(tx);
    wait.registered::<()>(Ok((3, rx)));
    assert_eq!(wait.poll_receiver(&mut cx), Waited::Lost(3));
    assert_eq!(wait.dropped(), None);
}

#[test]
fn a_wait_without_a_timeout_is_infinite() {
    assert_eq!(wait_timeout(None), INFINITE);
    assert_eq!(wait_timeout(Some(0)), 0);
    assert_eq!(wait_timeout(Some(250)), 250);
    assert!(wait_succeeded(0));
    assert!(!wait_succeeded(258), "a timeout is a failure");
}

#[test]
fn a_park_hands_out_the_wakers_it_evicts() {
    let mut driver: DriverInner<Vec<u8>, (), (), Waker> = DriverInner::new(1);
    let mut armed = ArmedState::new();
    let (a, b, c) = (waker(), waker(), waker());

    let parked = poll_park(&mut driver, &mut armed, Rc::clone(&a), Rc::clone(&a));
    assert!(!parked.ready && parked.evicted.is_empty());

    let parked = poll_park(&mut driver, &mut armed, Rc::clone(&b), Rc::clone(&b));
    assert!(!parked.ready);
    assert_eq!(parked.evicted.len(), 1);
    assert!(Rc::ptr_eq(&parked.evicted[0], &a));

    // A signal resolves the park, and leaves no waker of its own behind.
    wake(armed.callback());
    assert_eq!(b.get(), 1);
    let parked = poll_park(&mut driver, &mut armed, Rc::clone(&c), Rc::clone(&c));
    assert!(parked.ready);
    assert_eq!(parked.evicted.len(), 2);
    assert!(driver.driver_waker.is_none() && armed.waker.is_none());

    // A nudge does not consume a signal.
    wake(armed.callback());
    driver.mark_nudged();
    assert!(poll_park(&mut driver, &mut armed, Rc::clone(&a), Rc::clone(&a)).ready);
    assert!(armed.signalled);
    assert!(poll_park(&mut driver, &mut armed, Rc::clone(&a), Rc::clone(&a)).ready);
    assert!(!poll_park(&mut driver, &mut armed, Rc::clone(&a), Rc::clone(&a)).ready);
    assert!(drop_park(&mut driver, &mut armed).is_some());
    assert!(driver.driver_waker.is_none() && armed.waker.is_none());
}

#[test]
fn an_unpolled_armed_wait_absorbs_many_signals() {
    let mut armed = ArmedEvent::new(true).expect("armed");
    let mut state: ArmedState<Waker> = ArmedState::new();
    for _ in 0..10_000 {
        assert!(state.callback().is_none(), "nobody waits, so nobody is woken");
    }
    assert!(state.signalled && state.waker.is_none(), "nothing accumulates");
    assert!(armed.lent, "the operating system's count is lent once");
    let steps = armed.teardown(Some(true));
    let reclaimed = steps.iter().filter(|step| matches!(step, Step::Reclaim)).count();
    assert_eq!(reclaimed, 1, "and comes back exactly once");
    assert!(!armed.lent);
}
