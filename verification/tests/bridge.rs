//! Crossing into the world: systems, wake handshakes and futures.
use bevy_malek_async::async_ui::Ctx;
use bevy_malek_async::cached_stuff::{
    BridgeError, CachedBridgeFuture, FnMarker, FunctionSystem, IntoSystem, IsFunctionSystem, Poll,
    Polled, System, SystemParamFunction,
};
use bevy_malek_async::system_state::{ErasedSystemStateCell, SystemStateCell};
use bevy_malek_async::wake_signal::{pair, WakeInner};
use std::cell::{Cell, RefCell};
use std::sync::Arc;

/// The error of a parameter that is not valid.
#[derive(Debug, PartialEq)]
struct Invalid(u8);

#[test]
fn handshake() {
    let mut inner = pair();
    assert!(!inner.was_notified());
    assert!(!inner.may_pass());
    inner.notify();
    assert!(inner.was_notified());
    assert!(!inner.may_pass());
    inner.acknowledge();
    assert!(inner.was_notified());
    assert!(inner.may_pass());
    inner.notify();
    assert!(inner.may_pass());
}

#[test]
fn dropping_without_a_wake_lets_the_driver_pass() {
    let mut inner = pair();
    inner.acknowledge();
    assert!(inner.may_pass());
    assert!(!inner.was_notified());
}

#[test]
fn state_is_made_once() {
    let made = Cell::new(0);
    let mut cell = SystemStateCell::<Vec<u32>>::default();
    let new = || {
        made.set(made.get() + 1);
        vec![made.get()]
    };
    assert_eq!(made.get(), 0);
    cell.lock(new).push(10);
    assert_eq!(made.get(), 1);
    assert_eq!(*cell.lock(new), vec![1, 10]);
    assert_eq!(made.get(), 1);
}

fn erased<C: ErasedSystemStateCell>(_cell: C) {}

#[test]
fn cells_can_be_erased() {
    erased(SystemStateCell::<String>::default());
}

#[test]
fn function_runs_on_its_parameter() {
    let add = |x: u32| x + 1;
    assert_eq!(
        SystemParamFunction::<FnMarker<u32, u32>>::run(add, (41,)),
        42
    );
}

/// Turns a closure of one parameter into a system.
fn system<F0, Out, F: FnOnce(F0) -> Out>(f: F) -> FunctionSystem<FnMarker<F0, Out>, Out, F> {
    <F as IntoSystem<Out, (IsFunctionSystem, FnMarker<F0, Out>)>>::into_system(f)
}

#[test]
fn system_runs_once_its_parameter_is_there() {
    let mut system = system(|x: u32| x * 2);
    assert_eq!(system.run::<Invalid>(None), None);
    assert_eq!(system.run(Some(Err(Invalid(3)))), Some(Err(Invalid(3))));
    assert_eq!(system.run::<Invalid>(Some(Ok((21,)))), Some(Ok(42)));
}

#[test]
fn system_is_a_system_already() {
    let first = system(|x: u32| x + 5);
    let mut again = IntoSystem::<u32, ()>::into_system(first);
    assert_eq!(again.run::<Invalid>(Some(Ok((1,)))), Some(Ok(6)));
}

type Handshake = Arc<RefCell<WakeInner>>;

/// The future's end: letting go of it acknowledges.
struct Signal(Handshake);

impl Drop for Signal {
    fn drop(&mut self) {
        self.0.borrow_mut().acknowledge();
    }
}

/// Both ends of a new handshake.
fn ends() -> (Signal, Handshake) {
    let inner = Arc::new(RefCell::new(pair()));
    (Signal(inner.clone()), inner)
}

type Output = Polled<u32, Invalid, Signal, Handshake>;

/// A poll after the world is gone: it must not be looked for.
fn poll_without_world(signal: &mut Option<Signal>) -> Output {
    CachedBridgeFuture::<(), Signal>::poll(signal, false, || panic!("the world was accessed"), ends)
}

/// A poll outside the sync point: no world is exposed.
fn poll_outside(signal: &mut Option<Signal>) -> Output {
    CachedBridgeFuture::<(), Signal>::poll(signal, true, || None, ends)
}

#[test]
fn dropped_world() {
    let mut signal = None;
    let polled = poll_without_world(&mut signal);
    assert!(matches!(
        polled.poll,
        Poll::Ready(Err(BridgeError::WorldDropped))
    ));
    assert!(polled.request.is_none());
    assert!(signal.is_none());

    // A future that was waiting lets the driver go on.
    let (held, handshake) = ends();
    signal = Some(held);
    let polled = poll_without_world(&mut signal);
    assert!(matches!(
        polled.poll,
        Poll::Ready(Err(BridgeError::WorldDropped))
    ));
    assert!(!handshake.borrow().may_pass());
    drop(polled);
    assert!(handshake.borrow().may_pass());
}

#[test]
fn invalid_parameters() {
    let ctx: Ctx<(), (), ()> = Ctx::new(());
    let mut future = ctx
        .try_bridge::<(IsFunctionSystem, FnMarker<u32, u32>), u32, _, Signal>(|_: u32| {
            unreachable!()
        });
    assert!(future.wake_signal.is_none());
    match future.run_with(Some(Err(Invalid(7)))) {
        Poll::Ready(Err(BridgeError::SystemParamValidation(error))) => {
            assert_eq!(error, Invalid(7))
        }
        _ => unreachable!("Parameter validation should have failed"),
    }
}

#[test]
fn spurious_poll_is_ignored() {
    let ctx: Ctx<(), (), ()> = Ctx::new(());
    let mut future = ctx
        .try_bridge::<(IsFunctionSystem, FnMarker<u32, u32>), u32, _, Signal>(|x: u32| x + 1);

    // Polled outside the sync point, the future is queued.
    let polled = poll_outside(&mut future.wake_signal);
    assert!(matches!(polled.poll, Poll::Pending));
    let first = polled.request.unwrap();
    assert!(polled.released.is_none());

    // Again: the first handshake is given up for a second one.
    let polled = poll_outside(&mut future.wake_signal);
    assert!(matches!(polled.poll, Poll::Pending));
    let second = polled.request.unwrap();
    drop(polled.released);
    assert!(first.borrow().may_pass());
    assert!(!second.borrow().may_pass());

    // The genuine wake completes.
    second.borrow_mut().notify();
    let mut signal = future.wake_signal.take();
    let polled: Output = CachedBridgeFuture::<(), Signal>::poll(
        &mut signal,
        true,
        || Some(future.run_with(Some(Ok((1,))))),
        ends,
    );
    assert!(matches!(polled.poll, Poll::Ready(Ok(2))));
    assert!(polled.request.is_none());
    drop(polled);
    assert!(second.borrow().may_pass());
    assert!(signal.is_none());
}

#[test]
fn contended_state_queues_the_future_again() {
    let mut future: CachedBridgeFuture<_, Signal> =
        CachedBridgeFuture::new(system(|x: u32| x + 1));
    let (held, handshake) = ends();
    let mut signal = Some(held);
    let polled: Output = CachedBridgeFuture::<(), Signal>::poll(
        &mut signal,
        true,
        || Some(future.run_with(None)),
        ends,
    );
    // The driver is released, and the future waits for another wake.
    assert!(matches!(polled.poll, Poll::Pending));
    let request = polled.request.unwrap();
    assert!(signal.is_some());
    drop(polled.released);
    assert!(handshake.borrow().may_pass());
    assert!(!request.borrow().may_pass());

    // The function has not been used up: the next wake completes.
    let polled: Output = CachedBridgeFuture::<(), Signal>::poll(
        &mut signal,
        true,
        || Some(future.run_with(Some(Ok((4,))))),
        ends,
    );
    assert!(matches!(polled.poll, Poll::Ready(Ok(5))));
    assert!(polled.request.is_none());
    drop(polled.released);
    assert!(request.borrow().may_pass());
}

#[test]
fn direct_access_needs_no_queue() {
    let mut future: CachedBridgeFuture<_, Signal> =
        CachedBridgeFuture::new(system(|x: u32| x + 1));
    let mut signal = None;
    let polled: Output = CachedBridgeFuture::<(), Signal>::poll(
        &mut signal,
        true,
        || Some(future.run_with(Some(Ok((1,))))),
        || panic!("the future was queued"),
    );
    assert!(matches!(polled.poll, Poll::Ready(Ok(2))));
    assert!(polled.request.is_none());
    assert!(polled.released.is_none());
    assert!(signal.is_none());
}

#[test]
fn unexposed_world_queues_the_future_again() {
    let (held, handshake) = ends();
    let mut signal = Some(held);
    let polled = poll_outside(&mut signal);
    assert!(matches!(polled.poll, Poll::Pending));
    let request = polled.request.unwrap();
    drop(polled.released);
    assert!(handshake.borrow().may_pass());
    assert!(!request.borrow().may_pass());
    drop(signal);
    assert!(request.borrow().may_pass());
}
