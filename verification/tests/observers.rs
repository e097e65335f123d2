//! Observers, caches and the telling of mutations.
use bevy_malek_async::async_observers::{
    fire, fire_cloned, poll_notified, poll_reply, tell_each, AsyncCloneObserver, AsyncObserver,
};
use bevy_malek_async::async_ui::{
    AsyncClosureWrapper, AsyncClosureWrapper2, AsyncUi, AsyncUiPlugin, Ctx, ScopedEntityIndex,
};
use bevy_malek_async::cache::{Cache, ComponentId, Entity};
use bevy_malek_async::cached_stuff::Poll;
use bevy_malek_async::mutation::{
    pump_mutation_observers, MutationSender, MutationTrackingRes, Pump, PumpStep, TickResult,
};
use std::any::TypeId;
use std::cell::{Cell, RefCell};
use std::sync::atomic::{AtomicUsize, Ordering};
use std::sync::{Arc, Mutex};
use std::task::{Wake, Waker};

/// Counts how often it is woken.
struct Count(AtomicUsize);

impl Wake for Count {
    fn wake(self: Arc<Self>) {
        self.0.fetch_add(1, Ordering::SeqCst);
    }
}

fn counter() -> (Arc<Count>, Waker) {
    let count = Arc::new(Count(AtomicUsize::new(0)));
    (count.clone(), Waker::from(count))
}

fn entity(bits: u64) -> Entity {
    Entity { bits }
}

fn component(index: usize) -> ComponentId {
    ComponentId { index }
}

struct Activate;

#[test]
fn observer_is_ready_once_fired() {
    let (count, waker) = counter();
    let (mut observer, waiting) = AsyncObserver::<Activate, ()>::new(entity(1));
    assert!(matches!(observer.poll(&waker), Ok(Poll::Pending)));
    assert!(matches!(observer.poll(&waker), Ok(Poll::Pending)));
    let waiting = fire(waiting);
    // It was woken once, though it was polled twice: it registers once.
    assert_eq!(count.0.load(Ordering::SeqCst), 1);
    assert!(matches!(observer.poll(&waker), Ok(Poll::Ready(()))));
    assert!(matches!(observer.poll(&waker), Ok(Poll::Ready(()))));
    let _waiting = fire(waiting);
    assert_eq!(count.0.load(Ordering::SeqCst), 1);
}

#[test]
fn events_before_the_first_poll_are_missed() {
    let (_, waker) = counter();
    let (mut observer, waiting) = AsyncObserver::<Activate, ()>::new(entity(1));
    let _waiting = fire(waiting);
    assert!(matches!(observer.poll(&waker), Ok(Poll::Pending)));
}

#[test]
fn cloned_observer_waits_on_its_own() {
    let (_, waker) = counter();
    let (mut observer, waiting) = AsyncObserver::<Activate, ()>::new(entity(1));
    assert!(matches!(observer.poll(&waker), Ok(Poll::Pending)));
    let waiting = fire(waiting);
    let mut copy = observer.clone();
    assert!(matches!(observer.poll(&waker), Ok(Poll::Ready(()))));
    assert!(matches!(copy.poll(&waker), Ok(Poll::Pending)));
    let _waiting = fire(waiting);
    assert!(matches!(copy.poll(&waker), Ok(Poll::Ready(()))));
}

#[test]
fn observer_that_is_gone_is_reported() {
    let (_, waker) = counter();
    let (mut observer, waiting) = AsyncObserver::<Activate, ()>::new(entity(1));
    drop(waiting);
    assert!(observer.poll(&waker).is_err());
    let (mut observer, waiting) = AsyncCloneObserver::<u8, ()>::new(entity(1));
    drop(waiting);
    assert!(observer.poll(&waker).is_err());
}

#[test]
fn clone_observer_gets_the_event() {
    let (count, waker) = counter();
    let (mut one, waiting) = AsyncCloneObserver::<String, ()>::new(entity(1));
    let mut two = one.clone();
    assert!(matches!(one.poll(&waker), Ok(Poll::Pending)));
    assert!(matches!(two.poll(&waker), Ok(Poll::Pending)));
    assert!(matches!(one.poll(&waker), Ok(Poll::Pending)));
    let _waiting = fire_cloned(waiting, &"go".to_string(), entity(9));
    assert_eq!(count.0.load(Ordering::SeqCst), 2);
    for observer in [&mut one, &mut two] {
        match observer.poll(&waker) {
            Ok(Poll::Ready((event, by))) => {
                assert_eq!(event, "go");
                assert_eq!(by, entity(9));
            }
            _ => panic!("the event did not arrive"),
        }
        // The reply has been taken.
        assert!(matches!(observer.poll(&waker), Ok(Poll::Pending)));
    }
}

#[test]
fn reply_to_a_future_that_is_gone_is_dropped() {
    let (count, waker) = counter();
    let (mut observer, waiting) = AsyncCloneObserver::<u8, ()>::new(entity(1));
    assert!(matches!(observer.poll(&waker), Ok(Poll::Pending)));
    drop(observer);
    let _waiting = fire_cloned(waiting, &1, entity(2));
    assert_eq!(count.0.load(Ordering::SeqCst), 1);
}

#[test]
fn polling_steps() {
    let never = |_: u8| -> bool { panic!("registered too early, or again") };
    let mut ticket = Some(3);
    assert!(matches!(poll_notified(true, &mut ticket, never), Ok(Poll::Ready(()))));
    assert_eq!(ticket, Some(3));
    assert!(matches!(poll_notified(false, &mut ticket, |t: u8| t == 3), Ok(Poll::Pending)));
    assert_eq!(ticket, None);
    assert!(matches!(poll_notified(false, &mut ticket, never), Ok(Poll::Pending)));
    assert!(matches!(poll_notified(true, &mut ticket, never), Ok(Poll::Ready(()))));
    let mut ticket = Some(3);
    assert!(poll_notified(false, &mut ticket, |_: u8| false).is_err());
    assert_eq!(ticket, None);

    let mut ticket = Some(3);
    let mut slot: Option<Vec<u8>> = None;
    let unasked = |_: Vec<u8>| -> (Vec<u8>, Option<u8>) { panic!("nothing has been asked for yet") };
    let asked = |sent: bool| move |t: u8| (vec![5, t + 3], sent);
    let polled = poll_reply(&mut ticket, &mut slot, asked(true), unasked);
    assert!(matches!(polled, Ok(Poll::Pending)));
    assert_eq!((ticket, &slot), (None, &Some(vec![5, 6])));
    let again = |_: u8| -> (Vec<u8>, bool) { panic!("registered again") };
    let polled = poll_reply(&mut ticket, &mut slot, again, |s| (s, None::<u8>));
    assert!(matches!(polled, Ok(Poll::Pending)));
    let pop = |mut s: Vec<u8>| {
        let taken = s.pop();
        (s, taken)
    };
    assert!(matches!(poll_reply(&mut ticket, &mut slot, again, pop), Ok(Poll::Ready(6))));
    assert_eq!(slot, Some(vec![5]));
    let mut slot: Option<Vec<u8>> = None;
    assert!(matches!(poll_reply(&mut ticket, &mut slot, again, unasked), Ok(Poll::Pending)));
    assert_eq!(slot, None);
    let mut ticket = Some(3);
    assert!(poll_reply(&mut ticket, &mut slot, asked(false), unasked).is_err());
}

#[test]
fn each_waiting_task_is_told_and_woken() {
    let (count, waker) = counter();
    let told = RefCell::new(vec![]);
    let left = tell_each(
        vec![(2, waker.clone()), (1, waker)],
        |mut waiting: Vec<(u8, Waker)>| {
            let taken = waiting.pop();
            (waiting, taken)
        },
        |message: u8| {
            told.borrow_mut().push(message);
            message * 10
        },
        |waker: Waker, shown: u8| {
            assert_eq!(shown, told.borrow().last().unwrap() * 10);
            waker.wake();
        },
    );
    assert!(left.is_empty());
    assert_eq!(*told.borrow(), vec![1, 2]);
    assert_eq!(count.0.load(Ordering::SeqCst), 2);
}

/// Registers another future once, as soon as it is woken.
struct Again(Mutex<Option<AsyncObserver<Activate, ()>>>, Waker);

impl Wake for Again {
    fn wake(self: Arc<Self>) {
        if let Some(mut observer) = self.0.lock().unwrap().take() {
            assert!(matches!(observer.poll(&self.1), Ok(Poll::Pending)));
        }
    }
}

#[test]
fn task_that_registers_while_it_is_woken_is_told_too() {
    let (count, counted) = counter();
    let (mut observer, waiting) = AsyncObserver::<Activate, ()>::new(entity(1));
    let again = Arc::new(Again(Mutex::new(Some(observer.clone())), counted));
    assert!(matches!(observer.poll(&Waker::from(again)), Ok(Poll::Pending)));
    let _waiting = fire(waiting);
    assert_eq!(count.0.load(Ordering::SeqCst), 1);
}

/// Polls a future as soon as its task is woken, and keeps whether it was done.
struct PollOnWake<F>(Mutex<Option<F>>, Mutex<Option<bool>>);

impl Wake for PollOnWake<AsyncObserver<Activate, ()>> {
    fn wake(self: Arc<Self>) {
        let mut observer = self.0.lock().unwrap().take().unwrap();
        let polled = observer.poll(&Waker::from(self.clone()));
        *self.1.lock().unwrap() = Some(matches!(polled, Ok(Poll::Ready(()))));
    }
}

impl Wake for PollOnWake<AsyncCloneObserver<u8, ()>> {
    fn wake(self: Arc<Self>) {
        let mut observer = self.0.lock().unwrap().take().unwrap();
        let polled = observer.poll(&Waker::from(self.clone()));
        *self.1.lock().unwrap() = Some(matches!(polled, Ok(Poll::Ready((7, _)))));
    }
}

#[test]
fn task_is_woken_after_it_has_been_told() {
    let (mut observer, waiting) = AsyncObserver::<Activate, ()>::new(entity(1));
    let task = Arc::new(PollOnWake(Mutex::new(None), Mutex::new(None)));
    assert!(matches!(observer.poll(&Waker::from(task.clone())), Ok(Poll::Pending)));
    *task.0.lock().unwrap() = Some(observer);
    let _waiting = fire(waiting);
    assert_eq!(*task.1.lock().unwrap(), Some(true));

    let (mut observer, waiting) = AsyncCloneObserver::<u8, ()>::new(entity(1));
    let task = Arc::new(PollOnWake(Mutex::new(None), Mutex::new(None)));
    assert!(matches!(observer.poll(&Waker::from(task.clone())), Ok(Poll::Pending)));
    *task.0.lock().unwrap() = Some(observer);
    let _waiting = fire_cloned(waiting, &7, entity(9));
    assert_eq!(*task.1.lock().unwrap(), Some(true));
}

#[test]
fn event_completes_no_later_await() {
    let mut ctx: Ctx<(), (), Arc<AsyncObserver<Activate, ()>>> = Ctx::new(());
    let (_, waker) = counter();
    assert!(ctx.on::<Activate>(entity(1)).is_none());
    let (observer, waiting) = ctx.on_uncached::<Activate, ()>(None, entity(1));
    let mut waiting = waiting.unwrap();
    ctx.on_with_answered::<Activate, ()>(entity(1), &Arc::new(observer));
    for _ in 0..3 {
        let mut future = AsyncObserver::clone(&ctx.on::<Activate>(entity(1)).unwrap());
        assert!(matches!(future.poll(&waker), Ok(Poll::Pending)));
        waiting = fire(waiting);
        assert!(matches!(future.poll(&waker), Ok(Poll::Ready(()))));
    }
}

#[test]
fn every_waiting_future_gets_the_first_event() {
    let (_, waker) = counter();
    let (mut one, waiting) = AsyncCloneObserver::<u8, ()>::new(entity(1));
    let mut two = one.clone();
    let mut late = one.clone();
    assert!(matches!(one.poll(&waker), Ok(Poll::Pending)));
    assert!(matches!(two.poll(&waker), Ok(Poll::Pending)));
    let waiting = fire_cloned(waiting, &1, entity(9));
    assert!(matches!(late.poll(&waker), Ok(Poll::Pending)));
    let _waiting = fire_cloned(waiting, &2, entity(9));
    assert!(matches!(one.poll(&waker), Ok(Poll::Ready((1, _)))));
    assert!(matches!(two.poll(&waker), Ok(Poll::Ready((1, _)))));
    assert!(matches!(late.poll(&waker), Ok(Poll::Ready((2, _)))));
}

#[test]
fn cache_finds_values_by_key() {
    let mut cache: Cache<(Entity, TypeId), &str> = Cache::new();
    let text = TypeId::of::<String>();
    let number = TypeId::of::<u8>();
    assert!(!cache.contains_key(&(entity(1), text)));
    cache.insert((entity(1), text), "a");
    cache.insert((entity(1), number), "b");
    cache.insert((entity(2), text), "c");
    cache.insert((entity(1), text), "d");
    assert_eq!(cache.get(&(entity(1), text)), Some(&"d"));
    assert_eq!(cache.get(&(entity(1), number)), Some(&"b"));
    assert_eq!(cache.get(&(entity(2), text)), Some(&"c"));
    assert_eq!(cache.get(&(entity(2), number)), None);
}

#[test]
fn state_is_cached_by_type() {
    let mut ctx: Ctx<&str, u32, ()> = Ctx::new("world");
    let made = Cell::new(0);
    let new = || {
        made.set(made.get() + 1);
        Arc::new(made.get())
    };
    let first = ctx.cached_state::<String, _>(new);
    assert_eq!(first.world, "world");
    assert_eq!(*first.system_state, 1);
    let other = ctx.cached_state::<u8, _>(new);
    assert_eq!(*other.system_state, 2);
    let again = ctx.cached_state::<String, _>(new);
    assert!(Arc::ptr_eq(&first.system_state, &again.system_state));
    assert_eq!(made.get(), 2);
    let by_key = ctx.cached_state_of(TypeId::of::<u8>(), new);
    assert!(Arc::ptr_eq(&other.system_state, &by_key.system_state));
}

#[test]
fn observer_is_cached_by_entity_and_type() {
    let mut ctx: Ctx<(), (), u8> = Ctx::new(());
    assert_eq!(ctx.on_with::<Activate, ()>(entity(1)), None);
    ctx.on_with_answered::<Activate, ()>(entity(1), &10);
    assert_eq!(ctx.on_with::<Activate, ()>(entity(1)), Some(10));
    assert_eq!(ctx.on::<Activate>(entity(1)), Some(10));
    assert_eq!(ctx.on::<Activate>(entity(2)), None);
    assert_eq!(ctx.on_with::<Activate, u8>(entity(1)), None);
    assert_eq!(ctx.on_cloned::<Activate, ()>(entity(1)), None);
    ctx.on_cloned_answered::<Activate, ()>(entity(1), &11);
    assert_eq!(ctx.on_cloned::<Activate, ()>(entity(1)), Some(11));
    assert_eq!(ctx.on_with::<Activate, ()>(entity(1)), Some(10));
    let key = TypeId::of::<AsyncObserver<Activate, ()>>();
    assert_eq!(ctx.cached_observer(entity(1), key), Some(10));
    ctx.cache_observer(entity(1), key, &12);
    assert_eq!(ctx.on::<Activate>(entity(1)), Some(12));
}

#[test]
fn observer_of_the_world_is_reused() {
    let ctx: Ctx<(), (), u8> = Ctx::new(());
    let (_, waker) = counter();
    let (mut first, waiting) = ctx.on_uncached::<Activate, ()>(None, entity(1));
    let waiting = waiting.unwrap();
    let (mut second, none) = ctx.on_uncached(Some(&first), entity(1));
    assert!(none.is_none());
    assert!(matches!(first.poll(&waker), Ok(Poll::Pending)));
    assert!(matches!(second.poll(&waker), Ok(Poll::Pending)));
    let _waiting = fire(waiting);
    assert!(matches!(first.poll(&waker), Ok(Poll::Ready(()))));
    assert!(matches!(second.poll(&waker), Ok(Poll::Ready(()))));

    let (mut first, waiting) = ctx.on_cloned_uncached::<u8, ()>(None, entity(1));
    let waiting = waiting.unwrap();
    let (mut second, none) = ctx.on_cloned_uncached(Some(&first), entity(1));
    assert!(none.is_none());
    assert!(matches!(first.poll(&waker), Ok(Poll::Pending)));
    assert!(matches!(second.poll(&waker), Ok(Poll::Pending)));
    let _waiting = fire_cloned(waiting, &8, entity(3));
    assert!(matches!(first.poll(&waker), Ok(Poll::Ready((8, _)))));
    assert!(matches!(second.poll(&waker), Ok(Poll::Ready((8, _)))));
}

#[test]
fn tracker_is_added_once() {
    let ctx: Ctx<(), (), u8> = Ctx::new(());
    assert!(ctx.on_mutation(false));
    assert!(!ctx.on_mutation(true));
}

#[test]
fn captured_entities_are_resolved_in_their_scope() {
    let _ = (AsyncUiPlugin, AsyncUi);
    let wrapper = AsyncClosureWrapper2("closure", vec![2, 0, 2]).resolve(5);
    let scoped = |index| ScopedEntityIndex { scope: 5, index };
    assert_eq!(wrapper.0, "closure");
    assert_eq!(wrapper.1, vec![scoped(2), scoped(0), scoped(2)]);
    let copy: AsyncClosureWrapper<&str> = wrapper.clone_template();
    assert_eq!(copy.1, wrapper.1);
    let entities = copy.entities(|e: ScopedEntityIndex| entity((e.scope * 100 + e.index) as u64));
    assert_eq!(entities, vec![entity(502), entity(500), entity(502)]);
}

#[test]
fn tracking_ends_with_the_last_tracker() {
    let mut tracking = MutationTrackingRes::<&str>::default();
    tracking.on_add(component(1), "query");
    tracking.on_add(component(1), "newer query");
    assert_eq!(tracking.query(component(1)), Some(&"newer query"));
    tracking.on_remove(component(1), true);
    assert_eq!(tracking.query(component(1)), Some(&"newer query"));
    tracking.on_remove(component(1), false);
    assert_eq!(tracking.query(component(1)), None);

    let mut sender = MutationSender::<u8>::default();
    assert_eq!(sender.trigger(component(1)), None);
    sender.on_add(component(1), 7);
    assert_eq!(sender.trigger(component(1)), Some(&7));
    assert_eq!(sender.trigger(component(2)), None);
}

#[test]
fn pump_takes_each_component_with_its_entities() {
    let mut tracking = MutationTrackingRes::<()>::default();
    tracking.on_add(component(3), ());
    tracking.on_add(component(1), ());
    let components = tracking.components();
    assert_eq!(components.len(), 2);
    assert!(components.contains(&component(1)) && components.contains(&component(3)));
    let mut pump = Pump::new(&tracking);
    let first = match pump.step() {
        PumpStep::Query(component) => component,
        step => panic!("{step:?}"),
    };
    assert!(components.contains(&first));
    pump.found(vec![]);
    let second = component(if first == component(3) { 1 } else { 3 });
    assert_eq!(pump.step(), PumpStep::Query(second));
    pump.found(vec![entity(8), entity(9)]);
    assert_eq!(pump.step(), PumpStep::Trigger(entity(8), second));
    assert_eq!(pump.step(), PumpStep::Trigger(entity(9), second));
    assert_eq!(pump.step(), PumpStep::Done(TickResult::DidWork));
    assert_eq!(pump.step(), PumpStep::Done(TickResult::DidWork));
}

#[test]
fn pump_tells_of_every_change() {
    type World = Vec<(Entity, ComponentId)>;
    let mut tracking = MutationTrackingRes::<()>::default();
    let untracked = |_: World, _: ComponentId| -> (World, Vec<Entity>) {
        panic!("nothing is tracked")
    };
    let unchanged = |_: World, _: Entity, _: ComponentId| -> World {
        panic!("nothing has changed")
    };
    let (told, result) = pump_mutation_observers(&tracking, vec![], untracked, unchanged);
    assert_eq!((told.len(), result), (0, TickResult::NoWork));
    tracking.on_add(component(3), ());
    tracking.on_add(component(1), ());
    let (told, result) =
        pump_mutation_observers(&tracking, vec![], |world, _| (world, vec![]), unchanged);
    assert_eq!((told.len(), result), (0, TickResult::NoWork));
    let asked = RefCell::new(vec![]);
    let (told, result) = pump_mutation_observers(
        &tracking,
        vec![],
        |world, c: ComponentId| {
            asked.borrow_mut().push(c);
            (world, vec![entity(c.index as u64), entity(10)])
        },
        |mut world: World, e: Entity, c: ComponentId| {
            world.push((e, c));
            world
        },
    );
    assert_eq!(result, TickResult::DidWork);
    let asked = asked.into_inner();
    assert_eq!(asked.len(), 2);
    assert!(asked.contains(&component(1)) && asked.contains(&component(3)));
    let expected: World = asked
        .iter()
        .flat_map(|c| [(entity(c.index as u64), *c), (entity(10), *c)])
        .collect();
    assert_eq!(told, expected);
}
