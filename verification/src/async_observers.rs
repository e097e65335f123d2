//! Observers that can be awaited: futures that are done when an event has been observed on an
//! entity.
//!
//! What the outside calls here give depends on other threads, so contracts speak of the calls: that
//! a call may return as it did. A function can show that only by making the call. How often and in
//! what order calls are made shows in what a call uses up and gives back for the next.
use vstd::prelude::*;

use crate::cache::Entity;
use crate::cached_stuff::Poll;
#[allow(unused_imports)]
use crate::channels::{flag_set, replied, woken};
use crate::channels::{
    raise, registrations, reply_slot, same_waker, share, wake_after, Raised, Registrations, Reply,
    ReplySlot, Sent, Waiting,
};
use std::marker::PhantomData;
use std::sync::atomic::{AtomicBool, Ordering};
use std::sync::Arc;
use std::task::Waker;

verus! {

/// The observer that a future registers with is gone.
#[derive(Debug)]
pub struct Disconnected;

/// Whether a call that makes a channel to register through may give these ends.
pub closed spec fn both_ends<T>(source: Registrations<T>, waiting: Waiting<T>) -> bool {
    call_ensures(registrations::<T>, (), (source, waiting))
}

/// Whether a call that makes a channel for one reply may give these ends.
pub closed spec fn reply_ends<T>(reply: Reply<T>, slot: ReplySlot<T>) -> bool {
    call_ensures(reply_slot::<T>, (), (reply, slot))
}

/// Whether a call that registers the message, and uses up the source for it, may give `sent`:
/// whether the observer is still there.
pub closed spec fn registered_with<T>(source: Registrations<T>, message: T, sent: bool) -> bool {
    call_ensures(Registrations::<T>::register, (source, message), sent)
}

/// Whether a call that takes the next of those that have registered may leave `after` of `before`
/// and give `message`.
pub closed spec fn next_waiting<T>(
    before: Waiting<T>,
    after: Waiting<T>,
    message: Option<T>,
) -> bool {
    call_ensures(Waiting::<T>::next, (before,), (after, message))
}

/// Whether a look into the slot may leave `after` of `before` and give `message`.
pub closed spec fn reply_taken<T>(
    before: ReplySlot<T>,
    after: ReplySlot<T>,
    message: Option<T>,
) -> bool {
    call_ensures(ReplySlot::<T>::take, (before,), (after, message))
}

/// Whether a call that wakes the task, with what shows that it has been told, may return.
pub closed spec fn woken_after<D>(waker: Waker, told: D) -> bool {
    call_ensures(wake_after::<D>, (waker, told), ()) && woken(waker)
}

/// Waits for an event on an entity, without looking at it. `E` is the event and `B` the bundle of
/// components that it is about.
pub struct AsyncObserver<E, B> {
    entity: Entity,
    registrations: Registrations<(Arc<AtomicBool>, Waker)>,
    ticket: Option<Registrations<(Arc<AtomicBool>, Waker)>>,
    notified: Arc<AtomicBool>,
    marker: PhantomData<(E, B)>,
}

/// Polls a future that waits to be notified: it is done once it has been; until then it registers,
/// once, for which it has a ticket. `register` says whether the observer is still there.
pub fn poll_notified<S, R: FnOnce(S) -> bool>(
    notified: bool,
    ticket: &mut Option<S>,
    register: R,
) -> (r: Result<Poll<()>, Disconnected>)
    requires
        !notified && *old(ticket) is Some ==> register.requires((old(ticket)->0,)),
    ensures
        notified ==> r == Ok::<Poll<()>, Disconnected>(Poll::Ready(())) && *final(ticket)
            == *old(ticket),
        !notified ==> *final(ticket) is None && match *old(ticket) {
            None => r == Ok::<Poll<()>, Disconnected>(Poll::Pending),
            Some(used) => {
                &&& register.ensures((used,), r is Ok)
                &&& r matches Ok(poll) ==> poll is Pending
            },
        },
{
    if notified {
        return Ok(Poll::Ready(()));
    }
    if let Some(used) = ticket.take() {
        if !register(used) {
            return Err(Disconnected);
        }
    }
    Ok(Poll::Pending)
}

/// Polls a future that waits for a reply: the first poll registers, for which it has a ticket, and
/// which gives the slot for the reply and says whether the observer is still there; the later ones
/// look into the slot, once each. Without either there is nothing to wait for.
pub fn poll_reply<T, C, S, R: FnOnce(C) -> (S, bool), K: FnOnce(S) -> (S, Option<T>)>(
    ticket: &mut Option<C>,
    slot: &mut Option<S>,
    register: R,
    take: K,
) -> (r: Result<Poll<T>, Disconnected>)
    requires
        *old(ticket) matches Some(used) ==> register.requires((used,)),
        *old(ticket) is None && *old(slot) is Some ==> take.requires((old(slot)->0,)),
    ensures
        *final(ticket) is None,
        match (*old(ticket), *old(slot)) {
            (Some(used), _) => {
                &&& *final(slot) is Some
                &&& register.ensures((used,), (final(slot)->0, r is Ok))
                &&& r matches Ok(poll) ==> poll is Pending
            },
            (None, Some(s)) => {
                &&& *final(slot) is Some
                &&& r is Ok
                &&& take.ensures(
                    (s,),
                    (
                        final(slot)->0,
                        match r->Ok_0 {
                            Poll::Ready(value) => Some(value),
                            Poll::Pending => None,
                        },
                    ),
                )
            },
            (None, None) => *final(slot) is None && r is Ok && r->Ok_0 is Pending,
        },
{
    if let Some(used) = ticket.take() {
        let (s, sent) = register(used);
        *slot = Some(s);
        if !sent {
            return Err(Disconnected);
        }
        return Ok(Poll::Pending);
    }
    match slot.take() {
        None => Ok(Poll::Pending),
        Some(s) => {
            let (s, taken) = take(s);
            *slot = Some(s);
            match taken {
                Some(value) => Ok(Poll::Ready(value)),
                None => Ok(Poll::Pending),
            }
        },
    }
}

/// Whether `told` was taken one after the other, by a step from what is there to what is left and
/// what is taken: `left` is what is there before the first and after each.
pub open spec fn in_turn<W, M>(
    step: spec_fn(W, W, Option<M>) -> bool,
    left: Seq<W>,
    told: Seq<M>,
) -> bool {
    &&& left.len() == told.len() + 1
    &&& forall|i: int|
        #![trigger told[i]]
        0 <= i < told.len() ==> step(left[i], left[i + 1], Some(told[i]))
}

/// Whether `told` was taken one after the other until nothing was there, or as many were taken as
/// can be counted.
pub open spec fn all_in_turn<W, M>(
    step: spec_fn(W, W, Option<M>) -> bool,
    before: W,
    told: Seq<M>,
    after: W,
) -> bool {
    exists|left: Seq<W>| #[trigger]
        in_turn(step, left, told) && left[0] == before && if told.len() == usize::MAX {
            left.last() == after
        } else {
            step(left.last(), after, None)
        }
}

/// What was taken by one step was taken by any that follows from it.
proof fn lemma_all_in_turn<W, M>(
    step: spec_fn(W, W, Option<M>) -> bool,
    other: spec_fn(W, W, Option<M>) -> bool,
    before: W,
    told: Seq<M>,
    after: W,
)
    requires
        forall|b: W, a: W, m: Option<M>| #[trigger] step(b, a, m) ==> other(b, a, m),
        all_in_turn(step, before, told, after),
    ensures
        all_in_turn(other, before, told, after),
{
    let left = choose|left: Seq<W>| #[trigger]
        in_turn(step, left, told) && left[0] == before && if told.len() == usize::MAX {
            left.last() == after
        } else {
            step(left.last(), after, None)
        };
    assert(in_turn(other, left, told));
}

/// The step that a function takes.
pub open spec fn steps_of<W, T, X: Fn(W) -> (W, Option<T>)>(
    next: X,
) -> spec_fn(W, W, Option<T>) -> bool {
    |before: W, after: W, taken: Option<T>| next.ensures((before,), (after, taken))
}

/// Whether each of `told` got its message, and then had its task woken with what shows it.
pub open spec fn each_told<M, D, N: Fn(M) -> D, K: Fn(Waker, D)>(
    notify: N,
    wake_task: K,
    told: Seq<(M, Waker)>,
    shown: Seq<D>,
) -> bool {
    &&& shown.len() == told.len()
    &&& forall|i: int|
        #![trigger told[i]]
        0 <= i < told.len() ==> {
            &&& notify.ensures((told[i].0,), shown[i])
            &&& wake_task.ensures((told[i].1, shown[i]), ())
        }
}

/// Tells all that are waiting, one after the other, until nobody is: each gets its message, and then
/// has its task woken, for which it takes what shows that the message was given. Those that begin to
/// wait meanwhile are told too, up to the largest number that can be counted.
pub fn tell_each<W, M, D, X: Fn(W) -> (W, Option<(M, Waker)>), N: Fn(M) -> D, K: Fn(Waker, D)>(
    waiting: W,
    next: X,
    notify: N,
    wake_task: K,
) -> (r: W)
    requires
        forall|w: W| #[trigger] next.requires((w,)),
        forall|message: M| #[trigger] notify.requires((message,)),
        forall|waker: Waker, d: D| #[trigger] wake_task.requires((waker, d)),
    ensures
        exists|told: Seq<(M, Waker)>, shown: Seq<D>|
            all_in_turn(steps_of(next), waiting, told, r) && #[trigger] each_told(
                notify,
                wake_task,
                told,
                shown,
            ),
{
    let ghost mut left = seq![waiting];
    let ghost mut told: Seq<(M, Waker)> = Seq::empty();
    let ghost mut shown: Seq<D> = Seq::empty();
    let mut rest = waiting;
    let mut room: usize = usize::MAX;
    while room > 0
        invariant
            forall|w: W| #[trigger] next.requires((w,)),
            forall|message: M| #[trigger] notify.requires((message,)),
            forall|waker: Waker, d: D| #[trigger] wake_task.requires((waker, d)),
            in_turn(steps_of(next), left, told),
            left[0] == waiting,
            left.last() == rest,
            each_told(notify, wake_task, told, shown),
            told.len() + room == usize::MAX,
        decreases room,
    {
        let (after, taken) = next(rest);
        match taken {
            None => {
                assert(all_in_turn(steps_of(next), waiting, told, after));
                return after;
            },
            Some(entry) => {
                let ghost taken = entry;
                let (message, waker) = entry;
                let done = notify(message);
                let ghost receipt = done;
                wake_task(waker, done);
                proof {
                    let earlier = told;
                    let before = shown;
                    told = told.push(taken);
                    shown = shown.push(receipt);
                    left = left.push(after);
                    assert forall|i: int| #![trigger told[i]] 0 <= i < told.len() implies {
                        &&& steps_of(next)(left[i], left[i + 1], Some(told[i]))
                        &&& notify.ensures((told[i].0,), shown[i])
                        &&& wake_task.ensures((told[i].1, shown[i]), ())
                    } by {
                        if i < earlier.len() {
                            assert(told[i] == earlier[i]);
                            assert(shown[i] == before[i]);
                        }
                    }
                }
                rest = after;
                room -= 1;
            },
        }
    }
    assert(all_in_turn(steps_of(next), waiting, told, rest));
    rest
}

/// Whether a call that makes a flag that is not set may give this one.
pub open spec fn fresh_flag(flag: Arc<AtomicBool>) -> bool {
    call_ensures(AtomicBool::new, (false,), *flag)
}

/// Whether a read of the flag may give `value`.
pub open spec fn flag_read(flag: Arc<AtomicBool>, value: bool) -> bool {
    call_ensures(AtomicBool::load, (&*flag, Ordering::Relaxed), value)
}

impl<E, B> AsyncObserver<E, B> {
    /// What is registered with is the source.
    #[verifier::type_invariant]
    spec fn ticket_fits(self) -> bool {
        self.ticket matches Some(ticket) ==> ticket == self.registrations
    }

    /// The entity that is observed.
    pub closed spec fn entity(&self) -> Entity {
        self.entity
    }

    /// Whether the future has registered: that uses up its ticket.
    pub closed spec fn registered(&self) -> bool {
        self.ticket is None
    }

    /// The flag by which the future is notified.
    pub closed spec fn flag(&self) -> Arc<AtomicBool> {
        self.notified
    }

    /// Where the future registers.
    pub closed spec fn source(&self) -> Registrations<(Arc<AtomicBool>, Waker)> {
        self.registrations
    }

    /// What the future registers: its own flag, and the waker of its task.
    fn registration(&self, waker: &Waker) -> (r: (Arc<AtomicBool>, Waker))
        ensures
            r == (self.flag(), *waker),
    {
        (share(&self.notified), same_waker(waker))
    }

    /// A future for events on the entity, with the list of those that register: to be handed to
    /// [`fire`] on each event.
    pub fn new(entity: Entity) -> (r: (AsyncObserver<E, B>, Waiting<(Arc<AtomicBool>, Waker)>))
        ensures
            r.0.entity() == entity,
            !r.0.registered(),
            both_ends(r.0.source(), r.1),
            fresh_flag(r.0.flag()),
    {
        let (registrations, waiting) = registrations();
        let ticket = Some(registrations.another());
        let observer = AsyncObserver {
            entity,
            registrations,
            ticket,
            notified: Arc::new(AtomicBool::new(false)),
            marker: PhantomData,
        };
        (observer, waiting)
    }

    /// Polls the future: it is done exactly if a read of its flag finds that it has been notified;
    /// until then it registers the flag and the waker, once, and fails if the observer is gone.
    ///
    /// What the read finds depends on who has fired: [`poll_notified`] says what comes of each case.
    pub fn poll(&mut self, waker: &Waker) -> (r: Result<Poll<()>, Disconnected>)
        ensures
            final(self).entity() == old(self).entity(),
            final(self).flag() == old(self).flag(),
            final(self).source() == old(self).source(),
            notified_poll(
                old(self).source(),
                old(self).flag(),
                *waker,
                old(self).registered(),
                r,
                final(self).registered(),
            ),
    {
        proof {
            use_type_invariant(&*self);
        }
        let notified = self.notified.load(Ordering::Relaxed);
        let registration = self.registration(waker);
        let register = |source: Registrations<(Arc<AtomicBool>, Waker)>| -> (sent: bool)
            ensures
                registered_with(source, registration, sent),
            {
                source.register(registration)
            };
        let mut ticket: Option<Registrations<(Arc<AtomicBool>, Waker)>> = None;
        std::mem::swap(&mut ticket, &mut self.ticket);
        let r = poll_notified(notified, &mut ticket, register);
        self.ticket = ticket;
        r
    }
}

/// What a poll of a future that waits to be notified does: where a read of its flag finds it set, it
/// is done; else it registers the flag and the waker with the source, unless it has already.
pub open spec fn notified_poll(
    source: Registrations<(Arc<AtomicBool>, Waker)>,
    flag: Arc<AtomicBool>,
    waker: Waker,
    registered: bool,
    r: Result<Poll<()>, Disconnected>,
    registered_then: bool,
) -> bool {
    match r {
        Ok(Poll::Ready(_)) => flag_read(flag, true) && registered_then == registered,
        _ => {
            &&& flag_read(flag, false)
            &&& registered_then
            &&& if registered {
                r is Ok
            } else {
                registered_with(source, (flag, waker), r is Ok)
            }
        },
    }
}

impl<E, B> Clone for AsyncObserver<E, B> {
    /// A future of its own for the same events: it has not been notified and has not registered.
    fn clone(&self) -> (r: AsyncObserver<E, B>)
        ensures
            r.entity() == self.entity(),
            r.source() == self.source(),
            !r.registered(),
            fresh_flag(r.flag()),
    {
        AsyncObserver {
            entity: self.entity,
            registrations: self.registrations.another(),
            ticket: Some(self.registrations.another()),
            notified: Arc::new(AtomicBool::new(false)),
            marker: PhantomData,
        }
    }
}

/// The step from those that have registered to those that are left and the one that is taken.
pub open spec fn taking<T>() -> spec_fn(Waiting<T>, Waiting<T>, Option<T>) -> bool {
    |before: Waiting<T>, after: Waiting<T>, message: Option<T>| next_waiting(before, after, message)
}

/// Whether each had its flag set, and then its task woken.
pub open spec fn fired(told: Seq<(Arc<AtomicBool>, Waker)>) -> bool {
    forall|i: int| #![trigger told[i]] 0 <= i < told.len() ==> flag_set_and_woken(told[i])
}

/// Whether the flag was set, and then the task woken.
pub open spec fn flag_set_and_woken(entry: (Arc<AtomicBool>, Waker)) -> bool {
    &&& flag_set(entry.0)
    &&& exists|shown: Raised| shown.flag() == entry.0 && #[trigger] woken_after(entry.1, shown)
}

/// Tells all that have registered that the event has been observed, one after the other until
/// nobody is waiting.
pub fn fire(
    waiting: Waiting<(Arc<AtomicBool>, Waker)>,
) -> (r: Waiting<(Arc<AtomicBool>, Waker)>)
    ensures
        exists|told: Seq<(Arc<AtomicBool>, Waker)>| #[trigger]
            all_in_turn(taking(), waiting, told, r) && fired(told),
{
    let ghost first = waiting;
    let next = |w: Waiting<(Arc<AtomicBool>, Waker)>| -> (r: (
        Waiting<(Arc<AtomicBool>, Waker)>,
        Option<(Arc<AtomicBool>, Waker)>,
    ))
        ensures
            next_waiting(w, r.0, r.1),
        {
            w.next()
        };
    let notify = |flag: Arc<AtomicBool>| -> (r: Raised)
        ensures
            flag_set(flag),
            r.flag() == flag,
        {
            raise(flag)
        };
    let wake_task = |waker: Waker, shown: Raised|
        ensures
            woken_after(waker, shown),
        {
            wake_after(waker, shown);
        };
    let r = tell_each(waiting, next, notify, wake_task);
    proof {
        let (told, shown) = choose|told: Seq<(Arc<AtomicBool>, Waker)>, shown: Seq<Raised>|
            all_in_turn(steps_of(next), first, told, r) && #[trigger] each_told(
                notify,
                wake_task,
                told,
                shown,
            );
        lemma_all_in_turn(steps_of(next), taking(), first, told, r);
        assert forall|i: int| #![trigger told[i]] 0 <= i < told.len() implies flag_set_and_woken(
            told[i],
        ) by {
            assert(woken_after(told[i].1, shown[i]));
        }
        assert(fired(told));
    }
    r
}

/// Waits for an event on an entity and gets a copy of it, with the entity of the observer.
#[verifier::reject_recursive_types(E)]
pub struct AsyncCloneObserver<E, B> {
    entity: Entity,
    registrations: Registrations<(Reply<(E, Entity)>, Waker)>,
    ticket: Option<Registrations<(Reply<(E, Entity)>, Waker)>>,
    slot: Option<ReplySlot<(E, Entity)>>,
    marker: PhantomData<(E, B)>,
}

/// Whether the other end of the slot, and the waker, was registered with the source, which gave
/// `sent`.
pub open spec fn reply_registration_sent<T>(
    source: Registrations<(Reply<T>, Waker)>,
    slot: ReplySlot<T>,
    waker: Waker,
    sent: bool,
) -> bool {
    exists|reply: Reply<T>| #[trigger]
        reply_ends(reply, slot) && registered_with(source, (reply, waker), sent)
}

/// What a poll of a future that waits for a reply does: one that has not registered registers the
/// other end of a new slot with the source; one that has looks into its slot, once, and sends
/// nothing.
pub open spec fn reply_poll<T>(
    source: Registrations<(Reply<T>, Waker)>,
    waker: Waker,
    registered: bool,
    slot: Option<ReplySlot<T>>,
    r: Result<Poll<T>, Disconnected>,
    slot_then: Option<ReplySlot<T>>,
) -> bool {
    if !registered {
        &&& slot_then is Some
        &&& reply_registration_sent(source, slot_then->0, waker, r is Ok)
        &&& r matches Ok(poll) ==> poll is Pending
    } else {
        match slot {
            Some(before) => {
                &&& slot_then is Some
                &&& r is Ok
                &&& reply_taken(
                    before,
                    slot_then->0,
                    match r->Ok_0 {
                        Poll::Ready(value) => Some(value),
                        Poll::Pending => None,
                    },
                )
            },
            None => slot_then is None && r is Ok && r->Ok_0 is Pending,
        }
    }
}

impl<E, B> AsyncCloneObserver<E, B> {
    /// What is registered with is the source.
    #[verifier::type_invariant]
    spec fn ticket_fits(self) -> bool {
        self.ticket matches Some(ticket) ==> ticket == self.registrations
    }

    /// The entity that is observed.
    pub closed spec fn entity(&self) -> Entity {
        self.entity
    }

    /// Whether the future has registered: that uses up its ticket.
    pub closed spec fn registered(&self) -> bool {
        self.ticket is None
    }

    /// Where the future registers.
    pub closed spec fn source(&self) -> Registrations<(Reply<(E, Entity)>, Waker)> {
        self.registrations
    }

    /// Where the reply comes in, once the future has registered.
    pub closed spec fn slot(&self) -> Option<ReplySlot<(E, Entity)>> {
        self.slot
    }

    /// A future for events on the entity, with the list of those that register: to be handed to
    /// [`fire_cloned`] on each event.
    pub fn new(entity: Entity) -> (r: (
        AsyncCloneObserver<E, B>,
        Waiting<(Reply<(E, Entity)>, Waker)>,
    ))
        ensures
            r.0.entity() == entity,
            !r.0.registered(),
            r.0.slot() is None,
            both_ends(r.0.source(), r.1),
    {
        let (registrations, waiting) = registrations();
        let ticket = Some(registrations.another());
        let observer = AsyncCloneObserver {
            entity,
            registrations,
            ticket,
            slot: None,
            marker: PhantomData,
        };
        (observer, waiting)
    }

    /// Polls the future: the first poll registers, and the later ones look for the reply, once each.
    ///
    /// Whether the reply has come in depends on who has fired: [`poll_reply`] says what comes of
    /// each case.
    pub fn poll(&mut self, waker: &Waker) -> (r: Result<Poll<(E, Entity)>, Disconnected>)
        ensures
            final(self).entity() == old(self).entity(),
            final(self).source() == old(self).source(),
            final(self).registered(),
            reply_poll(
                old(self).source(),
                *waker,
                old(self).registered(),
                old(self).slot(),
                r,
                final(self).slot(),
            ),
    {
        proof {
            use_type_invariant(&*self);
        }
        let register = |source: Registrations<(Reply<(E, Entity)>, Waker)>| -> (r: (
            ReplySlot<(E, Entity)>,
            bool,
        ))
            ensures
                reply_registration_sent(source, r.0, *waker, r.1),
            {
                let (reply, slot) = reply_slot();
                let ghost used = source;
                let ghost first = reply;
                let sent = source.register((reply, same_waker(waker)));
                assert(reply_ends(first, slot) && registered_with(used, (first, *waker), sent));
                (slot, sent)
            };
        let take = |slot: ReplySlot<(E, Entity)>| -> (r: (
            ReplySlot<(E, Entity)>,
            Option<(E, Entity)>,
        ))
            ensures
                reply_taken(slot, r.0, r.1),
            {
                slot.take()
            };
        let mut ticket: Option<Registrations<(Reply<(E, Entity)>, Waker)>> = None;
        std::mem::swap(&mut ticket, &mut self.ticket);
        let mut slot: Option<ReplySlot<(E, Entity)>> = None;
        std::mem::swap(&mut slot, &mut self.slot);
        let r = poll_reply(&mut ticket, &mut slot, register, take);
        self.ticket = ticket;
        self.slot = slot;
        r
    }
}

impl<E, B> Clone for AsyncCloneObserver<E, B> {
    /// A future of its own for the same events: it has not registered, and has no slot.
    fn clone(&self) -> (r: AsyncCloneObserver<E, B>)
        ensures
            r.entity() == self.entity(),
            r.source() == self.source(),
            !r.registered(),
            r.slot() is None,
    {
        AsyncCloneObserver {
            entity: self.entity,
            registrations: self.registrations.another(),
            ticket: Some(self.registrations.another()),
            slot: None,
            marker: PhantomData,
        }
    }
}

/// Whether each was sent a copy of the event, with the entity of the observer, and then had its task
/// woken. `copies` is what was sent to each.
pub open spec fn fired_cloned<E: Clone>(
    event: &E,
    observer: Entity,
    told: Seq<(Reply<(E, Entity)>, Waker)>,
    copies: Seq<(E, Entity)>,
) -> bool {
    &&& copies.len() == told.len()
    &&& forall|i: int|
        #![trigger told[i]]
        0 <= i < told.len() ==> copy_sent(event, observer, told[i], copies[i])
}

/// Whether a copy of the event, with the entity of the observer, was sent, and then the task woken.
pub open spec fn copy_sent<E: Clone>(
    event: &E,
    observer: Entity,
    entry: (Reply<(E, Entity)>, Waker),
    copy: (E, Entity),
) -> bool {
    &&& cloned(*event, copy.0)
    &&& copy.1 == observer
    &&& sent_and_woken(entry, copy)
}

/// Whether the message was sent, and then the task woken.
pub open spec fn sent_and_woken<T>(entry: (Reply<T>, Waker), message: T) -> bool {
    &&& replied(entry.0, message)
    &&& exists|shown: Sent<T>|
        shown.reply() == entry.0 && shown.message() == message && #[trigger] woken_after(
            entry.1,
            shown,
        )
}

/// Sends a copy of the event, with the entity of the observer, to all that have registered, one
/// after the other until nobody is waiting.
pub fn fire_cloned<E: Clone>(
    waiting: Waiting<(Reply<(E, Entity)>, Waker)>,
    event: &E,
    observer: Entity,
) -> (r: Waiting<(Reply<(E, Entity)>, Waker)>)
    ensures
        exists|told: Seq<(Reply<(E, Entity)>, Waker)>, copies: Seq<(E, Entity)>|
            all_in_turn(taking(), waiting, told, r) && #[trigger] fired_cloned(
                event,
                observer,
                told,
                copies,
            ),
{
    let ghost first = waiting;
    let next = |w: Waiting<(Reply<(E, Entity)>, Waker)>| -> (r: (
        Waiting<(Reply<(E, Entity)>, Waker)>,
        Option<(Reply<(E, Entity)>, Waker)>,
    ))
        ensures
            next_waiting(w, r.0, r.1),
        {
            w.next()
        };
    let notify = |reply: Reply<(E, Entity)>| -> (r: Sent<(E, Entity)>)
        ensures
            r.reply() == reply,
            cloned(*event, r.message().0),
            r.message().1 == observer,
            replied(reply, r.message()),
        {
            let copy = event.clone();
            reply.answer((copy, observer))
        };
    let wake_task = |waker: Waker, shown: Sent<(E, Entity)>|
        ensures
            woken_after(waker, shown),
        {
            wake_after(waker, shown);
        };
    let r = tell_each(waiting, next, notify, wake_task);
    proof {
        let (told, shown) = choose|
            told: Seq<(Reply<(E, Entity)>, Waker)>,
            shown: Seq<Sent<(E, Entity)>>,
        |
            all_in_turn(steps_of(next), first, told, r) && #[trigger] each_told(
                notify,
                wake_task,
                told,
                shown,
            );
        let copies = Seq::new(shown.len(), |i: int| shown[i].message());
        lemma_all_in_turn(steps_of(next), taking(), first, told, r);
        assert forall|i: int| #![trigger told[i]] 0 <= i < told.len() implies copy_sent(
            event,
            observer,
            told[i],
            copies[i],
        ) by {
            assert(woken_after(told[i].1, shown[i]));
        }
        assert(fired_cloned(event, observer, told, copies));
    }
    r
}

/// Whether a future was polled again and again, with the observer there all along: `registered` is
/// what holds before the first poll and after each, and `wakers` and `results` are what each poll was
/// given and gave.
pub open spec fn polled_in_turn(
    source: Registrations<(Arc<AtomicBool>, Waker)>,
    flag: Arc<AtomicBool>,
    registered: Seq<bool>,
    wakers: Seq<Waker>,
    results: Seq<Result<Poll<()>, Disconnected>>,
) -> bool {
    &&& registered.len() == results.len() + 1
    &&& wakers.len() == results.len()
    &&& forall|i: int|
        #![trigger results[i]]
        0 <= i < results.len() ==> results[i] is Ok && notified_poll(
            source,
            flag,
            wakers[i],
            registered[i],
            results[i],
            registered[i + 1],
        )
}

/// Whether the poll uses up the ticket of the future, which it registers with.
pub open spec fn uses_ticket(registered: Seq<bool>, k: int) -> bool {
    !registered[k] && registered[k + 1]
}

/// However often it is polled, a future uses up its ticket once at most, and registers with it then:
/// with the first poll that leaves it pending. A poll that does not use the ticket up finds the flag
/// set, or comes after the one that did.
pub proof fn law_registers_once(
    source: Registrations<(Arc<AtomicBool>, Waker)>,
    flag: Arc<AtomicBool>,
    registered: Seq<bool>,
    wakers: Seq<Waker>,
    results: Seq<Result<Poll<()>, Disconnected>>,
    k: int,
)
    requires
        polled_in_turn(source, flag, registered, wakers, results),
        !registered[0],
        0 <= k < results.len(),
    ensures
        uses_ticket(registered, k) ==> {
            &&& results[k]->Ok_0 is Pending
            &&& registered_with(source, (flag, wakers[k]), true)
            &&& forall|l: int|
                0 <= l < results.len() && #[trigger] uses_ticket(registered, l) ==> l == k
        },
        results[k]->Ok_0 is Pending ==> exists|l: int|
            0 <= l <= k && #[trigger] uses_ticket(registered, l),
        results[k]->Ok_0 is Ready ==> flag_read(flag, true),
        results[k]->Ok_0 is Pending ==> flag_read(flag, false),
{
    let now = results[k];
    if uses_ticket(registered, k) {
        assert forall|l: int|
            0 <= l < results.len() && #[trigger] uses_ticket(registered, l) implies l == k by {
            if l < k {
                lemma_stays_registered(source, flag, registered, wakers, results, l + 1, k);
            }
            if k < l {
                lemma_stays_registered(source, flag, registered, wakers, results, k + 1, l);
            }
        }
    }
    if results[k]->Ok_0 is Pending {
        lemma_ticket_was_used(registered, k + 1);
    }
}

/// A future that has registered stays so.
proof fn lemma_stays_registered(
    source: Registrations<(Arc<AtomicBool>, Waker)>,
    flag: Arc<AtomicBool>,
    registered: Seq<bool>,
    wakers: Seq<Waker>,
    results: Seq<Result<Poll<()>, Disconnected>>,
    from: int,
    to: int,
)
    requires
        polled_in_turn(source, flag, registered, wakers, results),
        0 <= from <= to < registered.len(),
        registered[from],
    ensures
        registered[to],
    decreases to - from,
{
    if from < to {
        lemma_stays_registered(source, flag, registered, wakers, results, from, to - 1);
        let last = results[to - 1];
    }
}

/// A future that has registered has used up its ticket with one of its polls.
proof fn lemma_ticket_was_used(registered: Seq<bool>, k: int)
    requires
        0 <= k < registered.len(),
        !registered[0],
        registered[k],
    ensures
        exists|l: int| 0 <= l < k && #[trigger] uses_ticket(registered, l),
    decreases k,
{
    if registered[k - 1] {
        lemma_ticket_was_used(registered, k - 1);
    } else {
        assert(uses_ticket(registered, k - 1));
    }
}

/// However often it is polled, a future that waits for a reply registers once, with its first poll,
/// which leaves it pending; every later poll gives what one look into the slot gives, as the look
/// before left it. `slots` is what holds before the first poll and after each, and `wakers` and
/// `results` are what each poll was given and gave.
pub proof fn law_registers_for_a_reply_once<T>(
    source: Registrations<(Reply<T>, Waker)>,
    slots: Seq<Option<ReplySlot<T>>>,
    wakers: Seq<Waker>,
    results: Seq<Result<Poll<T>, Disconnected>>,
    k: int,
)
    requires
        slots.len() == results.len() + 1,
        wakers.len() == results.len(),
        forall|i: int|
            #![trigger results[i]]
            0 <= i < results.len() ==> reply_poll(
                source,
                wakers[i],
                i > 0,
                slots[i],
                results[i],
                slots[i + 1],
            ),
        0 <= k < results.len(),
    ensures
        slots[k + 1] is Some,
        if k == 0 {
            &&& reply_registration_sent(source, slots[1]->0, wakers[0], results[0] is Ok)
            &&& results[0] matches Ok(poll) ==> poll is Pending
        } else {
            &&& slots[k] is Some
            &&& results[k] is Ok
            &&& reply_taken(
                slots[k]->0,
                slots[k + 1]->0,
                match results[k]->Ok_0 {
                    Poll::Ready(value) => Some(value),
                    Poll::Pending => None,
                },
            )
        },
    decreases k,
{
    let now = results[k];
    if k > 0 {
        law_registers_for_a_reply_once(source, slots, wakers, results, k - 1);
    }
}

/// What is said of channels and wakers is said of the outside calls on them.
pub(crate) proof fn law_channels_are_reached_by_calls<T, D>(
    source: Registrations<T>,
    waiting: Waiting<T>,
    left: Waiting<T>,
    reply: Reply<T>,
    slot: ReplySlot<T>,
    after: ReplySlot<T>,
    message: T,
    taken: Option<T>,
    sent: bool,
    waker: Waker,
    told: D,
)
    ensures
        both_ends(source, waiting) <==> call_ensures(registrations::<T>, (), (source, waiting)),
        reply_ends(reply, slot) <==> call_ensures(reply_slot::<T>, (), (reply, slot)),
        registered_with(source, message, sent) <==> call_ensures(
            Registrations::<T>::register,
            (source, message),
            sent,
        ),
        next_waiting(waiting, left, taken) <==> call_ensures(
            Waiting::<T>::next,
            (waiting,),
            (left, taken),
        ),
        reply_taken(slot, after, taken) <==> call_ensures(
            ReplySlot::<T>::take,
            (slot,),
            (after, taken),
        ),
        woken_after(waker, told) ==> woken(waker) && call_ensures(
            wake_after::<D>,
            (waker, told),
            (),
        ),
{
}

/// A flag is made unset, and what a future finds in it is what a read of it gives.
pub proof fn law_flag_is_made_and_read(flag: Arc<AtomicBool>, value: bool)
    ensures
        fresh_flag(flag) <==> call_ensures(AtomicBool::new, (false,), *flag),
        flag_read(flag, value) <==> call_ensures(
            AtomicBool::load,
            (&*flag, Ordering::Relaxed),
            value,
        ),
{
}

/// Whoever is taken is told, and nobody else: from what was there to what is left, those told were
/// taken one after the other, until nobody was there, or as many as can be counted.
pub proof fn law_all_are_taken_in_turn<T>(before: Waiting<T>, told: Seq<T>, after: Waiting<T>)
    requires
        all_in_turn(taking(), before, told, after),
    ensures
        exists|left: Seq<Waiting<T>>|
            #![trigger left.first()]
            {
                &&& left.len() == told.len() + 1
                &&& left.first() == before
                &&& forall|i: int|
                    #![trigger told[i]]
                    0 <= i < told.len() ==> next_waiting(left[i], left[i + 1], Some(told[i]))
                &&& if told.len() != usize::MAX {
                    next_waiting(left.last(), after, None)
                } else {
                    left.last() == after
                }
            },
{
    let left = choose|left: Seq<Waiting<T>>| #[trigger]
        in_turn(taking(), left, told) && left[0] == before && if told.len() == usize::MAX {
            left.last() == after
        } else {
            taking()(left.last(), after, None)
        };
    assert(left.first() == before);
    assert forall|i: int| #![trigger told[i]] 0 <= i < told.len() implies next_waiting(
        left[i],
        left[i + 1],
        Some(told[i]),
    ) by {
        assert(taking()(left[i], left[i + 1], Some(told[i])));
    }
}

/// An event sets the flag of each that is told, and wakes its task with what shows that the flag is
/// set.
pub proof fn law_fire_sets_each_flag(told: Seq<(Arc<AtomicBool>, Waker)>, i: int)
    requires
        fired(told),
        0 <= i < told.len(),
    ensures
        call_ensures(AtomicBool::store, (&*told[i].0, true, Ordering::Relaxed), ()),
        exists|shown: Raised|
            shown.flag() == told[i].0 && #[trigger] woken_after(told[i].1, shown),
{
    assert(flag_set_and_woken(told[i]));
}

/// An event sends each that is told a copy of itself, with the entity of the observer, and wakes its
/// task with what shows that the copy is sent.
pub proof fn law_fire_sends_each_a_copy<E: Clone>(
    event: &E,
    observer: Entity,
    told: Seq<(Reply<(E, Entity)>, Waker)>,
    copies: Seq<(E, Entity)>,
    i: int,
)
    requires
        fired_cloned(event, observer, told, copies),
        0 <= i < told.len(),
    ensures
        copies.len() == told.len(),
        cloned(*event, copies[i].0),
        copies[i].1 == observer,
        replied(told[i].0, copies[i]),
        exists|shown: Sent<(E, Entity)>|
            shown.reply() == told[i].0 && shown.message() == copies[i] && #[trigger] woken_after(
                told[i].1,
                shown,
            ),
{
    assert(copy_sent(event, observer, told[i], copies[i]));
}

/// A poll of a future that waits to be notified gives what a read of its flag gives: it is done
/// exactly if the flag is found set. It registers with the source exactly if it is not done and has
/// not registered, and fails exactly if that finds the observer gone.
pub proof fn law_poll_follows_the_flag(
    source: Registrations<(Arc<AtomicBool>, Waker)>,
    flag: Arc<AtomicBool>,
    waker: Waker,
    registered: bool,
    r: Result<Poll<()>, Disconnected>,
    registered_then: bool,
)
    requires
        notified_poll(source, flag, waker, registered, r, registered_then),
    ensures
        flag_read(flag, r is Ok && r->Ok_0 is Ready),
        r is Ok && r->Ok_0 is Ready ==> registered_then == registered,
        !(r is Ok && r->Ok_0 is Ready) ==> registered_then,
        !(r is Ok && r->Ok_0 is Ready) && !registered ==> registered_with(
            source,
            (flag, waker),
            r is Ok,
        ),
        registered ==> r is Ok,
{
}

/// A poll of a future that waits for a reply registers the other end of a new slot, if it has not
/// registered, and is then pending, or fails if the observer is gone; else it gives what one look
/// into its slot gives.
pub proof fn law_poll_follows_the_slot<T>(
    source: Registrations<(Reply<T>, Waker)>,
    waker: Waker,
    registered: bool,
    slot: Option<ReplySlot<T>>,
    r: Result<Poll<T>, Disconnected>,
    slot_then: Option<ReplySlot<T>>,
)
    requires
        reply_poll(source, waker, registered, slot, r, slot_then),
    ensures
        !registered ==> slot_then is Some && exists|reply: Reply<T>| #[trigger]
            reply_ends(reply, slot_then->0) && registered_with(source, (reply, waker), r is Ok),
        !registered && r is Ok ==> r->Ok_0 is Pending,
        registered ==> r is Ok,
        registered && slot is Some ==> slot_then is Some && (r->Ok_0 is Pending ==> reply_taken(
            slot->0,
            slot_then->0,
            None,
        )) && (r->Ok_0 matches Poll::Ready(value) ==> reply_taken(
            slot->0,
            slot_then->0,
            Some(value),
        )),
        registered && slot is None ==> r->Ok_0 is Pending && slot_then is None,
{
}

} // verus!
