//! What happens at an observer, from one event to the next: which events a future is told of, and
//! what it finds when it looks.
//!
//! A log lists the calls that were made, in their order. What a channel or a flag hands from one
//! thread to another no call shows, so that is assumed of a log: [`hands_on`] and [`looks_agree`].
use vstd::prelude::*;

#[allow(unused_imports)]
use crate::async_observers::{
    all_in_turn, both_ends, copy_sent, fired, fired_cloned, flag_read, flag_set_and_woken,
    fresh_flag, registered_with, reply_ends, reply_taken, taking,
};
#[allow(unused_imports)]
use crate::cache::Entity;
#[allow(unused_imports)]
use crate::channels::{Registrations, Reply, ReplySlot, Waiting};
#[allow(unused_imports)]
use std::sync::atomic::AtomicBool;
#[allow(unused_imports)]
use std::sync::Arc;
#[allow(unused_imports)]
use std::task::Waker;

verus! {

/// What happens at an observer. `M` is what a future registers to be told by, and `V` what it is
/// told.
pub enum Happening<M, V> {
    /// A future registers, with the waker of its task.
    Registered(M, Waker),
    /// An event is told to some of those that have registered, each with what it is told.
    Fired(Seq<(M, Waker)>, Seq<V>),
    /// A future looks whether it has been told, and finds what it was.
    Looked(M, Option<V>),
}

/// Who has registered since the last event.
pub open spec fn still_waiting<M, V>(log: Seq<Happening<M, V>>) -> Seq<(M, Waker)>
    decreases log.len(),
{
    if log.len() == 0 {
        Seq::empty()
    } else {
        match log.last() {
            Happening::Registered(message, waker) => still_waiting(log.drop_last()).push(
                (message, waker),
            ),
            Happening::Fired(..) => Seq::empty(),
            Happening::Looked(..) => still_waiting(log.drop_last()),
        }
    }
}

/// Whether the channel between the futures and the observer hands on what goes into it: each event
/// is told to those that wait for it.
pub open spec fn hands_on<M, V>(log: Seq<Happening<M, V>>) -> bool {
    forall|j: int|
        0 <= j < log.len() ==> ((#[trigger] log[j]) matches Happening::Fired(told, given)
            ==> told == still_waiting(log.take(j)) && given.len() == told.len())
}

/// Whether the event is told to the future, as the one in place `t`.
pub open spec fn tells<M, V>(happening: Happening<M, V>, t: int, message: M) -> bool {
    happening matches Happening::Fired(told, _) && 0 <= t < told.len() && told[t].0 == message
}

/// Whether the future has been told `value` before place `k`.
pub open spec fn told_before<M, V>(
    log: Seq<Happening<M, V>>,
    k: int,
    message: M,
    value: V,
) -> bool {
    exists|j: int, t: int|
        0 <= j < k && #[trigger] tells(log[j], t, message) && log[j]->Fired_1[t] == value
}

/// Whether the future has found something before place `k`.
pub open spec fn found_before<M, V>(log: Seq<Happening<M, V>>, k: int, message: M) -> bool {
    exists|l: int|
        0 <= l < k && ((#[trigger] log[l]) matches Happening::Looked(m, seen) && m == message
            && seen is Some)
}

/// Whether a look finds what the future has been told: it finds nothing only if that is nothing, or,
/// where a look takes it away, if it has been found before.
pub open spec fn looks_agree<M, V>(log: Seq<Happening<M, V>>, takes: bool) -> bool {
    forall|k: int|
        0 <= k < log.len() ==> ((#[trigger] log[k]) matches Happening::Looked(message, seen)
            ==> match seen {
            Some(value) => told_before(log, k, message, value),
            None => (takes && found_before(log, k, message)) || forall|j: int, t: int|
                0 <= j < k ==> !#[trigger] tells(log[j], t, message),
        })
}

/// Whether no two registrations are by the same: each future registers once, by what is its own.
pub open spec fn registered_once<M, V>(log: Seq<Happening<M, V>>) -> bool {
    forall|i: int, j: int|
        0 <= i < log.len() && 0 <= j < log.len() && (#[trigger] log[i]) is Registered && (
        #[trigger] log[j]) is Registered && log[i]->Registered_0 == log[j]->Registered_0 ==> i == j
}

/// Whether no event is between the two places.
pub open spec fn quiet<M, V>(log: Seq<Happening<M, V>>, from: int, to: int) -> bool {
    forall|k: int| from < k < to ==> !((#[trigger] log[k]) is Fired)
}

/// Who waits is who has registered with no event since.
proof fn lemma_still_waiting<M, V>(log: Seq<Happening<M, V>>, message: M, waker: Waker)
    ensures
        still_waiting(log).contains((message, waker)) <==> exists|i: int|
            0 <= i < log.len() && (#[trigger] log[i]) == Happening::<M, V>::Registered(
                message,
                waker,
            ) && quiet(log, i, log.len() as int),
    decreases log.len(),
{
    if log.len() > 0 {
        let before = log.drop_last();
        let n = log.len() - 1;
        let entry = (message, waker);
        let wanted = Happening::<M, V>::Registered(message, waker);
        lemma_still_waiting(before, message, waker);
        if log[n] is Fired {
            assert forall|i: int|
                0 <= i < log.len() && (#[trigger] log[i]) == wanted implies !quiet(
                log,
                i,
                log.len() as int,
            ) by {
                assert(log[n] is Fired);
            }
        } else {
            assert forall|i: int|
                0 <= i < n implies quiet(log, i, log.len() as int) == #[trigger] quiet(
                before,
                i,
                n,
            ) by {
                if quiet(before, i, n) {
                    assert forall|m: int|
                        i < m < log.len() implies !((#[trigger] log[m]) is Fired) by {
                        if m < n {
                            assert(!(before[m] is Fired));
                        }
                    }
                }
                if quiet(log, i, log.len() as int) {
                    assert forall|m: int| i < m < n implies !((#[trigger] before[m]) is Fired) by {
                        assert(!(log[m] is Fired));
                    }
                }
            }
            if still_waiting(log).contains(entry) {
                let k = choose|k: int|
                    0 <= k < still_waiting(log).len() && still_waiting(log)[k] == entry;
                if k < still_waiting(before).len() {
                    assert(still_waiting(before)[k] == entry);
                    let i = choose|i: int|
                        0 <= i < before.len() && (#[trigger] before[i]) == wanted && quiet(
                            before,
                            i,
                            before.len() as int,
                        );
                    assert(log[i] == wanted && quiet(before, i, n));
                } else {
                    assert(log[n] == wanted && quiet(log, n, log.len() as int));
                }
            }
            if exists|i: int|
                0 <= i < log.len() && (#[trigger] log[i]) == wanted && quiet(
                    log,
                    i,
                    log.len() as int,
                ) {
                let i = choose|i: int|
                    0 <= i < log.len() && (#[trigger] log[i]) == wanted && quiet(
                        log,
                        i,
                        log.len() as int,
                    );
                if i < n {
                    assert(before[i] == wanted && quiet(before, i, n));
                    let k = choose|k: int|
                        0 <= k < still_waiting(before).len() && still_waiting(before)[k] == entry;
                    assert(still_waiting(log)[k] == entry);
                } else {
                    assert(still_waiting(log)[still_waiting(before).len() as int] == entry);
                }
            }
        }
    }
}

/// Every future that has registered is told of the first event after that, and so are all others
/// that were waiting then: none is left waiting.
pub proof fn law_first_event_is_told<M, V>(log: Seq<Happening<M, V>>, i: int, j: int)
    requires
        hands_on(log),
        0 <= i < j < log.len(),
        log[i] is Registered,
        log[j] is Fired,
        quiet(log, i, j),
    ensures
        log[j]->Fired_0.contains((log[i]->Registered_0, log[i]->Registered_1)),
{
    let before = log.take(j);
    let message = log[i]->Registered_0;
    let waker = log[i]->Registered_1;
    lemma_still_waiting(before, message, waker);
    assert(before[i] == Happening::<M, V>::Registered(message, waker));
    assert forall|m: int| i < m < before.len() implies !((#[trigger] before[m]) is Fired) by {
        assert(!(log[m] is Fired));
    }
    assert(quiet(before, i, before.len() as int));
    assert(log[j]->Fired_0 == still_waiting(log.take(j)));
}

/// A future is told of no other event: what an event is told to has registered before it, with no
/// event in between. So an event completes no await that begins after it, and a future that has
/// been told of one event is not told of a later one.
pub proof fn law_no_other_event_is_told<M, V>(
    log: Seq<Happening<M, V>>,
    j: int,
    message: M,
    waker: Waker,
)
    requires
        hands_on(log),
        0 <= j < log.len(),
        log[j] is Fired,
        log[j]->Fired_0.contains((message, waker)),
    ensures
        exists|i: int|
            0 <= i < j && (#[trigger] log[i]) == Happening::<M, V>::Registered(message, waker)
                && quiet(log, i, j),
{
    let before = log.take(j);
    lemma_still_waiting(before, message, waker);
    assert(log[j]->Fired_0 == still_waiting(log.take(j)));
    let i = choose|i: int|
        0 <= i < before.len() && (#[trigger] before[i]) == Happening::<M, V>::Registered(
            message,
            waker,
        ) && quiet(before, i, before.len() as int);
    assert(log[i] == before[i]);
    assert forall|m: int| i < m < j implies !((#[trigger] log[m]) is Fired) by {
        assert(!(before[m] is Fired));
    }
    assert(quiet(log, i, j));
}

/// Whether the future registered at place `i`, and the first event after that, at place `j`, told it
/// `value`.
pub open spec fn told_by_first_event<M, V>(
    log: Seq<Happening<M, V>>,
    i: int,
    j: int,
    message: M,
    value: V,
) -> bool {
    &&& 0 <= i < j < log.len()
    &&& log[i] is Registered
    &&& log[i]->Registered_0 == message
    &&& log[j] is Fired
    &&& quiet(log, i, j)
    &&& exists|t: int| #[trigger]
        tells(log[j], t, message) && log[j]->Fired_1[t] == value && log[j]->Fired_0[t].1
            == log[i]->Registered_1
}

/// What a future finds when it looks, it was told by the first event after it registered.
pub proof fn law_found_is_the_first_event<M, V>(
    log: Seq<Happening<M, V>>,
    takes: bool,
    k: int,
    value: V,
)
    requires
        hands_on(log),
        looks_agree(log, takes),
        0 <= k < log.len(),
        log[k] matches Happening::Looked(_, seen) && seen == Some(value),
    ensures
        exists|i: int, j: int|
            j < k && #[trigger] told_by_first_event(log, i, j, log[k]->Looked_0, value),
{
    let message = log[k]->Looked_0;
    assert(told_before(log, k, message, value));
    let (j, t) = choose|j: int, t: int|
        0 <= j < k && #[trigger] tells(log[j], t, message) && log[j]->Fired_1[t] == value;
    let waker = log[j]->Fired_0[t].1;
    assert(log[j]->Fired_0[t] == (message, waker));
    law_no_other_event_is_told(log, j, message, waker);
    let i = choose|i: int|
        0 <= i < j && (#[trigger] log[i]) == Happening::<M, V>::Registered(message, waker) && quiet(
            log,
            i,
            j,
        );
    assert(told_by_first_event(log, i, j, message, value));
}

/// A future that looks after the first event since it registered finds what that event told it, and
/// never what another did. Where a look takes it away, this is said of the look that finds it.
pub proof fn law_first_event_is_found<M, V>(
    log: Seq<Happening<M, V>>,
    takes: bool,
    i: int,
    j: int,
    k: int,
)
    requires
        hands_on(log),
        looks_agree(log, takes),
        registered_once(log),
        0 <= i < j < k < log.len(),
        log[i] is Registered,
        log[j] is Fired,
        quiet(log, i, j),
        log[k] matches Happening::Looked(message, _) && message == log[i]->Registered_0,
        takes ==> !found_before(log, k, log[i]->Registered_0),
    ensures
        log[k]->Looked_1 matches Some(value) && told_by_first_event(
            log,
            i,
            j,
            log[i]->Registered_0,
            value,
        ),
{
    let message = log[i]->Registered_0;
    let entry = (message, log[i]->Registered_1);
    law_first_event_is_told(log, i, j);
    let t = choose|t: int| 0 <= t < log[j]->Fired_0.len() && log[j]->Fired_0[t] == entry;
    assert(tells(log[j], t, message));
    let value = log[k]->Looked_1->0;
    law_found_is_the_first_event(log, takes, k, value);
    let (i2, j2) = choose|i2: int, j2: int|
        j2 < k && #[trigger] told_by_first_event(log, i2, j2, message, value);
    assert(log[i2] is Registered && log[i] is Registered);
    assert(i2 == i);
    assert(j2 == j) by {
        if j2 < j {
            assert(!(log[j2] is Fired));
        }
        if j < j2 {
            assert(!(log[j] is Fired));
        }
    }
}

/// A future that looks before it has registered, or before any event since then, finds nothing.
pub proof fn law_nothing_is_found_before_an_event<M, V>(
    log: Seq<Happening<M, V>>,
    takes: bool,
    k: int,
)
    requires
        hands_on(log),
        looks_agree(log, takes),
        0 <= k < log.len(),
        log[k] is Looked,
        forall|i: int, j: int|
            0 <= i < j < k && (#[trigger] log[i]) is Registered && log[i]->Registered_0
                == log[k]->Looked_0 ==> !((#[trigger] log[j]) is Fired),
    ensures
        log[k]->Looked_1 is None,
{
    if let Some(value) = log[k]->Looked_1 {
        law_found_is_the_first_event(log, takes, k, value);
        let (i, j) = choose|i: int, j: int|
            j < k && #[trigger] told_by_first_event(log, i, j, log[k]->Looked_0, value);
        assert(log[i] is Registered);
        assert(log[j] is Fired);
    }
}

/// Whether the log lists calls on futures that wait to be notified, and on their observer:
/// registrations of new flags with the source, runs of [`crate::async_observers::fire`] on the
/// other end, and reads of the flags. `waiting` is that end before the first and after each.
pub open spec fn lists_flags(
    log: Seq<Happening<Arc<AtomicBool>, ()>>,
    source: Registrations<(Arc<AtomicBool>, Waker)>,
    waiting: Seq<Waiting<(Arc<AtomicBool>, Waker)>>,
) -> bool {
    &&& waiting.len() == log.len() + 1
    &&& both_ends(source, waiting[0])
    &&& forall|k: int|
        0 <= k < log.len() ==> match #[trigger] log[k] {
            Happening::Registered(flag, waker) => {
                &&& fresh_flag(flag)
                &&& registered_with(source, (flag, waker), true)
                &&& waiting[k + 1] == waiting[k]
            },
            Happening::Fired(told, _) => {
                &&& all_in_turn(taking(), waiting[k], told, waiting[k + 1])
                &&& fired(told)
            },
            Happening::Looked(flag, seen) => {
                &&& flag_read(flag, seen is Some)
                &&& waiting[k + 1] == waiting[k]
            },
        }
}

/// An await for an event ends with the next event and with no other: a read of its flag finds it set
/// exactly if an event came after the flag was registered, whatever events came before; and by the
/// first event after that the flag has been set and the task woken.
pub proof fn law_await_ends_with_next_event(
    log: Seq<Happening<Arc<AtomicBool>, ()>>,
    source: Registrations<(Arc<AtomicBool>, Waker)>,
    waiting: Seq<Waiting<(Arc<AtomicBool>, Waker)>>,
    i: int,
    k: int,
)
    requires
        lists_flags(log, source, waiting),
        hands_on(log),
        looks_agree(log, false),
        registered_once(log),
        0 <= i < log.len(),
        0 <= k < log.len(),
        log[i] is Registered,
        log[k] matches Happening::Looked(flag, _) && flag == log[i]->Registered_0,
    ensures
        flag_read(log[k]->Looked_0, log[k]->Looked_1 is Some),
        log[k]->Looked_1 is Some <==> exists|j: int| i < j < k && (#[trigger] log[j]) is Fired,
        log[k]->Looked_1 is Some ==> flag_set_and_woken(
            (log[i]->Registered_0, log[i]->Registered_1),
        ),
{
    let flag = log[i]->Registered_0;
    if log[k]->Looked_1 is Some {
        law_found_is_the_first_event(log, false, k, ());
        let (i2, j) = choose|i2: int, j: int|
            j < k && #[trigger] told_by_first_event(log, i2, j, flag, ());
        assert(log[i2] is Registered);
        assert(i2 == i);
        assert(log[j] is Fired);
        let t = choose|t: int| #[trigger]
            tells(log[j], t, flag) && log[j]->Fired_0[t].1 == log[i]->Registered_1;
        assert(fired(log[j]->Fired_0));
        assert(flag_set_and_woken(log[j]->Fired_0[t]));
    }
    if exists|j: int| i < j < k && (#[trigger] log[j]) is Fired {
        let j = choose|j: int| i < j < k && (#[trigger] log[j]) is Fired;
        let first = lemma_first_event(log, i, j);
        law_first_event_is_found(log, false, i, first, k);
    }
}

/// The first event after place `i`, where there is one up to place `j`.
proof fn lemma_first_event<M, V>(log: Seq<Happening<M, V>>, i: int, j: int) -> (first: int)
    requires
        0 <= i < j < log.len(),
        log[j] is Fired,
    ensures
        i < first <= j,
        log[first] is Fired,
        quiet(log, i, first),
    decreases j - i,
{
    if exists|m: int| i < m < j && (#[trigger] log[m]) is Fired {
        let m = choose|m: int| i < m < j && (#[trigger] log[m]) is Fired;
        lemma_first_event(log, i, m)
    } else {
        j
    }
}

/// Whether the slot may be the one whose other end is `reply`, as looks that found nothing left it.
pub open spec fn slot_of<T>(reply: Reply<T>, slot: ReplySlot<T>) -> bool {
    exists|slots: Seq<ReplySlot<T>>|
        #![trigger reply_ends(reply, slots[0])]
        {
            &&& slots.len() > 0
            &&& reply_ends(reply, slots[0])
            &&& slots.last() == slot
            &&& forall|i: int|
                0 <= i < slots.len() - 1 ==> reply_taken(
                    #[trigger] slots[i],
                    slots[i + 1],
                    None::<T>,
                )
        }
}

/// Whether a look into the slot whose other end is `reply` may find `seen`.
pub open spec fn looked_into<T>(reply: Reply<T>, seen: Option<T>) -> bool {
    exists|slot: ReplySlot<T>, after: ReplySlot<T>|
        slot_of(reply, slot) && #[trigger] reply_taken(slot, after, seen)
}

/// Whether the log lists calls on futures that wait for a copy of an event, and on their observer:
/// registrations of the other ends of their slots with the source, runs of
/// [`crate::async_observers::fire_cloned`] on the other end of that, and looks into the slots.
/// `waiting` is that end before the first and after each, and `events` holds the event at each place
/// where one is told.
pub open spec fn lists_replies<E: Clone>(
    log: Seq<Happening<Reply<(E, Entity)>, (E, Entity)>>,
    source: Registrations<(Reply<(E, Entity)>, Waker)>,
    waiting: Seq<Waiting<(Reply<(E, Entity)>, Waker)>>,
    events: Seq<E>,
    observer: Entity,
) -> bool {
    &&& waiting.len() == log.len() + 1
    &&& events.len() == log.len()
    &&& both_ends(source, waiting[0])
    &&& forall|k: int|
        0 <= k < log.len() ==> match #[trigger] log[k] {
            Happening::Registered(reply, waker) => {
                &&& registered_with(source, (reply, waker), true)
                &&& waiting[k + 1] == waiting[k]
            },
            Happening::Fired(told, copies) => {
                &&& all_in_turn(taking(), waiting[k], told, waiting[k + 1])
                &&& fired_cloned(&events[k], observer, told, copies)
            },
            Happening::Looked(reply, seen) => {
                &&& looked_into(reply, seen)
                &&& waiting[k + 1] == waiting[k]
            },
        }
}

/// Every future that waits for a copy of an event completes with a copy of the first event after it
/// registered, and with the entity of the observer: a look that finds something finds that, and the
/// first look after that event finds it. By that event its copy has been sent and its task woken.
pub proof fn law_await_gives_next_event<E: Clone>(
    log: Seq<Happening<Reply<(E, Entity)>, (E, Entity)>>,
    source: Registrations<(Reply<(E, Entity)>, Waker)>,
    waiting: Seq<Waiting<(Reply<(E, Entity)>, Waker)>>,
    events: Seq<E>,
    observer: Entity,
    i: int,
    j: int,
    k: int,
)
    requires
        lists_replies(log, source, waiting, events, observer),
        hands_on(log),
        looks_agree(log, true),
        registered_once(log),
        0 <= i < j < k < log.len(),
        log[i] is Registered,
        log[j] is Fired,
        quiet(log, i, j),
        log[k] matches Happening::Looked(reply, _) && reply == log[i]->Registered_0,
    ensures
        looked_into(log[k]->Looked_0, log[k]->Looked_1),
        !found_before(log, k, log[k]->Looked_0) ==> log[k]->Looked_1 is Some,
        log[k]->Looked_1 matches Some(copy) ==> copy_sent(
            &events[j],
            observer,
            (log[i]->Registered_0, log[i]->Registered_1),
            copy,
        ),
{
    let reply = log[i]->Registered_0;
    if !found_before(log, k, reply) {
        law_first_event_is_found(log, true, i, j, k);
    }
    if let Some(copy) = log[k]->Looked_1 {
        law_found_is_the_first_event(log, true, k, copy);
        let (i2, j2) = choose|i2: int, j2: int|
            j2 < k && #[trigger] told_by_first_event(log, i2, j2, reply, copy);
        assert(log[i2] is Registered);
        assert(i2 == i);
        assert(j2 == j) by {
            if j2 < j {
                assert(!(log[j2] is Fired));
            }
            if j < j2 {
                assert(!(log[j] is Fired));
            }
        }
        let t = choose|t: int| #[trigger]
            tells(log[j], t, reply) && log[j]->Fired_1[t] == copy && log[j]->Fired_0[t].1
                == log[i]->Registered_1;
        assert(fired_cloned(&events[j], observer, log[j]->Fired_0, log[j]->Fired_1));
        assert(copy_sent(&events[j], observer, log[j]->Fired_0[t], log[j]->Fired_1[t]));
    }
}

} // verus!
