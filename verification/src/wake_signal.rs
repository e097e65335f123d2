//! The wake handshake between a bridge future and the driver of its sync point.
//!
//! The driver wakes the futures queued at a sync point and waits until each of them has had a
//! chance to run. A future acknowledges a wake by dropping its end of the handshake: at the end of
//! the poll that follows, and also where it is dropped or panics.
use vstd::prelude::*;

verus! {

/// What the two ends of a handshake share: the signaler that the future keeps, and the waiter that
/// is queued with its request.
#[derive(Debug)]
pub struct WakeInner {
    pub notified: bool,
    pub acknowledged: bool,
}

/// What can happen to a handshake.
pub enum WakeEvent {
    /// The driver has woken the future.
    Notify,
    /// The future's end has been dropped.
    Acknowledge,
}

/// A handshake that has gone through the given events, from a fresh one on.
pub open spec fn after(events: Seq<WakeEvent>) -> WakeInner
    decreases events.len(),
{
    if events.len() == 0 {
        WakeInner { notified: false, acknowledged: false }
    } else {
        let before = after(events.drop_last());
        match events.last() {
            WakeEvent::Notify => WakeInner { notified: true, ..before },
            WakeEvent::Acknowledge => WakeInner { acknowledged: true, ..before },
        }
    }
}

/// A fresh handshake: nothing has been notified or acknowledged.
pub fn pair() -> (r: WakeInner)
    ensures
        r == after(Seq::empty()),
        !r.notified,
        !r.acknowledged,
{
    WakeInner { notified: false, acknowledged: false }
}

impl WakeInner {
    /// Whether the driver has notified the future: asked by the future's end.
    pub fn was_notified(&self) -> (r: bool)
        ensures
            r == self.notified,
    {
        self.notified
    }

    /// Notifies the future: done by the driver's end.
    pub fn notify(&mut self)
        ensures
            *final(self) == (WakeInner { notified: true, ..*old(self) }),
    {
        self.notified = true;
    }

    /// Acknowledges the wake: done when the future's end is dropped.
    pub fn acknowledge(&mut self)
        ensures
            *final(self) == (WakeInner { acknowledged: true, ..*old(self) }),
    {
        self.acknowledged = true;
    }

    /// Whether the driver may stop waiting.
    pub fn may_pass(&self) -> (r: bool)
        ensures
            r == self.acknowledged,
    {
        self.acknowledged
    }
}

/// The driver may stop waiting exactly once the future's end has been dropped, and the future finds
/// itself notified exactly once the driver has notified it, whatever else happened and in whatever
/// order.
pub proof fn law_handshake(events: Seq<WakeEvent>)
    ensures
        after(events).acknowledged <==> events.contains(WakeEvent::Acknowledge),
        after(events).notified <==> events.contains(WakeEvent::Notify),
    decreases events.len(),
{
    if events.len() > 0 {
        let before = events.drop_last();
        law_handshake(before);
        assert(events[events.len() - 1] == events.last());
        assert forall|event: WakeEvent| #[trigger] before.contains(event) implies events.contains(
            event,
        ) by {
            let i = choose|i: int| 0 <= i < before.len() && before[i] == event;
            assert(events[i] == event);
        }
        assert forall|event: WakeEvent|
            #[trigger] events.contains(event) && event != events.last() implies before.contains(
            event,
        ) by {
            let i = choose|i: int| 0 <= i < events.len() && events[i] == event;
            assert(before[i] == event);
        }
    }
}

/// What has been notified or acknowledged stays so.
pub proof fn law_handshake_only_goes_forward(events: Seq<WakeEvent>, event: WakeEvent)
    ensures
        after(events).acknowledged ==> after(events.push(event)).acknowledged,
        after(events).notified ==> after(events.push(event)).notified,
{
    assert(events.push(event).drop_last() =~= events);
}

} // verus!
