//! The channels and wakers that observers are reached through.
//!
//! What goes through a channel is seen by its other end only, so no contract here says what a call
//! gives. A channel of either kind can only be made so that sending never has to wait: see
//! [`Registrations`] and [`Reply`]. A call uses up the end that it is made on, and gives back
//! one that is to be used again, so that the ends show which calls were made.
use vstd::prelude::*;

use crossbeam::channel::{Receiver, Sender};
use std::sync::atomic::{AtomicBool, Ordering};
use std::sync::Arc;
use std::task::Waker;

verus! {

/// Declares [`crossbeam::channel::Sender`].
#[verifier::external_type_specification]
#[verifier::external_body]
#[verifier::reject_recursive_types(T)]
pub struct ExSender<T>(crossbeam::channel::Sender<T>);

/// Declares [`crossbeam::channel::Receiver`].
#[verifier::external_type_specification]
#[verifier::external_body]
#[verifier::reject_recursive_types(T)]
pub struct ExReceiver<T>(crossbeam::channel::Receiver<T>);

/// Declares [`std::task::Waker`].
#[verifier::external_type_specification]
#[verifier::external_body]
pub struct ExWaker(std::task::Waker);

/// Where to register. The channel is unbounded, so registering never waits.
#[verifier::reject_recursive_types(T)]
pub struct Registrations<T> {
    tx: Sender<T>,
}

/// Who has registered.
#[verifier::reject_recursive_types(T)]
pub struct Waiting<T> {
    rx: Receiver<T>,
}

/// Where to send one reply. The channel has room for one message and this is its only sender, which
/// sending uses up, so replying never waits.
#[verifier::reject_recursive_types(T)]
pub struct Reply<T> {
    tx: Sender<T>,
}

/// Where one reply comes in.
#[verifier::reject_recursive_types(T)]
pub struct ReplySlot<T> {
    rx: Receiver<T>,
}

/// [`crossbeam::channel::unbounded`]: both ends of a new channel. Nothing is said of them.
#[verifier::external_body]
pub(crate) fn registrations<T>() -> (r: (Registrations<T>, Waiting<T>)) {
    let (tx, rx) = crossbeam::channel::unbounded();
    (Registrations { tx }, Waiting { rx })
}

/// [`crossbeam::channel::bounded`] with room for one message: both ends of a new channel. Nothing
/// is said of them.
#[verifier::external_body]
pub(crate) fn reply_slot<T>() -> (r: (Reply<T>, ReplySlot<T>)) {
    let (tx, rx) = crossbeam::channel::bounded(1);
    (Reply { tx }, ReplySlot { rx })
}

/// [`Arc::clone`]: another pointer to the same value.
#[verifier::external_body]
pub(crate) fn share<T>(shared: &Arc<T>) -> (r: Arc<T>)
    ensures
        r == *shared,
{
    shared.clone()
}

/// [`Waker::clone`]: another waker of the same task, which is the same value here.
#[verifier::external_body]
pub(crate) fn same_waker(waker: &Waker) -> (r: Waker)
    ensures
        r == *waker,
{
    waker.clone()
}

/// [`Waker::wake`]: wakes the task. Nothing is said of the effect.
#[verifier::external_body]
fn wake(waker: Waker) {
    waker.wake();
}

impl<T> Registrations<T> {
    /// `clone` of [`crossbeam::channel::Sender`]: another sender of the same channel, which is the
    /// same value here.
    #[verifier::external_body]
    pub(crate) fn another(&self) -> (r: Registrations<T>)
        ensures
            r == *self,
    {
        Registrations { tx: self.tx.clone() }
    }

    /// [`crossbeam::channel::Sender::send`]: whether the message could be sent, which depends on
    /// whether the other end is still there. Nothing is said of the result.
    #[verifier::external_body]
    pub(crate) fn register(self, message: T) -> (r: bool) {
        self.tx.send(message).is_ok()
    }
}

impl<T> Waiting<T> {
    /// The next step of [`crossbeam::channel::Receiver::try_iter`]: the channel without its next
    /// message, and that message, if one is there, which depends on the other ends. Nothing is said
    /// of the result.
    #[verifier::external_body]
    pub(crate) fn next(self) -> (r: (Waiting<T>, Option<T>)) {
        let message = self.rx.try_iter().next();
        (self, message)
    }
}

impl<T> Reply<T> {
    /// [`crossbeam::channel::Sender::send`]: sends the reply, if the other end is still there.
    /// Nothing is said of the effect.
    #[verifier::external_body]
    fn send(self, message: T) {
        let _ = self.tx.send(message);
    }
}

/// Shows that a flag has been set.
pub struct Raised {
    flag: Ghost<Arc<AtomicBool>>,
}

impl Raised {
    /// The flag.
    pub closed spec fn flag(&self) -> Arc<AtomicBool> {
        self.flag@
    }
}

/// Whether a call that sets the flag may return.
pub open spec fn flag_set(flag: Arc<AtomicBool>) -> bool {
    call_ensures(AtomicBool::store, (&*flag, true, Ordering::Relaxed), ())
}

/// Sets the flag.
pub(crate) fn raise(flag: Arc<AtomicBool>) -> (r: Raised)
    ensures
        r.flag() == flag,
        flag_set(flag),
{
    flag.store(true, Ordering::Relaxed);
    Raised { flag: Ghost(flag) }
}

/// Shows that a reply has been sent.
#[verifier::reject_recursive_types(T)]
pub struct Sent<T> {
    reply: Ghost<Reply<T>>,
    message: Ghost<T>,
}

impl<T> Sent<T> {
    /// Where it was sent.
    pub closed spec fn reply(&self) -> Reply<T> {
        self.reply@
    }

    /// What was sent.
    pub closed spec fn message(&self) -> T {
        self.message@
    }
}

/// Whether a call that sends the reply may return.
pub closed spec fn replied<T>(reply: Reply<T>, message: T) -> bool {
    call_ensures(Reply::<T>::send, (reply, message), ())
}

impl<T> Reply<T> {
    /// Sends the reply, if the other end is still there.
    pub(crate) fn answer(self, message: T) -> (r: Sent<T>)
        ensures
            r.reply() == self,
            r.message() == message,
            replied(self, message),
    {
        let ghost reply = self;
        let ghost sent = message;
        self.send(message);
        Sent { reply: Ghost(reply), message: Ghost(sent) }
    }
}

/// Whether a call that wakes the task may return.
pub closed spec fn woken(waker: Waker) -> bool {
    call_ensures(wake, (waker,), ())
}

/// Wakes the task, once what `told` shows has been done.
pub(crate) fn wake_after<D>(waker: Waker, told: D)
    ensures
        woken(waker),
{
    wake(waker);
}

impl<T> ReplySlot<T> {
    /// [`crossbeam::channel::Receiver::try_recv`]: the slot without its reply, and the reply, if it
    /// has come in, which depends on the other end. Nothing is said of the result.
    #[verifier::external_body]
    pub(crate) fn take(self) -> (r: (ReplySlot<T>, Option<T>)) {
        let message = self.rx.try_recv().ok();
        (self, message)
    }
}

/// Telling and waking are the outside calls that do it.
proof fn law_telling_is_a_call<T>(
    flag: Arc<AtomicBool>,
    reply: Reply<T>,
    message: T,
    waker: Waker,
)
    ensures
        flag_set(flag) <==> call_ensures(
            AtomicBool::store,
            (&*flag, true, Ordering::Relaxed),
            (),
        ),
        replied(reply, message) <==> call_ensures(Reply::<T>::send, (reply, message), ()),
        woken(waker) <==> call_ensures(wake, (waker,), ()),
{
}

} // verus!
