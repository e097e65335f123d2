//! Bridging with cached system state: closures as one-shot systems, and the future that runs one
//! when the world is at hand.
use vstd::prelude::*;

use std::marker::PhantomData;

verus! {

/// A function that can be run on the value of a system parameter.
pub trait SystemParamFunction<Marker>: Sized {
    type Out;

    type Param;

    /// Whether the function may be run on the value.
    spec fn accepts(self, param_value: Self::Param) -> bool;

    /// Whether the function, run on the value, may give the output.
    spec fn gives(self, param_value: Self::Param, out: Self::Out) -> bool;

    /// Runs the function.
    fn run(self, param_value: Self::Param) -> (r: Self::Out)
        requires
            self.accepts(param_value),
        ensures
            self.gives(param_value, r),
    ;
}

/// Marks a closure of one parameter.
pub struct FnMarker<F0, Out> {
    marker: PhantomData<(F0, Out)>,
}

impl<Out, Func, F0> SystemParamFunction<FnMarker<F0, Out>> for Func where Func: FnOnce(F0) -> Out {
    type Out = Out;

    type Param = (F0,);

    open spec fn accepts(self, param_value: (F0,)) -> bool {
        self.requires(param_value)
    }

    open spec fn gives(self, param_value: (F0,), out: Out) -> bool {
        self.ensures(param_value, out)
    }

    fn run(self, param_value: (F0,)) -> (r: Out) {
        let (f0,) = param_value;
        self(f0)
    }
}

/// A function that is run at most once.
pub struct FunctionSystem<Marker, Out, F> where F: SystemParamFunction<Marker> {
    func: Option<F>,
    marker: PhantomData<(Marker, Out)>,
}

impl<Marker, Out, F> FunctionSystem<Marker, Out, F> where F: SystemParamFunction<Marker> {
    /// The function, until it has been run.
    pub closed spec fn func(&self) -> Option<F> {
        self.func
    }
}

/// Something that runs on the value of a system parameter, once there is one.
pub trait System: Sized {
    type Out;

    type Param;

    /// Whether the system may be run on the value.
    spec fn accepts(&self, param_value: Self::Param) -> bool;

    /// Whether the system, run on the value, may give the output and become `after`.
    spec fn gives(&self, param_value: Self::Param, out: Self::Out, after: Self) -> bool;

    /// Runs the system on the parameter, if it could be had: nothing happens where the state of the
    /// parameter is in use elsewhere (`None`), and where the parameter is not valid, its error is
    /// handed back.
    fn run<E>(&mut self, param: Option<Result<Self::Param, E>>) -> (r: Option<
        Result<Self::Out, E>,
    >)
        requires
            param matches Some(Ok(value)) ==> old(self).accepts(value),
        ensures
            match param {
                None => r is None && *final(self) == *old(self),
                Some(Err(error)) => r == Some(Err::<Self::Out, E>(error)) && *final(self) == *old(
                    self,
                ),
                Some(Ok(value)) => r matches Some(Ok(out)) && old(self).gives(
                    value,
                    out,
                    *final(self),
                ),
            },
    ;
}

impl<Marker, Out, F> System for FunctionSystem<Marker, Out, F> where
    F: SystemParamFunction<Marker, Out = Out>,
 {
    type Out = Out;

    type Param = F::Param;

    open spec fn accepts(&self, param_value: F::Param) -> bool {
        self.func() matches Some(func) && func.accepts(param_value)
    }

    open spec fn gives(&self, param_value: F::Param, out: Out, after: Self) -> bool {
        &&& self.func() matches Some(func) && func.gives(param_value, out)
        &&& after.func() is None
    }

    fn run<E>(&mut self, param: Option<Result<F::Param, E>>) -> (r: Option<Result<Out, E>>) {
        match param {
            None => None,
            Some(Err(error)) => Some(Err(error)),
            Some(Ok(value)) => {
                let func = self.func.take().unwrap();
                Some(Ok(func.run(value)))
            },
        }
    }
}

/// What can be turned into a system.
pub trait IntoSystem<Out, Marker>: Sized {
    type System: System<Out = Out>;

    /// Whether the value turns into the system.
    spec fn becomes(this: Self, system: Self::System) -> bool;

    /// Turns the value into a system.
    fn into_system(this: Self) -> (r: Self::System)
        ensures
            Self::becomes(this, r),
    ;
}

impl<T: System> IntoSystem<T::Out, ()> for T {
    type System = T;

    open spec fn becomes(this: T, system: T) -> bool {
        system == this
    }

    fn into_system(this: T) -> (r: T) {
        this
    }
}

/// Marks what becomes a [`FunctionSystem`].
pub struct IsFunctionSystem;

impl<Marker, Out, F> IntoSystem<Out, (IsFunctionSystem, Marker)> for F where
    F: SystemParamFunction<Marker, Out = Out>,
 {
    type System = FunctionSystem<Marker, Out, F>;

    open spec fn becomes(this: F, system: FunctionSystem<Marker, Out, F>) -> bool {
        system.func() == Some(this)
    }

    fn into_system(this: F) -> (r: FunctionSystem<Marker, Out, F>) {
        FunctionSystem { func: Some(this), marker: PhantomData }
    }
}

/// Why a bridge could not be crossed.
#[derive(Debug)]
pub enum BridgeError<E> {
    /// The world is gone.
    WorldDropped,
    /// A system parameter is not valid.
    SystemParamValidation(E),
}

/// Whether a value is there yet.
#[derive(Debug)]
pub enum Poll<T> {
    Ready(T),
    Pending,
}

/// A single in-flight bridging request between an async task and the world. `G` is the future's end
/// of a wake handshake.
pub struct CachedBridgeFuture<Func, G> {
    /// The pseudo-system that is run when the world is at hand.
    pub bridge_fn: Func,
    /// The wake signal of the currently queued wake cycle, if any. Letting go of it acknowledges
    /// that the wake has been handled.
    pub wake_signal: Option<G>,
}

/// What came of polling a future.
pub struct Polled<Out, E, G, W> {
    pub poll: Poll<Result<Out, BridgeError<E>>>,
    /// The driver's end of a handshake, to be queued with a request at the future's sync point.
    pub request: Option<W>,
    /// The signal of the wake that led to this poll, to be let go of at its end.
    pub released: Option<G>,
}

/// What holds of every poll of a future: it lets go of the signal it had, and where it is left
/// pending, and only there, it is queued again and holds a new one.
pub open spec fn poll_step<Out, E, G, W>(
    before: Option<G>,
    polled: Polled<Out, E, G, W>,
    signal: Option<G>,
) -> bool {
    &&& polled.released == before
    &&& signal is Some <==> polled.request is Some
    &&& polled.request is Some <==> polled.poll is Pending
}

impl<Func, G> CachedBridgeFuture<Func, G> {
    /// A future that has not been polled yet.
    pub fn new(bridge_fn: Func) -> (r: CachedBridgeFuture<Func, G>)
        ensures
            r.bridge_fn == bridge_fn,
            r.wake_signal is None,
    {
        CachedBridgeFuture { bridge_fn, wake_signal: None }
    }

    /// Polls a future, given its wake signal.
    ///
    /// `attempt` tries to run the system: it gives `None` where no world is exposed, and `Pending`
    /// where the state of the system is in use. It is made wherever there is a world, so that a
    /// future polled while the world is exposed needs no queue. Where it does not complete, the
    /// future is queued to be revisited, with a new handshake made by `pair`.
    pub fn poll<Out, E, W, A, N>(
        wake_signal: &mut Option<G>,
        world_alive: bool,
        attempt: A,
        pair: N,
    ) -> (r: Polled<Out, E, G, W>) where
        A: FnOnce() -> Option<Poll<Result<Out, BridgeError<E>>>>,
        N: FnOnce() -> (G, W),

        requires
            world_alive ==> attempt.requires(()),
            world_alive ==> pair.requires(()),
        ensures
            poll_step(*old(wake_signal), r, *final(wake_signal)),
            !world_alive ==> r.request is None && r.poll == Poll::Ready(
                Err::<Out, BridgeError<E>>(BridgeError::WorldDropped),
            ),
            world_alive ==> exists|tried: Option<Poll<Result<Out, BridgeError<E>>>>| #[trigger]
                attempt.ensures((), tried) && match tried {
                    Some(Poll::Ready(out)) => r.poll == Poll::Ready(out) && r.request is None,
                    _ => r.poll is Pending && r.request is Some,
                },
            r.request matches Some(waiter) ==> pair.ensures((), (final(wake_signal)->0, waiter)),
    {
        let released = wake_signal.take();
        if !world_alive {
            return Polled {
                poll: Poll::Ready(Err(BridgeError::WorldDropped)),
                request: None,
                released,
            };
        }
        match attempt() {
            Some(Poll::Ready(out)) => Polled { poll: Poll::Ready(out), request: None, released },
            _ => {
                let (signal, waiter) = pair();
                *wake_signal = Some(signal);
                Polled { poll: Poll::Pending, request: Some(waiter), released }
            },
        }
    }
}

impl<Func: System, G> CachedBridgeFuture<Func, G> {
    /// Runs the system on the parameter, if it could be had.
    pub fn run_with<E>(&mut self, param: Option<Result<Func::Param, E>>) -> (r: Poll<
        Result<Func::Out, BridgeError<E>>,
    >)
        requires
            param matches Some(Ok(value)) ==> old(self).bridge_fn.accepts(value),
        ensures
            final(self).wake_signal == old(self).wake_signal,
            match param {
                None => r is Pending && final(self).bridge_fn == old(self).bridge_fn,
                Some(Err(error)) => {
                    &&& r == Poll::Ready(
                        Err::<Func::Out, BridgeError<E>>(BridgeError::SystemParamValidation(error)),
                    )
                    &&& final(self).bridge_fn == old(self).bridge_fn
                },
                Some(Ok(value)) => r matches Poll::Ready(Ok(out)) && old(self).bridge_fn.gives(
                    value,
                    out,
                    final(self).bridge_fn,
                ),
            },
    {
        match self.bridge_fn.run(param) {
            None => Poll::Pending,
            Some(Ok(out)) => Poll::Ready(Ok(out)),
            Some(Err(error)) => Poll::Ready(Err(BridgeError::SystemParamValidation(error))),
        }
    }
}

/// How many of the polls queued a request.
pub open spec fn requests<Out, E, G, W>(polls: Seq<Polled<Out, E, G, W>>) -> nat
    decreases polls.len(),
{
    if polls.len() == 0 {
        0
    } else {
        requests(polls.drop_last()) + if polls.last().request is Some { 1nat } else { 0nat }
    }
}

/// How many of the polls let go of a signal.
pub open spec fn releases<Out, E, G, W>(polls: Seq<Polled<Out, E, G, W>>) -> nat
    decreases polls.len(),
{
    if polls.len() == 0 {
        0
    } else {
        releases(polls.drop_last()) + if polls.last().released is Some { 1nat } else { 0nat }
    }
}

/// However a future is polled, every handshake it has started has been acknowledged, but for the
/// one it holds: so one request is outstanding while the future is pending, and none once it is
/// done. `signals` are the signals held before the first poll and after each.
pub proof fn law_every_wake_is_acknowledged<Out, E, G, W>(
    polls: Seq<Polled<Out, E, G, W>>,
    signals: Seq<Option<G>>,
)
    requires
        signals.len() == polls.len() + 1,
        signals[0] is None,
        forall|i: int|
            0 <= i < polls.len() ==> poll_step(signals[i], #[trigger] polls[i], signals[i + 1]),
    ensures
        requests(polls) == releases(polls) + if signals.last() is Some { 1nat } else { 0nat },
        polls.len() > 0 && polls.last().poll is Ready ==> requests(polls) == releases(polls),
        polls.len() > 0 && polls.last().poll is Pending ==> requests(polls) == releases(polls) + 1,
    decreases polls.len(),
{
    if polls.len() > 0 {
        let n = polls.len() - 1;
        law_every_wake_is_acknowledged(polls.drop_last(), signals.drop_last());
        assert(poll_step(signals[n], polls[n], signals[n + 1]));
    }
}

/// A poll hands back the signal that the future had, and leaves it pending exactly if it asks to be
/// revisited, for which the future holds a new signal.
pub proof fn law_poll_hands_the_signal_back<Out, E, G, W>(
    before: Option<G>,
    polled: Polled<Out, E, G, W>,
    signal: Option<G>,
)
    requires
        poll_step(before, polled, signal),
    ensures
        polled.released == before,
        polled.poll is Pending <==> polled.request is Some,
        polled.poll is Pending <==> signal is Some,
{
}

/// A function that becomes a system is run with what the system is run with, gives what the system
/// gives, and is not run again: the system accepts nothing more.
pub proof fn law_function_is_run_once<Marker, Out, F: SystemParamFunction<Marker, Out = Out>>(
    func: F,
    system: FunctionSystem<Marker, Out, F>,
    value: F::Param,
    out: Out,
    after: FunctionSystem<Marker, Out, F>,
    again: F::Param,
)
    requires
        <F as IntoSystem<Out, (IsFunctionSystem, Marker)>>::becomes(func, system),
        system.gives(value, out, after),
    ensures
        func.gives(value, out),
        system.accepts(value) <==> func.accepts(value),
        !after.accepts(again),
{
}

/// What is a system already becomes itself.
pub proof fn law_system_becomes_itself<T: System>(this: T, system: T)
    requires
        <T as IntoSystem<T::Out, ()>>::becomes(this, system),
    ensures
        system == this,
{
}

/// A closure is run on the value of its parameter and gives what it returns.
pub proof fn law_closure_gives_what_it_returns<Out, Func: FnOnce(F0) -> Out, F0>(
    func: Func,
    value: F0,
    out: Out,
)
    ensures
        <Func as SystemParamFunction<FnMarker<F0, Out>>>::accepts(func, (value,))
            <==> func.requires((value,)),
        <Func as SystemParamFunction<FnMarker<F0, Out>>>::gives(func, (value,), out)
            <==> func.ensures((value,), out),
{
}

} // verus!
