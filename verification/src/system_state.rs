//! State that is made when it is first needed.
use vstd::prelude::*;

verus! {

/// Stores the state of a system so that it can be initialized once and then shared across bridge
/// requests.
///
/// The state cannot be made before there is a world to make it from, so it is made the first time
/// it is used.
#[derive(Debug)]
pub struct SystemStateCell<S> {
    state: Option<S>,
}

impl<S> SystemStateCell<S> {
    /// The state, once it has been made.
    pub closed spec fn state(&self) -> Option<S> {
        self.state
    }
}

impl<S> Default for SystemStateCell<S> {
    /// Starts uninitialized.
    fn default() -> (r: SystemStateCell<S>)
        ensures
            r.state() is None,
    {
        SystemStateCell { state: None }
    }
}

/// A cell whose state is of a type that its holder does not know.
///
/// This lets the bridge store the state of all requests alike.
pub trait ErasedSystemStateCell: Send + Sync + 'static {

}

impl<S: Send + Sync + 'static> ErasedSystemStateCell for SystemStateCell<S> {

}

impl<S> SystemStateCell<S> {
    /// Makes the state if there is none yet, and gives access to it.
    pub fn lock<N: FnOnce() -> S>(&mut self, new: N) -> (r: &mut S)
        requires
            old(self).state() is None ==> new.requires(()),
        ensures
            match old(self).state() {
                Some(state) => *r == state,
                None => new.ensures((), *r),
            },
            final(self).state() == Some(*final(r)),
    {
        if self.state.is_none() {
            self.state = Some(new());
        }
        match &mut self.state {
            Some(state) => state,
            None => unreached(),
        }
    }
}

} // verus!
