//! Async access to an entity-component world, and scenes with async closures.
//!
//! - [`bsn`] generates the code of a scene from its notation. In an async closure, `#Name` stands
//!   for the entity of that name: the closure is rewritten to take the entities it names.
//! - [`cached_stuff`] runs closures on the world: the future of a request, and what it does when it
//!   is polled. [`wake_signal`] and [`system_state`] are what such a future shares with others.
//! - [`async_ui`] is what the closures of a scene work with: cached system state and cached
//!   observers. [`async_observers`] are futures for events, [`event_log`] states which events they
//!   end with, and [`mutation`] makes events of changed components.
//! - [`tokens`], [`literals`], [`channels`] and [`cache`] are what these build upon.
pub mod async_observers;
pub mod async_ui;
pub mod bsn;
pub mod cache;
pub mod cached_stuff;
pub mod channels;
pub mod event_log;
pub mod literals;
pub mod mutation;
pub mod system_state;
pub mod tokens;
pub mod wake_signal;
