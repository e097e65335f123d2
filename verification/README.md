# bevy_malek_async

Async access to an entity-component world from any executor, and scenes with async closures.

The library under `src/` is written in Verus: what each function gives and changes is stated in its
contract and proved. Where it acts on other threads, through channels, flags and wakers, the contract
states the calls that it makes; what they bring about there is not stated.

- `src/bsn/` turns scene notation into the tokens of a scene. `types.rs` is the notation as parsed,
  `codegen.rs` generates entities and lists of scenes, `patch.rs` the statements that bring a
  template to the values given for its fields, `values.rs` the values themselves, and `closure.rs`
  rewrites async closures so that `#Name` becomes a captured entity. `valid.rs` tests whether a
  scene can be generated at all, and `printable.rs` is about the errors that stand in place of an entry.
  `laws.rs` states what holds of code generation as a whole, and `mentions.rs` that every mention of
  an entity's name is written with one index.
- `src/cached_stuff.rs` has one-shot systems made of closures, and the future that runs one when the
  world is at hand. `src/wake_signal.rs` is the handshake by which the driver of a sync point knows
  that a woken future has had its chance, and `src/system_state.rs` the state that is made when it
  is first needed.
- `src/async_ui.rs` is what the closures of a scene work with, `src/async_observers.rs` has the
  futures that wait for events, `src/event_log.rs` states which events they end with, and
  `src/mutation.rs` tells of changed components.
- `src/tokens.rs` and `src/cache.rs` are the data types that these share. `src/literals.rs`,
  `src/channels.rs` and the type identifiers in `src/cache.rs` are where the library rests on other
  crates: each item there says what is taken for granted.

`app/` puts the library into its surroundings: token streams for the compiler, and futures,
components, hooks and systems for the world. `tests/` has examples with exact results.
