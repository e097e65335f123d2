//! Reactive scenes: what an async closure in a scene is given, and how it reaches the world.
use vstd::prelude::*;

#[allow(unused_imports)]
use crate::async_observers::{both_ends, fresh_flag};
use crate::async_observers::{AsyncCloneObserver, AsyncObserver};
#[allow(unused_imports)]
use crate::cache::type_key;
use crate::cache::{type_id_of, Cache, Entity};
use crate::cached_stuff::{CachedBridgeFuture, IntoSystem};
use crate::channels::{share, Reply, Waiting};
use std::any::TypeId;
use std::sync::atomic::AtomicBool;
use std::sync::Arc;
use std::task::Waker;

verus! {

/// Adds what reactive scenes need.
pub struct AsyncUiPlugin;

/// The sync point of reactive scenes.
pub struct AsyncUi;

/// The state of a system, to be bridged with again and again.
pub struct AsyncSystemState<W, S> {
    pub world: W,
    pub system_state: Arc<S>,
}

/// What an async closure in a scene works with. `W` reaches the world, `S` is the state of a system
/// of any type, and `O` an observer of any type.
pub struct Ctx<W, S, O> {
    async_world: W,
    observer_cache: Cache<(Entity, TypeId), O>,
    system_cache: Cache<TypeId, Arc<S>>,
}

/// A cache once a value has been asked for that is `value` if the key is new.
pub open spec fn remembered<K, V>(cache: Map<K, V>, key: K, value: V) -> Map<K, V> {
    if cache.contains_key(key) {
        cache
    } else {
        cache.insert(key, value)
    }
}

/// Whether a lookup in a cache of observers gives `found`: a copy of the observer that is cached for
/// the key, if any.
pub open spec fn looked_up<O: Clone>(
    cache: Map<(Entity, TypeId), O>,
    key: (Entity, TypeId),
    found: Option<O>,
) -> bool {
    match found {
        Some(observer) => cache.contains_key(key) && cloned(cache[key], observer),
        None => !cache.contains_key(key),
    }
}

/// Whether a copy of an observer has been cached for the key.
pub open spec fn copy_cached<O: Clone>(
    before: Map<(Entity, TypeId), O>,
    key: (Entity, TypeId),
    observer: O,
    copy: O,
    after: Map<(Entity, TypeId), O>,
) -> bool {
    cloned(observer, copy) && after == before.insert(key, copy)
}

/// Whether the state is what was had from a cache under the key: the one that is cached from then
/// on, and was before if any was.
pub open spec fn state_step<S>(
    before: Map<TypeId, Arc<S>>,
    key: TypeId,
    state: Arc<S>,
    after: Map<TypeId, Arc<S>>,
) -> bool {
    &&& after == remembered(before, key, state)
    &&& after[key] == state
}

/// Whether a state has been had from a cache under the key: the one that is cached, or else a new
/// one, which is cached from then on.
pub open spec fn state_had<S, N: FnOnce() -> Arc<S>>(
    before: Map<TypeId, Arc<S>>,
    key: TypeId,
    new: N,
    state: Arc<S>,
    after: Map<TypeId, Arc<S>>,
) -> bool {
    &&& state_step(before, key, state, after)
    &&& !before.contains_key(key) ==> new.ensures((), state)
}

impl<W, S, O> Ctx<W, S, O> {
    /// What reaches the world.
    pub closed spec fn world(&self) -> W {
        self.async_world
    }

    /// The observers, by entity and type.
    pub closed spec fn observers(&self) -> Map<(Entity, TypeId), O> {
        self.observer_cache@
    }

    /// The system states, by type.
    pub closed spec fn states(&self) -> Map<TypeId, Arc<S>> {
        self.system_cache@
    }

    /// Nothing is cached yet.
    pub fn new(async_world: W) -> (r: Ctx<W, S, O>)
        ensures
            r.world() == async_world,
            r.observers() == Map::<(Entity, TypeId), O>::empty(),
            r.states() == Map::<TypeId, Arc<S>>::empty(),
    {
        Ctx { async_world, observer_cache: Cache::new(), system_cache: Cache::new() }
    }
}

impl<W: Clone, S, O> Ctx<W, S, O> {
    /// The cached state for a type of system parameter: see [`Ctx::cached_state_of`].
    pub fn cached_state<P: 'static, N: FnOnce() -> Arc<S>>(&mut self, new: N) -> (r:
        AsyncSystemState<W, S>)
        requires
            !old(self).states().contains_key(type_key::<P>()) ==> new.requires(()),
        ensures
            cloned(old(self).world(), r.world),
            state_had(
                old(self).states(),
                type_key::<P>(),
                new,
                r.system_state,
                final(self).states(),
            ),
            final(self).world() == old(self).world(),
            final(self).observers() == old(self).observers(),
    {
        self.cached_state_of(type_id_of::<P>(), new)
    }

    /// The cached state for the type of a system parameter. Where there is none, a new one is made
    /// and cached.
    pub fn cached_state_of<N: FnOnce() -> Arc<S>>(&mut self, param: TypeId, new: N) -> (r:
        AsyncSystemState<W, S>)
        requires
            !old(self).states().contains_key(param) ==> new.requires(()),
        ensures
            cloned(old(self).world(), r.world),
            state_had(old(self).states(), param, new, r.system_state, final(self).states()),
            final(self).world() == old(self).world(),
            final(self).observers() == old(self).observers(),
    {
        let world = self.async_world.clone();
        let cached = match self.system_cache.get(&param) {
            Some(system_state) => Some(share(system_state)),
            None => None,
        };
        match cached {
            Some(system_state) => AsyncSystemState { world, system_state },
            None => {
                let system_state = new();
                self.system_cache.insert(param, share(&system_state));
                AsyncSystemState { world, system_state }
            },
        }
    }

    /// A future that runs the function on the world, at the sync point of reactive scenes.
    pub fn try_bridge<M, Out, F: IntoSystem<Out, M>, G>(&self, func: F) -> (r: CachedBridgeFuture<
        F::System,
        G,
    >)
        ensures
            F::becomes(func, r.bridge_fn),
            r.wake_signal is None,
    {
        CachedBridgeFuture::new(F::into_system(func))
    }
}

impl<W, S, O: Clone> Ctx<W, S, O> {
    /// A copy of the observer of the given type that is cached for the entity, if any.
    pub fn cached_observer(&self, e: Entity, observer: TypeId) -> (r: Option<O>)
        ensures
            looked_up(self.observers(), (e, observer), r),
    {
        match self.observer_cache.get(&(e, observer)) {
            Some(cached) => Some(cached.clone()),
            None => None,
        }
    }

    /// Caches a copy of an observer of the given type for the entity.
    pub fn cache_observer(&mut self, e: Entity, observer: TypeId, async_observer: &O)
        ensures
            exists|copy: O| #[trigger]
                copy_cached(
                    old(self).observers(),
                    (e, observer),
                    *async_observer,
                    copy,
                    final(self).observers(),
                ),
            final(self).world() == old(self).world(),
            final(self).states() == old(self).states(),
    {
        let copy = async_observer.clone();
        self.observer_cache.insert((e, observer), copy);
        assert(copy_cached(
            old(self).observers(),
            (e, observer),
            *async_observer,
            copy,
            self.observers(),
        ));
    }

    /// The future to await for an event on the entity, where one is cached. Where none is, the
    /// world has to be asked for one, which goes to [`Ctx::on_with_answered`].
    pub fn on_with<E: 'static, B: 'static>(&self, e: Entity) -> (r: Option<O>)
        ensures
            looked_up(self.observers(), (e, type_key::<AsyncObserver<E, B>>()), r),
    {
        self.cached_observer(e, type_id_of::<AsyncObserver<E, B>>())
    }

    /// Like [`Ctx::on_with`], for an event about no components in particular.
    pub fn on<E: 'static>(&self, e: Entity) -> (r: Option<O>)
        ensures
            looked_up(self.observers(), (e, type_key::<AsyncObserver<E, ()>>()), r),
    {
        self.on_with::<E, ()>(e)
    }

    /// Caches the observer that the world had for [`Ctx::on_with`].
    pub fn on_with_answered<E: 'static, B: 'static>(&mut self, e: Entity, async_observer: &O)
        ensures
            exists|copy: O| #[trigger]
                copy_cached(
                    old(self).observers(),
                    (e, type_key::<AsyncObserver<E, B>>()),
                    *async_observer,
                    copy,
                    final(self).observers(),
                ),
            final(self).world() == old(self).world(),
            final(self).states() == old(self).states(),
    {
        self.cache_observer(e, type_id_of::<AsyncObserver<E, B>>(), async_observer);
    }

    /// The future to await for an event on the entity, past the cache: a copy of the one that the
    /// world has there already, if any. A new one comes with the list of those that register, and
    /// has to be told of events.
    pub fn on_uncached<E, B>(&self, existing: Option<&AsyncObserver<E, B>>, e: Entity) -> (r: (
        AsyncObserver<E, B>,
        Option<Waiting<(Arc<AtomicBool>, Waker)>>,
    ))
        ensures
            !r.0.registered(),
            r.1 is None <==> existing is Some,
            r.1 matches Some(waiting) ==> both_ends(r.0.source(), waiting),
            fresh_flag(r.0.flag()),
            match existing {
                Some(observer) => r.0.entity() == observer.entity() && r.0.source()
                    == observer.source(),
                None => r.0.entity() == e,
            },
    {
        match existing {
            Some(observer) => (observer.clone(), None),
            None => {
                let (observer, waiting) = AsyncObserver::new(e);
                (observer, Some(waiting))
            },
        }
    }

    /// The future to await for a copy of an event on the entity, past the cache: see
    /// [`Ctx::on_uncached`].
    pub fn on_cloned_uncached<E, B>(
        &self,
        existing: Option<&AsyncCloneObserver<E, B>>,
        e: Entity,
    ) -> (r: (AsyncCloneObserver<E, B>, Option<Waiting<(Reply<(E, Entity)>, Waker)>>))
        ensures
            !r.0.registered(),
            r.0.slot() is None,
            r.1 is None <==> existing is Some,
            r.1 matches Some(waiting) ==> both_ends(r.0.source(), waiting),
            match existing {
                Some(observer) => r.0.entity() == observer.entity() && r.0.source()
                    == observer.source(),
                None => r.0.entity() == e,
            },
    {
        match existing {
            Some(observer) => (observer.clone(), None),
            None => {
                let (observer, waiting) = AsyncCloneObserver::new(e);
                (observer, Some(waiting))
            },
        }
    }

    /// Whether a tracker has to be added to an entity before its mutations can be awaited.
    pub fn on_mutation(&self, is_tracked: bool) -> (r: bool)
        ensures
            r == !is_tracked,
    {
        !is_tracked
    }

    /// The future to await for a copy of an event on the entity, where one is cached. Where none is,
    /// the world has to be asked for one, which goes to [`Ctx::on_cloned_answered`].
    pub fn on_cloned<E: 'static, B: 'static>(&self, e: Entity) -> (r: Option<O>)
        ensures
            looked_up(self.observers(), (e, type_key::<AsyncCloneObserver<E, B>>()), r),
    {
        self.cached_observer(e, type_id_of::<AsyncCloneObserver<E, B>>())
    }

    /// Caches the observer that the world had for [`Ctx::on_cloned`].
    pub fn on_cloned_answered<E: 'static, B: 'static>(&mut self, e: Entity, async_observer: &O)
        ensures
            exists|copy: O| #[trigger]
                copy_cached(
                    old(self).observers(),
                    (e, type_key::<AsyncCloneObserver<E, B>>()),
                    *async_observer,
                    copy,
                    final(self).observers(),
                ),
            final(self).world() == old(self).world(),
            final(self).states() == old(self).states(),
    {
        self.cache_observer(e, type_id_of::<AsyncCloneObserver<E, B>>(), async_observer);
    }
}

/// The state for a type is made once: asked for again, an equal one is given, and the other types
/// keep theirs.
pub proof fn law_cached_state_is_shared<S>(
    states: Map<TypeId, Arc<S>>,
    key: TypeId,
    other: TypeId,
    first: Arc<S>,
    second: Arc<S>,
)
    ensures
        remembered(remembered(states, key, first), key, second) == remembered(states, key, first),
        remembered(states, key, first).contains_key(key),
        other != key && states.contains_key(other) ==> remembered(states, key, first)[other]
            == states[other],
{
}

/// The state that a cache holds for a key stays, whatever states are asked for.
proof fn lemma_state_stays<S>(
    states: Seq<Map<TypeId, Arc<S>>>,
    keys: Seq<TypeId>,
    given: Seq<Arc<S>>,
    i: int,
    j: int,
    key: TypeId,
)
    requires
        states.len() == keys.len() + 1,
        given.len() == keys.len(),
        forall|k: int|
            0 <= k < keys.len() ==> state_step(
                states[k],
                #[trigger] keys[k],
                given[k],
                states[k + 1],
            ),
        0 <= i <= j < states.len(),
        states[i].contains_key(key),
    ensures
        states[j].contains_key(key),
        states[j][key] == states[i][key],
    decreases j - i,
{
    if i < j {
        assert(state_step(states[j - 1], keys[j - 1], given[j - 1], states[j]));
        lemma_state_stays(states, keys, given, i, j - 1, key);
    }
}

/// Asked for twice, the states of a type of system parameter are equal, whatever states are asked
/// for in between: the second is the one that is cached. `states` are the caches before the first
/// request and after each, `keys` the types asked for, and `given` what each request gave.
pub proof fn law_same_type_same_state<P: 'static, S>(
    states: Seq<Map<TypeId, Arc<S>>>,
    keys: Seq<TypeId>,
    given: Seq<Arc<S>>,
    i: int,
    j: int,
)
    requires
        states.len() == keys.len() + 1,
        given.len() == keys.len(),
        forall|k: int|
            0 <= k < keys.len() ==> state_step(
                states[k],
                #[trigger] keys[k],
                given[k],
                states[k + 1],
            ),
        0 <= i <= j < keys.len(),
        keys[i] == type_key::<P>(),
        keys[j] == type_key::<P>(),
    ensures
        given[j] == given[i],
{
    assert(state_step(states[i], keys[i], given[i], states[i + 1]));
    assert(state_step(states[j], keys[j], given[j], states[j + 1]));
    lemma_state_stays(states, keys, given, i + 1, j + 1, keys[i]);
}

/// Each type of system parameter has a state of its own: the first request for a type that has none
/// gives a new one, whatever other types have, and what it gave stays the state of that type,
/// whatever other types are asked for after. The types are told apart by what identifies them.
pub proof fn law_each_type_has_its_own_state<P: 'static, S, N: FnOnce() -> Arc<S>>(
    states: Seq<Map<TypeId, Arc<S>>>,
    keys: Seq<TypeId>,
    given: Seq<Arc<S>>,
    new: N,
    i: int,
    j: int,
)
    requires
        states.len() == keys.len() + 1,
        given.len() == keys.len(),
        forall|k: int|
            0 <= k < keys.len() ==> state_step(
                states[k],
                #[trigger] keys[k],
                given[k],
                states[k + 1],
            ),
        0 <= i < j < states.len(),
        keys[i] == type_key::<P>(),
        state_had(states[i], keys[i], new, given[i], states[i + 1]),
        forall|k: int| 0 <= k < i ==> #[trigger] keys[k] != type_key::<P>(),
        !states[0].contains_key(type_key::<P>()),
    ensures
        new.ensures((), given[i]),
        states[j].contains_key(type_key::<P>()),
        states[j][type_key::<P>()] == given[i],
{
    lemma_not_asked_for(states, keys, given, i, type_key::<P>());
    lemma_state_stays(states, keys, given, i + 1, j, keys[i]);
}

/// A type that has not been asked for has no state.
proof fn lemma_not_asked_for<S>(
    states: Seq<Map<TypeId, Arc<S>>>,
    keys: Seq<TypeId>,
    given: Seq<Arc<S>>,
    i: int,
    key: TypeId,
)
    requires
        states.len() == keys.len() + 1,
        given.len() == keys.len(),
        forall|k: int|
            0 <= k < keys.len() ==> state_step(
                states[k],
                #[trigger] keys[k],
                given[k],
                states[k + 1],
            ),
        0 <= i < states.len(),
        forall|k: int| 0 <= k < i ==> #[trigger] keys[k] != key,
        !states[0].contains_key(key),
    ensures
        !states[i].contains_key(key),
    decreases i,
{
    if i > 0 {
        lemma_not_asked_for(states, keys, given, i - 1, key);
        assert(state_step(states[i - 1], keys[i - 1], given[i - 1], states[i]));
    }
}

/// What an await for an event does to the cache of observers: one that is cached is used, and else
/// a copy of the one that the world has is cached.
pub open spec fn await_step<O: Clone>(
    before: Map<(Entity, TypeId), O>,
    key: (Entity, TypeId),
    found: Option<O>,
    after: Map<(Entity, TypeId), O>,
) -> bool {
    &&& looked_up(before, key, found)
    &&& match found {
        Some(_) => after == before,
        None => exists|observer: O, copy: O| #[trigger]
            copy_cached(before, key, observer, copy, after),
    }
}

/// A key that a cache of observers holds stays, whatever is awaited.
proof fn lemma_observer_stays<O: Clone>(
    caches: Seq<Map<(Entity, TypeId), O>>,
    keys: Seq<(Entity, TypeId)>,
    found: Seq<Option<O>>,
    i: int,
    j: int,
    key: (Entity, TypeId),
)
    requires
        caches.len() == keys.len() + 1,
        found.len() == keys.len(),
        forall|k: int|
            0 <= k < keys.len() ==> await_step(
                caches[k],
                #[trigger] keys[k],
                found[k],
                caches[k + 1],
            ),
        0 <= i <= j < caches.len(),
        caches[i].contains_key(key),
    ensures
        caches[j].contains_key(key),
    decreases j - i,
{
    if i < j {
        assert(await_step(caches[j - 1], keys[j - 1], found[j - 1], caches[j]));
        lemma_observer_stays(caches, keys, found, i, j - 1, key);
    }
}

/// Of all awaits for one event on one entity, only the first can ask the world for an observer: the
/// later ones find it in the cache. `caches` are the caches before the first await and after each,
/// `keys` what is awaited, and `found` what each await found.
pub proof fn law_world_is_asked_once<O: Clone>(
    caches: Seq<Map<(Entity, TypeId), O>>,
    keys: Seq<(Entity, TypeId)>,
    found: Seq<Option<O>>,
    i: int,
    j: int,
)
    requires
        caches.len() == keys.len() + 1,
        found.len() == keys.len(),
        forall|k: int|
            0 <= k < keys.len() ==> await_step(
                caches[k],
                #[trigger] keys[k],
                found[k],
                caches[k + 1],
            ),
        0 <= i < j < keys.len(),
        keys[i] == keys[j],
    ensures
        found[j] is Some,
{
    assert(await_step(caches[i], keys[i], found[i], caches[i + 1]));
    assert(await_step(caches[j], keys[j], found[j], caches[j + 1]));
    lemma_observer_stays(caches, keys, found, i + 1, j, keys[i]);
}

/// An observer that has been cached for an entity is found again, and for it alone.
pub proof fn law_cached_observer_is_found<O: Clone>(
    observers: Map<(Entity, TypeId), O>,
    key: (Entity, TypeId),
    copy: O,
    other: (Entity, TypeId),
    found: Option<O>,
)
    ensures
        looked_up(observers.insert(key, copy), key, found) ==> found is Some && cloned(
            copy,
            found->0,
        ),
        other != key ==> (looked_up(observers.insert(key, copy), other, found) <==> looked_up(
            observers,
            other,
            found,
        )),
{
}

/// An entity of a scene: the scope that it is in, and its index there.
#[derive(Clone, Copy, Debug, PartialEq, Eq, Structural)]
pub struct ScopedEntityIndex {
    pub scope: usize,
    pub index: usize,
}

/// An async closure in a scene, with the indices of the entities that it captures.
pub struct AsyncClosureWrapper2<T>(pub T, pub Vec<usize>);

/// An async closure in a resolved scene, with the entities that it captures.
pub struct AsyncClosureWrapper<T>(pub T, pub Vec<ScopedEntityIndex>);

impl<T> AsyncClosureWrapper2<T> {
    /// Resolves the captured entities: they are those of the given scope.
    pub fn resolve(self, scope: usize) -> (r: AsyncClosureWrapper<T>)
        ensures
            r.0 == self.0,
            r.1@ == Seq::new(
                self.1@.len(),
                |i: int| ScopedEntityIndex { scope, index: self.1@[i] },
            ),
    {
        let mut scoped: Vec<ScopedEntityIndex> = Vec::new();
        let mut i: usize = 0;
        while i < self.1.len()
            invariant
                i <= self.1@.len(),
                scoped@ == Seq::new(
                    i as nat,
                    |k: int| ScopedEntityIndex { scope, index: self.1@[k] },
                ),
            decreases self.1@.len() - i,
        {
            scoped.push(ScopedEntityIndex { scope, index: self.1[i] });
            i += 1;
            assert(scoped@ =~= Seq::new(
                i as nat,
                |k: int| ScopedEntityIndex { scope, index: self.1@[k] },
            ));
        }
        AsyncClosureWrapper(self.0, scoped)
    }
}

impl<T> AsyncClosureWrapper<T> {
    /// The entities that the closure is called with: each captured one, in order, as `lookup` finds
    /// it.
    pub fn entities<F: Fn(ScopedEntityIndex) -> Entity>(&self, lookup: F) -> (r: Vec<Entity>)
        requires
            forall|i: int|
                #![trigger self.1@[i]]
                0 <= i < self.1@.len() ==> lookup.requires((self.1@[i],)),
        ensures
            r@.len() == self.1@.len(),
            forall|i: int|
                0 <= i < r@.len() ==> lookup.ensures((self.1@[i],), #[trigger] r@[i]),
    {
        let mut entities: Vec<Entity> = Vec::new();
        let mut i: usize = 0;
        while i < self.1.len()
            invariant
                i <= self.1@.len(),
                entities@.len() == i,
                forall|k: int|
                    #![trigger self.1@[k]]
                    0 <= k < self.1@.len() ==> lookup.requires((self.1@[k],)),
                forall|k: int|
                    0 <= k < i ==> lookup.ensures((self.1@[k],), #[trigger] entities@[k]),
            decreases self.1@.len() - i,
        {
            entities.push(lookup(self.1[i]));
            i += 1;
        }
        entities
    }
}

impl<T: Clone> Clone for AsyncClosureWrapper<T> {
    fn clone(&self) -> (r: AsyncClosureWrapper<T>)
        ensures
            cloned(self.0, r.0),
            r.1@ == self.1@,
    {
        let closure = self.0.clone();
        let mut scoped: Vec<ScopedEntityIndex> = Vec::new();
        let mut i: usize = 0;
        while i < self.1.len()
            invariant
                i <= self.1@.len(),
                scoped@ == self.1@.take(i as int),
            decreases self.1@.len() - i,
        {
            scoped.push(self.1[i]);
            i += 1;
            assert(scoped@ =~= self.1@.take(i as int));
        }
        assert(self.1@.take(i as int) =~= self.1@);
        AsyncClosureWrapper(closure, scoped)
    }
}

impl<T: Clone> AsyncClosureWrapper<T> {
    /// A copy of the template.
    pub fn clone_template(&self) -> (r: AsyncClosureWrapper<T>)
        ensures
            cloned(self.0, r.0),
            r.1@ == self.1@,
    {
        self.clone()
    }
}

/// What identifies a type is what [`TypeId::of`] gives for it.
pub proof fn law_types_are_told_apart_by_their_id<T: 'static>()
    ensures
        type_key::<T>() == choose|id: TypeId| call_ensures(std::any::TypeId::of::<T>, (), id),
{
}

/// What is cached for a key is a copy of the observer, and nothing else in the cache changes; a
/// lookup gives a copy of what is cached, and nothing exactly if nothing is.
pub proof fn law_lookup_gives_what_was_cached<O: Clone>(
    before: Map<(Entity, TypeId), O>,
    key: (Entity, TypeId),
    observer: O,
    copy: O,
    after: Map<(Entity, TypeId), O>,
    other: (Entity, TypeId),
    found: Option<O>,
)
    requires
        copy_cached(before, key, observer, copy, after),
    ensures
        cloned(observer, copy),
        after.contains_key(key),
        after[key] == copy,
        other != key ==> (after.contains_key(other) <==> before.contains_key(other)),
        other != key && before.contains_key(other) ==> after[other] == before[other],
        looked_up(after, other, found) ==> (found is None <==> !after.contains_key(other)),
        looked_up(after, other, found) && found is Some ==> cloned(after[other], found->0),
{
}

} // verus!
