//! Events for changed components: which components are tracked, and how the changes found are told.
use vstd::prelude::*;

use crate::cache::{ComponentId, Entity};
use std::collections::HashMap;
#[allow(unused_imports)]
use vstd::std_specs::iter::IteratorSpec;

verus! {

/// The components that are tracked, each with the query that finds the entities on which it has
/// changed.
pub struct MutationTrackingRes<Q> {
    queries: HashMap<usize, Q>,
}

/// What is done on an entity when one of its components has changed, by component.
pub struct MutationSender<N> {
    triggers: HashMap<usize, N>,
}

/// What a map by index holds, by component.
spec fn by_component<V>(map: Map<usize, V>) -> Map<ComponentId, V> {
    Map::new(
        |component: ComponentId| map.contains_key(component.index),
        |component: ComponentId| map[component.index],
    )
}

impl<Q> View for MutationTrackingRes<Q> {
    type V = Map<ComponentId, Q>;

    closed spec fn view(&self) -> Map<ComponentId, Q> {
        by_component(self.queries@)
    }
}

impl<N> View for MutationSender<N> {
    type V = Map<ComponentId, N>;

    closed spec fn view(&self) -> Map<ComponentId, N> {
        by_component(self.triggers@)
    }
}

impl<Q> Default for MutationTrackingRes<Q> {
    /// Nothing is tracked.
    fn default() -> (r: MutationTrackingRes<Q>)
        ensures
            r@ == Map::<ComponentId, Q>::empty(),
    {
        let r = MutationTrackingRes { queries: HashMap::new() };
        assert(r@ =~= Map::<ComponentId, Q>::empty());
        r
    }
}

impl<N> Default for MutationSender<N> {
    /// Nothing is done.
    fn default() -> (r: MutationSender<N>)
        ensures
            r@ == Map::<ComponentId, N>::empty(),
    {
        let r = MutationSender { triggers: HashMap::new() };
        assert(r@ =~= Map::<ComponentId, N>::empty());
        r
    }
}

impl<N> MutationSender<N> {
    /// A tracker for the component has been added to the entity: from now on, the trigger is pulled
    /// when the component changes.
    pub fn on_add(&mut self, component: ComponentId, trigger: N)
        ensures
            final(self)@ == old(self)@.insert(component, trigger),
    {
        self.triggers.insert(component.index, trigger);
        assert(self@ =~= old(self)@.insert(component, trigger));
    }

    /// What is done when the component changes, if anything.
    pub fn trigger(&self, component: ComponentId) -> (r: Option<&N>)
        ensures
            match r {
                Some(trigger) => self@.contains_key(component) && *trigger == self@[component],
                None => !self@.contains_key(component),
            },
    {
        self.triggers.get(&component.index)
    }
}

impl<Q> MutationTrackingRes<Q> {
    /// A tracker for the component has been added to some entity.
    pub fn on_add(&mut self, component: ComponentId, query: Q)
        ensures
            final(self)@ == old(self)@.insert(component, query),
    {
        self.queries.insert(component.index, query);
        assert(self@ =~= old(self)@.insert(component, query));
    }

    /// A tracker for the component has been removed from some entity: once none is left, the
    /// component is no longer tracked.
    pub fn on_remove(&mut self, component: ComponentId, any_left: bool)
        ensures
            final(self)@ == if any_left {
                old(self)@
            } else {
                old(self)@.remove(component)
            },
    {
        if !any_left {
            self.queries.remove(&component.index);
            assert(self@ =~= old(self)@.remove(component));
        }
    }

    /// The components that are tracked, each once, in no particular order.
    pub fn components(&self) -> (r: Vec<ComponentId>)
        ensures
            each_once(self@, r@),
    {
        let keys = self.queries.keys();
        let ghost indices = keys.remaining().unref();
        let mut components: Vec<ComponentId> = Vec::new();
        for index in walk: keys
            invariant
                walk.seq().unref() == indices,
                components@.len() == walk.index(),
                forall|i: int|
                    0 <= i < components@.len() ==> (#[trigger] components@[i]).index
                        == indices[i],
        {
            components.push(ComponentId { index: *index });
        }
        proof {
            assert(indices.to_set() == self.queries@.dom());
            assert(indices.no_duplicates());
            assert forall|component: ComponentId|
                self@.contains_key(component) <==> #[trigger] components@.contains(component) by {
                if self@.contains_key(component) {
                    assert(indices.to_set().contains(component.index));
                    let i = choose|i: int| 0 <= i < indices.len() && indices[i] == component.index;
                    assert(components@[i] == component);
                }
                if components@.contains(component) {
                    let i = choose|i: int|
                        0 <= i < components@.len() && components@[i] == component;
                    assert(indices.to_set().contains(indices[i]));
                }
            }
        }
        components
    }

    /// The query for the component, if it is tracked.
    pub fn query(&self, component: ComponentId) -> (r: Option<&Q>)
        ensures
            match r {
                Some(query) => self@.contains_key(component) && *query == self@[component],
                None => !self@.contains_key(component),
            },
    {
        self.queries.get(&component.index)
    }
}

/// Whether these are the components that are tracked, each once.
pub open spec fn each_once<Q>(
    watched: Map<ComponentId, Q>,
    components: Seq<ComponentId>,
) -> bool {
    &&& components.no_duplicates()
    &&& forall|component: ComponentId|
        watched.contains_key(component) <==> #[trigger] components.contains(component)
}

/// Whether a round of work found anything to do.
#[derive(Clone, Copy, Debug, PartialEq, Eq, Structural)]
pub enum TickResult {
    NoWork,
    DidWork,
}

/// What is to be done next to tell of the changes.
#[derive(Clone, Copy, Debug, PartialEq, Eq, Structural)]
pub enum PumpStep {
    /// Find the entities on which the component has changed, and hand them to [`Pump::found`].
    Query(ComponentId),
    /// Pull the trigger of the component on the entity.
    Trigger(Entity, ComponentId),
    /// All is done.
    Done(TickResult),
}

/// A round of telling of changes: one tracked component after the other.
pub struct Pump {
    components: Vec<ComponentId>,
    next: usize,
    changed: Vec<Entity>,
    at: usize,
    result: TickResult,
}

/// Where a [`Pump`] stands: the components still to be looked at, and the entities still to be told
/// of the change of `current`.
#[verifier::ext_equal]
pub struct PumpState {
    pub components: Seq<ComponentId>,
    pub current: Option<ComponentId>,
    pub changed: Seq<Entity>,
    pub result: TickResult,
}

impl PumpState {
    /// What is to be done next.
    pub open spec fn step(self) -> PumpStep {
        if self.changed.len() > 0 && self.current is Some {
            PumpStep::Trigger(self.changed[0], self.current->0)
        } else if self.components.len() > 0 {
            PumpStep::Query(self.components[0])
        } else {
            PumpStep::Done(self.result)
        }
    }

    /// Where it stands once that has been started.
    pub open spec fn stepped(self) -> PumpState {
        match self.step() {
            PumpStep::Trigger(..) => PumpState {
                changed: self.changed.drop_first(),
                result: TickResult::DidWork,
                ..self
            },
            PumpStep::Query(component) => PumpState {
                components: self.components.drop_first(),
                current: Some(component),
                changed: Seq::empty(),
                ..self
            },
            PumpStep::Done(_) => self,
        }
    }

    /// Where it stands once the entities have been found.
    pub open spec fn found(self, entities: Seq<Entity>) -> PumpState {
        PumpState { changed: entities, ..self }
    }
}

impl View for Pump {
    type V = PumpState;

    closed spec fn view(&self) -> PumpState {
        PumpState {
            components: self.components@.skip(self.next as int),
            current: if self.next == 0 {
                None
            } else {
                Some(self.components@[self.next - 1])
            },
            changed: self.changed@.skip(self.at as int),
            result: self.result,
        }
    }
}

impl Pump {
    #[verifier::type_invariant]
    spec fn in_bounds(self) -> bool {
        &&& self.next <= self.components@.len()
        &&& self.at <= self.changed@.len()
        &&& self.next == 0 ==> self.changed@.len() == 0
    }

    /// A round that looks at every tracked component.
    pub fn new<Q>(tracking: &MutationTrackingRes<Q>) -> (r: Pump)
        ensures
            each_once(tracking@, r@.components),
            r@ == (PumpState {
                components: r@.components,
                current: None,
                changed: Seq::empty(),
                result: TickResult::NoWork,
            }),
    {
        let components = tracking.components();
        let r = Pump {
            components,
            next: 0,
            changed: Vec::new(),
            at: 0,
            result: TickResult::NoWork,
        };
        assert(r@.components =~= components@);
        assert(r@.changed =~= Seq::<Entity>::empty());
        r
    }

    /// What is to be done next.
    pub fn step(&mut self) -> (r: PumpStep)
        ensures
            r == old(self)@.step(),
            final(self)@ == old(self)@.stepped(),
    {
        proof {
            use_type_invariant(&*self);
        }
        let ghost before = self@;
        if self.at < self.changed.len() {
            let entity = self.changed[self.at];
            let component = self.components[self.next - 1];
            self.at = self.at + 1;
            self.result = TickResult::DidWork;
            assert(before.changed[0] == entity);
            assert(self@ =~= before.stepped());
            PumpStep::Trigger(entity, component)
        } else if self.next < self.components.len() {
            let component = self.components[self.next];
            self.next = self.next + 1;
            assert(before.components[0] == component);
            assert(self@ =~= before.stepped());
            PumpStep::Query(component)
        } else {
            PumpStep::Done(self.result)
        }
    }

    /// The entities on which the component just asked for has changed.
    pub fn found(&mut self, entities: Vec<Entity>)
        requires
            old(self)@.current is Some,
        ensures
            final(self)@ == old(self)@.found(entities@),
    {
        proof {
            use_type_invariant(&*self);
        }
        let ghost before = self@;
        self.at = 0;
        self.changed = entities;
        assert(self@ =~= before.found(entities@));
    }
}

/// All the steps of a round that stands at `state`, where `found` are the entities found for the
/// components still to be looked at, in order.
pub open spec fn steps(state: PumpState, found: Seq<Seq<Entity>>) -> Seq<PumpStep>
    decreases state.components.len(), state.changed.len(),
{
    match state.step() {
        PumpStep::Trigger(..) => seq![state.step()] + steps(state.stepped(), found),
        PumpStep::Query(_) => seq![state.step()] + steps(
            state.stepped().found(found[0]),
            found.drop_first(),
        ),
        PumpStep::Done(_) => seq![state.step()],
    }
}

/// The triggers of a component on the entities on which it has changed.
pub open spec fn triggers(entities: Seq<Entity>, component: ComponentId) -> Seq<PumpStep> {
    Seq::new(entities.len(), |i: int| PumpStep::Trigger(entities[i], component))
}

/// Work was done if some entities were found, or if it had been done before.
pub open spec fn worked(entities: Seq<Entity>, before: TickResult) -> TickResult {
    if entities.len() > 0 {
        TickResult::DidWork
    } else {
        before
    }
}

/// A round in order: each component is asked for once, and then its trigger is pulled once on each
/// entity found, before the next component is asked for.
pub open spec fn round(
    components: Seq<ComponentId>,
    found: Seq<Seq<Entity>>,
    result: TickResult,
) -> Seq<PumpStep>
    decreases components.len(),
{
    if components.len() == 0 {
        seq![PumpStep::Done(result)]
    } else {
        seq![PumpStep::Query(components[0])] + triggers(found[0], components[0]) + round(
            components.drop_first(),
            found.drop_first(),
            worked(found[0], result),
        )
    }
}

/// What is left of a round while a component's entities are being told.
proof fn lemma_steps(state: PumpState, found: Seq<Seq<Entity>>)
    requires
        state.current is Some,
    ensures
        steps(state, found) == triggers(state.changed, state.current->0) + round(
            state.components,
            found,
            worked(state.changed, state.result),
        ),
    decreases state.components.len(), state.changed.len(),
{
    if state.changed.len() > 0 {
        let rest = state.stepped();
        lemma_steps(rest, found);
        assert(seq![state.step()] + triggers(rest.changed, state.current->0) =~= triggers(
            state.changed,
            state.current->0,
        ));
        assert(seq![state.step()] + (triggers(rest.changed, state.current->0) + round(
            state.components,
            found,
            TickResult::DidWork,
        )) =~= triggers(state.changed, state.current->0) + round(
            state.components,
            found,
            TickResult::DidWork,
        ));
    } else {
        assert(triggers(state.changed, state.current->0) =~= Seq::<PumpStep>::empty());
        if state.components.len() > 0 {
            let next = state.stepped().found(found[0]);
            lemma_steps(next, found.drop_first());
        }
        assert(steps(state, found) =~= triggers(state.changed, state.current->0) + round(
            state.components,
            found,
            state.result,
        ));
    }
}

/// A round asks for each tracked component once, in order, and pulls its trigger once on each
/// entity found, in the order found.
pub proof fn law_round(components: Seq<ComponentId>, found: Seq<Seq<Entity>>)
    ensures
        steps(
            PumpState {
                components,
                current: None,
                changed: Seq::empty(),
                result: TickResult::NoWork,
            },
            found,
        ) == round(components, found, TickResult::NoWork),
{
    let start = PumpState {
        components,
        current: None,
        changed: Seq::empty(),
        result: TickResult::NoWork,
    };
    if components.len() > 0 {
        let next = start.stepped().found(found[0]);
        lemma_steps(next, found.drop_first());
        assert(seq![PumpStep::Query(components[0])] + (triggers(found[0], components[0]) + round(
            components.drop_first(),
            found.drop_first(),
            worked(found[0], TickResult::NoWork),
        )) =~= round(components, found, TickResult::NoWork));
    }
}

/// A round ends with the news that work was done exactly if an entity was found.
pub proof fn law_round_result(
    components: Seq<ComponentId>,
    found: Seq<Seq<Entity>>,
    result: TickResult,
)
    requires
        found.len() == components.len(),
    ensures
        round(components, found, result).len() > 0,
        round(components, found, result).last() == PumpStep::Done(
            if result == TickResult::DidWork || exists|i: int|
                0 <= i < found.len() && (#[trigger] found[i]).len() > 0 {
                TickResult::DidWork
            } else {
                TickResult::NoWork
            },
        ),
    decreases components.len(),
{
    if components.len() > 0 {
        let rest = found.drop_first();
        law_round_result(components.drop_first(), rest, worked(found[0], result));
        if exists|i: int| 0 <= i < found.len() && (#[trigger] found[i]).len() > 0 {
            let i = choose|i: int| 0 <= i < found.len() && (#[trigger] found[i]).len() > 0;
            if i > 0 {
                assert(rest[i - 1].len() > 0);
            }
        }
        if exists|i: int| 0 <= i < rest.len() && (#[trigger] rest[i]).len() > 0 {
            let i = choose|i: int| 0 <= i < rest.len() && (#[trigger] rest[i]).len() > 0;
            assert(found[i + 1].len() > 0);
        }
    }
}

/// Whether `trigger` was called on the entities, one after the other, with the component: `worlds`
/// are the world before the first call and after each.
pub open spec fn told<W, T: Fn(W, Entity, ComponentId) -> W>(
    trigger: T,
    component: ComponentId,
    entities: Seq<Entity>,
    worlds: Seq<W>,
) -> bool {
    &&& worlds.len() == entities.len() + 1
    &&& forall|k: int|
        0 <= k < entities.len() ==> trigger.ensures(
            (worlds[k], #[trigger] entities[k], component),
            worlds[k + 1],
        )
}

/// Whether the component was asked for once and then told of on each entity found: `worlds` are the
/// world once `entities` has found them, and after each call of `trigger`.
pub open spec fn visited<
    W,
    F: Fn(W, ComponentId) -> (W, Vec<Entity>),
    T: Fn(W, Entity, ComponentId) -> W,
>(
    entities: F,
    trigger: T,
    component: ComponentId,
    before: W,
    found: Vec<Entity>,
    worlds: Seq<W>,
) -> bool {
    &&& entities.ensures((before, component), (worlds[0], found))
    &&& told(trigger, component, found@, worlds)
}

/// The world once the first `count` components have been visited.
pub open spec fn world_after<W>(first: W, worlds: Seq<Seq<W>>, count: int) -> W {
    if count <= 0 {
        first
    } else {
        worlds[count - 1].last()
    }
}

/// Whether the components were visited one after the other: `found` are the entities found for each
/// and `worlds` the worlds of each visit. The calls are those of a [`round`], and no others.
pub open spec fn all_visited<
    W,
    F: Fn(W, ComponentId) -> (W, Vec<Entity>),
    T: Fn(W, Entity, ComponentId) -> W,
>(
    entities: F,
    trigger: T,
    first: W,
    components: Seq<ComponentId>,
    found: Seq<Vec<Entity>>,
    worlds: Seq<Seq<W>>,
) -> bool {
    &&& found.len() == components.len()
    &&& worlds.len() == components.len()
    &&& forall|i: int|
        0 <= i < components.len() ==> visited(
            entities,
            trigger,
            #[trigger] components[i],
            world_after(first, worlds, i),
            found[i],
            worlds[i],
        )
}

/// Tells of all changes: `entities` finds the entities on which a component has changed, and
/// `trigger` tells of the change of a component on an entity. Both are handed the world and give it
/// back, so the world that is given back in the end shows which calls were made.
///
/// The steps taken are those of [`Pump`]: see [`law_round`].
pub fn pump_mutation_observers<Q, W, F, T>(
    tracking: &MutationTrackingRes<Q>,
    world: W,
    entities: F,
    trigger: T,
) -> (r: (W, TickResult)) where
    F: Fn(W, ComponentId) -> (W, Vec<Entity>),
    T: Fn(W, Entity, ComponentId) -> W,

    requires
        forall|w: W, component: ComponentId|
            #![trigger entities.requires((w, component))]
            tracking@.contains_key(component) ==> entities.requires((w, component)),
        forall|before: W, component: ComponentId, after: W, found: Vec<Entity>, w: W, i: int|
            #![trigger
                entities.ensures((before, component), (after, found)),
                trigger.requires((w, found@[i], component))]
            entities.ensures((before, component), (after, found)) && 0 <= i < found@.len()
                ==> trigger.requires((w, found@[i], component)),
    ensures
        exists|components: Seq<ComponentId>, found: Seq<Vec<Entity>>, worlds: Seq<Seq<W>>|
            each_once(tracking@, components) && #[trigger] all_visited(
                entities,
                trigger,
                world,
                components,
                found,
                worlds,
            ) && r.0 == world_after(world, worlds, worlds.len() as int) && (r.1
                == TickResult::DidWork <==> exists|i: int|
                0 <= i < found.len() && (#[trigger] found[i])@.len() > 0),
{
    let mut pump = Pump::new(tracking);
    let mut current = world;
    let ghost components = pump@.components;
    let ghost mut found: Seq<Vec<Entity>> = Seq::empty();
    let ghost mut done: Seq<Seq<W>> = Seq::empty();
    let ghost mut here: Seq<W> = seq![world];
    loop
        invariant
            each_once(tracking@, components),
            forall|w: W, component: ComponentId|
                #![trigger entities.requires((w, component))]
                tracking@.contains_key(component) ==> entities.requires((w, component)),
            forall|before: W, component: ComponentId, after: W, list: Vec<Entity>, w: W, i: int|
                #![trigger
                    entities.ensures((before, component), (after, list)),
                    trigger.requires((w, list@[i], component))]
                entities.ensures((before, component), (after, list)) && 0 <= i < list@.len()
                    ==> trigger.requires((w, list@[i], component)),
            found.len() <= components.len(),
            pump@.components == components.skip(found.len() as int),
            here.len() > 0,
            here.last() == current,
            found.len() == 0 ==> pump@.changed.len() == 0 && done.len() == 0 && current == world,
            found.len() > 0 ==> {
                let component = components[found.len() - 1];
                let list = found.last();
                let told_of = list@.len() - pump@.changed.len();
                &&& done.len() == found.len() - 1
                &&& pump@.current == Some(component)
                &&& 0 <= told_of
                &&& pump@.changed == list@.skip(told_of)
                &&& entities.ensures(
                    (world_after(world, done, done.len() as int), component),
                    (here[0], list),
                )
                &&& told(trigger, component, list@.take(told_of), here)
            },
            all_visited(
                entities,
                trigger,
                world,
                components.take(done.len() as int),
                found.take(done.len() as int),
                done,
            ),
            pump@.result == TickResult::DidWork <==> (exists|i: int|
                0 <= i < found.len() - 1 && (#[trigger] found[i])@.len() > 0) || (found.len() > 0
                && found.last()@.len() > pump@.changed.len()),
        decreases pump@.components.len(), pump@.changed.len(),
    {
        let ghost before = pump@;
        match pump.step() {
            PumpStep::Trigger(entity, component) => {
                let ghost list = found.last()@;
                let ghost n = list.len() - before.changed.len();
                assert(list[n] == entity);
                assert(trigger.requires((current, found.last()@[n], component)));
                current = trigger(current, entity, component);
                proof {
                    let earlier = here;
                    here = here.push(current);
                    assert(pump@.changed =~= list.skip(n + 1));
                    assert forall|k: int| 0 <= k < n + 1 implies trigger.ensures(
                        (here[k], #[trigger] list.take(n + 1)[k], component),
                        here[k + 1],
                    ) by {
                        if k < n {
                            assert(list.take(n)[k] == list.take(n + 1)[k]);
                            assert(here[k] == earlier[k] && here[k + 1] == earlier[k + 1]);
                        }
                    }
                    assert(told(trigger, component, list.take(n + 1), here));
                }
            },
            PumpStep::Query(component) => {
                let ghost earlier = found;
                let ghost visits = done;
                proof {
                    assert(components.contains(component));
                    if found.len() > 0 {
                        done = done.push(here);
                        lemma_one_more_visited(
                            entities,
                            trigger,
                            world,
                            components,
                            found,
                            visits,
                            here,
                        );
                    }
                    assert(world_after(world, done, done.len() as int) == current);
                }
                let (next, list) = entities(current, component);
                current = next;
                pump.found(list);
                proof {
                    found = found.push(list);
                    here = seq![next];
                    assert(pump@.components =~= components.skip(found.len() as int));
                    assert(list@.skip(0) =~= list@);
                    assert(told(trigger, component, list@.take(0), here));
                    assert(found.take(done.len() as int) =~= earlier.take(done.len() as int));
                    if pump@.result == TickResult::DidWork {
                        if earlier.len() > 0 && earlier.last()@.len() > before.changed.len() {
                            assert(found[earlier.len() - 1]@.len() > 0);
                        } else {
                            let i = choose|i: int|
                                0 <= i < earlier.len() - 1 && (#[trigger] earlier[i])@.len() > 0;
                            assert(found[i]@.len() > 0);
                        }
                    }
                    if exists|i: int|
                        0 <= i < found.len() - 1 && (#[trigger] found[i])@.len() > 0 {
                        let i = choose|i: int|
                            0 <= i < found.len() - 1 && (#[trigger] found[i])@.len() > 0;
                        assert(earlier[i]@.len() > 0);
                    }
                }
            },
            PumpStep::Done(result) => {
                proof {
                    let visits = done;
                    if found.len() > 0 {
                        done = done.push(here);
                        lemma_one_more_visited(
                            entities,
                            trigger,
                            world,
                            components,
                            found,
                            visits,
                            here,
                        );
                        assert(found[found.len() - 1] == found.last());
                    }
                    assert(components.take(done.len() as int) =~= components);
                    assert(found.take(done.len() as int) =~= found);
                    assert(all_visited(entities, trigger, world, components, found, done));
                    if exists|i: int| 0 <= i < found.len() && (#[trigger] found[i])@.len() > 0 {
                        let i = choose|i: int|
                            0 <= i < found.len() && (#[trigger] found[i])@.len() > 0;
                        assert(i == found.len() - 1 || i < found.len() - 1);
                    }
                }
                return (current, result);
            },
        }
    }
}

/// Once all entities found for a component have been told, it has been visited too.
proof fn lemma_one_more_visited<
    W,
    F: Fn(W, ComponentId) -> (W, Vec<Entity>),
    T: Fn(W, Entity, ComponentId) -> W,
>(
    entities: F,
    trigger: T,
    first: W,
    components: Seq<ComponentId>,
    found: Seq<Vec<Entity>>,
    done: Seq<Seq<W>>,
    here: Seq<W>,
)
    requires
        0 < found.len() <= components.len(),
        done.len() == found.len() - 1,
        all_visited(
            entities,
            trigger,
            first,
            components.take(done.len() as int),
            found.take(done.len() as int),
            done,
        ),
        entities.ensures(
            (world_after(first, done, done.len() as int), components[found.len() - 1]),
            (here[0], found.last()),
        ),
        told(
            trigger,
            components[found.len() - 1],
            found.last()@.take(found.last()@.len() as int),
            here,
        ),
    ensures
        all_visited(
            entities,
            trigger,
            first,
            components.take(found.len() as int),
            found.take(found.len() as int),
            done.push(here),
        ),
{
    let n = done.len() as int;
    let worlds = done.push(here);
    assert(found.last()@.take(found.last()@.len() as int) =~= found.last()@);
    assert forall|i: int| 0 <= i < found.len() implies visited(
        entities,
        trigger,
        #[trigger] components.take(found.len() as int)[i],
        world_after(first, worlds, i),
        found.take(found.len() as int)[i],
        worlds[i],
    ) by {
        assert(world_after(first, worlds, i) == world_after(first, done, i));
        if i < n {
            assert(components.take(n)[i] == components[i]);
            assert(found.take(n)[i] == found[i]);
        }
    }
}

/// What was found, as values.
pub open spec fn lists(found: Seq<Vec<Entity>>) -> Seq<Seq<Entity>> {
    Seq::new(found.len(), |i: int| found[i]@)
}

/// The world before each call of the visits, one call after the other, and after the last.
pub open spec fn all_worlds<W>(first: W, worlds: Seq<Seq<W>>) -> Seq<W>
    decreases worlds.len(),
{
    if worlds.len() == 0 {
        seq![first]
    } else {
        seq![first] + worlds[0].drop_last() + all_worlds(worlds[0].last(), worlds.drop_first())
    }
}

/// Whether the step leads from one world to another.
pub open spec fn step_made<
    W,
    F: Fn(W, ComponentId) -> (W, Vec<Entity>),
    T: Fn(W, Entity, ComponentId) -> W,
>(
    entities: F,
    trigger: T,
    step: PumpStep,
    before: W,
    after: W,
) -> bool {
    match step {
        PumpStep::Query(component) => exists|found: Vec<Entity>| #[trigger]
            entities.ensures((before, component), (after, found)),
        PumpStep::Trigger(entity, component) => trigger.ensures((before, entity, component), after),
        PumpStep::Done(_) => true,
    }
}

/// Where components are visited one after the other, the calls made are exactly the steps of a
/// round, each from the world that the one before it left.
pub proof fn law_visits_are_a_round<
    W,
    F: Fn(W, ComponentId) -> (W, Vec<Entity>),
    T: Fn(W, Entity, ComponentId) -> W,
>(
    entities: F,
    trigger: T,
    first: W,
    components: Seq<ComponentId>,
    found: Seq<Vec<Entity>>,
    worlds: Seq<Seq<W>>,
    result: TickResult,
)
    requires
        all_visited(entities, trigger, first, components, found, worlds),
    ensures
        ({
            let calls = round(components, lists(found), result);
            let states = all_worlds(first, worlds);
            &&& states.len() == calls.len()
            &&& states[0] == first
            &&& states.last() == world_after(first, worlds, worlds.len() as int)
            &&& forall|k: int|
                0 <= k < calls.len() - 1 ==> step_made(
                    entities,
                    trigger,
                    #[trigger] calls[k],
                    states[k],
                    states[k + 1],
                )
        }),
    decreases components.len(),
{
    let calls = round(components, lists(found), result);
    let states = all_worlds(first, worlds);
    if components.len() > 0 {
        let here = worlds[0];
        let list = found[0]@;
        let rest = worlds.drop_first();
        let next = here.last();
        let n = list.len() as int;
        assert(visited(entities, trigger, components[0], first, found[0], here)) by {
            assert(world_after(first, worlds, 0) == first);
        }
        assert forall|i: int| 0 <= i < components.drop_first().len() implies visited(
            entities,
            trigger,
            #[trigger] components.drop_first()[i],
            world_after(next, rest, i),
            found.drop_first()[i],
            rest[i],
        ) by {
            assert(components.drop_first()[i] == components[i + 1]);
            assert(world_after(next, rest, i) == world_after(first, worlds, i + 1));
        }
        let later = worked(list, result);
        law_visits_are_a_round(
            entities,
            trigger,
            next,
            components.drop_first(),
            found.drop_first(),
            rest,
            later,
        );
        assert(lists(found).drop_first() =~= lists(found.drop_first()));
        let after = round(components.drop_first(), lists(found.drop_first()), later);
        let onward = all_worlds(next, rest);
        assert(calls =~= seq![PumpStep::Query(components[0])] + triggers(list, components[0])
            + after);
        assert forall|k: int| 0 <= k < calls.len() - 1 implies step_made(
            entities,
            trigger,
            #[trigger] calls[k],
            states[k],
            states[k + 1],
        ) by {
            if k == 0 {
                assert(states[1] == here[0]);
                assert(entities.ensures((first, components[0]), (here[0], found[0])));
            } else if k <= n {
                assert(calls[k] == PumpStep::Trigger(list[k - 1], components[0]));
                assert(states[k] == here[k - 1]);
                assert(states[k + 1] == here[k]);
            } else {
                assert(calls[k] == after[k - n - 1]);
                assert(states[k] == onward[k - n - 1]);
                assert(states[k + 1] == onward[k - n]);
            }
        }
        assert(states.last() == onward.last());
        assert(worlds.len() == 1 || rest.last() == worlds.last());
    }
}

/// Whether each component is listed once if it is watched, and not at all if it is not.
pub proof fn law_each_component_is_listed_once<Q>(
    watched: Map<ComponentId, Q>,
    components: Seq<ComponentId>,
    component: ComponentId,
)
    requires
        each_once(watched, components),
    ensures
        watched.contains_key(component) <==> exists|i: int|
            0 <= i < components.len() && #[trigger] components[i] == component,
        forall|i: int, j: int|
            0 <= i < components.len() && 0 <= j < components.len() && #[trigger] components[i]
                == #[trigger] components[j] ==> i == j,
{
    assert(watched.contains_key(component) <==> components.contains(component));
}

/// How many steps come before the component in place `i` is asked for.
pub open spec fn steps_before(found: Seq<Seq<Entity>>, i: int) -> int
    decreases i,
{
    if i <= 0 {
        0
    } else {
        steps_before(found, i - 1) + 1 + found[i - 1].len()
    }
}

/// Of the components but the first, as many steps come before one as without the first.
proof fn lemma_steps_before(found: Seq<Seq<Entity>>, i: int)
    requires
        0 <= i < found.len(),
    ensures
        steps_before(found, i + 1) == 1 + found[0].len() + steps_before(found.drop_first(), i),
        steps_before(found.drop_first(), i) >= 0,
    decreases i,
{
    if i > 0 {
        lemma_steps_before(found, i - 1);
    } else {
        assert(steps_before(found, 0) == 0);
    }
}

/// In a round every component is asked for, in its place; after that, and before the next, its
/// trigger is pulled on every entity found, in order; and then the round is done.
pub proof fn law_round_tells_everyone(
    components: Seq<ComponentId>,
    found: Seq<Seq<Entity>>,
    result: TickResult,
    i: int,
)
    requires
        found.len() == components.len(),
        0 <= i < components.len(),
    ensures
        ({
            let all = round(components, found, result);
            let at = steps_before(found, i);
            &&& all.len() == steps_before(found, found.len() as int) + 1
            &&& 0 <= at && at + found[i].len() < all.len() - 1
            &&& all[at] == PumpStep::Query(components[i])
            &&& forall|k: int|
                0 <= k < found[i].len() ==> #[trigger] all[at + 1 + k] == PumpStep::Trigger(
                    found[i][k],
                    components[i],
                )
            &&& all.last() is Done
        }),
    decreases components.len(),
{
    let all = round(components, found, result);
    let rest = round(
        components.drop_first(),
        found.drop_first(),
        worked(found[0], result),
    );
    let n = found[0].len() as int;
    assert(all =~= seq![PumpStep::Query(components[0])] + triggers(found[0], components[0]) + rest);
    lemma_steps_before(found, found.len() - 1);
    assert(forall|k: int| 0 <= k < rest.len() ==> #[trigger] rest[k] == all[k + 1 + n]);
    if components.len() > 1 {
        law_round_tells_everyone(
            components.drop_first(),
            found.drop_first(),
            worked(found[0], result),
            if i > 0 { i - 1 } else { 0 },
        );
    } else {
        assert(rest.len() == 1);
    }
    if i == 0 {
        assert forall|k: int| 0 <= k < found[0].len() implies #[trigger] all[0 + 1 + k]
            == PumpStep::Trigger(found[0][k], components[0]) by {}
        assert(steps_before(found, 0) == 0);
        if components.len() > 1 {
            assert(rest.len() >= 1);
        }
    } else {
        lemma_steps_before(found, i - 1);
        let at = steps_before(found, i);
        let below = steps_before(found.drop_first(), i - 1);
        assert(at == 1 + n + below);
        assert(all[at] == rest[below]);
        assert forall|k: int| 0 <= k < found[i].len() implies #[trigger] all[at + 1 + k]
            == PumpStep::Trigger(found[i][k], components[i]) by {
            assert(rest[below + 1 + k] == all[at + 1 + k]);
        }
    }
}

} // verus!
