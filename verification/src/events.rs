//! Events, their propagation modes, and the record a flush leaves behind.

use vstd::prelude::*;

use crate::tree::ancestors;

verus! {

/// An opaque identifier for a node of the UI tree. Entities are handed out in
/// creation order, so a parent's identifier is smaller than its children's.
pub type Entity = u64;

/// How far an event travels once its target has been handled.
#[derive(Clone, Copy, PartialEq, Eq, Structural, Debug)]
pub enum Propagation {
    /// Deliver to the target only.
    Direct,
    /// After the target, deliver to each ancestor up to the root, stopping
    /// as soon as the event is consumed.
    Up,
}

/// A queued event. The payload is an opaque tag: what it encodes is no
/// business of this core, which only routes the event.
#[derive(Clone, Copy, PartialEq, Eq, Structural, Debug)]
pub struct Event {
    /// The entity the event is addressed to.
    pub target: Entity,
    /// How far the event travels after target delivery.
    pub propagation: Propagation,
    /// Once true, no further handler sees the event; the flag only ever moves
    /// from false to true.
    pub consumed: bool,
    /// Opaque payload tag, never interpreted by the dispatcher.
    pub payload: u64,
}

/// Which of the two registries a diagnostic speaks of.
#[derive(Clone, Copy, PartialEq, Eq, Structural, Debug)]
pub enum RegistryKind {
    /// The widget (view) registry.
    Widgets,
    /// The model-batch registry.
    Models,
}

/// A registry-integrity violation: while an entity's widget or model batch was
/// checked out for delivery, a handler filled the same slot, so checking the
/// original back in would have collided. The flush aborts with this diagnostic
/// rather than overwrite or drop either value.
#[derive(Clone, Copy, PartialEq, Eq, Structural, Debug)]
pub struct FlushError {
    /// The entity whose registry slot was filled while checked out.
    pub entity: Entity,
    /// The registry in which the collision happened.
    pub registry: RegistryKind,
}

/// What delivery to one entity did, as recorded in the flush trace.
#[derive(Clone, Copy, PartialEq, Eq, Structural, Debug)]
pub struct Delivery {
    /// The entity the event was offered to.
    pub entity: Entity,
    /// Whether a widget was registered for the entity and therefore invoked.
    pub widget_ran: bool,
    /// Whether a model batch was registered for the entity and therefore
    /// every model in it was invoked.
    pub models_ran: bool,
    /// The event's consumed flag after this entity's handlers finished.
    pub consumed_after: bool,
}

/// The record of one event's dispatch: which entities it was offered to,
/// in order, and what each delivery did.
#[derive(PartialEq, Eq, Debug)]
pub struct EventTrace {
    /// The event's target.
    pub target: Entity,
    /// One entry per entity the event was offered to, target first.
    pub steps: Vec<Delivery>,
}

/// The entities an event is due to visit on the tree snapshot `t`: the target
/// first, then, for an upward-propagating event, each ancestor from nearest
/// parent to root.
pub open spec fn event_plan(t: Seq<(Entity, Entity)>, ev: Event) -> Seq<Entity> {
    seq![ev.target] + if ev.propagation == Propagation::Up {
        ancestors(t, ev.target)
    } else {
        Seq::<Entity>::empty()
    }
}

/// The entities a sequence of deliveries visited, in order.
pub open spec fn delivered_entities(steps: Seq<Delivery>) -> Seq<Entity> {
    steps.map_values(|d: Delivery| d.entity)
}

/// What a correct dispatch of `ev` on the tree snapshot `t` looks like: the
/// deliveries follow the event's plan from the target on, no delivery follows
/// one that left the event consumed, and the walk ends early only because of
/// consumption. An event that arrives already consumed still gets target
/// delivery, after which it stops.
pub open spec fn trace_ok(t: Seq<(Entity, Entity)>, ev: Event, steps: Seq<Delivery>) -> bool {
    let plan = event_plan(t, ev);
    &&& 1 <= steps.len() <= plan.len()
    &&& delivered_entities(steps) == plan.take(steps.len() as int)
    &&& forall|j: int| 0 <= j < steps.len() - 1 ==> !(#[trigger] steps[j]).consumed_after
    &&& steps.len() < plan.len() ==> steps[steps.len() - 1].consumed_after
    &&& ev.consumed ==> steps[0].consumed_after
}

/// The trace an event leaves in the flush record: it names the event's target
/// and its deliveries form a correct dispatch.
pub open spec fn trace_of_event(t: Seq<(Entity, Entity)>, ev: Event, tr: EventTrace) -> bool {
    &&& tr.target == ev.target
    &&& trace_ok(t, ev, tr.steps@)
}

/// Deliveries that found nothing to invoke: no widget, no model batch, and
/// the event's consumed flag left exactly as it stood (`consumed`) at every
/// step.
pub open spec fn steps_unhandled(steps: Seq<Delivery>, consumed: bool) -> bool {
    forall|j: int|
        0 <= j < steps.len() ==> {
            let d = #[trigger] steps[j];
            &&& !d.widget_ran
            &&& !d.models_ran
            &&& d.consumed_after == consumed
        }
}

/// The dispatch of `ev` when no handler anywhere is registered: nothing runs,
/// the consumed flag never changes, and the plan is walked in full — except
/// that an event arriving already consumed stops after target delivery.
pub open spec fn trace_unhandled(t: Seq<(Entity, Entity)>, ev: Event, steps: Seq<Delivery>) -> bool {
    &&& steps.len() == (if ev.consumed {
        1int
    } else {
        event_plan(t, ev).len() as int
    })
    &&& steps_unhandled(steps, ev.consumed)
}

} // verus!
