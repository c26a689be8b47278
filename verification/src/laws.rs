//! Delivery laws: what every correct dispatch trace implies about which
//! entities were visited, proved once and for all over the trace
//! specification that `EventManager::flush_events` guarantees.

use vstd::prelude::*;

use crate::events::Delivery;
use crate::events::Entity;
use crate::events::Event;
use crate::events::Propagation;
use crate::events::delivered_entities;
use crate::events::event_plan;
use crate::events::trace_ok;
use crate::tree::ancestors;
use crate::tree::lemma_ancestors_decreasing;
use crate::tree::tree_wf;

verus! {

/// A target-only event is delivered to its target and to nothing else: its
/// dispatch makes exactly one delivery, to the target, so no ancestor (nor
/// any other entity) ever sees the event.
pub proof fn lemma_target_only(t: Seq<(Entity, Entity)>, ev: Event, steps: Seq<Delivery>)
    requires
        ev.propagation != Propagation::Up,
        trace_ok(t, ev, steps),
    ensures
        steps.len() == 1,
        steps[0].entity == ev.target,
{
    assert(event_plan(t, ev) =~= seq![ev.target]);
    assert(delivered_entities(steps)[0] == steps[0].entity);
    assert(event_plan(t, ev).take(1)[0] == ev.target);
}

/// If the target's delivery leaves the event consumed, the dispatch stops
/// there: no ancestor handler is ever invoked, whatever the propagation mode.
pub proof fn lemma_consumed_at_target(t: Seq<(Entity, Entity)>, ev: Event, steps: Seq<Delivery>)
    requires
        trace_ok(t, ev, steps),
        steps[0].consumed_after,
    ensures
        steps.len() == 1,
        steps[0].entity == ev.target,
{
    if steps.len() > 1 {
        assert(!steps[0].consumed_after);
    }
    assert(delivered_entities(steps)[0] == steps[0].entity);
    assert(event_plan(t, ev).take(1)[0] == ev.target);
}

/// An upward-propagating event that no delivery consumes reaches the target
/// and then every ancestor from nearest parent to root, in that order, each
/// entity exactly once; in particular the target is never visited again
/// during the ancestor walk.
pub proof fn lemma_full_propagation(t: Seq<(Entity, Entity)>, ev: Event, steps: Seq<Delivery>)
    requires
        tree_wf(t),
        ev.propagation == Propagation::Up,
        trace_ok(t, ev, steps),
        forall|j: int| 0 <= j < steps.len() ==> !(#[trigger] steps[j]).consumed_after,
    ensures
        delivered_entities(steps) == seq![ev.target] + ancestors(t, ev.target),
        steps.len() == 1 + ancestors(t, ev.target).len(),
        forall|j: int| 1 <= j < steps.len() ==> (#[trigger] steps[j]).entity != ev.target,
        forall|j: int, k: int|
            0 <= j < k < steps.len() ==> (#[trigger] steps[j]).entity != (
            #[trigger] steps[k]).entity,
{
    let plan = event_plan(t, ev);
    let anc = ancestors(t, ev.target);
    if steps.len() < plan.len() {
        assert(steps[steps.len() - 1].consumed_after);
    }
    assert(plan.take(plan.len() as int) =~= plan);
    assert(delivered_entities(steps) == plan);
    lemma_ancestors_decreasing(t, ev.target);
    assert forall|j: int| 0 <= j < steps.len() implies (#[trigger] steps[j]).entity == plan[j] by {
        assert(delivered_entities(steps)[j] == steps[j].entity);
    }
    assert forall|j: int| 1 <= j < steps.len() implies (#[trigger] steps[j]).entity != ev.target by {
        assert(plan[j] == anc[j - 1]);
        assert(anc[j - 1] < ev.target);
    }
    assert forall|j: int, k: int|
        0 <= j < k < steps.len() implies (#[trigger] steps[j]).entity != (
    #[trigger] steps[k]).entity by {
        if j == 0 {
            assert(plan[k] == anc[k - 1]);
            assert(anc[k - 1] < ev.target);
        } else {
            assert(plan[j] == anc[j - 1]);
            assert(plan[k] == anc[k - 1]);
            assert(anc[k - 1] < anc[j - 1]);
        }
    }
}

/// Checking a value out of a registry and back in under the same key leaves
/// the registry's key set exactly as it was: the checkout discipline by
/// itself neither loses nor duplicates any entity's registration.
pub proof fn lemma_checkout_checkin<V>(m: Map<Entity, V>, e: Entity, v: V)
    requires
        m.dom().contains(e),
    ensures
        m.remove(e).insert(e, v).dom() == m.dom(),
{
    assert(m.remove(e).insert(e, v).dom() =~= m.dom());
}

} // verus!
