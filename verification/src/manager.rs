//! The event manager: drains the pending queue once per flush and dispatches
//! each event to its target and, for upward-propagating events, to the
//! target's ancestors on a snapshot of the tree.

use vstd::prelude::*;

use crate::context::Context;
use crate::context::Model;
use crate::context::Widget;
use crate::events::Delivery;
use crate::events::Entity;
use crate::events::Event;
use crate::events::EventTrace;
use crate::events::FlushError;
use crate::events::Propagation;
use crate::events::RegistryKind;
use crate::events::delivered_entities;
use crate::events::event_plan;
use crate::events::steps_unhandled;
use crate::events::trace_of_event;
use crate::events::trace_ok;
use crate::events::trace_unhandled;
use crate::tree::Tree;
use crate::tree::ancestors;
use crate::tree::lemma_lookup_smaller;
use crate::tree::tree_wf;

verus! {

broadcast use vstd::std_specs::hash::group_hash_axioms;

/// Offers `ev` to the entity `e`: its widget first, then its model batch,
/// each checked out of its registry, invoked, and checked back in. Skipping
/// an entity with no registration is the normal case, not an error; a slot
/// refilled by a handler while checked out aborts with a diagnostic naming
/// the entity.
///
/// The consumed flag is monotonic: a delivery can set it, never clear it,
/// and it stands untouched when no handler ran. Whether a widget ran is
/// exactly whether one was registered on entry; the same holds of the model
/// batch whenever no widget handler ran first (a widget handler may itself
/// register or unregister models before the batch is looked up). A delivery
/// can fail only through a handler's doing: where nothing is registered,
/// success is owed, and the event is handed back exactly as it came. A
/// successful delivery leaves every slot it checked out refilled under its
/// original key.
#[verifier::loop_isolation(false)]
pub fn deliver_to<W: Widget<M>, M: Model<W>>(
    cx: &mut Context<W, M>,
    e: Entity,
    ev: Event,
) -> (r: Result<Delivery, FlushError>)
    ensures
        match r {
            Ok(d) => {
                &&& d.entity == e
                &&& (ev.consumed ==> d.consumed_after)
                &&& d.widget_ran == old(cx).widgets@.contains_key(e)
                &&& (!d.widget_ran ==> d.models_ran == old(cx).models@.contains_key(e))
                &&& (d.models_ran ==> final(cx).models@.contains_key(e))
                &&& (d.widget_ran && !d.models_ran ==> final(cx).widgets@.contains_key(e))
                &&& (!d.widget_ran && !d.models_ran ==> {
                    &&& d.consumed_after == ev.consumed
                    &&& final(cx).widgets@ =~= old(cx).widgets@
                    &&& final(cx).models@ =~= old(cx).models@
                    &&& final(cx).tree == old(cx).tree
                    &&& final(cx).event_queue == old(cx).event_queue
                    &&& final(cx).current == old(cx).current
                })
            },
            Err(f) => f.entity == e,
        },
        !old(cx).widgets@.contains_key(e) && !old(cx).models@.contains_key(e) ==> r is Ok,
{
    let mut cur = ev;
    let mut widget_ran = false;
    let mut models_ran = false;
    if let Some(mut w) = cx.widgets.remove(&e) {
        widget_ran = true;
        cx.current = e;
        if w.event(cx, &cur) {
            cur.consumed = true;
        }
        if cx.widgets.insert(e, w).is_some() {
            return Err(FlushError { entity: e, registry: RegistryKind::Widgets });
        }
    }
    if let Some(mut batch) = cx.models.remove(&e) {
        models_ran = true;
        cx.current = e;
        let n = batch.len();
        let mut j: usize = 0;
        while j < n
            invariant
                n == batch@.len(),
                0 <= j <= n,
                ev.consumed ==> cur.consumed,
            decreases n - j,
        {
            let m = vstd::std_specs::vec::vec_index_mut(&mut batch, j);
            if m.event(cx, &cur) {
                cur.consumed = true;
            }
            j = j + 1;
        }
        if cx.models.insert(e, batch).is_some() {
            return Err(FlushError { entity: e, registry: RegistryKind::Models });
        }
    }
    Ok(Delivery { entity: e, widget_ran, models_ran, consumed_after: cur.consumed })
}

/// Dispatches events to widgets and models.
///
/// The manager drains the shared queue once per flush, snapshots the tree so
/// that upward propagation walks the topology of flush start even while
/// handlers edit the live tree, and delivers each drained event in queue
/// order. The trace of the last flush is kept for inspection.
pub struct EventManager {
    /// The working queue of the current flush: the events drained from the
    /// context when the flush began.
    pub event_queue: Vec<Event>,
    /// The snapshot of the tree taken when the flush began.
    pub tree: Tree,
    /// One trace per fully dispatched event of the last flush, in queue order.
    pub trace: Vec<EventTrace>,
}

impl EventManager {
    /// A manager with nothing drained, nothing snapshotted, nothing traced.
    pub fn new() -> (m: EventManager)
        ensures
            m.event_queue@ == Seq::<Event>::empty(),
            m.tree@ == Seq::<(Entity, Entity)>::empty(),
            m.trace@ == Seq::<EventTrace>::empty(),
    {
        EventManager { event_queue: Vec::new(), tree: Tree::new(), trace: Vec::new() }
    }

    /// Drains every event pending in `cx` at call time and dispatches each in
    /// order: target first, then, for an upward-propagating event that is not
    /// yet consumed, each ancestor from nearest parent to root on the snapshot
    /// tree, stopping as soon as the event is consumed. Events that handlers
    /// enqueue during the flush stay in `cx.event_queue` for the next flush.
    ///
    /// Returns `Ok` when every drained event was fully dispatched; aborts with
    /// a diagnostic naming the offending entity when a handler filled a
    /// registry slot whose value was checked out (the traces of the events
    /// dispatched before the abort are kept). Only a handler can cause an
    /// abort: the failing event is the first untraced one, the diagnosed
    /// entity lies on its delivery plan, and a flush over registries with no
    /// registrations at all cannot fail and leaves the consumed flags alone.
    #[verifier::loop_isolation(false)]
    pub fn flush_events<W: Widget<M>, M: Model<W>>(&mut self, cx: &mut Context<W, M>) -> (r:
        Result<(), FlushError>)
        ensures
            tree_wf(old(cx).tree@),
            final(self).tree@ == old(cx).tree@,
            final(self).event_queue@ == old(cx).event_queue@,
            final(self).trace@.len() <= old(cx).event_queue@.len(),
            forall|i: int|
                0 <= i < final(self).trace@.len() ==> trace_of_event(
                    old(cx).tree@,
                    old(cx).event_queue@[i],
                    #[trigger] final(self).trace@[i],
                ),
            r is Ok ==> final(self).trace@.len() == old(cx).event_queue@.len(),
            r is Err ==> final(self).trace@.len() < old(cx).event_queue@.len(),
            r matches Err(f) ==> event_plan(
                old(cx).tree@,
                old(cx).event_queue@[final(self).trace@.len() as int],
            ).contains(f.entity),
            old(cx).widgets@ =~= Map::<Entity, W>::empty() && old(cx).models@ =~= Map::<
                Entity,
                Vec<M>,
            >::empty() ==> ({
                &&& r is Ok
                &&& final(cx).widgets@ =~= Map::<Entity, W>::empty()
                &&& final(cx).models@ =~= Map::<Entity, Vec<M>>::empty()
                &&& final(cx).tree == old(cx).tree
                &&& final(cx).current == old(cx).current
                &&& final(cx).event_queue@ == Seq::<Event>::empty()
                &&& forall|i: int|
                    0 <= i < final(self).trace@.len() ==> trace_unhandled(
                        old(cx).tree@,
                        old(cx).event_queue@[i],
                        (#[trigger] final(self).trace@[i]).steps@,
                    )
            }),
            final(self).trace@.len() > 0 ==> ({
                let tgt = old(cx).event_queue@[0].target;
                let st0 = final(self).trace@[0].steps@[0];
                &&& st0.widget_ran == old(cx).widgets@.contains_key(tgt)
                &&& (!st0.widget_ran ==> st0.models_ran == old(cx).models@.contains_key(tgt))
            }),
            old(cx).event_queue@.len() == 0 ==> ({
                &&& r is Ok
                &&& final(cx).widgets@ == old(cx).widgets@
                &&& final(cx).models@ == old(cx).models@
                &&& final(cx).tree == old(cx).tree
                &&& final(cx).current == old(cx).current
                &&& final(cx).event_queue@ == Seq::<Event>::empty()
            }),
    {
        proof {
            use_type_invariant(&cx.tree);
        }
        let ghost no_reg = cx.widgets@ =~= Map::<Entity, W>::empty() && cx.models@ =~= Map::<
            Entity,
            Vec<M>,
        >::empty();
        self.trace.clear();
        self.event_queue.clear();
        core::mem::swap(&mut self.event_queue, &mut cx.event_queue);
        self.tree = cx.tree.snapshot();
        let ghost t = self.tree@;
        let ghost q = self.event_queue@;
        let n = self.event_queue.len();
        let mut i: usize = 0;
        while i < n
            invariant
                i <= n,
                n == self.event_queue@.len(),
                self.event_queue@ == q,
                self.tree@ == t,
                self.trace@.len() == i as int,
                forall|k: int|
                    0 <= k < i as int ==> trace_of_event(t, q[k], #[trigger] self.trace@[k]),
                i > 0 ==> ({
                    let tgt = q[0].target;
                    let st0 = self.trace@[0].steps@[0];
                    &&& st0.widget_ran == old(cx).widgets@.contains_key(tgt)
                    &&& (!st0.widget_ran ==> st0.models_ran == old(cx).models@.contains_key(tgt))
                }),
                i == 0 ==> ({
                    &&& cx.widgets@ == old(cx).widgets@
                    &&& cx.models@ == old(cx).models@
                    &&& cx.tree == old(cx).tree
                    &&& cx.current == old(cx).current
                    &&& cx.event_queue@ == Seq::<Event>::empty()
                }),
                no_reg ==> ({
                    &&& cx.widgets@ =~= Map::<Entity, W>::empty()
                    &&& cx.models@ =~= Map::<Entity, Vec<M>>::empty()
                    &&& cx.tree == old(cx).tree
                    &&& cx.current == old(cx).current
                    &&& cx.event_queue@ == Seq::<Event>::empty()
                    &&& forall|k: int|
                        0 <= k < i as int ==> trace_unhandled(
                            t,
                            q[k],
                            (#[trigger] self.trace@[k]).steps@,
                        )
                }),
            decreases n - i,
        {
            let ev0 = self.event_queue[i];
            let mut cur = ev0;
            let mut steps: Vec<Delivery> = Vec::new();
            let d0 = match deliver_to(cx, cur.target, cur) {
                Ok(d) => d,
                Err(f) => {
                    proof {
                        assert(event_plan(t, ev0)[0] == ev0.target);
                        assert(event_plan(t, ev0).contains(ev0.target));
                    }
                    return Err(f);
                },
            };
            cur.consumed = d0.consumed_after;
            steps.push(d0);
            proof {
                assert(delivered_entities(steps@) =~= seq![ev0.target]);
            }
            if !cur.consumed && cur.propagation == Propagation::Up {
                let ghost anc = ancestors(t, ev0.target);
                let mut node = ev0.target;
                let mut reached_root = false;
                proof {
                    assert(anc.skip(0) =~= anc);
                    assert(anc.take(0) =~= Seq::<Entity>::empty());
                }
                while !cur.consumed && !reached_root
                    invariant
                        steps@.len() >= 1,
                        steps@[0] == d0,
                        steps@.len() - 1 <= anc.len(),
                        cur.target == ev0.target,
                        cur.propagation == ev0.propagation,
                        cur.consumed == steps@[steps@.len() - 1].consumed_after,
                        forall|j: int|
                            0 <= j < steps@.len() - 1 ==> !(#[trigger] steps@[j]).consumed_after,
                        delivered_entities(steps@) == seq![ev0.target] + anc.take(
                            steps@.len() - 1,
                        ),
                        !cur.consumed && !reached_root ==> node == (if steps@.len() == 1 {
                            ev0.target
                        } else {
                            anc[steps@.len() - 2]
                        }),
                        !cur.consumed && !reached_root ==> ancestors(t, node) == anc.skip(
                            steps@.len() - 1,
                        ),
                        reached_root ==> steps@.len() - 1 == anc.len(),
                        no_reg ==> ({
                            &&& cx.widgets@ =~= Map::<Entity, W>::empty()
                            &&& cx.models@ =~= Map::<Entity, Vec<M>>::empty()
                            &&& cx.tree == old(cx).tree
                            &&& cx.current == old(cx).current
                            &&& cx.event_queue@ == Seq::<Event>::empty()
                            &&& steps_unhandled(steps@, false)
                        }),
                    decreases node, (if cur.consumed || reached_root {
                        0int
                    } else {
                        1int
                    }),
                {
                    match self.tree.parent_of(node) {
                        None => {
                            proof {
                                assert(ancestors(t, node) =~= Seq::<Entity>::empty());
                                assert(anc.skip(steps@.len() - 1).len() == 0);
                            }
                            reached_root = true;
                        },
                        Some(p) => {
                            proof {
                                lemma_lookup_smaller(t, node, 0);
                                assert(ancestors(t, node) == seq![p] + ancestors(t, p));
                                assert(anc.skip(steps@.len() - 1)[0] == p);
                                assert(anc[steps@.len() - 1] == p);
                                assert(anc.skip(steps@.len() - 1).skip(1) =~= anc.skip(
                                    steps@.len() as int,
                                ));
                                assert(event_plan(t, ev0) =~= seq![ev0.target] + anc);
                                assert(event_plan(t, ev0)[steps@.len() as int] == p);
                                assert(event_plan(t, ev0).contains(p));
                            }
                            let d = match deliver_to(cx, p, cur) {
                                Ok(d) => d,
                                Err(f) => {
                                    return Err(f);
                                },
                            };
                            let ghost prev = steps@;
                            cur.consumed = d.consumed_after;
                            steps.push(d);
                            proof {
                                assert(steps@ == prev.push(d));
                                assert(delivered_entities(steps@) =~= delivered_entities(
                                    prev,
                                ).push(p));
                                assert(anc.take(prev.len() as int) =~= anc.take(
                                    prev.len() - 1,
                                ).push(p));
                                assert((seq![ev0.target] + anc.take(prev.len() - 1)).push(p)
                                    =~= seq![ev0.target] + anc.take(prev.len() as int));
                                assert(delivered_entities(steps@) == seq![ev0.target] + anc.take(
                                    steps@.len() - 1,
                                ));
                            }
                            if !cur.consumed {
                                node = p;
                            }
                        },
                    }
                }
                proof {
                    assert(event_plan(t, ev0) =~= seq![ev0.target] + anc);
                    assert(anc.take(anc.len() as int) =~= anc);
                    assert(delivered_entities(steps@) =~= event_plan(t, ev0).take(
                        steps@.len() as int,
                    ));
                    assert(trace_ok(t, ev0, steps@));
                    if no_reg {
                        assert(!ev0.consumed);
                        assert(!cur.consumed);
                        assert(reached_root);
                        assert(steps@.len() == event_plan(t, ev0).len());
                        assert(trace_unhandled(t, ev0, steps@));
                    }
                }
            } else {
                proof {
                    let plan = event_plan(t, ev0);
                    assert(plan.len() >= 1);
                    assert(plan.take(1) =~= seq![ev0.target]);
                    if cur.propagation != Propagation::Up {
                        assert(plan =~= seq![ev0.target]);
                    }
                    assert(trace_ok(t, ev0, steps@));
                    if no_reg {
                        assert(steps@.len() == 1 && steps@[0] == d0);
                        if !ev0.consumed {
                            assert(!d0.consumed_after);
                            assert(cur.propagation != Propagation::Up);
                            assert(plan.len() == 1);
                        }
                        assert(steps_unhandled(steps@, ev0.consumed));
                        assert(trace_unhandled(t, ev0, steps@));
                    }
                }
            }
            self.trace.push(EventTrace { target: ev0.target, steps });
            i = i + 1;
        }
        Ok(())
    }
}

} // verus!
