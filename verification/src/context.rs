//! The shared application context and the handler traits.
//!
//! A widget (view) or model is handed mutable access to the whole context
//! while its own registry slot is checked out, so it may freely edit the tree,
//! the registries and the pending queue without aliasing its own slot.

use std::collections::HashMap;
use vstd::prelude::*;

use crate::events::Entity;
use crate::events::Event;
use crate::tree::Tree;

verus! {

/// The widget-level handler bound to an entity. `W` is the crate user's widget
/// type, `M` the model type; both see the whole context during delivery.
///
/// The handler reports through its result whether it consumed the event;
/// the dispatcher never lets the consumed flag fall back to false.
pub trait Widget<M>: Sized {
    /// Handles `event` while this widget is checked out of the registry.
    /// `cx.current` names the entity the event is being delivered to.
    /// Returns true to consume the event.
    fn event(&mut self, cx: &mut Context<Self, M>, event: &Event) -> bool;
}

/// An application-data handler bound to an entity, stored as an ordered batch.
pub trait Model<W>: Sized {
    /// Handles `event` while this model's batch is checked out of the
    /// registry. Returns true to consume the event.
    fn event(&mut self, cx: &mut Context<W, Self>, event: &Event) -> bool;
}

/// The shared application state the dispatcher works on: the live tree, the
/// two registries, the pending event queue, and the cursor naming the entity
/// currently receiving an event.
pub struct Context<W, M> {
    /// The live UI tree. A flush snapshots it once and walks the snapshot.
    pub tree: Tree,
    /// The widget registered for each entity, if any.
    pub widgets: HashMap<Entity, W>,
    /// The ordered batch of models registered for each entity, if any.
    pub models: HashMap<Entity, Vec<M>>,
    /// Events waiting for the next flush. Handlers may push to it during a
    /// flush; such events are kept for the following flush.
    pub event_queue: Vec<Event>,
    /// The entity currently receiving an event.
    pub current: Entity,
}

impl<W, M> Context<W, M> {
    /// A fresh context around the given tree: no registrations, no pending
    /// events, the cursor at the root entity 0.
    pub fn new(tree: Tree) -> (cx: Context<W, M>)
        ensures
            cx.tree@ == tree@,
            cx.widgets@ == Map::<Entity, W>::empty(),
            cx.models@ == Map::<Entity, Vec<M>>::empty(),
            cx.event_queue@ == Seq::<Event>::empty(),
            cx.current == 0u64,
    {
        Context {
            tree,
            widgets: HashMap::new(),
            models: HashMap::new(),
            event_queue: Vec::new(),
            current: 0,
        }
    }
}

} // verus!
