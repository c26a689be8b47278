//! Event-dispatch core of a retained-mode UI framework.
//!
//! Queued events are drained once per flush and delivered to the widgets and
//! data models registered for nodes of a UI tree: first to the event's target,
//! then, for upward-propagating events, to each ancestor from the nearest
//! parent up to the root, stopping as soon as the event is consumed.

mod tree;
mod events;
mod context;
mod manager;
mod laws;

pub use context::Context;
pub use context::Model;
pub use context::Widget;
pub use events::Delivery;
pub use events::Entity;
pub use events::Event;
pub use events::EventTrace;
pub use events::FlushError;
pub use events::Propagation;
pub use events::RegistryKind;
pub use events::delivered_entities;
pub use events::event_plan;
pub use events::steps_unhandled;
pub use events::trace_of_event;
pub use events::trace_ok;
pub use events::trace_unhandled;
pub use laws::lemma_checkout_checkin;
pub use laws::lemma_consumed_at_target;
pub use laws::lemma_full_propagation;
pub use laws::lemma_target_only;
pub use manager::EventManager;
pub use manager::deliver_to;
pub use tree::Tree;
pub use tree::ancestors;
pub use tree::lemma_ancestors_decreasing;
pub use tree::lookup;
pub use tree::lookup_from;
pub use tree::tree_wf;
