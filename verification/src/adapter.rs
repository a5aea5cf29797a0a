//! The adapter between the tree and a platform's automation interface: it
//! applies updates and queues the events that the platform is to raise.

use vstd::prelude::*;
use std::collections::HashSet;
use crate::changes::{diff, is_change_set, ChangeSet, FocusChange};
use crate::document::{carries_text, text_boxes_of};
use crate::engine::{is_next_state, next_state, update_error, UpdateError};
use crate::filter::{
    common_filter, common_result, filter_detached, filtered_parent_of, Filter, FilterResult,
};
use crate::node::{same_text, text_of};
use crate::notify::{
    after_all, deliverable, lemma_changes_deliverable, notifications, notify, ChangeHandler,
    Notification,
};
use crate::schema::{Live, NodeId, Role, TreeUpdate};
use crate::tree::{live_of, DetachedNode, TreeState, TreeView};

verus! {

/// The text of an element changed.
pub const EVENT_TEXT_CHANGED: i32 = 20015;

/// A live region changed.
pub const EVENT_LIVE_REGION_CHANGED: i32 = 20024;

/// The focus moved to an element.
pub const EVENT_AUTOMATION_FOCUS_CHANGED: i32 = 20005;

/// The object of the root of a window, as a client asks for it.
pub const UIA_ROOT_OBJECT_ID: i32 = -25;

/// The object of the client area of a window, as a client asks for it.
pub const OBJID_CLIENT: i32 = -4;

/// An event that waits to be raised.
#[derive(Clone, Copy, Debug, PartialEq, Eq, Structural)]
pub enum QueuedEvent {
    /// An event of the kind `event_id` on the element of the node
    /// `element`.
    Simple { element: NodeId, event_id: i32 },
}

/// Events generated by a tree update, in the order in which they are to be
/// raised.
#[must_use]
pub struct QueuedEvents(pub Vec<QueuedEvent>);

/// Whether the node `id` can be asked for ranges of text: its role can
/// carry text and it has an inline text box.
pub open spec fn supports_text(tree: TreeView, id: NodeId) -> bool {
    &&& tree.contains(id)
    &&& carries_text(tree.node(id).role)
    &&& text_boxes_of(tree, id).len() > 0
}

impl TreeState {
    /// Whether the node `id` can be asked for ranges of text.
    pub fn supports_text_ranges(&self, id: NodeId) -> (r: bool)
        ensures
            r == supports_text(self@, id),
    {
        proof {
            use_type_invariant(self);
        }
        match self.node_by_id(id) {
            None => false,
            Some(node) => {
                if node.role == Role::StaticText || node.role == Role::TextField || node.role
                    == Role::Document {
                    self.filtered_children(id, Filter::InlineText { root: id }).len() > 0
                } else {
                    false
                }
            },
        }
    }
}

/// The events queued so far, as a mathematical value.
pub struct EventsView {
    /// The events, in the order in which they are to be raised.
    pub queue: Seq<QueuedEvent>,
    /// The nodes whose text is known to have changed.
    pub text_changed: Set<NodeId>,
}

impl EventsView {
    /// The events after the text of the node `id` is found to have
    /// changed: where the node can be asked for text and is not noted yet,
    /// an event goes to the front of the queue, because a change of text
    /// must be raised before a change of the selection.
    pub open spec fn with_text_change(self, tree: TreeView, id: NodeId) -> EventsView {
        if !supports_text(tree, id) || self.text_changed.contains(id) {
            self
        } else {
            EventsView {
                queue: self.queue.insert(
                    0,
                    QueuedEvent::Simple { element: id, event_id: EVENT_TEXT_CHANGED },
                ),
                text_changed: self.text_changed.insert(id),
            }
        }
    }

    /// The events after the live node `id` is looked at as a piece of
    /// text: where it is an inline text box, the text of the node that
    /// stands for it in the view of assistive technology has changed.
    pub open spec fn with_box_change(self, tree: TreeView, id: NodeId) -> EventsView {
        if tree.node(id).role != Role::InlineTextBox {
            self
        } else {
            match filtered_parent_of(tree, Filter::Common, id) {
                Some(parent) => self.with_text_change(tree, parent),
                None => self,
            }
        }
    }

    /// The events after the removed node `node` is looked at as a piece of
    /// text: where it was an inline text box, the text of its parent has
    /// changed, if the parent is still live.
    pub open spec fn with_removed_box(self, tree: TreeView, node: DetachedNode) -> EventsView {
        if node.data.role != Role::InlineTextBox {
            self
        } else {
            match node.parent_and_index {
                Some(place) => if tree.contains(place.parent) {
                    self.with_text_change(tree, place.parent)
                } else {
                    self
                },
                None => self,
            }
        }
    }

    /// The events with one more at the end.
    pub open spec fn with_event(self, element: NodeId, event_id: i32) -> EventsView {
        EventsView {
            queue: self.queue.push(QueuedEvent::Simple { element, event_id }),
            text_changed: self.text_changed,
        }
    }

    /// Whether the live node `id` is seen by assistive technology and
    /// speaks up when it changes: it has a name and a live setting other
    /// than off.
    pub open spec fn announces(tree: TreeView, id: NodeId) -> bool {
        &&& Filter::Common.result(tree, id) == FilterResult::Include
        &&& tree.node(id).name.is_some()
        &&& live_of(tree, id) != Live::Off
    }

    /// The events after the node `id` was added.
    pub open spec fn after_added(self, tree: TreeView, id: NodeId) -> EventsView {
        let noted = self.with_box_change(tree, id);
        if Self::announces(tree, id) {
            noted.with_event(id, EVENT_LIVE_REGION_CHANGED)
        } else {
            noted
        }
    }

    /// The events after the node that was `old_node` was updated.
    pub open spec fn after_updated(self, tree: TreeView, old_node: DetachedNode) -> EventsView {
        let id = old_node.id;
        let noted = if text_of(old_node.data.value) != text_of(tree.node(id).value) {
            self.with_box_change(tree, id)
        } else {
            self
        };
        if Self::announces(tree, id) && (text_of(tree.node(id).name) != text_of(old_node.data.name)
            || live_of(tree, id) != old_node.live || common_result(
            *old_node.data,
            old_node.focused,
        ) != FilterResult::Include) {
            noted.with_event(id, EVENT_LIVE_REGION_CHANGED)
        } else {
            noted
        }
    }

    /// The events after the focus moved.
    pub open spec fn after_focus(self, change: FocusChange) -> EventsView {
        match change.new {
            Some(id) => self.with_event(id, EVENT_AUTOMATION_FOCUS_CHANGED),
            None => self,
        }
    }

    /// The events after one more notification.
    pub open spec fn after(self, tree: TreeView, n: Notification) -> EventsView {
        match n {
            Notification::NodeAdded(id) => self.after_added(tree, id),
            Notification::NodeUpdated(node) => self.after_updated(tree, node),
            Notification::NodeRemoved(node) => self.with_removed_box(tree, node),
            Notification::FocusMoved(change) => self.after_focus(change),
        }
    }

    /// No events.
    pub open spec fn empty() -> EventsView {
        EventsView { queue: Seq::empty(), text_changed: Set::empty() }
    }
}

/// The handler that turns what an update changed into events.
pub struct EventQueue {
    queue: Vec<QueuedEvent>,
    text_changed: HashSet<u128>,
}

impl View for EventQueue {
    type V = EventsView;

    closed spec fn view(&self) -> EventsView {
        EventsView {
            queue: self.queue@,
            text_changed: Set::new(|id: NodeId| self.text_changed@.contains(id.0)),
        }
    }
}

impl EventQueue {
    /// A handler that has seen nothing yet.
    pub fn new() -> (r: EventQueue)
        ensures
            r@ == EventsView::empty(),
    {
        let r = EventQueue { queue: Vec::new(), text_changed: HashSet::new() };
        assert(r@.text_changed =~= Set::empty());
        r
    }

    /// The events queued, in order.
    pub fn into_events(self) -> (r: QueuedEvents)
        ensures
            r.0@ == self@.queue,
    {
        QueuedEvents(self.queue)
    }

    fn insert_text_change_if_needed_parent(&mut self, state: &TreeState, id: NodeId)
        ensures
            final(self)@ == old(self)@.with_text_change(state@, id),
    {
        proof {
            use_type_invariant(state);
        }
        if !state.supports_text_ranges(id) {
            return ;
        }
        if self.text_changed.contains(&id.0) {
            return ;
        }
        // A change of text must be raised before a change of the
        // selection, so the event goes to the front.
        self.queue.insert(0, QueuedEvent::Simple { element: id, event_id: EVENT_TEXT_CHANGED });
        self.text_changed.insert(id.0);
        assert(self@.text_changed =~= old(self)@.text_changed.insert(id));
    }

    fn insert_text_change_if_needed(&mut self, state: &TreeState, id: NodeId)
        requires
            state@.contains(id),
        ensures
            final(self)@ == old(self)@.with_box_change(state@, id),
    {
        proof {
            use_type_invariant(state);
        }
        let found = state.node_by_id(id);
        if found.unwrap().role != Role::InlineTextBox {
            return ;
        }
        if let Some(parent) = state.filtered_parent(id, Filter::Common) {
            self.insert_text_change_if_needed_parent(state, parent);
        }
    }

    fn insert_text_change_if_needed_for_removed_node(
        &mut self,
        node: &DetachedNode,
        current_state: &TreeState,
    )
        ensures
            final(self)@ == old(self)@.with_removed_box(current_state@, *node),
    {
        proof {
            use_type_invariant(current_state);
        }
        if node.role() != Role::InlineTextBox {
            return ;
        }
        if let Some(id) = node.parent_id() {
            if current_state.has_node(id) {
                self.insert_text_change_if_needed_parent(current_state, id);
            }
        }
    }

    fn announces(state: &TreeState, id: NodeId) -> (r: bool)
        requires
            state@.contains(id),
        ensures
            r == EventsView::announces(state@, id),
    {
        proof {
            use_type_invariant(state);
        }
        let found = state.node_by_id(id);
        let node = found.unwrap();
        Filter::Common.apply(state, id) == FilterResult::Include && node.name.is_some()
            && state.live(id) != Live::Off
    }

    fn push(&mut self, element: NodeId, event_id: i32)
        ensures
            final(self)@ == old(self)@.with_event(element, event_id),
    {
        self.queue.push(QueuedEvent::Simple { element, event_id });
    }
}

impl ChangeHandler for EventQueue {
    type Model = EventsView;

    open spec fn model(&self) -> EventsView {
        self@
    }

    open spec fn after(model: EventsView, tree: TreeView, n: Notification) -> EventsView {
        model.after(tree, n)
    }

    fn node_added(&mut self, state: &TreeState, id: NodeId) {
        self.insert_text_change_if_needed(state, id);
        if Self::announces(state, id) {
            self.push(id, EVENT_LIVE_REGION_CHANGED);
        }
    }

    fn node_updated(&mut self, old_node: &DetachedNode, state: &TreeState) {
        let id = old_node.id();
        let found = state.node_by_id(id);
        let new_node = found.unwrap();
        if !same_text(&old_node.data().value, &new_node.value) {
            self.insert_text_change_if_needed(state, id);
        }
        if Self::announces(state, id) && (!same_text(&new_node.name, &old_node.data().name)
            || state.live(id) != old_node.live() || filter_detached(old_node)
            != FilterResult::Include) {
            self.push(id, EVENT_LIVE_REGION_CHANGED);
        }
    }

    fn node_removed(&mut self, old_node: &DetachedNode, state: &TreeState) {
        self.insert_text_change_if_needed_for_removed_node(old_node, state);
    }

    fn focus_moved(&mut self, change: &FocusChange, state: &TreeState) {
        if let Some(id) = change.new {
            self.push(id, EVENT_AUTOMATION_FOCUS_CHANGED);
        }
    }
}

/// The events that the changes `changes`, which led to `tree`, give rise
/// to.
pub open spec fn events_for(tree: TreeView, changes: ChangeSet) -> Seq<QueuedEvent> {
    after_all::<EventQueue>(
        EventsView::empty(),
        tree,
        notifications(changes),
        notifications(changes).len(),
    ).queue
}

/// The object that a window message asks for, from the message's last
/// parameter: its low 32 bits, taken as a signed number.
pub open spec fn object_id_of(lparam: isize) -> i32 {
    #[verifier::truncate]
    (lparam as i32)
}

/// Whether the adapter answers a request for the object `object_id`: it
/// answers for the root object, for the client area and for every object
/// that is not one of the window's own parts.
pub open spec fn answers_for(object_id: i32) -> bool {
    object_id >= 0 || object_id == UIA_ROOT_OBJECT_ID || object_id == OBJID_CLIENT
}

/// Whether the adapter answers the window message with the last parameter
/// `lparam`, by which a client asks for an object of the window.
pub fn answers_request(lparam: isize) -> (r: bool)
    ensures
        r == answers_for(object_id_of(lparam)),
{
    // Objects other than the client area of the window are left to the
    // default handling. Senders differ in how they widen the parameter, so
    // only its low 32 bits count.
    let objid: i32 = #[verifier::truncate]
    (lparam as i32);
    !(objid < 0 && objid != UIA_ROOT_OBJECT_ID && objid != OBJID_CLIENT)
}

/// The adapter of one window.
pub struct Adapter {
    state: TreeState,
}

impl View for Adapter {
    type V = TreeView;

    closed spec fn view(&self) -> TreeView {
        self.state@
    }
}

impl Adapter {
    /// An adapter over the tree that `initial_state` describes.
    pub fn new(initial_state: &TreeUpdate) -> (r: Result<Adapter, UpdateError>)
        ensures
            match r {
                Ok(adapter) => update_error(None, *initial_state).is_none() && is_next_state(
                    None,
                    *initial_state,
                    adapter@,
                ),
                Err(e) => update_error(None, *initial_state) == Some(e),
            },
    {
        match next_state(None, initial_state) {
            Ok(state) => Ok(Adapter { state }),
            Err(e) => Err(e),
        }
    }

    /// The committed tree.
    pub fn state(&self) -> (r: &TreeState)
        ensures
            r@ == self@,
            r.wf(),
    {
        proof {
            use_type_invariant(&self.state);
        }
        &self.state
    }

    /// Applies `update` to the tree and returns the events that the
    /// platform is to raise for it. A rejected update changes nothing and
    /// raises nothing.
    pub fn update(&mut self, update: &TreeUpdate) -> (r: Result<QueuedEvents, UpdateError>)
        ensures
            match r {
                Ok(events) => {
                    &&& update_error(Some(old(self)@), *update).is_none()
                    &&& is_next_state(Some(old(self)@), *update, final(self)@)
                    &&& exists|changes: ChangeSet|
                        #![trigger is_change_set(Some(old(self)@), final(self)@, changes)]
                        is_change_set(Some(old(self)@), final(self)@, changes) && events.0@
                            == events_for(final(self)@, changes)
                },
                Err(e) => update_error(Some(old(self)@), *update) == Some(e) && final(self)@ == old(
                    self,
                )@,
            },
    {
        let next = match next_state(Some(&self.state), update) {
            Ok(next) => next,
            Err(e) => {
                return Err(e);
            },
        };
        let changes = diff(Some(&self.state), &next);
        self.state = next;
        let mut handler = EventQueue::new();
        proof {
            use_type_invariant(&self.state);
            assert forall|i: int| 0 <= i < notifications(changes).len() implies deliverable(
                self.state@,
                #[trigger] notifications(changes)[i],
            ) by {
                lemma_changes_deliverable(Some(old(self)@), self.state@, changes, i);
            }
        }
        notify(&changes, &self.state, &mut handler);
        Ok(handler.into_events())
    }

    /// The node whose element stands for the whole window.
    pub fn root_platform_node(&self) -> (r: NodeId)
        ensures
            r == self@.root,
    {
        self.state().root_id()
    }

    /// Answers the window message by which a client asks for an object of
    /// the window: the node whose element is to be returned, or `None`
    /// where the message is left to the window's default handling.
    pub fn handle_wm_getobject(&self, lparam: isize) -> (r: Option<NodeId>)
        ensures
            r == if answers_for(object_id_of(lparam)) {
                Some(self@.root)
            } else {
                None
            },
    {
        if !answers_request(lparam) {
            return None;
        }
        Some(self.root_platform_node())
    }
}

} // verus!
