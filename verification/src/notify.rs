//! The notifications that a change set stands for, and their delivery to a
//! handler.

use vstd::prelude::*;
use crate::changes::{is_change_set, ChangeSet, FocusChange};
use crate::engine::{is_next_state, update_error, TreeEngine, UpdateError};
use crate::schema::TreeUpdate;
use crate::schema::NodeId;
use crate::tree::{DetachedNode, TreeState, TreeView};

verus! {

/// One thing that an update changed.
pub enum Notification {
    /// The node is live now and was not before.
    NodeAdded(NodeId),
    /// The node is live as before, with other content. The node is given
    /// as it was.
    NodeUpdated(DetachedNode),
    /// The node was live and is no longer. The node is given as it was.
    NodeRemoved(DetachedNode),
    /// The focus moved.
    FocusMoved(FocusChange),
}

/// The notifications that `changes` stands for, in the order of their
/// delivery: the nodes added, the nodes updated, the nodes removed with
/// children before their parents, and the move of the focus.
pub open spec fn notifications(changes: ChangeSet) -> Seq<Notification> {
    Seq::new(changes.added@.len(), |i: int| Notification::NodeAdded(changes.added@[i])) + Seq::new(
        changes.updated@.len(),
        |i: int| Notification::NodeUpdated(changes.updated@[i]),
    ) + Seq::new(changes.removed@.len(), |i: int| Notification::NodeRemoved(changes.removed@[i]))
        + match changes.focus {
        Some(change) => seq![Notification::FocusMoved(change)],
        None => Seq::empty(),
    }
}

/// Whether a notification can be delivered with the tree `tree`: the nodes
/// that it shows as live are live there.
pub open spec fn deliverable(tree: TreeView, n: Notification) -> bool {
    match n {
        Notification::NodeAdded(id) => tree.contains(id),
        Notification::NodeUpdated(node) => tree.contains(node.id),
        Notification::NodeRemoved(node) => true,
        Notification::FocusMoved(change) => change.new matches Some(id) ==> tree.contains(id),
    }
}

/// Receives what an update changed. A handler is called while the update
/// is being committed: it must not apply an update itself and must not
/// block.
///
/// What a handler does is stated over a model of it: `model` tells what
/// the handler has made of the notifications so far, and `after` what it
/// makes of one more. Both exist for proofs alone and are never called; a
/// handler that is not verified can take `()` as its model.
pub trait ChangeHandler {
    /// What the handler has made of the notifications so far.
    type Model;

    /// What the handler has made of the notifications so far.
    spec fn model(&self) -> Self::Model;

    /// What the handler makes of one more notification, delivered with the
    /// tree `tree`.
    spec fn after(model: Self::Model, tree: TreeView, n: Notification) -> Self::Model;

    /// The node `id` of `state` is live now and was not before.
    fn node_added(&mut self, state: &TreeState, id: NodeId)
        requires
            state@.contains(id),
        ensures
            final(self).model() == Self::after(
                old(self).model(),
                state@,
                Notification::NodeAdded(id),
            ),
    ;

    /// The node that was `old_node` has other content in `state`.
    fn node_updated(&mut self, old_node: &DetachedNode, state: &TreeState)
        requires
            state@.contains(old_node.id),
        ensures
            final(self).model() == Self::after(
                old(self).model(),
                state@,
                Notification::NodeUpdated(*old_node),
            ),
    ;

    /// The node that was `old_node` is not live in `state`.
    fn node_removed(&mut self, old_node: &DetachedNode, state: &TreeState)
        ensures
            final(self).model() == Self::after(
                old(self).model(),
                state@,
                Notification::NodeRemoved(*old_node),
            ),
    ;

    /// The focus moved as `change` says; `state` is the tree after the
    /// move.
    fn focus_moved(&mut self, change: &FocusChange, state: &TreeState)
        requires
            change.new matches Some(id) ==> state@.contains(id),
        ensures
            final(self).model() == Self::after(
                old(self).model(),
                state@,
                Notification::FocusMoved(*change),
            ),
    ;
}

/// What a handler makes of the first `n` of a row of notifications.
pub open spec fn after_all<H: ChangeHandler>(
    model: H::Model,
    tree: TreeView,
    notes: Seq<Notification>,
    n: nat,
) -> H::Model
    decreases n,
{
    if n == 0 {
        model
    } else {
        H::after(after_all::<H>(model, tree, notes, (n - 1) as nat), tree, notes[n - 1])
    }
}

/// Every notification of a change set that leads to `tree` can be
/// delivered with it.
pub proof fn lemma_changes_deliverable(
    old: Option<TreeView>,
    tree: TreeView,
    changes: ChangeSet,
    i: int,
)
    requires
        tree.wf(),
        is_change_set(old, tree, changes),
        0 <= i < notifications(changes).len(),
    ensures
        deliverable(tree, notifications(changes)[i]),
{
}

/// Delivers what `changes` stands for to `handler`, in order: the nodes
/// added, the nodes updated, the nodes removed, the move of the focus.
pub fn notify<H: ChangeHandler>(changes: &ChangeSet, state: &TreeState, handler: &mut H)
    requires
        forall|i: int|
            0 <= i < notifications(*changes).len() ==> deliverable(
                state@,
                #[trigger] notifications(*changes)[i],
            ),
    ensures
        final(handler).model() == after_all::<H>(
            old(handler).model(),
            state@,
            notifications(*changes),
            notifications(*changes).len(),
        ),
{
    let ghost notes = notifications(*changes);
    let ghost start = handler.model();
    let mut i: usize = 0;
    while i < changes.added.len()
        invariant
            notes == notifications(*changes),
            forall|k: int| 0 <= k < notes.len() ==> deliverable(state@, #[trigger] notes[k]),
            i <= changes.added.len(),
            handler.model() == after_all::<H>(start, state@, notes, i as nat),
        decreases changes.added.len() - i,
    {
        assert(notes[i as int] == Notification::NodeAdded(changes.added@[i as int]));
        handler.node_added(state, changes.added[i]);
        i += 1;
    }
    let ghost base = changes.added@.len();
    let mut j: usize = 0;
    while j < changes.updated.len()
        invariant
            notes == notifications(*changes),
            forall|k: int| 0 <= k < notes.len() ==> deliverable(state@, #[trigger] notes[k]),
            j <= changes.updated.len(),
            base == changes.added@.len(),
            handler.model() == after_all::<H>(start, state@, notes, (base + j) as nat),
        decreases changes.updated.len() - j,
    {
        assert(notes[base + j] == Notification::NodeUpdated(changes.updated@[j as int]));
        handler.node_updated(&changes.updated[j], state);
        j += 1;
    }
    let ghost base = changes.added@.len() + changes.updated@.len();
    let mut k: usize = 0;
    while k < changes.removed.len()
        invariant
            notes == notifications(*changes),
            k <= changes.removed.len(),
            base == changes.added@.len() + changes.updated@.len(),
            handler.model() == after_all::<H>(start, state@, notes, (base + k) as nat),
        decreases changes.removed.len() - k,
    {
        assert(notes[base + k] == Notification::NodeRemoved(changes.removed@[k as int]));
        handler.node_removed(&changes.removed[k], state);
        k += 1;
    }
    let ghost base = changes.added@.len() + changes.updated@.len() + changes.removed@.len();
    match &changes.focus {
        Some(change) => {
            assert(notes[base as int] == Notification::FocusMoved(*change));
            assert(notes.len() == base + 1);
            handler.focus_moved(change, state);
        },
        None => {
            assert(notes.len() == base);
        },
    }
}


impl TreeEngine {
    /// Applies `update` and, where it is accepted, tells `handler` what it
    /// changed, before anyone else sees the new tree. A rejected update
    /// changes nothing and tells the handler nothing.
    pub fn update_and_process_changes<H: ChangeHandler>(
        &mut self,
        update: &TreeUpdate,
        handler: &mut H,
    ) -> (r: Result<(), UpdateError>)
        ensures
            match r {
                Ok(()) => {
                    &&& update_error(old(self)@, *update).is_none()
                    &&& final(self)@.is_some()
                    &&& is_next_state(old(self)@, *update, final(self)@.unwrap())
                    &&& exists|changes: ChangeSet|
                        #![trigger is_change_set(old(self)@, final(self)@.unwrap(), changes)]
                        is_change_set(old(self)@, final(self)@.unwrap(), changes)
                            && final(handler).model() == after_all::<H>(
                            old(handler).model(),
                            final(self)@.unwrap(),
                            notifications(changes),
                            notifications(changes).len(),
                        )
                },
                Err(e) => update_error(old(self)@, *update) == Some(e) && *final(self) == *old(self)
                    && final(handler).model() == old(handler).model(),
            },
    {
        let changes = match self.apply(update) {
            Ok(changes) => changes,
            Err(e) => {
                return Err(e);
            },
        };
        let found = self.state();
        let state = found.unwrap();
        proof {
            assert forall|i: int| 0 <= i < notifications(changes).len() implies deliverable(
                state@,
                #[trigger] notifications(changes)[i],
            ) by {
                lemma_changes_deliverable(old(self)@, state@, changes, i);
            }
        }
        notify(&changes, state, handler);
        Ok(())
    }
}

} // verus!
