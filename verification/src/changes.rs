//! What an accepted update changed: the nodes that came, those whose
//! content differs, those that left, and the move of the focus.

use vstd::prelude::*;
use std::sync::Arc;
use crate::node::Node;
use crate::schema::NodeId;
use crate::tree::{DetachedNode, TreeState, TreeView};

verus! {

/// The move of the focus from one node, or none, to another, or none.
pub struct FocusChange {
    /// The node that had the focus, as it was before the update.
    pub old: Option<DetachedNode>,
    /// The node that has the focus now.
    pub new: Option<NodeId>,
}

/// The difference between two committed trees.
pub struct ChangeSet {
    /// The nodes that are live now and were not before, parents before
    /// children.
    pub added: Vec<NodeId>,
    /// The nodes that were live before and still are, and whose content
    /// differs: each as it was before, parents before children.
    pub updated: Vec<DetachedNode>,
    /// The nodes that were live before and are no longer, each as it was
    /// before, children before parents.
    pub removed: Vec<DetachedNode>,
    /// The move of the focus, if it moved.
    pub focus: Option<FocusChange>,
}

/// Whether `id` was live before the update.
pub open spec fn was_live(old: Option<TreeView>, id: NodeId) -> bool {
    old matches Some(tree) && tree.contains(id)
}

/// The focus before the update.
pub open spec fn old_focus(old: Option<TreeView>) -> Option<NodeId> {
    match old {
        Some(tree) => tree.focus,
        None => None,
    }
}

/// `added` lists, each once and by rank, the nodes of `new` that were not
/// live in `old`.
pub open spec fn is_added(old: Option<TreeView>, new: TreeView, added: Seq<NodeId>) -> bool {
    &&& forall|a: int|
        0 <= a < added.len() ==> new.contains(#[trigger] added[a]) && !was_live(old, added[a])
    &&& forall|a: int, b: int|
        0 <= a < b < added.len() ==> new.rank(#[trigger] added[a]) < new.rank(#[trigger] added[b])
    &&& forall|id: NodeId|
        #![trigger new.contains(id)]
        new.contains(id) && !was_live(old, id) ==> exists|a: int|
            0 <= a < added.len() && #[trigger] added[a] == id
}

/// Whether `id` is live in both trees with content that differs by value.
pub open spec fn differs(old: Option<TreeView>, new: TreeView, id: NodeId) -> bool {
    &&& was_live(old, id)
    &&& new.contains(id)
    &&& !old.unwrap().node(id).same_content(&new.node(id))
}

/// `updated` lists, each once and by rank in `new`, the nodes that are live
/// in both trees with different content, as they were in `old`.
pub open spec fn is_updated(old: Option<TreeView>, new: TreeView, updated: Seq<DetachedNode>) -> bool {
    &&& forall|a: int|
        0 <= a < updated.len() ==> differs(old, new, (#[trigger] updated[a]).id) && updated[a]
            == old.unwrap().detached(updated[a].id)
    &&& forall|a: int, b: int|
        0 <= a < b < updated.len() ==> new.rank((#[trigger] updated[a]).id) < new.rank(
            (#[trigger] updated[b]).id,
        )
    &&& forall|id: NodeId|
        #![trigger new.contains(id)]
        differs(old, new, id) ==> exists|a: int|
            0 <= a < updated.len() && (#[trigger] updated[a]).id == id
}

/// `removed` lists, each once and by falling rank in `old`, the nodes of
/// `old` that are not live in `new`, as they were in `old`.
pub open spec fn is_removed(old: Option<TreeView>, new: TreeView, removed: Seq<DetachedNode>) -> bool {
    &&& forall|a: int|
        0 <= a < removed.len() ==> was_live(old, (#[trigger] removed[a]).id) && !new.contains(
            removed[a].id,
        ) && removed[a] == old.unwrap().detached(removed[a].id)
    &&& forall|a: int, b: int|
        0 <= a < b < removed.len() ==> old.unwrap().rank((#[trigger] removed[a]).id)
            > old.unwrap().rank((#[trigger] removed[b]).id)
    &&& forall|id: NodeId|
        #![trigger was_live(old, id)]
        was_live(old, id) && !new.contains(id) ==> exists|a: int|
            0 <= a < removed.len() && (#[trigger] removed[a]).id == id
}

/// The move of the focus between the two trees: none where it stayed.
pub open spec fn focus_change(old: Option<TreeView>, new: TreeView) -> Option<FocusChange> {
    if old_focus(old) == new.focus {
        None
    } else {
        Some(
            FocusChange {
                old: match old_focus(old) {
                    Some(id) => Some(old.unwrap().detached(id)),
                    None => None,
                },
                new: new.focus,
            },
        )
    }
}

/// Whether `changes` is the difference between `old` and `new`.
pub open spec fn is_change_set(old: Option<TreeView>, new: TreeView, changes: ChangeSet) -> bool {
    &&& is_added(old, new, changes.added@)
    &&& is_updated(old, new, changes.updated@)
    &&& is_removed(old, new, changes.removed@)
    &&& changes.focus == focus_change(old, new)
}

/// A change set names every node at most once: no list names a node twice,
/// and no node stands in two of the lists.
pub proof fn lemma_each_node_once(old: Option<TreeView>, new: TreeView, changes: ChangeSet)
    requires
        is_change_set(old, new, changes),
    ensures
        forall|a: int, b: int|
            0 <= a < b < changes.added@.len() ==> #[trigger] changes.added@[a]
                != #[trigger] changes.added@[b],
        forall|a: int, b: int|
            0 <= a < b < changes.updated@.len() ==> (#[trigger] changes.updated@[a]).id != (
            #[trigger] changes.updated@[b]).id,
        forall|a: int, b: int|
            0 <= a < b < changes.removed@.len() ==> (#[trigger] changes.removed@[a]).id != (
            #[trigger] changes.removed@[b]).id,
        forall|a: int, b: int|
            0 <= a < changes.added@.len() && 0 <= b < changes.updated@.len()
                ==> #[trigger] changes.added@[a] != (#[trigger] changes.updated@[b]).id,
        forall|a: int, b: int|
            0 <= a < changes.added@.len() && 0 <= b < changes.removed@.len()
                ==> #[trigger] changes.added@[a] != (#[trigger] changes.removed@[b]).id,
        forall|a: int, b: int|
            0 <= a < changes.updated@.len() && 0 <= b < changes.removed@.len() ==> (
            #[trigger] changes.updated@[a]).id != (#[trigger] changes.removed@[b]).id,
{
}

/// `Arc::ptr_eq`: tells whether two handles share one allocation. Where
/// they do, they hold one and the same node.
#[verifier::external_body]
fn same_allocation(a: &Arc<Node>, b: &Arc<Node>) -> (r: bool)
    ensures
        r ==> *a == *b,
{
    Arc::ptr_eq(a, b)
}

/// Whether two handles hold nodes of the same content. Handles that share
/// an allocation are not compared field by field.
fn same_node(a: &Arc<Node>, b: &Arc<Node>) -> (r: bool)
    ensures
        r == a.same_content(b),
{
    if same_allocation(a, b) {
        proof {
            lemma_same_content_reflexive(a);
        }
        true
    } else {
        a.content_eq(b)
    }
}

/// A node has the same content as itself.
pub proof fn lemma_same_content_reflexive(node: &Node)
    ensures
        node.same_content(node),
{
}


/// The committed tree as a mathematical value, if there is one.
pub open spec fn view_of(current: Option<&TreeState>) -> Option<TreeView> {
    match current {
        Some(tree) => Some(tree@),
        None => None,
    }
}

/// Lists the nodes of `new` that were not live in `old`, and those that
/// were and whose content differs.
fn added_and_updated(old: Option<&TreeState>, new: &TreeState) -> (r: (Vec<NodeId>, Vec<DetachedNode>))
    ensures
        is_added(view_of(old), new@, r.0@),
        is_updated(view_of(old), new@, r.1@),
{
    proof {
        if let Some(tree) = old {
            use_type_invariant(tree);
        }
        use_type_invariant(new);
    }
    let ghost before = view_of(old);
    let mut added: Vec<NodeId> = Vec::new();
    let mut updated: Vec<DetachedNode> = Vec::new();
    let ids = new.ids();
    let mut i: usize = 0;
    while i < ids.len()
        invariant
            old matches Some(tree) ==> tree.wf(),
            new.wf(),
            before == view_of(old),
            ids@ == new@.order,
            i <= ids.len(),
            forall|a: int|
                0 <= a < added.len() ==> new@.contains(#[trigger] added@[a]) && !was_live(
                    before,
                    added@[a],
                ) && new@.rank(added@[a]) < i,
            forall|a: int, b: int|
                0 <= a < b < added.len() ==> new@.rank(#[trigger] added@[a]) < new@.rank(
                    #[trigger] added@[b],
                ),
            forall|id: NodeId|
                #![trigger new@.contains(id)]
                new@.contains(id) && new@.rank(id) < i && !was_live(before, id) ==> exists|a: int|
                    0 <= a < added.len() && #[trigger] added@[a] == id,
            forall|a: int|
                0 <= a < updated.len() ==> differs(before, new@, (#[trigger] updated@[a]).id)
                    && updated@[a] == before.unwrap().detached(updated@[a].id) && new@.rank(
                    updated@[a].id,
                ) < i,
            forall|a: int, b: int|
                0 <= a < b < updated.len() ==> new@.rank((#[trigger] updated@[a]).id) < new@.rank(
                    (#[trigger] updated@[b]).id,
                ),
            forall|id: NodeId|
                #![trigger new@.contains(id)]
                differs(before, new@, id) && new@.rank(id) < i ==> exists|a: int|
                    0 <= a < updated.len() && (#[trigger] updated@[a]).id == id,
        decreases ids.len() - i,
    {
        let id = ids[i];
        assert(new@.contains(ids@[i as int]));
        let ghost added_before = added@;
        let ghost updated_before = updated@;
        let previous = match old {
            Some(tree) => tree.node_state(id),
            None => None,
        };
        match previous {
            None => {
                added.push(id);
                assert(added@[added.len() - 1] == id);
            },
            Some(was) => {
                let now = new.node_state(id).unwrap();
                if !same_node(&was.data, &now.data) {
                    let before = match old {
                        Some(tree) => tree.detach(id),
                        None => None,
                    };
                    updated.push(before.unwrap());
                    assert(updated@[updated.len() - 1].id == id);
                }
            },
        }
        proof {
            assert forall|x: NodeId|
                #![trigger new@.contains(x)]
                new@.contains(x) && new@.rank(x) < i + 1 && !was_live(before, x) implies exists|
                a: int,
            | 0 <= a < added.len() && #[trigger] added@[a] == x by {
                if new@.rank(x) < i {
                    let a = choose|a: int| 0 <= a < added_before.len() && #[trigger] added_before[a] == x;
                    assert(added@[a] == x);
                } else {
                    assert(x == id);
                }
            }
            assert forall|x: NodeId|
                #![trigger new@.contains(x)]
                differs(before, new@, x) && new@.rank(x) < i + 1 implies exists|a: int|
                0 <= a < updated.len() && (#[trigger] updated@[a]).id == x by {
                if new@.rank(x) < i {
                    let a = choose|a: int|
                        0 <= a < updated_before.len() && (#[trigger] updated_before[a]).id == x;
                    assert(updated@[a].id == x);
                } else {
                    assert(x == id);
                }
            }
        }
        i += 1;
    }
    (added, updated)
}

/// Lists the nodes of `old` that are not live in `new`, from the last of
/// `old` to its first.
fn removed_nodes(old: Option<&TreeState>, new: &TreeState) -> (removed: Vec<DetachedNode>)
    ensures
        is_removed(view_of(old), new@, removed@),
{
    proof {
        if let Some(tree) = old {
            use_type_invariant(tree);
        }
        use_type_invariant(new);
    }
    let ghost before = view_of(old);
    let mut removed: Vec<DetachedNode> = Vec::new();
    if let Some(tree) = old {
        let ids = tree.ids();
        let mut i: usize = ids.len();
        while i > 0
            invariant
                tree.wf(),
                new.wf(),
                before == Some(tree@),
                ids@ == tree@.order,
                i <= ids.len(),
                forall|a: int|
                    0 <= a < removed.len() ==> tree@.contains((#[trigger] removed@[a]).id)
                        && !new@.contains(removed@[a].id) && removed@[a] == tree@.detached(
                        removed@[a].id,
                    ) && tree@.rank(removed@[a].id) >= i,
                forall|a: int, b: int|
                    0 <= a < b < removed.len() ==> tree@.rank((#[trigger] removed@[a]).id)
                        > tree@.rank((#[trigger] removed@[b]).id),
                forall|id: NodeId|
                    #![trigger tree@.contains(id)]
                    tree@.contains(id) && tree@.rank(id) >= i && !new@.contains(id) ==> exists|
                        a: int,
                    | 0 <= a < removed.len() && (#[trigger] removed@[a]).id == id,
            decreases i,
        {
            i -= 1;
            let id = ids[i];
            assert(tree@.contains(ids@[i as int]));
            let ghost removed_before = removed@;
            if !new.has_node(id) {
                let node = tree.detach(id).unwrap();
                removed.push(node);
                assert(removed@[removed.len() - 1].id == id);
            }
            proof {
                assert forall|x: NodeId|
                    #![trigger tree@.contains(x)]
                    tree@.contains(x) && tree@.rank(x) >= i && !new@.contains(x) implies exists|
                    a: int,
                | 0 <= a < removed.len() && (#[trigger] removed@[a]).id == x by {
                    if tree@.rank(x) > i {
                        let a = choose|a: int|
                            0 <= a < removed_before.len() && (#[trigger] removed_before[a]).id == x;
                        assert(removed@[a].id == x);
                    } else {
                        assert(x == id);
                    }
                }
            }
        }
    }
    removed
}

/// Compares two committed trees: `old`, or no tree at all before the first
/// update, and `new`.
pub fn diff(old: Option<&TreeState>, new: &TreeState) -> (changes: ChangeSet)
    ensures
        is_change_set(view_of(old), new@, changes),
{
    proof {
        if let Some(tree) = old {
            use_type_invariant(tree);
        }
        use_type_invariant(new);
    }
    let (added, updated) = added_and_updated(old, new);
    let removed = removed_nodes(old, new);
    let before = match old {
        Some(tree) => tree.focus_id(),
        None => None,
    };
    let focus = if before == new.focus_id() {
        None
    } else {
        let was = match before {
            Some(id) => match old {
                Some(tree) => tree.detach(id),
                None => None,
            },
            None => None,
        };
        Some(FocusChange { old: was, new: new.focus_id() })
    };
    ChangeSet { added, updated, removed, focus }
}

} // verus!
