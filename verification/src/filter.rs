//! The views of the tree that leave nodes out: the view of assistive
//! technology and the view of the text model.

use vstd::prelude::*;
use crate::node::Node;
use crate::schema::{NodeId, Role};
use crate::tree::{DetachedNode, TreeState, TreeView};

verus! {

/// What a filter says of a node.
#[derive(Clone, Copy, Debug, PartialEq, Eq, Structural)]
pub enum FilterResult {
    /// The node is part of the view.
    Include,
    /// The node is not part of the view; its children stand in its place.
    ExcludeNode,
    /// Neither the node nor anything below it is part of the view.
    ExcludeSubtree,
}

/// The filters that the library knows.
#[derive(Clone, Copy, Debug, PartialEq, Eq, Structural)]
pub enum Filter {
    /// The view of assistive technology: the focused node is always seen,
    /// a hidden node hides everything below it, and nodes that only group
    /// or lay out give way to their children.
    Common,
    /// The view of the text model under the node `root`: `root` itself and
    /// the inline text boxes, with everything else giving way to its
    /// children.
    InlineText { root: NodeId },
}

/// What the common filter says of a node with this content, focused or not.
pub open spec fn common_result(node: Node, focused: bool) -> FilterResult {
    if focused {
        FilterResult::Include
    } else if node.hidden {
        FilterResult::ExcludeSubtree
    } else if node.role == Role::Presentation || node.role == Role::GenericContainer || node.role
        == Role::InlineTextBox {
        FilterResult::ExcludeNode
    } else {
        FilterResult::Include
    }
}

/// What the common filter says of a node with this content, focused or not.
pub fn common_filter(node: &Node, focused: bool) -> (r: FilterResult)
    ensures
        r == common_result(*node, focused),
{
    if focused {
        FilterResult::Include
    } else if node.hidden {
        FilterResult::ExcludeSubtree
    } else if node.role == Role::Presentation || node.role == Role::GenericContainer || node.role
        == Role::InlineTextBox {
        FilterResult::ExcludeNode
    } else {
        FilterResult::Include
    }
}

/// What the common filter says of a node as it was before an update.
pub fn filter_detached(node: &DetachedNode) -> (r: FilterResult)
    ensures
        r == common_result(*node.data, node.focused),
{
    common_filter(node.data(), node.is_focused())
}

impl Filter {
    /// What the filter says of the live node `id` of `tree`.
    pub open spec fn result(self, tree: TreeView, id: NodeId) -> FilterResult {
        match self {
            Filter::Common => common_result(tree.node(id), tree.focus == Some(id)),
            Filter::InlineText { root } => if id == root || tree.node(id).role
                == Role::InlineTextBox {
                FilterResult::Include
            } else {
                FilterResult::ExcludeNode
            },
        }
    }

    /// What the filter says of the node `id`. A node that is not live is
    /// left out with everything below it.
    pub fn apply(&self, state: &TreeState, id: NodeId) -> (r: FilterResult)
        ensures
            state@.contains(id) ==> r == self.result(state@, id),
            !state@.contains(id) ==> r == FilterResult::ExcludeSubtree,
    {
        match state.node_by_id(id) {
            None => FilterResult::ExcludeSubtree,
            Some(node) => match self {
                Filter::Common => common_filter(node, state.focus_id() == Some(id)),
                Filter::InlineText { root } => if id == *root || node.role == Role::InlineTextBox {
                    FilterResult::Include
                } else {
                    FilterResult::ExcludeNode
                },
            },
        }
    }
}

/// The nearest ancestor of `id` that `filter` includes.
pub open spec fn filtered_parent_of(tree: TreeView, filter: Filter, id: NodeId) -> Option<NodeId>
    decreases tree.rank(id),
    when tree.wf() && tree.contains(id)
{
    match tree.place(id) {
        None => None,
        Some(place) => if filter.result(tree, place.parent) == FilterResult::Include {
            Some(place.parent)
        } else {
            filtered_parent_of(tree, filter, place.parent)
        },
    }
}

/// What the children of `id` from index `from` on give to the view of
/// `filter`: each child that is included, and for each child that gives way
/// what its own children give; nothing for a child that is left out with
/// its subtree.
pub open spec fn filtered_children_from(
    tree: TreeView,
    filter: Filter,
    id: NodeId,
    from: int,
) -> Seq<NodeId>
    decreases tree.order.len() - tree.rank(id), tree.children(id).len() - from,
    when tree.wf() && tree.contains(id) && 0 <= from
{
    if from >= tree.children(id).len() {
        Seq::empty()
    } else {
        let child = tree.children(id)[from];
        let head = match filter.result(tree, child) {
            FilterResult::Include => seq![child],
            FilterResult::ExcludeNode => filtered_children_from(tree, filter, child, 0),
            FilterResult::ExcludeSubtree => Seq::empty(),
        };
        head + filtered_children_from(tree, filter, id, from + 1)
    }
}

/// What the child `from` of the node `id` gives to the view of `filter`:
/// itself, or in its place what its own children give, or nothing.
pub open spec fn filtered_child(tree: TreeView, filter: Filter, id: NodeId, from: int) -> Seq<
    NodeId,
> {
    match filter.result(tree, tree.children(id)[from]) {
        FilterResult::Include => seq![tree.children(id)[from]],
        FilterResult::ExcludeNode => filtered_children_from(tree, filter, tree.children(id)[from], 0),
        FilterResult::ExcludeSubtree => Seq::empty(),
    }
}

/// The children of `id` in the view of `filter`.
pub open spec fn filtered_children_of(tree: TreeView, filter: Filter, id: NodeId) -> Seq<NodeId> {
    filtered_children_from(tree, filter, id, 0)
}

impl TreeState {
    /// The nearest ancestor of the node `id` that `filter` includes, if
    /// there is one. A node that is not live has none.
    pub fn filtered_parent(&self, id: NodeId, filter: Filter) -> (r: Option<NodeId>)
        ensures
            self@.contains(id) ==> r == filtered_parent_of(self@, filter, id),
            !self@.contains(id) ==> r.is_none(),
            r matches Some(p) ==> self@.contains(p),
    {
        proof {
            use_type_invariant(self);
        }
        if !self.has_node(id) {
            return None;
        }
        let mut current = id;
        loop
            invariant
                self.wf(),
                self@.contains(id),
                self@.contains(current),
                filtered_parent_of(self@, filter, current) == filtered_parent_of(self@, filter, id),
            decreases self@.rank(current),
        {
            match self.parent_and_index(current) {
                None => {
                    return None;
                },
                Some(place) => {
                    if filter.apply(self, place.parent) == FilterResult::Include {
                        return Some(place.parent);
                    }
                    current = place.parent;
                },
            }
        }
    }

    /// Appends to `out` what the children of the live node `id` give to the
    /// view of `filter`.
    fn collect_filtered_children(&self, id: NodeId, filter: Filter, out: &mut Vec<NodeId>)
        requires
            self@.contains(id),
        ensures
            final(out)@ == old(out)@ + filtered_children_of(self@, filter, id),
        decreases self@.order.len() - self@.rank(id),
    {
        proof {
            use_type_invariant(self);
        }
        let ghost start = out@;
        let children = self.children(id).unwrap();
        let mut i: usize = 0;
        assert(out@ + filtered_children_from(self@, filter, id, 0) =~= start
            + filtered_children_of(self@, filter, id));
        while i < children.len()
            invariant
                self.wf(),
                self@.contains(id),
                children@ == self@.children(id),
                i <= children.len(),
                out@ + filtered_children_from(self@, filter, id, i as int) == start
                    + filtered_children_of(self@, filter, id),
            decreases children.len() - i,
        {
            let child = children[i];
            let ghost before = out@;
            assert(self@.contains(self@.children(id)[i as int]));
            match filter.apply(self, child) {
                FilterResult::Include => {
                    out.push(child);
                },
                FilterResult::ExcludeNode => {
                    self.collect_filtered_children(child, filter, out);
                },
                FilterResult::ExcludeSubtree => {},
            }
            proof {
                let head = match filter.result(self@, child) {
                    FilterResult::Include => seq![child],
                    FilterResult::ExcludeNode => filtered_children_from(self@, filter, child, 0),
                    FilterResult::ExcludeSubtree => Seq::empty(),
                };
                assert(out@ =~= before + head);
                assert(filtered_children_from(self@, filter, id, i as int) == head
                    + filtered_children_from(self@, filter, id, i + 1));
                assert(out@ + filtered_children_from(self@, filter, id, i + 1) =~= before
                    + filtered_children_from(self@, filter, id, i as int));
            }
            i += 1;
        }
        assert(filtered_children_from(self@, filter, id, i as int) =~= Seq::<NodeId>::empty());
        assert(out@ =~= out@ + Seq::<NodeId>::empty());
    }

    /// The children of the node `id` in the view of `filter`, in order. A
    /// node that is not live has none.
    pub fn filtered_children(&self, id: NodeId, filter: Filter) -> (r: Vec<NodeId>)
        ensures
            self@.contains(id) ==> r@ == filtered_children_of(self@, filter, id),
            !self@.contains(id) ==> r@.len() == 0,
    {
        proof {
            use_type_invariant(self);
        }
        let mut out: Vec<NodeId> = Vec::new();
        if self.has_node(id) {
            self.collect_filtered_children(id, filter, &mut out);
            assert(out@ =~= filtered_children_of(self@, filter, id));
        }
        out
    }
}

} // verus!
