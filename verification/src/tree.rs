//! The committed tree: a snapshot of every live node, with the parent of
//! each derived from the child lists.

use vstd::prelude::*;
use std::collections::HashMap;
use std::sync::Arc;
use crate::node::Node;
use crate::schema::{Live, NodeId, Role, Tree};

verus! {

/// The place of a node in the tree: its parent, and its index among the
/// parent's children.
#[derive(Clone, Copy, Debug, PartialEq, Eq, Structural)]
pub struct ParentAndIndex {
    pub parent: NodeId,
    pub index: usize,
}

/// What the tree holds of one live node.
pub struct NodeState {
    /// The content that the producer gave.
    pub data: Arc<Node>,
    /// The place of the node, derived from the child lists; `None` for the
    /// root.
    pub parent_and_index: Option<ParentAndIndex>,
    /// The position of the node in the tree's breadth-first listing.
    pub rank: usize,
}

/// A node's last committed content and place, kept after the node has
/// changed or left the tree so that a notification can still show it.
pub struct DetachedNode {
    pub id: NodeId,
    pub data: Arc<Node>,
    pub parent_and_index: Option<ParentAndIndex>,
    /// Whether the node had the focus.
    pub focused: bool,
    /// The live setting that was in force at the node.
    pub live: Live,
}

impl DetachedNode {
    pub fn id(&self) -> (r: NodeId)
        ensures
            r == self.id,
    {
        self.id
    }

    pub fn role(&self) -> (r: Role)
        ensures
            r == self.data.role,
    {
        self.data.role
    }

    pub fn parent_id(&self) -> (r: Option<NodeId>)
        ensures
            r == match self.parent_and_index {
                Some(place) => Some(place.parent),
                None => None,
            },
    {
        match self.parent_and_index {
            Some(place) => Some(place.parent),
            None => None,
        }
    }

    pub fn data(&self) -> (r: &Node)
        ensures
            *r == *self.data,
    {
        &self.data
    }

    pub fn is_focused(&self) -> (r: bool)
        ensures
            r == self.focused,
    {
        self.focused
    }

    pub fn live(&self) -> (r: Live)
        ensures
            r == self.live,
    {
        self.live
    }
}

/// A committed tree as a mathematical value.
pub struct TreeView {
    /// The live nodes, by identifier.
    pub nodes: Map<NodeId, NodeState>,
    /// The identifiers of the live nodes, each once, parents before
    /// children.
    pub order: Seq<NodeId>,
    pub root: NodeId,
    pub root_scroller: Option<NodeId>,
    pub focus: Option<NodeId>,
}

impl TreeView {
    /// Whether `id` names a live node.
    pub open spec fn contains(self, id: NodeId) -> bool {
        self.nodes.contains_key(id)
    }

    /// The content of the node `id`.
    pub open spec fn node(self, id: NodeId) -> Node {
        *self.nodes[id].data
    }

    /// The children of the node `id`, in order.
    pub open spec fn children(self, id: NodeId) -> Seq<NodeId> {
        self.nodes[id].data.children@
    }

    /// The place of the node `id`; `None` for the root.
    pub open spec fn place(self, id: NodeId) -> Option<ParentAndIndex> {
        self.nodes[id].parent_and_index
    }

    /// The position of the node `id` in `order`.
    pub open spec fn rank(self, id: NodeId) -> int {
        self.nodes[id].rank as int
    }

    /// `order` lists the live nodes, each once, and each node knows its
    /// position in it.
    pub open spec fn order_wf(self) -> bool {
        &&& forall|a: int|
            0 <= a < self.order.len() ==> self.contains(#[trigger] self.order[a]) && self.rank(
                self.order[a],
            ) == a
        &&& forall|id: NodeId| #[trigger]
            self.contains(id) ==> 0 <= self.rank(id) < self.order.len() && self.order[self.rank(
                id,
            )] == id
    }

    /// The root is live, comes first and has no parent.
    pub open spec fn root_wf(self) -> bool {
        &&& self.contains(self.root)
        &&& self.place(self.root).is_none()
        &&& self.rank(self.root) == 0
    }

    /// Every node but the root has a place: a live parent that lists the node
    /// at the index given, and that comes before the node in `order`.
    pub open spec fn places_wf(self) -> bool {
        forall|id: NodeId| #[trigger]
            self.contains(id) && id != self.root ==> {
                &&& self.place(id).is_some()
                &&& self.contains(self.place(id).unwrap().parent)
                &&& self.place(id).unwrap().index < self.children(
                    self.place(id).unwrap().parent,
                ).len()
                &&& self.children(self.place(id).unwrap().parent)[self.place(
                    id,
                ).unwrap().index as int] == id
                &&& self.rank(self.place(id).unwrap().parent) < self.rank(id)
            }
    }

    /// Every child that a live node lists is live, and its place is that
    /// entry of the list.
    pub open spec fn children_wf(self) -> bool {
        forall|p: NodeId, i: int|
            self.contains(p) && 0 <= i < self.children(p).len() ==> {
                &&& self.contains(#[trigger] self.children(p)[i])
                &&& self.place(self.children(p)[i]) == Some(
                    ParentAndIndex { parent: p, index: i as usize },
                )
            }
    }

    /// Whether the node `a` hangs before the node `b`: from a parent that
    /// comes earlier in `order`, or from the same parent at a lower index.
    pub open spec fn hangs_before(self, a: NodeId, b: NodeId) -> bool {
        let place_a = self.place(a).unwrap();
        let place_b = self.place(b).unwrap();
        self.rank(place_a.parent) < self.rank(place_b.parent) || (place_a.parent == place_b.parent
            && place_a.index < place_b.index)
    }

    /// `order` lists the nodes breadth first: the root, then its children
    /// in their order, then theirs, and so on. Of two nodes the one comes
    /// first that hangs before the other.
    pub open spec fn breadth_first(self) -> bool {
        forall|a: NodeId, b: NodeId|
            #![trigger self.hangs_before(a, b)]
            self.contains(a) && self.contains(b) && a != self.root && b != self.root ==> (self.rank(
                a,
            ) < self.rank(b) <==> self.hangs_before(a, b))
    }

    /// The focus, if there is one, is on a live node.
    pub open spec fn focus_wf(self) -> bool {
        self.focus matches Some(id) ==> self.contains(id)
    }

    /// The invariant of a committed tree: the child lists shape a tree that
    /// hangs from the root, and the parent of each node is the one node that
    /// lists it.
    pub open spec fn wf(self) -> bool {
        &&& self.order_wf()
        &&& self.root_wf()
        &&& self.places_wf()
        &&& self.children_wf()
        &&& self.breadth_first()
        &&& self.focus_wf()
    }

    /// The last content and place of the live node `id`.
    pub open spec fn detached(self, id: NodeId) -> DetachedNode {
        DetachedNode {
            id,
            data: self.nodes[id].data,
            parent_and_index: self.nodes[id].parent_and_index,
            focused: self.focus == Some(id),
            live: live_of(self, id),
        }
    }
}

/// Whether two trees have the same root and the same nodes with the same
/// content.
pub open spec fn same_nodes(a: TreeView, b: TreeView) -> bool {
    &&& a.root == b.root
    &&& forall|id: NodeId| #[trigger] a.contains(id) == b.contains(id)
    &&& forall|id: NodeId| #[trigger] a.contains(id) ==> a.nodes[id].data == b.nodes[id].data
}

/// In two trees with the same nodes every node has the same place.
proof fn lemma_same_places(a: TreeView, b: TreeView, id: NodeId)
    requires
        a.wf(),
        b.wf(),
        same_nodes(a, b),
        a.contains(id),
    ensures
        a.place(id) == b.place(id),
{
    assert(b.contains(id));
    if id != a.root {
        let place = a.place(id).unwrap();
        assert(b.contains(place.parent));
        assert(a.children(place.parent) == b.children(place.parent));
        assert(b.children(place.parent)[place.index as int] == id);
    }
}

/// In two trees with the same nodes the nodes come in the same order.
proof fn lemma_same_order(a: TreeView, b: TreeView, x: NodeId, y: NodeId)
    requires
        a.wf(),
        b.wf(),
        same_nodes(a, b),
        a.contains(x),
        a.contains(y),
    ensures
        a.rank(x) < a.rank(y) <==> b.rank(x) < b.rank(y),
    decreases a.rank(x) + a.rank(y),
{
    assert(b.contains(x) && b.contains(y));
    if x == y {
    } else if x == a.root {
        assert(a.order[a.rank(y)] == y && b.order[b.rank(y)] == y);
        assert(a.order[0] == x && b.order[0] == x);
    } else if y == a.root {
        assert(a.order[a.rank(x)] == x && b.order[b.rank(x)] == x);
        assert(a.order[0] == y && b.order[0] == y);
    } else {
        lemma_same_places(a, b, x);
        lemma_same_places(a, b, y);
        let place_x = a.place(x).unwrap();
        let place_y = a.place(y).unwrap();
        lemma_same_order(a, b, place_x.parent, place_y.parent);
        assert(b.contains(place_x.parent) && b.contains(place_y.parent));
        assert(a.hangs_before(x, y) == b.hangs_before(x, y));
    }
}

/// In two trees with the same nodes, what the one lists at an index the
/// other lists there too.
proof fn lemma_same_listing(a: TreeView, b: TreeView, k: int)
    requires
        a.wf(),
        b.wf(),
        same_nodes(a, b),
        0 <= k < a.order.len(),
    ensures
        k < b.order.len(),
        a.order[k] == b.order[k],
    decreases k,
{
    let x = a.order[k];
    assert(a.contains(x) && b.contains(x));
    let r = b.rank(x);
    if r < k {
        lemma_same_listing(a, b, r);
        assert(a.order[r] == x);
        assert(a.rank(a.order[r]) == r);
        assert(false);
    } else if r > k {
        let y = b.order[k];
        assert(b.contains(y) && a.contains(y));
        assert(b.rank(y) == k);
        let s = a.rank(y);
        if s < k {
            lemma_same_listing(a, b, s);
            assert(b.order[s] == y);
            assert(b.rank(b.order[s]) == s);
            assert(false);
        }
        assert(a.order[s] == y);
        assert(s != k);
        lemma_same_order(a, b, x, y);
        assert(false);
    }
    assert(b.order[r] == x);
}

/// A tree is determined by its root and by its nodes with their content:
/// the places of the nodes and the order in which they are listed follow
/// from these.
pub proof fn lemma_tree_is_determined(a: TreeView, b: TreeView)
    requires
        a.wf(),
        b.wf(),
        same_nodes(a, b),
        a.root_scroller == b.root_scroller,
        a.focus == b.focus,
    ensures
        a == b,
{
    assert(same_nodes(b, a)) by {
        assert forall|id: NodeId| #[trigger] b.contains(id) == a.contains(id) by {
            assert(a.contains(id) == b.contains(id));
        }
        assert forall|id: NodeId| #[trigger] b.contains(id) implies b.nodes[id].data
            == a.nodes[id].data by {
            assert(a.contains(id));
        }
    }
    assert forall|k: int| 0 <= k < a.order.len() implies k < b.order.len() && #[trigger] a.order[k]
        == b.order[k] by {
        lemma_same_listing(a, b, k);
    }
    if a.order.len() < b.order.len() {
        lemma_same_listing(b, a, a.order.len() as int);
    }
    if b.order.len() < a.order.len() {
        lemma_same_listing(a, b, b.order.len() as int);
    }
    assert(a.order =~= b.order);
    assert forall|id: NodeId| a.nodes.contains_key(id) implies #[trigger] a.nodes[id]
        == b.nodes[id] by {
        lemma_same_places(a, b, id);
        assert(a.contains(id) && b.contains(id));
        assert(a.order[a.rank(id)] == id);
        assert(b.order[b.rank(id)] == id);
        assert(b.rank(b.order[a.rank(id)]) == a.rank(id));
        assert(a.nodes[id].rank == b.nodes[id].rank);
        assert(a.nodes[id].parent_and_index == b.nodes[id].parent_and_index);
        assert(a.nodes[id].data == b.nodes[id].data);
    }
    assert forall|id: NodeId| a.nodes.dom().contains(id) == b.nodes.dom().contains(id) by {
        assert(a.contains(id) == b.contains(id));
    }
    assert(a.nodes.dom() =~= b.nodes.dom());
    assert(a.nodes =~= b.nodes);
}

/// The live setting in force at the node `id`: its own, or else that of
/// its nearest ancestor that has one, or else off.
pub open spec fn live_of(tree: TreeView, id: NodeId) -> Live
    decreases tree.rank(id),
    when tree.wf() && tree.contains(id)
{
    match tree.node(id).live {
        Some(live) => live,
        None => match tree.place(id) {
            Some(place) => live_of(tree, place.parent),
            None => Live::Off,
        },
    }
}

/// A map of raw identifiers, read by identifier.
pub open spec fn by_id<V>(m: Map<u128, V>) -> Map<NodeId, V> {
    Map::new(|id: NodeId| m.contains_key(id.0), |id: NodeId| m[id.0])
}

/// An immutable snapshot of the committed tree.
pub struct TreeState {
    nodes: HashMap<u128, NodeState>,
    order: Vec<NodeId>,
    data: Tree,
    focus: Option<NodeId>,
}

impl View for TreeState {
    type V = TreeView;

    closed spec fn view(&self) -> TreeView {
        TreeView {
            nodes: by_id(self.nodes@),
            order: self.order@,
            root: self.data.root,
            root_scroller: self.data.root_scroller,
            focus: self.focus,
        }
    }
}

impl TreeState {
    /// Whether this snapshot is a tree. Every snapshot is: the library
    /// builds no other.
    #[verifier::type_invariant]
    pub open spec fn wf(&self) -> bool {
        self@.wf()
    }

    /// Puts a snapshot together from its parts.
    pub(crate) fn from_parts(
        nodes: HashMap<u128, NodeState>,
        order: Vec<NodeId>,
        data: Tree,
        focus: Option<NodeId>,
    ) -> (r: TreeState)
        requires
            (TreeView {
                nodes: by_id(nodes@),
                order: order@,
                root: data.root,
                root_scroller: data.root_scroller,
                focus,
            }).wf(),
        ensures
            r@ == (TreeView {
                nodes: by_id(nodes@),
                order: order@,
                root: data.root,
                root_scroller: data.root_scroller,
                focus,
            }),
    {
        TreeState { nodes, order, data, focus }
    }

    /// The identifier of the root.
    pub fn root_id(&self) -> (r: NodeId)
        ensures
            r == self@.root,
    {
        self.data.root
    }

    /// The identifier of the root scroller, if any.
    pub fn root_scroller(&self) -> (r: Option<NodeId>)
        ensures
            r == self@.root_scroller,
    {
        self.data.root_scroller
    }

    /// The identifier of the node that has the focus, if the host has it.
    pub fn focus_id(&self) -> (r: Option<NodeId>)
        ensures
            r == self@.focus,
    {
        self.focus
    }

    /// Whether `id` names a live node.
    pub fn has_node(&self, id: NodeId) -> (r: bool)
        ensures
            r == self@.contains(id),
    {
        self.nodes.contains_key(&id.0)
    }

    /// What the tree holds of the node `id`, if it is live.
    pub fn node_state(&self, id: NodeId) -> (r: Option<&NodeState>)
        ensures
            match r {
                Some(state) => self@.contains(id) && *state == self@.nodes[id],
                None => !self@.contains(id),
            },
    {
        self.nodes.get(&id.0)
    }

    /// The content of the node `id`, if it is live.
    pub fn node_by_id(&self, id: NodeId) -> (r: Option<&Node>)
        ensures
            match r {
                Some(node) => self@.contains(id) && *node == self@.node(id),
                None => !self@.contains(id),
            },
    {
        match self.nodes.get(&id.0) {
            Some(state) => Some(&state.data),
            None => None,
        }
    }

    /// The place of the node `id`: `None` if it is the root or not live.
    pub fn parent_and_index(&self, id: NodeId) -> (r: Option<ParentAndIndex>)
        ensures
            r == if self@.contains(id) {
                self@.place(id)
            } else {
                None
            },
    {
        match self.nodes.get(&id.0) {
            Some(state) => state.parent_and_index,
            None => None,
        }
    }

    /// The parent of the node `id`: `None` if it is the root or not live.
    pub fn parent_id(&self, id: NodeId) -> (r: Option<NodeId>)
        ensures
            r == if self@.contains(id) && self@.place(id).is_some() {
                Some(self@.place(id).unwrap().parent)
            } else {
                None
            },
    {
        match self.parent_and_index(id) {
            Some(place) => Some(place.parent),
            None => None,
        }
    }

    /// The children of the node `id`, if it is live.
    pub fn children(&self, id: NodeId) -> (r: Option<&Vec<NodeId>>)
        ensures
            match r {
                Some(children) => self@.contains(id) && children@ == self@.children(id),
                None => !self@.contains(id),
            },
    {
        match self.nodes.get(&id.0) {
            Some(state) => Some(&state.data.children),
            None => None,
        }
    }

    /// The number of live nodes.
    pub fn len(&self) -> (r: usize)
        ensures
            r == self@.order.len(),
    {
        self.order.len()
    }

    /// The identifiers of the live nodes, each once, parents before
    /// children.
    pub fn ids(&self) -> (r: &Vec<NodeId>)
        ensures
            r@ == self@.order,
    {
        &self.order
    }

    /// The live setting in force at the node `id`.
    pub fn live(&self, id: NodeId) -> (r: Live)
        requires
            self@.contains(id),
        ensures
            r == live_of(self@, id),
    {
        proof {
            use_type_invariant(self);
        }
        let mut current = id;
        loop
            invariant
                self.wf(),
                self@.contains(current),
                live_of(self@, current) == live_of(self@, id),
            decreases self@.rank(current),
        {
            let state = self.nodes.get(&current.0).unwrap();
            match state.data.live {
                Some(live) => {
                    return live;
                },
                None => match state.parent_and_index {
                    Some(place) => {
                        current = place.parent;
                    },
                    None => {
                        return Live::Off;
                    },
                },
            }
        }
    }

    /// The last content and place of the node `id`, if it is live.
    pub fn detach(&self, id: NodeId) -> (r: Option<DetachedNode>)
        ensures
            match r {
                Some(node) => self@.contains(id) && node == self@.detached(id),
                None => !self@.contains(id),
            },
    {
        proof {
            use_type_invariant(self);
        }
        match self.nodes.get(&id.0) {
            Some(state) => Some(
                DetachedNode {
                    id,
                    data: state.data.clone(),
                    parent_and_index: state.parent_and_index,
                    focused: self.focus == Some(id),
                    live: self.live(id),
                },
            ),
            None => None,
        }
    }
}

} // verus!
