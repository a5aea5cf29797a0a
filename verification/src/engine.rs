//! The engine that folds updates into the committed tree: it validates an
//! update as a whole, merges it, drops what no longer hangs from the root
//! and reports what changed.

use vstd::prelude::*;
use std::collections::HashMap;
use std::collections::HashSet;
use std::sync::Arc;
use crate::node::Node;
use crate::schema::{NodeId, Tree, TreeUpdate};
use crate::changes::{diff, is_change_set, view_of, ChangeSet};
use crate::tree::{by_id, NodeState, ParentAndIndex, TreeState, TreeView};

verus! {

/// Why an update was rejected. A rejected update changes nothing.
#[derive(Clone, Copy, Debug, PartialEq, Eq, Structural)]
pub enum UpdateError {
    /// The first update of a tree did not say which node is the root.
    MissingTreeMetadataOnFirstUpdate,
    /// The nodes and the child lists do not match up: a node of the update
    /// does not hang from the root, or the root or a listed child has no
    /// node.
    OrphanedNode,
    /// An identifier is defined twice: it stands twice in the update, or
    /// its node is given two places in the tree.
    DuplicateNodeDefinition,
    /// The focus is on an identifier that names no node of the tree.
    DanglingFocusReference,
}

/// The nodes of a tree, each with its content alone.
pub open spec fn contents(tree: TreeView) -> Map<NodeId, Arc<Node>> {
    Map::new(|id: NodeId| tree.contains(id), |id: NodeId| tree.nodes[id].data)
}

/// The nodes that an update starts from: those of the committed tree, or
/// none before the first update.
pub open spec fn base_of(current: Option<TreeView>) -> Map<NodeId, Arc<Node>> {
    match current {
        Some(tree) => contents(tree),
        None => Map::empty(),
    }
}

/// `base` with the first `n` entries of `nodes` written over it, in order.
pub open spec fn overlay(
    base: Map<NodeId, Arc<Node>>,
    nodes: Seq<(NodeId, Arc<Node>)>,
    n: nat,
) -> Map<NodeId, Arc<Node>>
    decreases n,
{
    if n == 0 {
        base
    } else {
        overlay(base, nodes, (n - 1) as nat).insert(nodes[n - 1].0, nodes[n - 1].1)
    }
}

/// Every node that is known once the update is merged: the committed nodes
/// with those of the update written over them.
pub open spec fn merged(current: Option<TreeView>, update: TreeUpdate) -> Map<NodeId, Arc<Node>> {
    overlay(base_of(current), update.nodes@, update.nodes@.len())
}

/// The root after the update: the one it names, or else the committed one.
pub open spec fn root_after(current: Option<TreeView>, update: TreeUpdate) -> NodeId {
    match update.tree {
        Some(tree) => tree.root,
        None => current.unwrap().root,
    }
}

/// The root scroller after the update.
pub open spec fn root_scroller_after(current: Option<TreeView>, update: TreeUpdate) -> Option<
    NodeId,
> {
    match update.tree {
        Some(tree) => tree.root_scroller,
        None => current.unwrap().root_scroller,
    }
}

/// Whether the node `parent` is known and lists `child` at `index`.
pub open spec fn lists(
    m: Map<NodeId, Arc<Node>>,
    parent: NodeId,
    index: int,
    child: NodeId,
) -> bool {
    &&& m.contains_key(parent)
    &&& 0 <= index < m[parent].children@.len()
    &&& m[parent].children@[index] == child
}

/// Whether `id` is found from `root` by following `steps` child links.
pub open spec fn reachable_in(
    m: Map<NodeId, Arc<Node>>,
    root: NodeId,
    id: NodeId,
    steps: nat,
) -> bool
    decreases steps,
{
    if steps == 0 {
        id == root
    } else {
        exists|p: NodeId, i: int|
            reachable_in(m, root, p, (steps - 1) as nat) && #[trigger] lists(m, p, i, id)
    }
}

/// Whether `id` hangs from `root`: it is the root, or a child of a known
/// node that hangs from the root.
pub open spec fn reachable(m: Map<NodeId, Arc<Node>>, root: NodeId, id: NodeId) -> bool {
    exists|steps: nat| reachable_in(m, root, id, steps)
}

/// Whether two entries of `nodes` have the same identifier.
pub open spec fn defined_twice(nodes: Seq<(NodeId, Arc<Node>)>) -> bool {
    exists|i: int, j: int| 0 <= i < j < nodes.len() && #[trigger] nodes[i].0 == #[trigger] nodes[j].0
}

/// Whether a known node is given two places under `root`: two entries of
/// child lists of nodes that hang from the root name it, or one such entry
/// names the root itself.
pub open spec fn placed_twice(m: Map<NodeId, Arc<Node>>, root: NodeId) -> bool {
    ||| exists|p1: NodeId, i1: int, p2: NodeId, i2: int, c: NodeId|
        {
            &&& reachable(m, root, p1)
            &&& reachable(m, root, p2)
            &&& #[trigger] lists(m, p1, i1, c)
            &&& #[trigger] lists(m, p2, i2, c)
            &&& m.contains_key(c)
            &&& (p1 != p2 || i1 != i2)
        }
    ||| exists|p: NodeId, i: int|
        reachable(m, root, p) && #[trigger] lists(m, p, i, root) && m.contains_key(root)
}

/// Whether something hangs from `root` that has no node: the root itself or
/// a listed child.
pub open spec fn dangling(m: Map<NodeId, Arc<Node>>, root: NodeId) -> bool {
    exists|id: NodeId| #[trigger] reachable(m, root, id) && !m.contains_key(id)
}

/// Whether an entry of `nodes` does not hang from `root`.
pub open spec fn orphaned(
    m: Map<NodeId, Arc<Node>>,
    root: NodeId,
    nodes: Seq<(NodeId, Arc<Node>)>,
) -> bool {
    exists|k: int| 0 <= k < nodes.len() && !reachable(m, root, #[trigger] nodes[k].0)
}

/// The verdict on an update: why it is rejected, or `None` where it is
/// accepted. Where more than one thing is wrong the first of these is
/// reported: no root named, an identifier defined twice, nodes and child
/// lists that do not match up, a focus on no node.
pub open spec fn update_error(current: Option<TreeView>, update: TreeUpdate) -> Option<
    UpdateError,
> {
    let m = merged(current, update);
    let root = root_after(current, update);
    if current.is_none() && update.tree.is_none() {
        Some(UpdateError::MissingTreeMetadataOnFirstUpdate)
    } else if defined_twice(update.nodes@) || placed_twice(m, root) {
        Some(UpdateError::DuplicateNodeDefinition)
    } else if dangling(m, root) || orphaned(m, root, update.nodes@) {
        Some(UpdateError::OrphanedNode)
    } else if update.focus.is_some() && !(reachable(m, root, update.focus.unwrap())) {
        Some(UpdateError::DanglingFocusReference)
    } else {
        None
    }
}

/// Whether `next` is the tree that an accepted update leaves: the merged
/// nodes that hang from the root, and nothing else.
pub open spec fn is_next_state(current: Option<TreeView>, update: TreeUpdate, next: TreeView) -> bool {
    let m = merged(current, update);
    let root = root_after(current, update);
    &&& next.wf()
    &&& next.root == root
    &&& next.root_scroller == root_scroller_after(current, update)
    &&& next.focus == update.focus
    &&& forall|id: NodeId| #[trigger] next.contains(id) <==> reachable(m, root, id)
    &&& forall|id: NodeId| #[trigger] next.contains(id) ==> next.nodes[id].data == m[id]
}


/// The root hangs from itself.
pub proof fn lemma_root_reachable(m: Map<NodeId, Arc<Node>>, root: NodeId)
    ensures
        reachable(m, root, root),
{
    assert(reachable_in(m, root, root, 0));
}

/// A listed child of a node that hangs from the root hangs from it too.
pub proof fn lemma_child_reachable(
    m: Map<NodeId, Arc<Node>>,
    root: NodeId,
    p: NodeId,
    i: int,
    c: NodeId,
)
    requires
        reachable(m, root, p),
        lists(m, p, i, c),
    ensures
        reachable(m, root, c),
{
    let n = choose|n: nat| reachable_in(m, root, p, n);
    assert(reachable_in(m, root, c, n + 1));
}

/// Where the root has no node, nothing but the root hangs from it.
proof fn lemma_only_root(m: Map<NodeId, Arc<Node>>, root: NodeId, id: NodeId, steps: nat)
    requires
        !m.contains_key(root),
        reachable_in(m, root, id, steps),
    ensures
        id == root,
    decreases steps,
{
    if steps > 0 {
        let (p, i) = choose|p: NodeId, i: int|
            reachable_in(m, root, p, (steps - 1) as nat) && #[trigger] lists(m, p, i, id);
        lemma_only_root(m, root, p, (steps - 1) as nat);
    }
}

/// The first `n` entries of `nodes` are all known once they are written
/// over `base`, and nothing else is new.
proof fn lemma_overlay_domain(
    base: Map<NodeId, Arc<Node>>,
    nodes: Seq<(NodeId, Arc<Node>)>,
    n: nat,
    id: NodeId,
)
    requires
        n <= nodes.len(),
    ensures
        overlay(base, nodes, n).contains_key(id) <==> (base.contains_key(id) || exists|k: int|
            0 <= k < n && #[trigger] nodes[k].0 == id),
    decreases n,
{
    if n > 0 {
        lemma_overlay_domain(base, nodes, (n - 1) as nat, id);
        if nodes[n - 1].0 == id {
        }
    }
}

/// Whether the entry `index` of the child list of `p` has been looked at,
/// when the traversal is at entry `k` of the node of rank `i`.
spec fn done(nodes: Map<u128, NodeState>, i: int, k: int, p: NodeId, index: int) -> bool {
    nodes[p.0].rank < i || (nodes[p.0].rank == i && index < k)
}

/// Every known node is either placed in the new tree or still waits in the
/// pool, and carries the merged content.
spec fn partition_ok(
    m: Map<NodeId, Arc<Node>>,
    nodes: Map<u128, NodeState>,
    pool: Map<u128, Arc<Node>>,
) -> bool {
    &&& forall|id: NodeId|
        #![trigger m.contains_key(id)]
        m.contains_key(id) <==> (nodes.contains_key(id.0) || pool.contains_key(id.0))
    &&& forall|id: NodeId|
        #![trigger nodes.contains_key(id.0)]
        nodes.contains_key(id.0) ==> !pool.contains_key(id.0) && nodes[id.0].data == m[id]
    &&& forall|id: NodeId|
        #![trigger pool.contains_key(id.0)]
        pool.contains_key(id.0) ==> pool[id.0] == m[id]
}

/// `order` lists the placed nodes, each once, at its rank.
spec fn order_ok(nodes: Map<u128, NodeState>, order: Seq<NodeId>) -> bool {
    &&& forall|a: int|
        0 <= a < order.len() ==> nodes.contains_key((#[trigger] order[a]).0) && nodes[order[a].0].rank
            == a
    &&& forall|id: NodeId|
        #![trigger nodes.contains_key(id.0)]
        nodes.contains_key(id.0) ==> nodes[id.0].rank < order.len() && order[nodes[id.0].rank as int]
            == id
}

/// The root is placed first and without a parent; every other placed node
/// was placed by an entry that has been looked at.
spec fn places_ok(
    m: Map<NodeId, Arc<Node>>,
    root: NodeId,
    nodes: Map<u128, NodeState>,
    i: int,
    k: int,
) -> bool {
    &&& nodes.contains_key(root.0)
    &&& nodes[root.0].parent_and_index.is_none()
    &&& nodes[root.0].rank == 0
    &&& forall|id: NodeId|
        #![trigger nodes.contains_key(id.0)]
        nodes.contains_key(id.0) && id != root ==> {
            let place = nodes[id.0].parent_and_index;
            &&& place.is_some()
            &&& nodes.contains_key(place.unwrap().parent.0)
            &&& lists(m, place.unwrap().parent, place.unwrap().index as int, id)
            &&& nodes[place.unwrap().parent.0].rank < nodes[id.0].rank
            &&& done(nodes, i, k, place.unwrap().parent, place.unwrap().index as int)
        }
}

/// Every entry that has been looked at named a known node, which that
/// entry placed, or an unknown one, which was noted.
spec fn expanded_ok(
    m: Map<NodeId, Arc<Node>>,
    nodes: Map<u128, NodeState>,
    i: int,
    k: int,
    missing: bool,
) -> bool {
    forall|p: NodeId, j: int, c: NodeId|
        #![trigger lists(m, p, j, c)]
        nodes.contains_key(p.0) && lists(m, p, j, c) && done(nodes, i, k, p, j) ==> {
            &&& m.contains_key(c) ==> nodes.contains_key(c.0) && nodes[c.0].parent_and_index == Some(
                ParentAndIndex { parent: p, index: j as usize },
            )
            &&& !m.contains_key(c) ==> missing
        }
}

/// Every placed node hangs from the root.
spec fn reach_ok(m: Map<NodeId, Arc<Node>>, root: NodeId, nodes: Map<u128, NodeState>) -> bool {
    forall|id: NodeId|
        #![trigger nodes.contains_key(id.0)]
        nodes.contains_key(id.0) ==> reachable(m, root, id)
}

/// Whether the placed node `a` hangs before the placed node `b`.
spec fn before(nodes: Map<u128, NodeState>, a: NodeId, b: NodeId) -> bool {
    let place_a = nodes[a.0].parent_and_index.unwrap();
    let place_b = nodes[b.0].parent_and_index.unwrap();
    nodes[place_a.parent.0].rank < nodes[place_b.parent.0].rank || (place_a.parent == place_b.parent
        && place_a.index < place_b.index)
}

/// Of two placed nodes the one has the lower rank that hangs before the
/// other.
spec fn sorted_ok(nodes: Map<u128, NodeState>, root: NodeId) -> bool {
    forall|a: NodeId, b: NodeId|
        #![trigger before(nodes, a, b)]
        nodes.contains_key(a.0) && nodes.contains_key(b.0) && a != root && b != root ==> (
        nodes[a.0].rank < nodes[b.0].rank <==> before(nodes, a, b))
}

/// Once every placed node has been looked at, every known node that hangs
/// from the root is placed.
proof fn lemma_closed(
    m: Map<NodeId, Arc<Node>>,
    root: NodeId,
    nodes: Map<u128, NodeState>,
    order: Seq<NodeId>,
    missing: bool,
    id: NodeId,
    steps: nat,
)
    requires
        order_ok(nodes, order),
        nodes.contains_key(root.0),
        expanded_ok(m, nodes, order.len() as int, 0, missing),
        reachable_in(m, root, id, steps),
    ensures
        m.contains_key(id) ==> nodes.contains_key(id.0),
        !m.contains_key(id) && id != root ==> missing,
    decreases steps,
{
    if steps > 0 {
        let (p, j) = choose|p: NodeId, j: int|
            reachable_in(m, root, p, (steps - 1) as nat) && #[trigger] lists(m, p, j, id);
        lemma_closed(m, root, nodes, order, missing, p, (steps - 1) as nat);
        assert(nodes.contains_key(p.0));
        assert(done(nodes, order.len() as int, 0, p, j));
    }
}

/// Computes the tree that `update` leaves when it is applied to `current`,
/// or says why the update is rejected.
pub fn next_state(current: Option<&TreeState>, update: &TreeUpdate) -> (r: Result<
    TreeState,
    UpdateError,
>)
    ensures
        match r {
            Ok(next) => update_error(view_of(current), *update).is_none() && is_next_state(
                view_of(current),
                *update,
                next@,
            ),
            Err(e) => update_error(view_of(current), *update) == Some(e),
        },
{
    proof {
        if let Some(tree) = current {
            use_type_invariant(tree);
        }
    }
    let ghost cur = view_of(current);
    let ghost m = merged(cur, *update);
    let ghost root_spec = root_after(cur, *update);
    let tree: Tree = match update.tree {
        Some(tree) => tree,
        None => match current {
            Some(state) => Tree { root: state.root_id(), root_scroller: state.root_scroller() },
            None => {
                return Err(UpdateError::MissingTreeMetadataOnFirstUpdate);
            },
        },
    };
    let root = tree.root;
    assert(root == root_spec);

    // The pool starts as the committed nodes.
    let mut pool: HashMap<u128, Arc<Node>> = HashMap::new();
    if let Some(state) = current {
        let ids = state.ids();
        let mut a: usize = 0;
        while a < ids.len()
            invariant
                state.wf(),
                ids@ == state@.order,
                a <= ids.len(),
                forall|id: NodeId|
                    #![trigger pool@.contains_key(id.0)]
                    pool@.contains_key(id.0) <==> (state@.contains(id) && state@.rank(id) < a),
                forall|id: NodeId|
                    #![trigger pool@.contains_key(id.0)]
                    pool@.contains_key(id.0) ==> pool@[id.0] == state@.nodes[id].data,
            decreases ids.len() - a,
        {
            let id = ids[a];
            let found = state.node_state(id);
            assert(state@.contains(ids@[a as int]));
            let data = found.unwrap().data.clone();
            pool.insert(id.0, data);
            a += 1;
        }
    }
    let ghost base = base_of(cur);
    assert forall|id: NodeId| #![trigger pool@.contains_key(id.0)]
        pool@.contains_key(id.0) <==> base.contains_key(id) by {}
    assert forall|id: NodeId| #![trigger pool@.contains_key(id.0)]
        pool@.contains_key(id.0) implies pool@[id.0] == base[id] by {}

    // The nodes of the update are written over it.
    let mut seen: HashSet<u128> = HashSet::new();
    let mut k: usize = 0;
    while k < update.nodes.len()
        invariant
            k <= update.nodes.len(),
            cur == view_of(current),
            base == base_of(cur),
            !(cur.is_none() && update.tree.is_none()),
            forall|id: NodeId|
                #![trigger pool@.contains_key(id.0)]
                pool@.contains_key(id.0) <==> overlay(base, update.nodes@, k as nat).contains_key(id),
            forall|id: NodeId|
                #![trigger pool@.contains_key(id.0)]
                pool@.contains_key(id.0) ==> pool@[id.0] == overlay(base, update.nodes@, k as nat)[id],
            forall|j: int| 0 <= j < k ==> seen@.contains((#[trigger] update.nodes@[j]).0.0),
            forall|x: u128|
                seen@.contains(x) ==> exists|j: int|
                    0 <= j < k && (#[trigger] update.nodes@[j]).0.0 == x,
            forall|i: int, j: int|
                0 <= i < j < k ==> (#[trigger] update.nodes@[i]).0 != (#[trigger] update.nodes@[j]).0,
        decreases update.nodes.len() - k,
    {
        let id = update.nodes[k].0;
        if seen.contains(&id.0) {
            proof {
                let j = choose|j: int| 0 <= j < k && (#[trigger] update.nodes@[j]).0.0 == id.0;
                assert(update.nodes@[j].0 == update.nodes@[k as int].0);
                assert(defined_twice(update.nodes@));
            }
            return Err(UpdateError::DuplicateNodeDefinition);
        }
        let data = update.nodes[k].1.clone();
        seen.insert(id.0);
        pool.insert(id.0, data);
        k += 1;
    }
    proof {
        assert(!defined_twice(update.nodes@));
        assert(m == overlay(base, update.nodes@, update.nodes@.len()));
    }

    // The tree is laid out from the root, breadth first.
    let mut nodes: HashMap<u128, NodeState> = HashMap::new();
    let mut order: Vec<NodeId> = Vec::new();
    let mut missing = false;
    match pool.remove(&root.0) {
        Some(data) => {
            nodes.insert(root.0, NodeState { data, parent_and_index: None, rank: 0 });
            order.push(root);
        },
        None => {
            proof {
                lemma_root_reachable(m, root);
                assert(dangling(m, root));
                assert(!placed_twice(m, root)) by {
                    assert forall|p: NodeId, n: nat| reachable_in(m, root, p, n) implies p
                        == root by {
                        lemma_only_root(m, root, p, n);
                    }
                }
            }
            return Err(UpdateError::OrphanedNode);
        },
    }
    proof {
        lemma_root_reachable(m, root);
    }
    let mut i: usize = 0;
    while i < order.len()
        invariant
            0 <= i <= order.len(),
            cur == view_of(current),
            m == merged(cur, *update),
            root == root_after(cur, *update),
            !(cur.is_none() && update.tree.is_none()),
            !defined_twice(update.nodes@),
            partition_ok(m, nodes@, pool@),
            order_ok(nodes@, order@),
            places_ok(m, root, nodes@, i as int, 0),
            expanded_ok(m, nodes@, i as int, 0, missing),
            reach_ok(m, root, nodes@),
            sorted_ok(nodes@, root),
            missing ==> dangling(m, root),
        decreases pool@.len() + order.len() - i,
    {
        let id = order[i];
        assert(nodes@.contains_key(order@[i as int].0));
        let data = nodes.get(&id.0).unwrap().data.clone();
        let ghost total = pool@.len() + order.len();
        let mut j: usize = 0;
        while j < data.children.len()
            invariant
                0 <= i < order.len(),
                0 <= j <= data.children.len(),
                id == order@[i as int],
                data == m[id],
                m.contains_key(id),
                cur == view_of(current),
                m == merged(cur, *update),
                root == root_after(cur, *update),
                !(cur.is_none() && update.tree.is_none()),
                !defined_twice(update.nodes@),
                partition_ok(m, nodes@, pool@),
                order_ok(nodes@, order@),
                places_ok(m, root, nodes@, i as int, j as int),
                expanded_ok(m, nodes@, i as int, j as int, missing),
                reach_ok(m, root, nodes@),
                sorted_ok(nodes@, root),
                missing ==> dangling(m, root),
                pool@.len() + order.len() == total,
            decreases data.children.len() - j,
        {
            let c = data.children[j];
            assert(lists(m, id, j as int, c));
            if nodes.contains_key(&c.0) {
                proof {
                    lemma_placed_twice(m, root, nodes@, order@, i as int, j as int, c);
                }
                return Err(UpdateError::DuplicateNodeDefinition);
            }
            let ghost nodes_before = nodes@;
            let ghost pool_before = pool@;
            let ghost order_before = order@;
            match pool.remove(&c.0) {
                Some(child_data) => {
                    let rank = order.len();
                    nodes.insert(
                        c.0,
                        NodeState {
                            data: child_data,
                            parent_and_index: Some(ParentAndIndex { parent: id, index: j }),
                            rank,
                        },
                    );
                    order.push(c);
                    proof {
                        lemma_child_reachable(m, root, id, j as int, c);
                        pool_before.lemma_remove_key_len(c.0);
                        lemma_place(
                            m,
                            root,
                            nodes_before,
                            pool_before,
                            order_before,
                            i as int,
                            j as int,
                            missing,
                            c,
                            nodes@,
                            pool@,
                            order@,
                        );
                    }
                },
                None => {
                    missing = true;
                    proof {
                        lemma_child_reachable(m, root, id, j as int, c);
                        assert(!m.contains_key(c));
                        assert(dangling(m, root));
                        assert(pool@ =~= pool_before);
                        assert(expanded_ok(m, nodes@, i as int, j + 1, missing)) by {
                            assert forall|p: NodeId, x: int, d: NodeId|
                                #![trigger lists(m, p, x, d)]
                                nodes@.contains_key(p.0) && lists(m, p, x, d) && done(
                                    nodes@,
                                    i as int,
                                    j + 1,
                                    p,
                                    x,
                                ) implies (m.contains_key(d) ==> nodes@.contains_key(d.0)
                                && nodes@[d.0].parent_and_index == Some(
                                    ParentAndIndex { parent: p, index: x as usize },
                                )) by {
                                if !done(nodes@, i as int, j as int, p, x) {
                                    assert(p == id);
                                    assert(x == j);
                                }
                            }
                        }
                    }
                },
            }
            j += 1;
        }
        proof {
            lemma_next_node(m, root, nodes@, order@, i as int, j as int, missing);
        }
        i += 1;
    }
    proof {
        lemma_traversal_done(m, root, nodes@, order@, missing);
    }
    if missing {
        return Err(UpdateError::OrphanedNode);
    }
    let mut k: usize = 0;
    while k < update.nodes.len()
        invariant
            k <= update.nodes.len(),
            cur == view_of(current),
            m == merged(cur, *update),
            root == root_after(cur, *update),
            !(cur.is_none() && update.tree.is_none()),
            !defined_twice(update.nodes@),
            !placed_twice(m, root),
            !dangling(m, root),
            forall|id: NodeId|
                #![trigger nodes@.contains_key(id.0)]
                nodes@.contains_key(id.0) <==> reachable(m, root, id),
            forall|x: int| 0 <= x < k ==> reachable(m, root, (#[trigger] update.nodes@[x]).0),
        decreases update.nodes.len() - k,
    {
        let id = update.nodes[k].0;
        if !nodes.contains_key(&id.0) {
            proof {
                assert(!reachable(m, root, update.nodes@[k as int].0));
                assert(orphaned(m, root, update.nodes@));
            }
            return Err(UpdateError::OrphanedNode);
        }
        k += 1;
    }
    assert(!orphaned(m, root, update.nodes@));
    if let Some(focus) = update.focus {
        if !nodes.contains_key(&focus.0) {
            return Err(UpdateError::DanglingFocusReference);
        }
    }
    proof {
        lemma_view_wf(
            m,
            root,
            nodes@,
            order@,
            TreeView {
                nodes: by_id(nodes@),
                order: order@,
                root,
                root_scroller: tree.root_scroller,
                focus: update.focus,
            },
        );
    }
    Ok(TreeState::from_parts(nodes, order, tree, update.focus))
}

/// An entry that names a node which is placed already gives that node a
/// second place.
proof fn lemma_placed_twice(
    m: Map<NodeId, Arc<Node>>,
    root: NodeId,
    nodes: Map<u128, NodeState>,
    order: Seq<NodeId>,
    i: int,
    j: int,
    c: NodeId,
)
    requires
        0 <= i < order.len(),
        order_ok(nodes, order),
        places_ok(m, root, nodes, i, j),
        reach_ok(m, root, nodes),
        forall|id: NodeId|
            #![trigger nodes.contains_key(id.0)]
            nodes.contains_key(id.0) ==> m.contains_key(id),
        lists(m, order[i], j, c),
        nodes.contains_key(c.0),
    ensures
        placed_twice(m, root),
{
    let id = order[i];
    assert(nodes.contains_key(id.0));
    if c == root {
        assert(reachable(m, root, id) && lists(m, id, j, root) && m.contains_key(root));
    } else {
        let place = nodes[c.0].parent_and_index.unwrap();
        let p = place.parent;
        let x = place.index as int;
        assert(nodes.contains_key(p.0));
        assert(reachable(m, root, p) && reachable(m, root, id));
        assert(lists(m, p, x, c) && lists(m, id, j, c));
        assert(p != id || x != j);
        assert(m.contains_key(c));
    }
}

/// Placing the child that entry `j` of the node of rank `i` names keeps the
/// traversal in order.
proof fn lemma_place(
    m: Map<NodeId, Arc<Node>>,
    root: NodeId,
    nodes: Map<u128, NodeState>,
    pool: Map<u128, Arc<Node>>,
    order: Seq<NodeId>,
    i: int,
    j: int,
    missing: bool,
    c: NodeId,
    nodes2: Map<u128, NodeState>,
    pool2: Map<u128, Arc<Node>>,
    order2: Seq<NodeId>,
)
    requires
        0 <= i < order.len(),
        0 <= j <= usize::MAX,
        order.len() <= usize::MAX,
        partition_ok(m, nodes, pool),
        order_ok(nodes, order),
        places_ok(m, root, nodes, i, j),
        expanded_ok(m, nodes, i, j, missing),
        reach_ok(m, root, nodes),
        sorted_ok(nodes, root),
        reachable(m, root, c),
        lists(m, order[i], j, c),
        !nodes.contains_key(c.0),
        pool.contains_key(c.0),
        pool2 == pool.remove(c.0),
        order2 == order.push(c),
        nodes2 == nodes.insert(
            c.0,
            NodeState {
                data: pool[c.0],
                parent_and_index: Some(ParentAndIndex { parent: order[i], index: j as usize }),
                rank: order.len() as usize,
            },
        ),
    ensures
        partition_ok(m, nodes2, pool2),
        order_ok(nodes2, order2),
        places_ok(m, root, nodes2, i, j + 1),
        expanded_ok(m, nodes2, i, j + 1, missing),
        reach_ok(m, root, nodes2),
        sorted_ok(nodes2, root),
{
    let id = order[i];
    assert(nodes.contains_key(id.0));
    assert(c != root);
    assert(partition_ok(m, nodes2, pool2)) by {
        assert forall|x: NodeId| #![trigger m.contains_key(x)]
            m.contains_key(x) <==> (nodes2.contains_key(x.0) || pool2.contains_key(x.0)) by {
            assert(nodes.contains_key(x.0) || true);
            assert(pool.contains_key(x.0) || true);
        }
        assert forall|x: NodeId| #![trigger nodes2.contains_key(x.0)]
            nodes2.contains_key(x.0) implies !pool2.contains_key(x.0) && nodes2[x.0].data == m[x] by {
            if x != c {
                assert(nodes.contains_key(x.0));
            }
        }
        assert forall|x: NodeId| #![trigger pool2.contains_key(x.0)]
            pool2.contains_key(x.0) implies pool2[x.0] == m[x] by {
            assert(pool.contains_key(x.0));
        }
    }
    assert(order_ok(nodes2, order2)) by {
        assert forall|a: int| 0 <= a < order2.len() implies nodes2.contains_key(
            (#[trigger] order2[a]).0,
        ) && nodes2[order2[a].0].rank == a by {
            if a < order.len() {
                assert(nodes.contains_key(order[a].0));
            }
        }
        assert forall|x: NodeId| #![trigger nodes2.contains_key(x.0)]
            nodes2.contains_key(x.0) implies nodes2[x.0].rank < order2.len()
            && order2[nodes2[x.0].rank as int] == x by {
            if x != c {
                assert(nodes.contains_key(x.0));
            }
        }
    }
    assert(places_ok(m, root, nodes2, i, j + 1)) by {
        assert forall|x: NodeId| #![trigger nodes2.contains_key(x.0)]
            nodes2.contains_key(x.0) && x != root implies {
            let place = nodes2[x.0].parent_and_index;
            &&& place.is_some()
            &&& nodes2.contains_key(place.unwrap().parent.0)
            &&& lists(m, place.unwrap().parent, place.unwrap().index as int, x)
            &&& nodes2[place.unwrap().parent.0].rank < nodes2[x.0].rank
            &&& done(nodes2, i, j + 1, place.unwrap().parent, place.unwrap().index as int)
        } by {
            if x != c {
                assert(nodes.contains_key(x.0));
                let place = nodes[x.0].parent_and_index.unwrap();
                assert(nodes.contains_key(place.parent.0));
                assert(place.parent != c);
            }
        }
    }
    assert(expanded_ok(m, nodes2, i, j + 1, missing)) by {
        assert forall|p: NodeId, x: int, d: NodeId|
            #![trigger lists(m, p, x, d)]
            nodes2.contains_key(p.0) && lists(m, p, x, d) && done(nodes2, i, j + 1, p, x) implies {
            &&& m.contains_key(d) ==> nodes2.contains_key(d.0) && nodes2[d.0].parent_and_index
                == Some(ParentAndIndex { parent: p, index: x as usize })
            &&& !m.contains_key(d) ==> missing
        } by {
            if p == c {
                assert(nodes2[c.0].rank == order.len());
            } else {
                assert(nodes.contains_key(p.0));
                if done(nodes, i, j, p, x) {
                    if m.contains_key(d) {
                        assert(nodes.contains_key(d.0));
                        assert(d != c);
                    }
                } else {
                    assert(nodes[p.0].rank == i);
                    assert(p == id);
                    assert(x == j);
                    assert(d == c);
                }
            }
        }
    }
    assert(reach_ok(m, root, nodes2)) by {
        assert forall|x: NodeId| #![trigger nodes2.contains_key(x.0)]
            nodes2.contains_key(x.0) implies reachable(m, root, x) by {
            if x != c {
                assert(nodes.contains_key(x.0));
            }
        }
    }
    assert(sorted_ok(nodes2, root)) by {
        assert forall|a: NodeId, b: NodeId|
            #![trigger before(nodes2, a, b)]
            nodes2.contains_key(a.0) && nodes2.contains_key(b.0) && a != root && b != root implies (
        nodes2[a.0].rank < nodes2[b.0].rank <==> before(nodes2, a, b)) by {
            if a != c {
                assert(nodes.contains_key(a.0));
                let pa = nodes[a.0].parent_and_index.unwrap();
                assert(nodes.contains_key(pa.parent.0));
                assert(pa.parent != c);
                assert(done(nodes, i, j, pa.parent, pa.index as int));
                if nodes[pa.parent.0].rank == i {
                    assert(pa.parent == id);
                }
            }
            if b != c {
                assert(nodes.contains_key(b.0));
                let pb = nodes[b.0].parent_and_index.unwrap();
                assert(nodes.contains_key(pb.parent.0));
                assert(pb.parent != c);
                assert(done(nodes, i, j, pb.parent, pb.index as int));
                if nodes[pb.parent.0].rank == i {
                    assert(pb.parent == id);
                }
            }
            if a != c && b != c {
                assert(before(nodes, a, b) == before(nodes2, a, b));
            }
        }
    }
}

/// When every entry of the node of rank `i` has been looked at, the
/// traversal stands at the first entry of the next node.
proof fn lemma_next_node(
    m: Map<NodeId, Arc<Node>>,
    root: NodeId,
    nodes: Map<u128, NodeState>,
    order: Seq<NodeId>,
    i: int,
    j: int,
    missing: bool,
)
    requires
        0 <= i < order.len(),
        order_ok(nodes, order),
        m.contains_key(order[i]),
        j == m[order[i]].children@.len(),
        places_ok(m, root, nodes, i, j),
        expanded_ok(m, nodes, i, j, missing),
    ensures
        places_ok(m, root, nodes, i + 1, 0),
        expanded_ok(m, nodes, i + 1, 0, missing),
{
    assert forall|p: NodeId, x: int, d: NodeId|
        #![trigger lists(m, p, x, d)]
        nodes.contains_key(p.0) && lists(m, p, x, d) && done(nodes, i + 1, 0, p, x) implies done(
        nodes,
        i,
        j,
        p,
        x,
    ) by {
        if nodes[p.0].rank == i {
            assert(p == order[i]);
        }
    }
}

/// What the finished traversal shows: no node is placed twice, something
/// dangles exactly where an unknown child was noted, and the placed nodes
/// are the known nodes that hang from the root.
proof fn lemma_traversal_done(
    m: Map<NodeId, Arc<Node>>,
    root: NodeId,
    nodes: Map<u128, NodeState>,
    order: Seq<NodeId>,
    missing: bool,
)
    requires
        order_ok(nodes, order),
        places_ok(m, root, nodes, order.len() as int, 0),
        expanded_ok(m, nodes, order.len() as int, 0, missing),
        reach_ok(m, root, nodes),
        forall|id: NodeId|
            #![trigger nodes.contains_key(id.0)]
            nodes.contains_key(id.0) ==> m.contains_key(id),
        missing ==> dangling(m, root),
    ensures
        !placed_twice(m, root),
        dangling(m, root) == missing,
        !missing ==> forall|id: NodeId|
            #![trigger nodes.contains_key(id.0)]
            nodes.contains_key(id.0) <==> reachable(m, root, id),
{
    let n = order.len() as int;
    assert forall|id: NodeId| reachable(m, root, id) implies (m.contains_key(id)
        ==> nodes.contains_key(id.0)) && (!m.contains_key(id) ==> missing) by {
        let steps = choose|steps: nat| reachable_in(m, root, id, steps);
        lemma_closed(m, root, nodes, order, missing, id, steps);
    }
    if placed_twice(m, root) {
        if exists|p: NodeId, i: int|
            reachable(m, root, p) && #[trigger] lists(m, p, i, root) && m.contains_key(root) {
            let (p, i) = choose|p: NodeId, i: int|
                reachable(m, root, p) && #[trigger] lists(m, p, i, root) && m.contains_key(root);
            assert(nodes.contains_key(p.0));
            assert(done(nodes, n, 0, p, i));
            assert(false);
        } else {
            let (p1, i1, p2, i2, c) = choose|p1: NodeId, i1: int, p2: NodeId, i2: int, c: NodeId|
                {
                    &&& reachable(m, root, p1)
                    &&& reachable(m, root, p2)
                    &&& #[trigger] lists(m, p1, i1, c)
                    &&& #[trigger] lists(m, p2, i2, c)
                    &&& m.contains_key(c)
                    &&& (p1 != p2 || i1 != i2)
                };
            assert(nodes.contains_key(p1.0) && nodes.contains_key(p2.0));
            assert(done(nodes, n, 0, p1, i1) && done(nodes, n, 0, p2, i2));
            assert(i1 < m[p1].children.len() && i2 < m[p2].children.len());
            assert(false);
        }
    }
    if !missing {
        if dangling(m, root) {
            let id = choose|id: NodeId| #[trigger] reachable(m, root, id) && !m.contains_key(id);
            assert(false);
        }
    }
}

/// The finished traversal, read as a tree, is well formed.
proof fn lemma_view_wf(
    m: Map<NodeId, Arc<Node>>,
    root: NodeId,
    nodes: Map<u128, NodeState>,
    order: Seq<NodeId>,
    next: TreeView,
)
    requires
        order_ok(nodes, order),
        places_ok(m, root, nodes, order.len() as int, 0),
        expanded_ok(m, nodes, order.len() as int, 0, false),
        sorted_ok(nodes, root),
        forall|id: NodeId|
            #![trigger nodes.contains_key(id.0)]
            nodes.contains_key(id.0) ==> m.contains_key(id) && nodes[id.0].data == m[id],
        next.nodes == by_id(nodes),
        next.order == order,
        next.root == root,
        next.focus matches Some(id) ==> nodes.contains_key(id.0),
    ensures
        next.wf(),
{
    let n = order.len() as int;
    assert(next.order_wf()) by {
        assert forall|a: int| 0 <= a < next.order.len() implies next.contains(
            #[trigger] next.order[a],
        ) && next.rank(next.order[a]) == a by {
            assert(nodes.contains_key(order[a].0));
        }
        assert forall|id: NodeId| #[trigger] next.contains(id) implies 0 <= next.rank(id)
            < next.order.len() && next.order[next.rank(id)] == id by {
            assert(nodes.contains_key(id.0));
        }
    }
    assert(next.places_wf()) by {
        assert forall|id: NodeId| #[trigger] next.contains(id) && id != next.root implies {
            &&& next.place(id).is_some()
            &&& next.contains(next.place(id).unwrap().parent)
            &&& next.place(id).unwrap().index < next.children(next.place(id).unwrap().parent).len()
            &&& next.children(next.place(id).unwrap().parent)[next.place(id).unwrap().index as int]
                == id
            &&& next.rank(next.place(id).unwrap().parent) < next.rank(id)
        } by {
            assert(nodes.contains_key(id.0));
            let place = nodes[id.0].parent_and_index.unwrap();
            assert(nodes.contains_key(place.parent.0));
        }
    }
    assert(next.breadth_first()) by {
        assert forall|a: NodeId, b: NodeId|
            #![trigger next.hangs_before(a, b)]
            next.contains(a) && next.contains(b) && a != next.root && b != next.root implies (
        next.rank(a) < next.rank(b) <==> next.hangs_before(a, b)) by {
            assert(nodes.contains_key(a.0) && nodes.contains_key(b.0));
            let pa = nodes[a.0].parent_and_index.unwrap();
            let pb = nodes[b.0].parent_and_index.unwrap();
            assert(nodes.contains_key(pa.parent.0) && nodes.contains_key(pb.parent.0));
            assert(before(nodes, a, b) == next.hangs_before(a, b));
        }
    }
    assert(next.children_wf()) by {
        assert forall|p: NodeId, i: int|
            next.contains(p) && 0 <= i < next.children(p).len() implies next.contains(
            #[trigger] next.children(p)[i],
        ) && next.place(next.children(p)[i]) == Some(
            ParentAndIndex { parent: p, index: i as usize },
        ) by {
            assert(nodes.contains_key(p.0));
            let c = next.children(p)[i];
            assert(lists(m, p, i, c));
            assert(done(nodes, n, 0, p, i));
        }
    }
}


/// The engine: it has no tree until the first update is accepted, and from
/// then on always a committed one.
pub struct TreeEngine {
    state: Option<TreeState>,
}

impl View for TreeEngine {
    type V = Option<TreeView>;

    closed spec fn view(&self) -> Option<TreeView> {
        match self.state {
            Some(tree) => Some(tree@),
            None => None,
        }
    }
}

impl TreeEngine {
    /// An engine that has not seen an update yet.
    pub fn new() -> (r: TreeEngine)
        ensures
            r@.is_none(),
    {
        TreeEngine { state: None }
    }

    /// Whether an update has been accepted.
    pub fn is_ready(&self) -> (r: bool)
        ensures
            r == self@.is_some(),
    {
        self.state.is_some()
    }

    /// The committed tree, if there is one.
    pub fn state(&self) -> (r: Option<&TreeState>)
        ensures
            view_of(r) == self@,
            self@ matches Some(tree) ==> tree.wf(),
    {
        let r = self.state.as_ref();
        proof {
            if let Some(tree) = r {
                use_type_invariant(tree);
            }
        }
        r
    }

    /// Applies `update` as a whole: either it is accepted, the committed
    /// tree becomes the one that it leaves and the changes are returned, or
    /// it is rejected and the committed tree stays as it was.
    pub fn apply(&mut self, update: &TreeUpdate) -> (r: Result<ChangeSet, UpdateError>)
        ensures
            match r {
                Ok(changes) => {
                    &&& update_error(old(self)@, *update).is_none()
                    &&& final(self)@.is_some()
                    &&& is_next_state(old(self)@, *update, final(self)@.unwrap())
                    &&& is_change_set(old(self)@, final(self)@.unwrap(), changes)
                },
                Err(e) => update_error(old(self)@, *update) == Some(e) && *final(self) == *old(self),
            },
    {
        match next_state(self.state.as_ref(), update) {
            Ok(next) => {
                let changes = diff(self.state.as_ref(), &next);
                self.state = Some(next);
                Ok(changes)
            },
            Err(e) => Err(e),
        }
    }
}


/// What stands at `id` once `nodes` is written over `base`: the node of an
/// entry of `nodes` with that identifier, or else what `base` had.
proof fn lemma_overlay_value(
    base: Map<NodeId, Arc<Node>>,
    nodes: Seq<(NodeId, Arc<Node>)>,
    n: nat,
    id: NodeId,
)
    requires
        n <= nodes.len(),
    ensures
        (forall|k: int| 0 <= k < n ==> (#[trigger] nodes[k]).0 != id) ==> overlay(base, nodes, n)[id]
            == base[id],
        (exists|k: int| 0 <= k < n && (#[trigger] nodes[k]).0 == id) ==> exists|k: int|
            0 <= k < n && (#[trigger] nodes[k]).0 == id && overlay(base, nodes, n)[id] == nodes[k].1,
    decreases n,
{
    if n > 0 {
        lemma_overlay_value(base, nodes, (n - 1) as nat, id);
        if nodes[n - 1].0 == id {
            assert(overlay(base, nodes, n)[id] == nodes[n - 1].1);
        } else {
            if exists|k: int| 0 <= k < n && (#[trigger] nodes[k]).0 == id {
                let k = choose|k: int| 0 <= k < n && (#[trigger] nodes[k]).0 == id;
                assert(0 <= k < n - 1 && nodes[k].0 == id);
            }
        }
    }
}

/// Whether every node of `update` repeats, by value, the content that
/// `tree` holds under the same identifier, and the update names the root
/// of `tree` or none.
pub open spec fn repeats(tree: TreeView, update: TreeUpdate) -> bool {
    &&& update.tree matches Some(data) ==> data.root == tree.root
    &&& forall|k: int|
        0 <= k < update.nodes@.len() ==> tree.contains((#[trigger] update.nodes@[k]).0) && tree.node(
            update.nodes@[k].0,
        ).same_content(&*update.nodes@[k].1)
}

/// Merging an update that repeats the committed content leaves the same
/// nodes known, each with the content it had.
proof fn lemma_repeats_merged(tree: TreeView, update: TreeUpdate, id: NodeId)
    requires
        tree.wf(),
        repeats(tree, update),
    ensures
        merged(Some(tree), update).contains_key(id) == tree.contains(id),
        tree.contains(id) ==> tree.node(id).same_content(&*merged(Some(tree), update)[id]),
        tree.contains(id) ==> merged(Some(tree), update)[id].children@ == tree.children(id),
{
    let base = base_of(Some(tree));
    let nodes = update.nodes@;
    lemma_overlay_domain(base, nodes, nodes.len(), id);
    lemma_overlay_value(base, nodes, nodes.len(), id);
    if tree.contains(id) {
        if exists|k: int| 0 <= k < nodes.len() && (#[trigger] nodes[k]).0 == id {
        } else {
            crate::changes::lemma_same_content_reflexive(&tree.node(id));
        }
    }
}

/// In a committed tree every live node hangs from the root, also through
/// the merged nodes of an update that repeats the committed content.
proof fn lemma_repeats_reaches(tree: TreeView, update: TreeUpdate, id: NodeId)
    requires
        tree.wf(),
        repeats(tree, update),
        tree.contains(id),
    ensures
        reachable(merged(Some(tree), update), tree.root, id),
    decreases tree.rank(id),
{
    let m = merged(Some(tree), update);
    if id == tree.root {
        lemma_root_reachable(m, tree.root);
    } else {
        let place = tree.place(id).unwrap();
        lemma_repeats_reaches(tree, update, place.parent);
        lemma_repeats_merged(tree, update, place.parent);
        assert(lists(m, place.parent, place.index as int, id));
        lemma_child_reachable(m, tree.root, place.parent, place.index as int, id);
    }
}

/// Through the merged nodes of an update that repeats the committed
/// content, only live nodes hang from the root.
proof fn lemma_repeats_reached(tree: TreeView, update: TreeUpdate, id: NodeId, steps: nat)
    requires
        tree.wf(),
        repeats(tree, update),
        reachable_in(merged(Some(tree), update), tree.root, id, steps),
    ensures
        tree.contains(id),
    decreases steps,
{
    let m = merged(Some(tree), update);
    if steps > 0 {
        let (p, i) = choose|p: NodeId, i: int|
            reachable_in(m, tree.root, p, (steps - 1) as nat) && #[trigger] lists(m, p, i, id);
        lemma_repeats_reached(tree, update, p, (steps - 1) as nat);
        lemma_repeats_merged(tree, update, p);
        assert(tree.children(p)[i] == id);
    }
}

/// An update that repeats committed content is accepted, provided that it
/// names no node twice and puts the focus on a live node or on none.
pub proof fn lemma_repeated_content_is_accepted(tree: TreeView, update: TreeUpdate)
    requires
        tree.wf(),
        repeats(tree, update),
        !defined_twice(update.nodes@),
        update.focus matches Some(id) ==> tree.contains(id),
    ensures
        update_error(Some(tree), update).is_none(),
{
    let m = merged(Some(tree), update);
    let root = tree.root;
    assert forall|id: NodeId| reachable(m, root, id) implies tree.contains(id) by {
        let steps = choose|steps: nat| reachable_in(m, root, id, steps);
        lemma_repeats_reached(tree, update, id, steps);
    }
    assert forall|id: NodeId| tree.contains(id) implies reachable(m, root, id) by {
        lemma_repeats_reaches(tree, update, id);
    }
    assert forall|id: NodeId| m.contains_key(id) == tree.contains(id) by {
        lemma_repeats_merged(tree, update, id);
    }
    if placed_twice(m, root) {
        if exists|p: NodeId, i: int|
            reachable(m, root, p) && #[trigger] lists(m, p, i, root) && m.contains_key(root) {
            let (p, i) = choose|p: NodeId, i: int|
                reachable(m, root, p) && #[trigger] lists(m, p, i, root) && m.contains_key(root);
            lemma_repeats_merged(tree, update, p);
            assert(tree.children(p)[i] == root);
            assert(false);
        } else {
            let (p1, i1, p2, i2, c) = choose|p1: NodeId, i1: int, p2: NodeId, i2: int, c: NodeId|
                {
                    &&& reachable(m, root, p1)
                    &&& reachable(m, root, p2)
                    &&& #[trigger] lists(m, p1, i1, c)
                    &&& #[trigger] lists(m, p2, i2, c)
                    &&& m.contains_key(c)
                    &&& (p1 != p2 || i1 != i2)
                };
            lemma_repeats_merged(tree, update, p1);
            lemma_repeats_merged(tree, update, p2);
            assert(tree.children(p1)[i1] == c && tree.children(p2)[i2] == c);
            assert(i1 < m[p1].children.len() && i2 < m[p2].children.len());
            assert(false);
        }
    }
    if dangling(m, root) {
        let id = choose|id: NodeId| #[trigger] reachable(m, root, id) && !m.contains_key(id);
        assert(tree.contains(id));
        lemma_repeats_merged(tree, update, id);
        assert(false);
    }
    if orphaned(m, root, update.nodes@) {
        let k = choose|k: int|
            0 <= k < update.nodes@.len() && !reachable(m, root, (#[trigger] update.nodes@[k]).0);
        lemma_repeats_reaches(tree, update, update.nodes@[k].0);
        assert(false);
    }
}

/// An update that repeats committed content adds, updates and removes no
/// node.
pub proof fn lemma_repeated_content_changes_nothing(
    tree: TreeView,
    update: TreeUpdate,
    next: TreeView,
    changes: ChangeSet,
)
    requires
        tree.wf(),
        repeats(tree, update),
        is_next_state(Some(tree), update, next),
        is_change_set(Some(tree), next, changes),
    ensures
        changes.added@.len() == 0,
        changes.updated@.len() == 0,
        changes.removed@.len() == 0,
{
    let m = merged(Some(tree), update);
    let root = tree.root;
    assert forall|id: NodeId| next.contains(id) == tree.contains(id) by {
        if tree.contains(id) {
            lemma_repeats_reaches(tree, update, id);
        }
        if next.contains(id) {
            let steps = choose|steps: nat| reachable_in(m, root, id, steps);
            lemma_repeats_reached(tree, update, id, steps);
        }
    }
    if changes.added@.len() > 0 {
        let id = changes.added@[0];
        assert(next.contains(id) && !tree.contains(id));
    }
    if changes.removed@.len() > 0 {
        let id = changes.removed@[0].id;
        assert(tree.contains(id) && !next.contains(id));
    }
    if changes.updated@.len() > 0 {
        let id = changes.updated@[0].id;
        assert(crate::changes::differs(Some(tree), next, id));
        lemma_repeats_merged(tree, update, id);
        assert(next.nodes[id].data == m[id]);
        assert(false);
    }
}

/// In a committed tree the parent of a node is the one node that lists it,
/// at the one index where it does: the parent map is a function, and
/// nothing lists the root.
pub proof fn lemma_one_parent(tree: TreeView, id: NodeId, p: NodeId, i: int)
    requires
        tree.wf(),
        tree.contains(p),
        0 <= i < tree.children(p).len(),
        tree.children(p)[i] == id,
    ensures
        tree.contains(id),
        id != tree.root,
        tree.place(id) == Some(ParentAndIndex { parent: p, index: i as usize }),
        forall|q: NodeId, j: int|
            tree.contains(q) && 0 <= j < tree.children(q).len() && #[trigger] tree.children(q)[j]
                == id ==> q == p && j == i,
{
    assert forall|q: NodeId, j: int|
        tree.contains(q) && 0 <= j < tree.children(q).len() && #[trigger] tree.children(q)[j]
            == id implies q == p && j == i by {
        assert(j < tree.nodes[q].data.children.len() && i < tree.nodes[p].data.children.len());
    }
}

/// An update has one outcome: two trees that both are what an accepted
/// update leaves are the same tree.
pub proof fn lemma_update_has_one_outcome(
    current: Option<TreeView>,
    update: TreeUpdate,
    a: TreeView,
    b: TreeView,
)
    requires
        is_next_state(current, update, a),
        is_next_state(current, update, b),
    ensures
        a == b,
{
    let m = merged(current, update);
    let root = root_after(current, update);
    assert forall|id: NodeId| #[trigger] a.contains(id) == b.contains(id) by {
        assert(a.contains(id) == reachable(m, root, id));
        assert(b.contains(id) == reachable(m, root, id));
    }
    assert forall|id: NodeId| #[trigger] a.contains(id) implies a.nodes[id].data
        == b.nodes[id].data by {
        assert(b.contains(id));
    }
    crate::tree::lemma_tree_is_determined(a, b);
}

/// In a committed tree every live node hangs from the root.
pub proof fn lemma_live_nodes_hang_from_root(tree: TreeView, id: NodeId)
    requires
        tree.wf(),
        tree.contains(id),
    ensures
        reachable(crate::engine::contents(tree), tree.root, id),
    decreases tree.rank(id),
{
    let m = contents(tree);
    if id == tree.root {
        lemma_root_reachable(m, tree.root);
    } else {
        let place = tree.place(id).unwrap();
        lemma_live_nodes_hang_from_root(tree, place.parent);
        assert(lists(m, place.parent, place.index as int, id));
        lemma_child_reachable(m, tree.root, place.parent, place.index as int, id);
    }
}

/// Whatever updates an engine is given, one after the other from its start,
/// each accepted or rejected as `update_error` says, every tree that it
/// commits is a tree: each node but the root has exactly one parent.
pub proof fn lemma_every_committed_tree_is_a_tree(
    states: Seq<Option<TreeView>>,
    updates: Seq<TreeUpdate>,
    k: int,
)
    requires
        states.len() == updates.len() + 1,
        states[0].is_none(),
        forall|n: int|
            0 <= n < updates.len() ==> if update_error(#[trigger] states[n], updates[n]).is_none() {
                states[n + 1].is_some() && is_next_state(states[n], updates[n], states[n + 1].unwrap())
            } else {
                states[n + 1] == states[n]
            },
        0 <= k < states.len(),
    ensures
        states[k] matches Some(tree) ==> tree.wf(),
    decreases k,
{
    if k > 0 {
        lemma_every_committed_tree_is_a_tree(states, updates, k - 1);
        assert(update_error(states[k - 1], updates[k - 1]).is_none() || states[k] == states[k - 1]);
    }
}

/// In the list of removed nodes a node comes before its parent, where both
/// were removed.
pub proof fn lemma_removed_children_first(
    old: TreeView,
    new: TreeView,
    removed: Seq<crate::tree::DetachedNode>,
    a: int,
    b: int,
)
    requires
        old.wf(),
        crate::changes::is_removed(Some(old), new, removed),
        0 <= a < removed.len(),
        0 <= b < removed.len(),
        removed[a].parent_and_index matches Some(place) && place.parent == removed[b].id,
    ensures
        a < b,
{
    let child = removed[a].id;
    let parent = removed[b].id;
    assert(old.contains(child));
    assert(removed[a] == old.detached(child));
    assert(old.place(child).is_some());
    assert(child != old.root);
    assert(old.rank(parent) < old.rank(child));
    if b < a {
        assert(old.rank(removed[b].id) > old.rank(removed[a].id));
    }
}

} // verus!
