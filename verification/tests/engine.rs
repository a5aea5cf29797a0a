use accesskit::engine::{TreeEngine, UpdateError};
use accesskit::node::Node;
use accesskit::schema::{NodeId, Role, Tree, TreeUpdate};
use std::sync::Arc;

fn node(role: Role, children: &[u128]) -> Arc<Node> {
    let mut n = Node::default();
    n.role = role;
    n.children = children.iter().map(|c| NodeId(*c)).collect();
    Arc::new(n)
}

fn named(role: Role, children: &[u128], name: &str) -> Arc<Node> {
    let mut n = Node::default();
    n.role = role;
    n.children = children.iter().map(|c| NodeId(*c)).collect();
    n.name = Some(name.to_string());
    Arc::new(n)
}

fn update(nodes: Vec<(u128, Arc<Node>)>, root: Option<u128>, focus: Option<u128>) -> TreeUpdate {
    TreeUpdate {
        nodes: nodes.into_iter().map(|(id, n)| (NodeId(id), n)).collect(),
        tree: root.map(|r| Tree::new(NodeId(r))),
        focus: focus.map(NodeId),
    }
}

fn ids(v: &[NodeId]) -> Vec<u128> {
    v.iter().map(|id| id.0).collect()
}

#[test]
fn lone_root_has_no_parent_and_is_the_only_node() {
    let mut engine = TreeEngine::new();
    assert!(!engine.is_ready());
    let changes = engine
        .apply(&update(vec![(1, node(Role::Window, &[]))], Some(1), None))
        .unwrap();
    assert!(engine.is_ready());
    let state = engine.state().unwrap();
    assert_eq!(state.root_id(), NodeId(1));
    assert_eq!(state.parent_id(NodeId(1)), None);
    assert_eq!(state.parent_and_index(NodeId(1)), None);
    assert!(state.node_by_id(NodeId(1)).is_some());
    assert!(state.node_by_id(NodeId(2)).is_none());
    assert!(state.node_by_id(NodeId(0)).is_none());
    assert_eq!(state.len(), 1);
    assert_eq!(ids(state.ids()), vec![1]);
    assert_eq!(ids(&changes.added), vec![1]);
    assert!(changes.updated.is_empty());
    assert!(changes.removed.is_empty());
    assert!(changes.focus.is_none());
}

#[test]
fn first_update_needs_tree_metadata() {
    let mut engine = TreeEngine::new();
    let r = engine.apply(&update(vec![(1, node(Role::Window, &[]))], None, None));
    assert_eq!(r.err(), Some(UpdateError::MissingTreeMetadataOnFirstUpdate));
    assert!(!engine.is_ready());
}

#[test]
fn identical_update_changes_nothing() {
    let mut engine = TreeEngine::new();
    let first = update(
        vec![
            (1, node(Role::Window, &[2, 3])),
            (2, named(Role::Button, &[], "ok")),
            (3, named(Role::Button, &[], "cancel")),
        ],
        Some(1),
        Some(2),
    );
    engine.apply(&first).unwrap();
    // The same content again, in fresh allocations.
    let again = update(
        vec![
            (1, node(Role::Window, &[2, 3])),
            (2, named(Role::Button, &[], "ok")),
            (3, named(Role::Button, &[], "cancel")),
        ],
        Some(1),
        Some(2),
    );
    let changes = engine.apply(&again).unwrap();
    assert!(changes.added.is_empty());
    assert!(changes.updated.is_empty());
    assert!(changes.removed.is_empty());
    assert!(changes.focus.is_none());
    // And the very same allocations.
    let changes = engine.apply(&first).unwrap();
    assert!(changes.added.is_empty());
    assert!(changes.updated.is_empty());
    assert!(changes.removed.is_empty());
}

#[test]
fn emptied_child_list_removes_the_child() {
    let mut engine = TreeEngine::new();
    engine
        .apply(&update(
            vec![(1, node(Role::Window, &[2])), (2, node(Role::Button, &[]))],
            Some(1),
            None,
        ))
        .unwrap();
    assert!(engine.state().unwrap().has_node(NodeId(2)));
    assert_eq!(engine.state().unwrap().parent_id(NodeId(2)), Some(NodeId(1)));
    let changes = engine
        .apply(&update(vec![(1, node(Role::Window, &[]))], None, None))
        .unwrap();
    assert_eq!(changes.removed.len(), 1);
    assert_eq!(changes.removed[0].id(), NodeId(2));
    assert_eq!(changes.removed[0].role(), Role::Button);
    assert_eq!(changes.removed[0].parent_id(), Some(NodeId(1)));
    assert!(changes.added.is_empty());
    assert_eq!(changes.updated.len(), 1);
    assert_eq!(changes.updated[0].id(), NodeId(1));
    let state = engine.state().unwrap();
    assert!(state.node_by_id(NodeId(2)).is_none());
    assert!(!state.has_node(NodeId(2)));
    assert_eq!(state.len(), 1);
}

#[test]
fn removed_nodes_come_children_first() {
    let mut engine = TreeEngine::new();
    engine
        .apply(&update(
            vec![
                (1, node(Role::Window, &[2, 5])),
                (2, node(Role::Group, &[3])),
                (3, node(Role::Group, &[4])),
                (4, node(Role::Button, &[])),
                (5, node(Role::Button, &[])),
            ],
            Some(1),
            None,
        ))
        .unwrap();
    let changes = engine
        .apply(&update(vec![(1, node(Role::Window, &[5]))], None, None))
        .unwrap();
    let removed: Vec<u128> = changes.removed.iter().map(|n| n.id().0).collect();
    assert_eq!(removed, vec![4, 3, 2]);
    assert_eq!(ids(engine.state().unwrap().ids()), vec![1, 5]);
}

#[test]
fn added_and_updated_nodes_are_reported() {
    let mut engine = TreeEngine::new();
    engine
        .apply(&update(
            vec![(1, node(Role::Window, &[2])), (2, named(Role::Button, &[], "a"))],
            Some(1),
            None,
        ))
        .unwrap();
    let changes = engine
        .apply(&update(
            vec![
                (1, node(Role::Window, &[2, 3])),
                (2, named(Role::Button, &[], "b")),
                (3, node(Role::CheckBox, &[])),
            ],
            None,
            Some(3),
        ))
        .unwrap();
    assert_eq!(ids(&changes.added), vec![3]);
    let updated: Vec<u128> = changes.updated.iter().map(|n| n.id().0).collect();
    assert_eq!(updated, vec![1, 2]);
    assert_eq!(changes.updated[1].data().name.as_deref(), Some("a"));
    assert!(changes.removed.is_empty());
    let focus = changes.focus.unwrap();
    assert!(focus.old.is_none());
    assert_eq!(focus.new, Some(NodeId(3)));
    let state = engine.state().unwrap();
    assert_eq!(state.focus_id(), Some(NodeId(3)));
    assert_eq!(state.node_by_id(NodeId(2)).unwrap().name.as_deref(), Some("b"));
    assert_eq!(
        state.parent_and_index(NodeId(3)).map(|p| (p.parent, p.index)),
        Some((NodeId(1), 1))
    );
    assert_eq!(ids(state.children(NodeId(1)).unwrap()), vec![2, 3]);
}

#[test]
fn focus_moves_are_reported_with_the_old_node() {
    let mut engine = TreeEngine::new();
    engine
        .apply(&update(
            vec![(1, node(Role::Window, &[2])), (2, node(Role::Button, &[]))],
            Some(1),
            Some(2),
        ))
        .unwrap();
    let changes = engine.apply(&update(vec![], None, None)).unwrap();
    let focus = changes.focus.unwrap();
    assert_eq!(focus.old.unwrap().id(), NodeId(2));
    assert_eq!(focus.new, None);
    assert_eq!(engine.state().unwrap().focus_id(), None);
}

#[test]
fn orphaned_node_is_rejected_and_nothing_changes() {
    let mut engine = TreeEngine::new();
    engine
        .apply(&update(vec![(1, node(Role::Window, &[]))], Some(1), None))
        .unwrap();
    let r = engine.apply(&update(vec![(7, node(Role::Button, &[]))], None, None));
    assert_eq!(r.err(), Some(UpdateError::OrphanedNode));
    let state = engine.state().unwrap();
    assert_eq!(state.len(), 1);
    assert!(state.has_node(NodeId(1)));
    assert!(!state.has_node(NodeId(7)));
}

#[test]
fn unknown_child_is_rejected() {
    let mut engine = TreeEngine::new();
    let r = engine.apply(&update(vec![(1, node(Role::Window, &[2]))], Some(1), None));
    assert_eq!(r.err(), Some(UpdateError::OrphanedNode));
    assert!(!engine.is_ready());
}

#[test]
fn unknown_root_is_rejected() {
    let mut engine = TreeEngine::new();
    let r = engine.apply(&update(vec![], Some(1), None));
    assert_eq!(r.err(), Some(UpdateError::OrphanedNode));
}

#[test]
fn node_defined_twice_is_rejected() {
    let mut engine = TreeEngine::new();
    let r = engine.apply(&update(
        vec![
            (1, node(Role::Window, &[2])),
            (2, node(Role::Button, &[])),
            (2, node(Role::CheckBox, &[])),
        ],
        Some(1),
        None,
    ));
    assert_eq!(r.err(), Some(UpdateError::DuplicateNodeDefinition));
}

#[test]
fn node_with_two_parents_is_rejected() {
    let mut engine = TreeEngine::new();
    let r = engine.apply(&update(
        vec![
            (1, node(Role::Window, &[2, 3])),
            (2, node(Role::Group, &[4])),
            (3, node(Role::Group, &[4])),
            (4, node(Role::Button, &[])),
        ],
        Some(1),
        None,
    ));
    assert_eq!(r.err(), Some(UpdateError::DuplicateNodeDefinition));
    let r = engine.apply(&update(
        vec![(1, node(Role::Window, &[2, 2])), (2, node(Role::Button, &[]))],
        Some(1),
        None,
    ));
    assert_eq!(r.err(), Some(UpdateError::DuplicateNodeDefinition));
}

#[test]
fn cycle_through_the_root_is_rejected() {
    let mut engine = TreeEngine::new();
    let r = engine.apply(&update(
        vec![(1, node(Role::Window, &[2])), (2, node(Role::Group, &[1]))],
        Some(1),
        None,
    ));
    assert_eq!(r.err(), Some(UpdateError::DuplicateNodeDefinition));
}

#[test]
fn cycle_away_from_the_root_is_orphaned() {
    let mut engine = TreeEngine::new();
    let r = engine.apply(&update(
        vec![
            (1, node(Role::Window, &[])),
            (2, node(Role::Group, &[3])),
            (3, node(Role::Group, &[2])),
        ],
        Some(1),
        None,
    ));
    assert_eq!(r.err(), Some(UpdateError::OrphanedNode));
}

#[test]
fn dangling_focus_is_rejected() {
    let mut engine = TreeEngine::new();
    let r = engine.apply(&update(vec![(1, node(Role::Window, &[]))], Some(1), Some(9)));
    assert_eq!(r.err(), Some(UpdateError::DanglingFocusReference));
    assert!(!engine.is_ready());
}

#[test]
fn duplicate_is_reported_before_orphan_and_focus() {
    let mut engine = TreeEngine::new();
    let r = engine.apply(&update(
        vec![
            (1, node(Role::Window, &[2, 2, 8])),
            (2, node(Role::Button, &[])),
            (5, node(Role::Button, &[])),
        ],
        Some(1),
        Some(9),
    ));
    assert_eq!(r.err(), Some(UpdateError::DuplicateNodeDefinition));
    let r = engine.apply(&update(
        vec![(1, node(Role::Window, &[2])), (2, node(Role::Button, &[])), (5, node(Role::Button, &[]))],
        Some(1),
        Some(9),
    ));
    assert_eq!(r.err(), Some(UpdateError::OrphanedNode));
}

#[test]
fn moving_a_subtree_keeps_its_nodes() {
    let mut engine = TreeEngine::new();
    engine
        .apply(&update(
            vec![
                (1, node(Role::Window, &[2, 3])),
                (2, node(Role::Group, &[4])),
                (3, node(Role::Group, &[])),
                (4, node(Role::Button, &[])),
            ],
            Some(1),
            None,
        ))
        .unwrap();
    let changes = engine
        .apply(&update(
            vec![(2, node(Role::Group, &[])), (3, node(Role::Group, &[4]))],
            None,
            None,
        ))
        .unwrap();
    assert!(changes.added.is_empty());
    assert!(changes.removed.is_empty());
    let updated: Vec<u128> = changes.updated.iter().map(|n| n.id().0).collect();
    assert_eq!(updated, vec![2, 3]);
    assert_eq!(engine.state().unwrap().parent_id(NodeId(4)), Some(NodeId(3)));
}

#[test]
fn changing_the_root_drops_the_old_tree() {
    let mut engine = TreeEngine::new();
    engine
        .apply(&update(
            vec![(1, node(Role::Window, &[2])), (2, node(Role::Button, &[]))],
            Some(1),
            None,
        ))
        .unwrap();
    let changes = engine
        .apply(&update(vec![(10, node(Role::Window, &[]))], Some(10), None))
        .unwrap();
    assert_eq!(ids(&changes.added), vec![10]);
    let removed: Vec<u128> = changes.removed.iter().map(|n| n.id().0).collect();
    assert_eq!(removed, vec![2, 1]);
    assert_eq!(engine.state().unwrap().root_id(), NodeId(10));
}

#[test]
fn nodes_are_listed_breadth_first() {
    let mut engine = TreeEngine::new();
    engine
        .apply(&update(
            vec![
                (4, node(Role::Button, &[])),
                (3, node(Role::Group, &[4])),
                (5, node(Role::Button, &[])),
                (2, node(Role::Group, &[3, 6])),
                (6, node(Role::Button, &[])),
                (1, node(Role::Window, &[2, 5])),
            ],
            Some(1),
            None,
        ))
        .unwrap();
    assert_eq!(ids(engine.state().unwrap().ids()), vec![1, 2, 5, 3, 6, 4]);
}

struct Recorder(Vec<String>);

impl accesskit::notify::ChangeHandler for Recorder {
    type Model = ();

    fn model(&self) {}

    fn after(_model: (), _tree: accesskit::tree::TreeView, _n: accesskit::notify::Notification) {}

    fn node_added(&mut self, state: &accesskit::tree::TreeState, id: NodeId) {
        assert!(state.has_node(id));
        self.0.push(format!("added {}", id.0));
    }

    fn node_updated(
        &mut self,
        old_node: &accesskit::tree::DetachedNode,
        state: &accesskit::tree::TreeState,
    ) {
        assert!(state.has_node(old_node.id()));
        self.0.push(format!("updated {}", old_node.id().0));
    }

    fn node_removed(
        &mut self,
        old_node: &accesskit::tree::DetachedNode,
        state: &accesskit::tree::TreeState,
    ) {
        assert!(!state.has_node(old_node.id()));
        self.0.push(format!("removed {}", old_node.id().0));
    }

    fn focus_moved(
        &mut self,
        change: &accesskit::changes::FocusChange,
        _state: &accesskit::tree::TreeState,
    ) {
        self.0.push(format!(
            "focus {:?} -> {:?}",
            change.old.as_ref().map(|n| n.id().0),
            change.new.map(|id| id.0)
        ));
    }
}

#[test]
fn handler_is_told_in_order_added_updated_removed_focus() {
    let mut engine = TreeEngine::new();
    let mut recorder = Recorder(Vec::new());
    engine
        .update_and_process_changes(
            &update(
                vec![
                    (1, node(Role::Window, &[2])),
                    (2, node(Role::Group, &[3])),
                    (3, node(Role::Button, &[])),
                ],
                Some(1),
                Some(3),
            ),
            &mut recorder,
        )
        .unwrap();
    assert_eq!(recorder.0, vec!["added 1", "added 2", "added 3", "focus None -> Some(3)"]);
    let mut recorder = Recorder(Vec::new());
    engine
        .update_and_process_changes(
            &update(
                vec![(1, node(Role::Window, &[7, 8])), (7, node(Role::Button, &[])), (8, node(Role::Button, &[]))],
                None,
                Some(8),
            ),
            &mut recorder,
        )
        .unwrap();
    assert_eq!(
        recorder.0,
        vec![
            "added 7",
            "added 8",
            "updated 1",
            "removed 3",
            "removed 2",
            "focus Some(3) -> Some(8)"
        ]
    );
    let mut recorder = Recorder(Vec::new());
    let r = engine.update_and_process_changes(
        &update(vec![(9, node(Role::Button, &[]))], None, Some(8)),
        &mut recorder,
    );
    assert_eq!(r, Err(UpdateError::OrphanedNode));
    assert!(recorder.0.is_empty());
}
