use accesskit::adapter::{EventQueue, QueuedEvent, EVENT_AUTOMATION_FOCUS_CHANGED};
use accesskit::engine::UpdateError;
use accesskit::node::Node;
use accesskit::schema::{NodeId, Role, Tree, TreeUpdate};
use accesskit::shared::SharedTree;
use std::sync::Arc;

fn node(role: Role, children: &[u128]) -> Arc<Node> {
    let mut n = Node::default();
    n.role = role;
    n.children = children.iter().map(|c| NodeId(*c)).collect();
    Arc::new(n)
}

#[test]
fn snapshot_taken_before_an_update_stays_as_it_was() {
    let tree = SharedTree::new();
    assert!(tree.read().is_none());
    let mut handler = EventQueue::new();
    tree.apply(
        &TreeUpdate {
            nodes: vec![(NodeId(1), node(Role::Window, &[2])), (NodeId(2), node(Role::Button, &[]))],
            tree: Some(Tree::new(NodeId(1))),
            focus: None,
        },
        &mut handler,
    )
    .unwrap();
    let before = tree.read().unwrap();
    let mut handler = EventQueue::new();
    tree.apply(
        &TreeUpdate {
            nodes: vec![(NodeId(1), node(Role::Window, &[]))],
            tree: None,
            focus: Some(NodeId(1)),
        },
        &mut handler,
    )
    .unwrap();
    assert_eq!(
        handler.into_events().0,
        vec![QueuedEvent::Simple { element: NodeId(1), event_id: EVENT_AUTOMATION_FOCUS_CHANGED }]
    );
    let after = tree.read().unwrap();
    assert!(before.has_node(NodeId(2)));
    assert_eq!(before.focus_id(), None);
    assert!(!after.has_node(NodeId(2)));
    assert_eq!(after.focus_id(), Some(NodeId(1)));
}

#[test]
fn rejected_shared_update_commits_nothing() {
    let tree = SharedTree::new();
    let mut handler = EventQueue::new();
    let r = tree.apply(
        &TreeUpdate { nodes: vec![(NodeId(1), node(Role::Window, &[]))], tree: None, focus: None },
        &mut handler,
    );
    assert_eq!(r, Err(UpdateError::MissingTreeMetadataOnFirstUpdate));
    assert!(tree.read().is_none());
    assert!(handler.into_events().0.is_empty());
}

#[test]
fn every_update_is_applied_to_what_the_last_one_left() {
    let tree = SharedTree::new();
    let mut handler = EventQueue::new();
    tree.apply(
        &TreeUpdate {
            nodes: vec![(NodeId(1), node(Role::Window, &[]))],
            tree: Some(Tree::new(NodeId(1))),
            focus: None,
        },
        &mut handler,
    )
    .unwrap();
    for child in 100..150u128 {
        let mut handler = EventQueue::new();
        // Each update replaces the children of the root by one child.
        tree.apply(
            &TreeUpdate {
                nodes: vec![
                    (NodeId(1), node(Role::Window, &[child])),
                    (NodeId(child), node(Role::Button, &[])),
                ],
                tree: None,
                focus: None,
            },
            &mut handler,
        )
        .unwrap();
        let seen = tree.read().unwrap();
        assert_eq!(seen.len(), 2);
        assert!(seen.has_node(NodeId(child)));
        assert!(!seen.has_node(NodeId(child - 1)));
    }
}
