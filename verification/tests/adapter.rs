use accesskit::adapter::{
    Adapter, QueuedEvent, EVENT_AUTOMATION_FOCUS_CHANGED, EVENT_LIVE_REGION_CHANGED,
    EVENT_TEXT_CHANGED, OBJID_CLIENT, UIA_ROOT_OBJECT_ID,
};
use accesskit::engine::UpdateError;
use accesskit::filter::{common_filter, filter_detached, Filter, FilterResult};
use accesskit::node::Node;
use accesskit::schema::{Live, NodeId, Role, Tree, TreeUpdate};
use std::sync::Arc;

fn plain(role: Role, children: &[u128]) -> Node {
    let mut n = Node::default();
    n.role = role;
    n.children = children.iter().map(|c| NodeId(*c)).collect();
    n
}

fn text_box(text: &str) -> Node {
    let mut n = Node::default();
    n.role = Role::InlineTextBox;
    n.value = Some(text.to_string());
    n.character_lengths = text.chars().map(|c| c.len_utf8() as u8).collect();
    n.word_lengths = vec![text.chars().count() as u8];
    n
}

fn update(nodes: Vec<(u128, Node)>, root: Option<u128>, focus: Option<u128>) -> TreeUpdate {
    TreeUpdate {
        nodes: nodes.into_iter().map(|(id, n)| (NodeId(id), Arc::new(n))).collect(),
        tree: root.map(|r| Tree::new(NodeId(r))),
        focus: focus.map(NodeId),
    }
}

fn simple(element: u128, event_id: i32) -> QueuedEvent {
    QueuedEvent::Simple { element: NodeId(element), event_id }
}

fn editor() -> Adapter {
    Adapter::new(&update(
        vec![
            (1, plain(Role::Window, &[2, 5])),
            (2, plain(Role::TextField, &[3])),
            (3, text_box("ab")),
            (5, plain(Role::Button, &[])),
        ],
        Some(1),
        None,
    ))
    .unwrap()
}

#[test]
fn adapter_needs_a_valid_first_update() {
    let r = Adapter::new(&update(vec![(1, plain(Role::Window, &[]))], None, None));
    assert_eq!(r.err(), Some(UpdateError::MissingTreeMetadataOnFirstUpdate));
    let adapter = editor();
    assert_eq!(adapter.root_platform_node(), NodeId(1));
    assert_eq!(adapter.state().len(), 4);
}

#[test]
fn changed_text_raises_one_text_event_first() {
    let mut adapter = editor();
    let events = adapter
        .update(&update(
            vec![(2, plain(Role::TextField, &[3, 4])), (3, text_box("abc")), (4, text_box("d"))],
            None,
            Some(5),
        ))
        .unwrap();
    assert_eq!(
        events.0,
        vec![simple(2, EVENT_TEXT_CHANGED), simple(5, EVENT_AUTOMATION_FOCUS_CHANGED)]
    );
}

#[test]
fn removed_text_box_raises_a_text_event_for_its_parent() {
    let mut adapter = Adapter::new(&update(
        vec![
            (1, plain(Role::Window, &[2])),
            (2, plain(Role::TextField, &[3, 4])),
            (3, text_box("ab")),
            (4, text_box("cd")),
        ],
        Some(1),
        None,
    ))
    .unwrap();
    let events = adapter
        .update(&update(vec![(2, plain(Role::TextField, &[3]))], None, None))
        .unwrap();
    assert_eq!(events.0, vec![simple(2, EVENT_TEXT_CHANGED)]);
    // Without a box left the parent can no longer be asked for text.
    let events = adapter
        .update(&update(vec![(2, plain(Role::TextField, &[]))], None, None))
        .unwrap();
    assert_eq!(events.0, vec![]);
}

#[test]
fn live_regions_speak_up() {
    let mut adapter = editor();
    let mut status = plain(Role::Status, &[7]);
    status.live = Some(Live::Polite);
    let mut label = plain(Role::StaticText, &[]);
    label.name = Some("saved".to_string());
    let events = adapter
        .update(&update(
            vec![(1, plain(Role::Window, &[2, 5, 6])), (6, status.clone()), (7, label.clone())],
            None,
            None,
        ))
        .unwrap();
    // The label has a name and takes the live setting of its parent.
    assert_eq!(events.0, vec![simple(7, EVENT_LIVE_REGION_CHANGED)]);
    let mut renamed = label.clone();
    renamed.name = Some("saving".to_string());
    let events = adapter.update(&update(vec![(7, renamed.clone())], None, None)).unwrap();
    assert_eq!(events.0, vec![simple(7, EVENT_LIVE_REGION_CHANGED)]);
    // A change that touches neither the name nor the live setting is quiet.
    let mut described = renamed.clone();
    described.description = Some("state of the file".to_string());
    let events = adapter.update(&update(vec![(7, described.clone())], None, None)).unwrap();
    assert_eq!(events.0, vec![]);
    // A hidden node says nothing.
    let mut hidden = described.clone();
    hidden.hidden = true;
    hidden.name = Some("gone".to_string());
    let events = adapter.update(&update(vec![(7, hidden.clone())], None, None)).unwrap();
    assert_eq!(events.0, vec![]);
    // Coming back into view counts as a change.
    let mut shown = hidden.clone();
    shown.hidden = false;
    let events = adapter.update(&update(vec![(7, shown)], None, None)).unwrap();
    assert_eq!(events.0, vec![simple(7, EVENT_LIVE_REGION_CHANGED)]);
}

#[test]
fn rejected_update_raises_nothing_and_changes_nothing() {
    let mut adapter = editor();
    let r = adapter.update(&update(vec![(9, plain(Role::Button, &[]))], None, None));
    assert_eq!(r.err(), Some(UpdateError::OrphanedNode));
    assert_eq!(adapter.state().len(), 4);
    assert!(!adapter.state().has_node(NodeId(9)));
}

#[test]
fn window_messages_for_other_objects_are_left_alone() {
    let adapter = editor();
    assert_eq!(adapter.handle_wm_getobject(UIA_ROOT_OBJECT_ID as isize), Some(NodeId(1)));
    assert_eq!(adapter.handle_wm_getobject(OBJID_CLIENT as isize), Some(NodeId(1)));
    assert_eq!(adapter.handle_wm_getobject(0), Some(NodeId(1)));
    assert_eq!(adapter.handle_wm_getobject(17), Some(NodeId(1)));
    assert_eq!(adapter.handle_wm_getobject(-1), None);
    assert_eq!(adapter.handle_wm_getobject(-2), None);
    // Only the low 32 bits count.
    assert_eq!(adapter.handle_wm_getobject(0xFFFF_FFE7), Some(NodeId(1)));
    assert_eq!(adapter.handle_wm_getobject(0xFFFF_FFFC), Some(NodeId(1)));
    assert_eq!(adapter.handle_wm_getobject(0xFFFF_FFFF), None);
    assert_eq!(adapter.handle_wm_getobject(0x1_0000_0000), Some(NodeId(1)));
}

#[test]
fn common_filter_by_role_focus_and_hiding() {
    let button = plain(Role::Button, &[]);
    assert_eq!(common_filter(&button, false), FilterResult::Include);
    let group = plain(Role::GenericContainer, &[]);
    assert_eq!(common_filter(&group, false), FilterResult::ExcludeNode);
    assert_eq!(common_filter(&group, true), FilterResult::Include);
    assert_eq!(common_filter(&plain(Role::Presentation, &[]), false), FilterResult::ExcludeNode);
    assert_eq!(common_filter(&text_box("a"), false), FilterResult::ExcludeNode);
    let mut hidden = plain(Role::Button, &[]);
    hidden.hidden = true;
    assert_eq!(common_filter(&hidden, false), FilterResult::ExcludeSubtree);
    assert_eq!(common_filter(&hidden, true), FilterResult::Include);
}

#[test]
fn filtered_views_of_a_tree() {
    let mut hidden = plain(Role::Group, &[8]);
    hidden.hidden = true;
    let adapter = Adapter::new(&update(
        vec![
            (1, plain(Role::Window, &[2, 6, 7])),
            (2, plain(Role::GenericContainer, &[3, 4])),
            (3, plain(Role::Button, &[])),
            (4, plain(Role::Presentation, &[5])),
            (5, plain(Role::CheckBox, &[])),
            (6, plain(Role::Button, &[])),
            (7, hidden),
            (8, plain(Role::Button, &[])),
        ],
        Some(1),
        Some(6),
    ))
    .unwrap();
    let state = adapter.state();
    let seen: Vec<u128> =
        state.filtered_children(NodeId(1), Filter::Common).iter().map(|id| id.0).collect();
    assert_eq!(seen, vec![3, 5, 6]);
    assert_eq!(state.filtered_parent(NodeId(5), Filter::Common), Some(NodeId(1)));
    assert_eq!(state.filtered_parent(NodeId(3), Filter::Common), Some(NodeId(1)));
    assert_eq!(state.filtered_parent(NodeId(1), Filter::Common), None);
    assert_eq!(state.filtered_parent(NodeId(99), Filter::Common), None);
    assert!(state.filtered_children(NodeId(99), Filter::Common).is_empty());
    assert_eq!(Filter::Common.apply(state, NodeId(7)), FilterResult::ExcludeSubtree);
    assert_eq!(Filter::Common.apply(state, NodeId(2)), FilterResult::ExcludeNode);
    assert_eq!(Filter::Common.apply(state, NodeId(6)), FilterResult::Include);
    assert_eq!(Filter::Common.apply(state, NodeId(99)), FilterResult::ExcludeSubtree);
    let text = Filter::InlineText { root: NodeId(2) };
    assert_eq!(text.apply(state, NodeId(2)), FilterResult::Include);
    assert_eq!(text.apply(state, NodeId(3)), FilterResult::ExcludeNode);
    assert!(state.filtered_children(NodeId(2), text).is_empty());
    assert_eq!(state.live(NodeId(5)), Live::Off);
    let old = state.detach(NodeId(7)).unwrap();
    assert_eq!(filter_detached(&old), FilterResult::ExcludeSubtree);
    assert!(!old.is_focused());
    assert!(state.detach(NodeId(6)).unwrap().is_focused());
}
