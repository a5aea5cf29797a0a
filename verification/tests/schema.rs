use accesskit::schema::{is_empty, is_false, NodeId, Tree};
use accesskit::{
    Action, ActionSet, CustomAction, DropEffect, DropEffectSet, Float32, InvalidState, Node, Role,
};

#[test]
fn false_flags_are_skipped() {
    assert!(is_false(&false));
    assert!(!is_false(&true));
}

#[test]
fn empty_slices_are_skipped() {
    let none: [u8; 0] = [];
    assert!(is_empty(&none));
    assert!(!is_empty(&[1u8]));
}

#[test]
fn new_tree_has_no_root_scroller() {
    let tree = Tree::new(NodeId(7));
    assert_eq!(tree.root, NodeId(7));
    assert_eq!(tree.root_scroller, None);
}

#[test]
fn sets_of_actions() {
    let mut set = ActionSet::new();
    assert!(set.is_empty());
    assert!(!set.contains(Action::Focus));
    set.insert(Action::Focus);
    set.insert(Action::ShowContextMenu);
    set.insert(Action::Default);
    assert!(set.contains(Action::Focus));
    assert!(set.contains(Action::ShowContextMenu));
    assert!(set.contains(Action::Default));
    assert!(!set.contains(Action::Blur));
    assert!(!set.is_empty());
    let mut same = ActionSet::new();
    same.insert(Action::Default);
    same.insert(Action::ShowContextMenu);
    same.insert(Action::Focus);
    same.insert(Action::Focus);
    assert_eq!(set, same);
    set.remove(Action::Focus);
    assert!(!set.contains(Action::Focus));
    assert!(set.contains(Action::Default));
    set.remove(Action::Default);
    set.remove(Action::ShowContextMenu);
    assert!(set.is_empty());
    assert_eq!(set, ActionSet::new());
    assert_eq!(Action::Default.ordinal(), 0);
    assert_eq!(Action::ShowContextMenu.ordinal(), 25);
    let mut effects = DropEffectSet::new();
    assert!(effects.is_empty());
    effects.insert(DropEffect::Popup);
    assert!(effects.contains(DropEffect::Popup));
    assert!(!effects.contains(DropEffect::Copy));
    effects.remove(DropEffect::Popup);
    assert!(effects.is_empty());
    assert_eq!(DropEffect::Popup.ordinal(), 4);
}

#[test]
fn blank_node_and_content_comparison() {
    let blank = Node::default();
    assert_eq!(blank.role, Role::Unknown);
    assert!(blank.children.is_empty());
    assert!(blank.name.is_none());
    assert!(!blank.hidden);
    assert!(blank.actions.is_empty());
    assert!(blank.content_eq(&Node::default()));
    let mut a = Node::default();
    a.role = Role::Button;
    a.name = Some("ok".to_string());
    a.children = vec![NodeId(2), NodeId(3)];
    a.character_positions = Some(vec![Float32(1.5f32.to_bits())]);
    a.custom_actions = vec![CustomAction { id: 1, description: "drag".to_string() }];
    a.invalid_state = Some(InvalidState::Other("late".to_string()));
    let b = a.clone();
    assert!(a.content_eq(&b));
    assert!(!a.content_eq(&blank));
    let mut c = a.clone();
    c.children = vec![NodeId(3), NodeId(2)];
    assert!(!a.content_eq(&c));
    let mut d = a.clone();
    d.name = Some("OK".to_string());
    assert!(!a.content_eq(&d));
    let mut e = a.clone();
    e.character_positions = Some(vec![Float32(2.5f32.to_bits())]);
    assert!(!a.content_eq(&e));
    let mut f = a.clone();
    f.custom_actions[0].description = "drop".to_string();
    assert!(!a.content_eq(&f));
    let mut g = a.clone();
    g.invalid_state = Some(InvalidState::True);
    assert!(!a.content_eq(&g));
    let mut h = a.clone();
    h.text_indent = Some(Float32(0));
    assert!(!a.content_eq(&h));
    assert_eq!(NodeId::from(7u64), NodeId(7));
    assert_eq!(Role::default(), Role::Unknown);
}
