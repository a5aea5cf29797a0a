use accesskit::bus::{
    address_from_environment, object_event_signal, window_event_signal, AppContext, EventData,
    ObjectAddress, ObjectEvent, ObjectId, ObjectRef, Property, WindowEvent,
    ACCESSIBLE_PATH_PREFIX, ROOT_PATH,
};
use accesskit::schema::{Float64, NodeId, Rect};

#[test]
fn new_app_context_is_not_registered() {
    let context = AppContext::new("editor".into(), "toolkit".into(), "1.2".into());
    assert_eq!(context.name, "editor");
    assert_eq!(context.toolkit_name, "toolkit");
    assert_eq!(context.toolkit_version, "1.2");
    assert_eq!(context.id, None);
    assert_eq!(context.desktop_address, None);
}

#[test]
fn object_paths() {
    assert_eq!(ObjectId::root().as_str(), "root");
    assert_eq!(ObjectId::root().path(), ROOT_PATH);
    assert_eq!(ObjectId::Node(NodeId(0)).as_str(), "0");
    assert_eq!(ObjectId::Node(NodeId(42)).as_str(), "42");
    assert_eq!(ObjectId::Node(NodeId(1907)).path(), "/org/a11y/atspi/accessible/1907");
    assert_eq!(
        ObjectId::Node(NodeId(u128::MAX)).path(),
        format!("{}340282366920938463463374607431768211455", ACCESSIBLE_PATH_PREFIX)
    );
}

#[test]
fn child_events() {
    let child = ObjectRef::Managed(ObjectId::Node(NodeId(7)));
    let s = object_event_signal(ObjectEvent::ChildAdded(3, child));
    assert_eq!(s.interface, "org.a11y.atspi.Event.Object");
    assert_eq!(s.member, "ChildrenChanged");
    assert_eq!(s.kind, "add");
    assert_eq!((s.detail1, s.detail2), (3, 0));
    assert_eq!(s.any_data, EventData::Object(ObjectRef::Managed(ObjectId::Node(NodeId(7)))));
    let other = ObjectRef::Unmanaged(ObjectAddress { bus_name: ":1.5".into(), path: "/x".into() });
    let s = object_event_signal(ObjectEvent::ChildRemoved(other));
    assert_eq!(s.member, "ChildrenChanged");
    assert_eq!(s.kind, "remove");
    assert_eq!((s.detail1, s.detail2), (-1, 0));
    assert_eq!(
        s.any_data,
        EventData::Object(ObjectRef::Unmanaged(ObjectAddress {
            bus_name: ":1.5".into(),
            path: "/x".into()
        }))
    );
}

#[test]
fn property_events() {
    let s = object_event_signal(ObjectEvent::PropertyChanged(Property::Name("ok".into())));
    assert_eq!(s.member, "PropertyChange");
    assert_eq!(s.kind, "accessible-name");
    assert_eq!((s.detail1, s.detail2), (0, 0));
    assert_eq!(s.any_data, EventData::Text("ok".into()));
    let s = object_event_signal(ObjectEvent::PropertyChanged(Property::Description("d".into())));
    assert_eq!(s.kind, "accessible-description");
    assert_eq!(s.any_data, EventData::Text("d".into()));
    let s = object_event_signal(ObjectEvent::PropertyChanged(Property::Parent(None)));
    assert_eq!(s.kind, "accessible-parent");
    assert_eq!(s.any_data, EventData::ApplicationRoot);
    let parent = ObjectRef::Managed(ObjectId::Root);
    let s = object_event_signal(ObjectEvent::PropertyChanged(Property::Parent(Some(parent))));
    assert_eq!(s.any_data, EventData::Object(ObjectRef::Managed(ObjectId::Root)));
    let s = object_event_signal(ObjectEvent::PropertyChanged(Property::Role(43)));
    assert_eq!(s.kind, "accessible-role");
    assert_eq!(s.any_data, EventData::U32(43));
    let half = Float64(0.5f64.to_bits());
    let s = object_event_signal(ObjectEvent::PropertyChanged(Property::Value(half)));
    assert_eq!(s.kind, "accessible-value");
    assert_eq!(s.any_data, EventData::Number(half));
}

#[test]
fn state_and_bounds_events() {
    let s = object_event_signal(ObjectEvent::StateChanged("focused".into(), true));
    assert_eq!(s.member, "StateChanged");
    assert_eq!(s.kind, "focused");
    assert_eq!((s.detail1, s.detail2), (1, 0));
    assert_eq!(s.any_data, EventData::I32(0));
    let s = object_event_signal(ObjectEvent::StateChanged("checked".into(), false));
    assert_eq!(s.detail1, 0);
    let zero = Float64(0f64.to_bits());
    let bounds = Rect { x0: zero, y0: zero, x1: Float64(10f64.to_bits()), y1: zero };
    let s = object_event_signal(ObjectEvent::BoundsChanged(bounds));
    assert_eq!(s.member, "BoundsChanged");
    assert_eq!(s.kind, "");
    assert_eq!((s.detail1, s.detail2), (0, 0));
    assert_eq!(s.any_data, EventData::Bounds(bounds));
}

#[test]
fn window_events() {
    let s = window_event_signal("main".into(), WindowEvent::Activated);
    assert_eq!(s.interface, "org.a11y.atspi.Event.Window");
    assert_eq!(s.member, "Activate");
    assert_eq!(s.kind, "");
    assert_eq!((s.detail1, s.detail2), (0, 0));
    assert_eq!(s.any_data, EventData::Text("main".into()));
    let s = window_event_signal("main".into(), WindowEvent::Deactivated);
    assert_eq!(s.member, "Deactivate");
}

#[test]
fn bus_address_from_the_environment() {
    assert_eq!(address_from_environment(None), None);
    assert_eq!(address_from_environment(Some(String::new())), None);
    assert_eq!(
        address_from_environment(Some("unix:path=/run/bus".into())),
        Some("unix:path=/run/bus".to_string())
    );
}
