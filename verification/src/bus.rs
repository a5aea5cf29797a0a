//! What the adapter for the accessibility bus sends: the signals that
//! stand for the events of an object, and the paths under which objects
//! are known on the bus.

use vstd::prelude::*;
use crate::schema::{Float64, NodeId, Rect};

verus! {

/// The path under which every object of an application is found.
pub const ACCESSIBLE_PATH_PREFIX: &'static str = "/org/a11y/atspi/accessible/";

/// The path of the root object of an application.
pub const ROOT_PATH: &'static str = "/org/a11y/atspi/accessible/root";

/// The interface of the signals of an object.
pub const OBJECT_EVENT_INTERFACE: &'static str = "org.a11y.atspi.Event.Object";

/// The interface of the signals of a window.
pub const WINDOW_EVENT_INTERFACE: &'static str = "org.a11y.atspi.Event.Window";

/// The address of an object on the bus: the name of the connection that
/// owns it, and its path there.
#[derive(Debug, PartialEq, Eq)]
pub struct ObjectAddress {
    pub bus_name: String,
    pub path: String,
}

/// What an application tells the bus about itself.
pub struct AppContext {
    pub name: String,
    pub toolkit_name: String,
    pub toolkit_version: String,
    /// The number that the registry gave the application, once it has one.
    pub id: Option<i32>,
    /// The address of the desktop that the application is embedded in,
    /// once it is.
    pub desktop_address: Option<ObjectAddress>,
}

impl AppContext {
    pub fn new(name: String, toolkit_name: String, toolkit_version: String) -> (r: Self)
        ensures
            r.name == name,
            r.toolkit_name == toolkit_name,
            r.toolkit_version == toolkit_version,
            r.id.is_none(),
            r.desktop_address.is_none(),
    {
        Self { name, toolkit_name, toolkit_version, id: None, desktop_address: None }
    }
}

/// An object of the application: its root, or the object of a node.
#[derive(Clone, Copy, Debug, PartialEq, Eq, Structural)]
pub enum ObjectId {
    Root,
    Node(NodeId),
}

/// A reference to an object: one of this application, or one of another
/// by its address.
#[derive(Debug, PartialEq, Eq)]
pub enum ObjectRef {
    Managed(ObjectId),
    Unmanaged(ObjectAddress),
}

/// A property of an object, with its new value.
#[derive(Debug, PartialEq, Eq)]
pub enum Property {
    Name(String),
    Description(String),
    Parent(Option<ObjectRef>),
    /// The role, by its number on the bus.
    Role(u32),
    Value(Float64),
}

/// Something that happened to an object.
#[derive(Debug, PartialEq, Eq)]
pub enum ObjectEvent {
    BoundsChanged(Rect),
    /// A child came, at this index.
    ChildAdded(usize, ObjectRef),
    ChildRemoved(ObjectRef),
    PropertyChanged(Property),
    /// The state with this name was set or cleared.
    StateChanged(String, bool),
}

/// Something that happened to a window.
#[derive(Clone, Copy, Debug, PartialEq, Eq, Structural)]
pub enum WindowEvent {
    Activated,
    Deactivated,
}

/// The value that a signal carries.
#[derive(Debug, PartialEq, Eq)]
pub enum EventData {
    Bounds(Rect),
    Object(ObjectRef),
    /// The root object of this application.
    ApplicationRoot,
    Text(String),
    U32(u32),
    Number(Float64),
    I32(i32),
}

/// A signal as it goes out: the interface and the member that name it,
/// and its body.
#[derive(Debug, PartialEq, Eq)]
pub struct Signal {
    pub interface: &'static str,
    pub member: &'static str,
    pub kind: String,
    pub detail1: i32,
    pub detail2: i32,
    pub any_data: EventData,
}

/// The decimal digit that stands for `d`.
pub open spec fn digit(d: nat) -> char {
    if d == 0 {
        '0'
    } else if d == 1 {
        '1'
    } else if d == 2 {
        '2'
    } else if d == 3 {
        '3'
    } else if d == 4 {
        '4'
    } else if d == 5 {
        '5'
    } else if d == 6 {
        '6'
    } else if d == 7 {
        '7'
    } else if d == 8 {
        '8'
    } else {
        '9'
    }
}

/// The decimal digits of `n`, without leading zeros.
pub open spec fn decimal_digits(n: nat) -> Seq<char>
    decreases n,
{
    if n < 10 {
        seq![digit(n)]
    } else {
        decimal_digits(n / 10).push(digit(n % 10))
    }
}

/// `ToString::to_string` on a `u128`: the number in decimal digits,
/// without sign and without leading zeros.
#[verifier::external_body]
fn decimal(n: u128) -> (r: String)
    ensures
        r@ == decimal_digits(n as nat),
{
    n.to_string()
}

/// `format!` with two strings: the one followed by the other.
#[verifier::external_body]
fn join(a: &str, b: &str) -> (r: String)
    ensures
        r@ == a@ + b@,
{
    format!("{}{}", a, b)
}

impl ObjectId {
    /// The root object.
    pub fn root() -> (r: ObjectId)
        ensures
            r == ObjectId::Root,
    {
        ObjectId::Root
    }

    /// The name of the object in its path: `root` for the root, the
    /// identifier of the node in decimal digits for the object of a node.
    pub open spec fn name(self) -> Seq<char> {
        match self {
            ObjectId::Root => "root"@,
            ObjectId::Node(id) => decimal_digits(id.0 as nat),
        }
    }

    /// The name of the object in its path.
    pub fn as_str(&self) -> (r: String)
        ensures
            r@ == self.name(),
    {
        match self {
            ObjectId::Root => "root".to_owned(),
            ObjectId::Node(id) => decimal(id.0),
        }
    }

    /// The path of the object on the bus.
    pub fn path(&self) -> (r: String)
        ensures
            r@ == ACCESSIBLE_PATH_PREFIX@ + self.name(),
    {
        let name = self.as_str();
        join(ACCESSIBLE_PATH_PREFIX, name.as_str())
    }
}

/// The member of the object interface that carries `event`.
pub open spec fn object_member(event: ObjectEvent) -> &'static str {
    match event {
        ObjectEvent::BoundsChanged(_) => "BoundsChanged",
        ObjectEvent::ChildAdded(_, _) => "ChildrenChanged",
        ObjectEvent::ChildRemoved(_) => "ChildrenChanged",
        ObjectEvent::PropertyChanged(_) => "PropertyChange",
        ObjectEvent::StateChanged(_, _) => "StateChanged",
    }
}

/// The name under which a property is announced.
pub open spec fn property_name(property: Property) -> &'static str {
    match property {
        Property::Name(_) => "accessible-name",
        Property::Description(_) => "accessible-description",
        Property::Parent(_) => "accessible-parent",
        Property::Role(_) => "accessible-role",
        Property::Value(_) => "accessible-value",
    }
}

/// What the body of the signal for `event` says: its kind, its two
/// details, and whether it carries the value of `data`.
pub open spec fn is_object_signal(event: ObjectEvent, signal: Signal) -> bool {
    &&& signal.interface@ == OBJECT_EVENT_INTERFACE@
    &&& signal.member@ == object_member(event)@
    &&& signal.detail2 == 0
    &&& match event {
        ObjectEvent::BoundsChanged(bounds) => {
            &&& signal.kind@ == ""@
            &&& signal.detail1 == 0
            &&& signal.any_data == EventData::Bounds(bounds)
        },
        ObjectEvent::ChildAdded(index, child) => {
            &&& signal.kind@ == "add"@
            &&& signal.detail1 == #[verifier::truncate]
            (index as i32)
            &&& signal.any_data == EventData::Object(child)
        },
        ObjectEvent::ChildRemoved(child) => {
            &&& signal.kind@ == "remove"@
            &&& signal.detail1 == -1
            &&& signal.any_data == EventData::Object(child)
        },
        ObjectEvent::PropertyChanged(property) => {
            &&& signal.kind@ == property_name(property)@
            &&& signal.detail1 == 0
            &&& signal.any_data == match property {
                Property::Name(value) => EventData::Text(value),
                Property::Description(value) => EventData::Text(value),
                Property::Parent(Some(parent)) => EventData::Object(parent),
                Property::Parent(None) => EventData::ApplicationRoot,
                Property::Role(value) => EventData::U32(value),
                Property::Value(value) => EventData::Number(value),
            }
        },
        ObjectEvent::StateChanged(state, value) => {
            &&& signal.kind@ == state@
            &&& signal.detail1 == if value {
                1i32
            } else {
                0i32
            }
            &&& signal.any_data == EventData::I32(0)
        },
    }
}

/// The signal that tells the bus of `event`.
pub fn object_event_signal(event: ObjectEvent) -> (signal: Signal)
    ensures
        is_object_signal(event, signal),
{
    let interface = OBJECT_EVENT_INTERFACE;
    match event {
        ObjectEvent::BoundsChanged(bounds) => Signal {
            interface,
            member: "BoundsChanged",
            kind: "".to_owned(),
            detail1: 0,
            detail2: 0,
            any_data: EventData::Bounds(bounds),
        },
        ObjectEvent::ChildAdded(index, child) => Signal {
            interface,
            member: "ChildrenChanged",
            kind: "add".to_owned(),
            detail1: #[verifier::truncate]
            (index as i32),
            detail2: 0,
            any_data: EventData::Object(child),
        },
        ObjectEvent::ChildRemoved(child) => Signal {
            interface,
            member: "ChildrenChanged",
            kind: "remove".to_owned(),
            detail1: -1,
            detail2: 0,
            any_data: EventData::Object(child),
        },
        ObjectEvent::PropertyChanged(property) => {
            let (kind, any_data) = match property {
                Property::Name(value) => ("accessible-name", EventData::Text(value)),
                Property::Description(value) => ("accessible-description", EventData::Text(value)),
                Property::Parent(Some(parent)) => ("accessible-parent", EventData::Object(parent)),
                Property::Parent(None) => ("accessible-parent", EventData::ApplicationRoot),
                Property::Role(value) => ("accessible-role", EventData::U32(value)),
                Property::Value(value) => ("accessible-value", EventData::Number(value)),
            };
            Signal {
                interface,
                member: "PropertyChange",
                kind: kind.to_owned(),
                detail1: 0,
                detail2: 0,
                any_data,
            }
        },
        ObjectEvent::StateChanged(state, value) => Signal {
            interface,
            member: "StateChanged",
            kind: state,
            detail1: if value {
                1
            } else {
                0
            },
            detail2: 0,
            any_data: EventData::I32(0),
        },
    }
}

/// The member of the window interface that carries `event`.
pub open spec fn window_member(event: WindowEvent) -> &'static str {
    match event {
        WindowEvent::Activated => "Activate",
        WindowEvent::Deactivated => "Deactivate",
    }
}

/// The signal that tells the bus of `event` on the window with the name
/// `window_name`.
pub fn window_event_signal(window_name: String, event: WindowEvent) -> (signal: Signal)
    ensures
        signal.interface@ == WINDOW_EVENT_INTERFACE@,
        signal.member@ == window_member(event)@,
        signal.kind@ == ""@,
        signal.detail1 == 0,
        signal.detail2 == 0,
        signal.any_data == EventData::Text(window_name),
{
    let member = match event {
        WindowEvent::Activated => "Activate",
        WindowEvent::Deactivated => "Deactivate",
    };
    Signal {
        interface: WINDOW_EVENT_INTERFACE,
        member,
        kind: "".to_owned(),
        detail1: 0,
        detail2: 0,
        any_data: EventData::Text(window_name),
    }
}

/// The address of the accessibility bus that the environment names, if it
/// names one: a value that is set and not empty.
pub fn address_from_environment(value: Option<String>) -> (r: Option<String>)
    ensures
        r == match value {
            Some(address) => if address@.len() > 0 {
                Some(address)
            } else {
                None
            },
            None => None,
        },
{
    match value {
        Some(address) => if !address.as_str().is_empty() {
            Some(address)
        } else {
            None
        },
        None => None,
    }
}

} // verus!
