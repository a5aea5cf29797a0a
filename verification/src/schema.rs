//! Value types shared by the producer of a tree and its consumers.

use vstd::prelude::*;
use std::sync::Arc;
use crate::node::Node;

verus! {

/// The type of an accessibility node.
///
/// The majority of these roles come from the ARIA specification. Reference
/// the latest draft for proper usage.
///
/// Like the AccessKit schema as a whole, this list is largely taken
/// from Chromium. However, unlike Chromium's alphabetized list, this list
/// is ordered roughly by expected usage frequency (with the notable exception
/// of [`Role::Unknown`]). This is more efficient in serialization formats
/// where integers use a variable-length encoding.
#[derive(Clone, Copy, Debug, PartialEq, Eq, Hash, Structural)]
pub enum Role {
    Unknown,
    InlineTextBox,
    Cell,
    StaticText,
    Image,
    Link,
    Row,
    ListItem,

    /// Contains the bullet, number, or other marker for a list item.
    ListMarker,

    TreeItem,
    ListBoxOption,
    MenuItem,
    MenuListOption,
    Paragraph,
    GenericContainer,

    /// Used for ARIA role="none"/"presentation" -- ignored in platform tree.
    Presentation,

    CheckBox,
    RadioButton,
    TextField,
    Button,
    LabelText,
    Pane,
    RowHeader,
    ColumnHeader,
    Column,
    RowGroup,
    List,
    Table,
    TableHeaderContainer,
    LayoutTableCell,
    LayoutTableRow,
    LayoutTable,
    Switch,
    ToggleButton,
    Menu,

    Abbr,
    Alert,
    AlertDialog,
    Application,
    Article,
    Audio,
    Banner,
    Blockquote,
    Canvas,
    Caption,
    Caret,
    Client,
    Code,
    ColorWell,
    ComboBoxGrouping,
    ComboBoxMenuButton,
    Complementary,
    Comment,
    ContentDeletion,
    ContentInsertion,
    ContentInfo,
    Date,
    DateTime,
    Definition,
    DescriptionList,
    DescriptionListDetail,
    DescriptionListTerm,
    Details,
    Dialog,
    Directory,
    DisclosureTriangle,
    Document,
    EmbeddedObject,
    Emphasis,
    Feed,
    FigureCaption,
    Figure,
    Footer,
    FooterAsNonLandmark,
    Form,
    Grid,
    Group,
    Header,
    HeaderAsNonLandmark,
    Heading,
    Iframe,
    IframePresentational,
    ImeCandidate,
    InputTime,
    Keyboard,
    Legend,
    LineBreak,
    ListBox,
    Log,
    Main,
    Mark,
    Marquee,
    Math,
    MenuBar,
    MenuItemCheckBox,
    MenuItemRadio,
    MenuListPopup,
    Meter,
    Navigation,
    Note,
    PluginObject,
    PopupButton,
    Portal,
    Pre,
    ProgressIndicator,
    RadioGroup,
    Region,
    RootWebArea,
    Ruby,
    RubyAnnotation,
    ScrollBar,
    ScrollView,
    Search,
    SearchBox,
    Section,
    Slider,
    SpinButton,
    Splitter,
    Status,
    Strong,
    Suggestion,
    SvgRoot,
    Tab,
    TabList,
    TabPanel,
    Term,
    TextFieldWithComboBox,
    Time,
    Timer,
    TitleBar,
    Toolbar,
    Tooltip,
    Tree,
    TreeGrid,
    Video,
    WebView,
    Window,

    PdfActionableHighlight,
    PdfRoot,

    // ARIA Graphics module roles:
    // https://rawgit.com/w3c/graphics-aam/master/#mapping_role_table
    GraphicsDocument,
    GraphicsObject,
    GraphicsSymbol,

    // DPub Roles:
    // https://www.w3.org/TR/dpub-aam-1.0/#mapping_role_table
    DocAbstract,
    DocAcknowledgements,
    DocAfterword,
    DocAppendix,
    DocBackLink,
    DocBiblioEntry,
    DocBibliography,
    DocBiblioRef,
    DocChapter,
    DocColophon,
    DocConclusion,
    DocCover,
    DocCredit,
    DocCredits,
    DocDedication,
    DocEndnote,
    DocEndnotes,
    DocEpigraph,
    DocEpilogue,
    DocErrata,
    DocExample,
    DocFootnote,
    DocForeword,
    DocGlossary,
    DocGlossRef,
    DocIndex,
    DocIntroduction,
    DocNoteRef,
    DocNotice,
    DocPageBreak,
    DocPageFooter,
    DocPageHeader,
    DocPageList,
    DocPart,
    DocPreface,
    DocPrologue,
    DocPullquote,
    DocQna,
    DocSubtitle,
    DocTip,
    DocToc,

    /// Behaves similar to an ARIA grid but is primarily used by Chromium's
    /// `TableView` and its subclasses, so they can be exposed correctly
    /// on certain platforms.
    ListGrid,
}

impl Default for Role {
    fn default() -> (r: Self)
        ensures
            r == Role::Unknown,
    {
        Self::Unknown
    }
}

/// An action to be taken on an accessibility node.
///
/// In contrast to [`DefaultActionVerb`], these describe what happens to the
/// object, e.g. "focus".
#[derive(Clone, Copy, Debug, PartialEq, Eq, Hash, Structural)]
pub enum Action {
    /// Do the default action for an object, typically this means "click".
    Default,

    Focus,
    Blur,

    Collapse,
    Expand,

    /// Requires [`ActionRequest::data`] to be set to [`ActionData::CustomAction`].
    CustomAction,

    /// Decrement a numeric value by one step.
    Decrement,
    /// Increment a numeric value by one step.
    Increment,

    HideTooltip,
    ShowTooltip,

    /// Request that the tree source invalidate its entire tree.
    InvalidateTree,

    /// Load inline text boxes for this subtree, providing information
    /// about word boundaries, line layout, and individual character
    /// bounding boxes.
    LoadInlineTextBoxes,

    /// Delete any selected text in the control's text value and
    /// insert the specified value in its place, like when typing or pasting.
    /// Requires [`ActionRequest::data`] to be set to [`ActionData::Value`].
    ReplaceSelectedText,

    // Scrolls by approximately one screen in a specific direction. Should be
    // called on a node that has scrollable boolean set to true.
    // TBD: Do we need a doc comment on each of the values below?
    // Or does this awkwardness suggest a refactor?
    ScrollBackward,
    ScrollDown,
    ScrollForward,
    ScrollLeft,
    ScrollRight,
    ScrollUp,

    /// Scroll any scrollable containers to make the target object visible
    /// on the screen.  Optionally set [`ActionRequest::data`] to
    /// [`ActionData::ScrollTargetRect`].
    ScrollIntoView,

    /// Scroll the given object to a specified point in the tree's container
    /// (e.g. window). Requires [`ActionRequest::data`] to be set to
    /// [`ActionData::ScrollToPoint`].
    ScrollToPoint,

    /// Requires [`ActionRequest::data`] to be set to [`ActionData::SetScrollOffset`].
    SetScrollOffset,

    /// Requires [`ActionRequest::data`] to be set to [`ActionData::SetTextSelection`].
    SetTextSelection,

    /// Don't focus this node, but set it as the sequential focus navigation
    /// starting point, so that pressing Tab moves to the next element
    /// following this one, for example.
    SetSequentialFocusNavigationStartingPoint,

    /// Replace the value of the control with the specified value and
    /// reset the selection, if applicable. Requires [`ActionRequest::data`]
    /// to be set to [`ActionData::Value`] or [`ActionData::NumericValue`].
    SetValue,

    ShowContextMenu,
}

#[derive(Clone, Copy, Debug, PartialEq, Eq, Hash, Structural)]
pub enum Orientation {
    /// E.g. most toolbars and separators.
    Horizontal,
    /// E.g. menu or combo box.
    Vertical,
}

#[derive(Clone, Copy, Debug, PartialEq, Eq, Hash, Structural)]
pub enum NameFrom {
    /// E.g. [`aria-label`].
    ///
    /// [`aria-label`]: https://www.w3.org/TR/wai-aria-1.1/#aria-label
    Attribute,
    AttributeExplicitlyEmpty,
    /// E.g. in the case of a table, from a `caption` element.
    Caption,
    Contents,
    /// E.g. from an HTML placeholder attribute on a text field.
    Placeholder,
    /// E.g. from a `figcaption` element in a figure.
    RelatedElement,
    /// E.g. `<input type="text" title="title">`.
    Title,
    /// E.g. `<input type="button" value="Button's name">`.
    Value,
}

#[derive(Clone, Copy, Debug, PartialEq, Eq, Hash, Structural)]
pub enum DescriptionFrom {
    AriaDescription,
    /// HTML-AAM 5.2.2
    ButtonLabel,
    RelatedElement,
    RubyAnnotation,
    /// HTML-AAM 5.8.2
    Summary,
    /// HTML-AAM 5.9.2
    TableCaption,
    Title,
}

/// Function that can be performed when a dragged object is released
/// on a drop target.
///
/// Note: [`aria-dropeffect`] is deprecated in WAI-ARIA 1.1.
///
/// [`aria-dropeffect`]: https://www.w3.org/TR/wai-aria-1.1/#aria-dropeffect
#[derive(Clone, Copy, Debug, PartialEq, Eq, Hash, Structural)]
pub enum DropEffect {
    Copy,
    Execute,
    Link,
    Move,
    Popup,
}

#[derive(Clone, Copy, Debug, PartialEq, Eq, Hash, Structural)]
pub enum TextDirection {
    LeftToRight,
    RightToLeft,
    TopToBottom,
    BottomToTop,
}

/// Indicates if a form control has invalid input or if a web DOM element has an
/// [`aria-invalid`] attribute.
///
/// [`aria-invalid`]: https://www.w3.org/TR/wai-aria-1.1/#aria-invalid
#[derive(Clone, Debug, PartialEq, Eq)]
pub enum InvalidState {
    False,
    True,
    Other(String),
}

#[derive(Clone, Copy, Debug, PartialEq, Eq, Hash, Structural)]
pub enum CheckedState {
    False,
    True,
    Mixed,
}

/// Describes the action that will be performed on a given node when
/// executing the default action, which is a click.
///
/// In contrast to [`Action`], these describe what the user can do on the
/// object, e.g. "press", not what happens to the object as a result.
/// Only one verb can be used at a time to describe the default action.
#[derive(Clone, Copy, Debug, PartialEq, Eq, Hash, Structural)]
pub enum DefaultActionVerb {
    Click,
    Focus,
    Check,
    Uncheck,
    /// A click will be performed on one of the node's ancestors.
    /// This happens when the node itself is not clickable, but one of its
    /// ancestors has click handlers attached which are able to capture the click
    /// as it bubbles up.
    ClickAncestor,
    Jump,
    Open,
    Press,
    Select,
}

#[derive(Clone, Copy, Debug, PartialEq, Eq, Hash, Structural)]
pub enum SortDirection {
    Unsorted,
    Ascending,
    Descending,
    Other,
}

#[derive(Clone, Copy, Debug, PartialEq, Eq, Hash, Structural)]
pub enum AriaCurrent {
    False,
    True,
    Page,
    Step,
    Location,
    Date,
    Time,
}

#[derive(Clone, Copy, Debug, PartialEq, Eq, Hash, Structural)]
pub enum Live {
    Off,
    Polite,
    Assertive,
}

#[derive(Clone, Copy, Debug, PartialEq, Eq, Hash, Structural)]
pub enum HasPopup {
    True,
    Menu,
    Listbox,
    Tree,
    Grid,
    Dialog,
}

#[derive(Clone, Copy, Debug, PartialEq, Eq, Hash, Structural)]
pub enum ListStyle {
    Circle,
    Disc,
    Image,
    Numeric,
    Square,
    /// Language specific ordering (alpha, roman, cjk-ideographic, etc...)
    Other,
}

#[derive(Clone, Copy, Debug, PartialEq, Eq, Hash, Structural)]
pub enum TextAlign {
    Left,
    Right,
    Center,
    Justify,
}

#[derive(Clone, Copy, Debug, PartialEq, Eq, Hash, Structural)]
pub enum VerticalOffset {
    Subscript,
    Superscript,
}

#[derive(Clone, Copy, Debug, PartialEq, Eq, Hash, Structural)]
pub enum TextDecoration {
    Solid,
    Dotted,
    Dashed,
    Double,
    Wavy,
}

impl Action {
    /// The position of this variant in the declaration, counted from zero.
    pub open spec fn ordinal_spec(self) -> u32 {
        match self {
            Action::Default => 0,
            Action::Focus => 1,
            Action::Blur => 2,
            Action::Collapse => 3,
            Action::Expand => 4,
            Action::CustomAction => 5,
            Action::Decrement => 6,
            Action::Increment => 7,
            Action::HideTooltip => 8,
            Action::ShowTooltip => 9,
            Action::InvalidateTree => 10,
            Action::LoadInlineTextBoxes => 11,
            Action::ReplaceSelectedText => 12,
            Action::ScrollBackward => 13,
            Action::ScrollDown => 14,
            Action::ScrollForward => 15,
            Action::ScrollLeft => 16,
            Action::ScrollRight => 17,
            Action::ScrollUp => 18,
            Action::ScrollIntoView => 19,
            Action::ScrollToPoint => 20,
            Action::SetScrollOffset => 21,
            Action::SetTextSelection => 22,
            Action::SetSequentialFocusNavigationStartingPoint => 23,
            Action::SetValue => 24,
            Action::ShowContextMenu => 25,
        }
    }

    /// The position of this variant in the declaration, counted from zero.
    #[verifier::when_used_as_spec(ordinal_spec)]
    pub fn ordinal(self) -> (r: u32)
        ensures
            r == self.ordinal_spec(),
            r < 26,
    {
        match self {
            Action::Default => 0,
            Action::Focus => 1,
            Action::Blur => 2,
            Action::Collapse => 3,
            Action::Expand => 4,
            Action::CustomAction => 5,
            Action::Decrement => 6,
            Action::Increment => 7,
            Action::HideTooltip => 8,
            Action::ShowTooltip => 9,
            Action::InvalidateTree => 10,
            Action::LoadInlineTextBoxes => 11,
            Action::ReplaceSelectedText => 12,
            Action::ScrollBackward => 13,
            Action::ScrollDown => 14,
            Action::ScrollForward => 15,
            Action::ScrollLeft => 16,
            Action::ScrollRight => 17,
            Action::ScrollUp => 18,
            Action::ScrollIntoView => 19,
            Action::ScrollToPoint => 20,
            Action::SetScrollOffset => 21,
            Action::SetTextSelection => 22,
            Action::SetSequentialFocusNavigationStartingPoint => 23,
            Action::SetValue => 24,
            Action::ShowContextMenu => 25,
        }
    }
}

impl DropEffect {
    /// The position of this variant in the declaration, counted from zero.
    pub open spec fn ordinal_spec(self) -> u32 {
        match self {
            DropEffect::Copy => 0,
            DropEffect::Execute => 1,
            DropEffect::Link => 2,
            DropEffect::Move => 3,
            DropEffect::Popup => 4,
        }
    }

    /// The position of this variant in the declaration, counted from zero.
    #[verifier::when_used_as_spec(ordinal_spec)]
    pub fn ordinal(self) -> (r: u32)
        ensures
            r == self.ordinal_spec(),
            r < 5,
    {
        match self {
            DropEffect::Copy => 0,
            DropEffect::Execute => 1,
            DropEffect::Link => 2,
            DropEffect::Move => 3,
            DropEffect::Popup => 4,
        }
    }
}

impl Action {
    /// The variant at position `n` of the declaration; the last one for any
    /// `n` past the end.
    pub open spec fn from_ordinal(n: u32) -> Action {
        match n {
            0 => Action::Default,
            1 => Action::Focus,
            2 => Action::Blur,
            3 => Action::Collapse,
            4 => Action::Expand,
            5 => Action::CustomAction,
            6 => Action::Decrement,
            7 => Action::Increment,
            8 => Action::HideTooltip,
            9 => Action::ShowTooltip,
            10 => Action::InvalidateTree,
            11 => Action::LoadInlineTextBoxes,
            12 => Action::ReplaceSelectedText,
            13 => Action::ScrollBackward,
            14 => Action::ScrollDown,
            15 => Action::ScrollForward,
            16 => Action::ScrollLeft,
            17 => Action::ScrollRight,
            18 => Action::ScrollUp,
            19 => Action::ScrollIntoView,
            20 => Action::ScrollToPoint,
            21 => Action::SetScrollOffset,
            22 => Action::SetTextSelection,
            23 => Action::SetSequentialFocusNavigationStartingPoint,
            24 => Action::SetValue,
            _ => Action::ShowContextMenu,
        }
    }

    /// A variant is found again from its ordinal.
    pub proof fn lemma_ordinal_round_trip(v: Action)
        ensures
            v.ordinal_spec() < 26,
            Action::from_ordinal(v.ordinal_spec()) == v,
    {
    }
}

impl DropEffect {
    /// The variant at position `n` of the declaration; the last one for any
    /// `n` past the end.
    pub open spec fn from_ordinal(n: u32) -> DropEffect {
        match n {
            0 => DropEffect::Copy,
            1 => DropEffect::Execute,
            2 => DropEffect::Link,
            3 => DropEffect::Move,
            _ => DropEffect::Popup,
        }
    }

    /// A variant is found again from its ordinal.
    pub proof fn lemma_ordinal_round_trip(v: DropEffect)
        ensures
            v.ordinal_spec() < 5,
            DropEffect::from_ordinal(v.ordinal_spec()) == v,
    {
    }
}

/// The raw value of a [`NodeId`]. It is 128 bits wide so that it can hold
/// a UUID.
pub type NodeIdContent = u128;

/// The stable identity of a [`Node`], unique within the node's tree.
#[derive(Clone, Copy, Debug, PartialEq, Eq, Hash, Structural)]
pub struct NodeId(pub NodeIdContent);

impl From<u64> for NodeId {
    fn from(inner: u64) -> (r: Self)
        ensures
            r == NodeId(inner as u128),
    {
        NodeId(inner as u128)
    }
}

impl vstd::std_specs::convert::FromSpecImpl<u64> for NodeId {
    open spec fn obeys_from_spec() -> bool {
        true
    }

    open spec fn from_spec(inner: u64) -> Self {
        NodeId(inner as u128)
    }
}

/// Defines a custom action for a UI element.
///
/// For example, a list UI can allow a user to reorder items in the list by dragging the
/// items.
#[derive(Clone, Debug, PartialEq, Eq)]
pub struct CustomAction {
    pub id: i32,
    pub description: String,
}

impl View for CustomAction {
    type V = (i32, Seq<char>);

    open spec fn view(&self) -> (i32, Seq<char>) {
        (self.id, self.description@)
    }
}

/// Tells whether a flag is unset, so that an encoder can leave it out.
pub fn is_false(b: &bool) -> (r: bool)
    ensures
        r == !*b,
{
    !*b
}

/// Tells whether a slice holds nothing, so that an encoder can leave it out.
pub fn is_empty<T>(slice: &[T]) -> (r: bool)
    ensures
        r == (slice@.len() == 0),
{
    slice.len() == 0
}

#[derive(Clone, Copy, Debug, PartialEq, Eq, Structural)]
pub struct TextPosition {
    /// The node's role must be [`Role::InlineTextBox`].
    pub node: NodeId,
    /// The index of an item in [`Node::character_lengths`], or the length
    /// of that slice if the position is at the end of the line.
    pub character_index: usize,
}

#[derive(Clone, Copy, Debug, PartialEq, Eq, Structural)]
pub struct TextSelection {
    /// The position where the selection started, and which does not change
    /// as the selection is expanded or contracted. If there is no selection
    /// but only a caret, this must be equal to [`focus`]. This is also known
    /// as a degenerate selection.
    ///
    /// [`focus`]: TextSelection::focus
    pub anchor: TextPosition,
    /// The active end of the selection, which changes as the selection
    /// is expanded or contracted, or the position of the caret if there is
    /// no selection.
    pub focus: TextPosition,
}

/// A single-precision number, held as its IEEE 754 bit pattern. The tree
/// stores and compares such numbers and never computes with them.
#[derive(Clone, Copy, Debug, PartialEq, Eq, Hash, Structural)]
pub struct Float32(pub u32);

/// A double-precision number, held as its IEEE 754 bit pattern. The tree
/// stores and compares such numbers and never computes with them.
#[derive(Clone, Copy, Debug, PartialEq, Eq, Hash, Structural)]
pub struct Float64(pub u64);

/// A point in the plane.
#[derive(Clone, Copy, Debug, PartialEq, Eq, Hash, Structural)]
pub struct Point {
    pub x: Float64,
    pub y: Float64,
}

/// A rectangle, given by two opposite corners.
#[derive(Clone, Copy, Debug, PartialEq, Eq, Hash, Structural)]
pub struct Rect {
    pub x0: Float64,
    pub y0: Float64,
    pub x1: Float64,
    pub y1: Float64,
}

/// An affine transform of the plane, given by the six coefficients of its
/// matrix in column-major order.
#[derive(Clone, Copy, Debug, PartialEq, Eq, Hash, Structural)]
pub struct Affine {
    pub xx: Float64,
    pub yx: Float64,
    pub xy: Float64,
    pub yy: Float64,
    pub dx: Float64,
    pub dy: Float64,
}

/// The data associated with an accessibility tree that's global to the
/// tree and not associated with any particular node.
#[derive(Clone, Copy, Debug, PartialEq, Eq, Structural)]
pub struct Tree {
    pub root: NodeId,
    /// The node that's used as the root scroller, if any. On some platforms
    /// like Android we need to ignore accessibility scroll offsets for
    /// that node and get them from the viewport instead.
    pub root_scroller: Option<NodeId>,
}

impl Tree {
    pub fn new(root: NodeId) -> (r: Tree)
        ensures
            r.root == root,
            r.root_scroller.is_none(),
    {
        Tree { root, root_scroller: None }
    }
}

/// An atomic change to a tree.
///
/// The sender and receiver must be in sync; the update is only meant
/// to bring the tree from a specific previous state into its next state.
/// An update that does not fit the tree it is applied to is rejected as
/// a whole.
///
/// Note that for performance, an update should only include nodes that are
/// new or changed. Platform adapters will avoid raising extraneous
/// events for nodes that have not changed since the previous update,
/// but there is still a cost in processing these nodes and replacing
/// the previous instances.
#[derive(Clone, Debug)]
pub struct TreeUpdate {
    /// Zero or more new or updated nodes. Order doesn't matter.
    ///
    /// Each node in this list will overwrite any existing node with the same ID.
    /// This means that when updating a node, fields that are unchanged
    /// from the previous version must still be set to the same values
    /// as before.
    ///
    /// It is an error for any node in this list to not be either the root
    /// or a child of another node. For nodes other than the root, the parent
    /// must be either an unchanged node already in the tree, or another node
    /// in this list.
    ///
    /// To add a child to the tree, the list must include both the child
    /// and an updated version of the parent with the child's ID added to
    /// [`Node::children`].
    ///
    /// To remove a child and all of its descendants, this list must include
    /// an updated version of the parent node with the child's ID removed
    /// from [`Node::children`]. Neither the child nor any of its descendants
    /// may be included in this list.
    pub nodes: Vec<(NodeId, Arc<Node>)>,
    /// Rarely updated information about the tree as a whole. This may be omitted
    /// if it has not changed since the previous update, but providing the same
    /// information again is also allowed. This is required when initializing
    /// a tree.
    pub tree: Option<Tree>,
    /// The node with keyboard focus within this tree, if any.
    /// The most recent focus, if any, must be provided with every tree update.
    ///
    /// This field must contain a value if and only if the native host
    /// (e.g. window) currently has the keyboard focus. This implies
    /// that the provider must track the native focus state
    /// and send matching tree updates. Rationale: A robust GUI toolkit
    /// must do this native focus tracking anyway in order to correctly
    /// render widgets (e.g. to draw or not draw a focus rectangle),
    /// so this focus tracking should not be duplicated between the toolkit
    /// and the platform adapters.
    pub focus: Option<NodeId>,
}

impl Default for TreeUpdate {
    fn default() -> (r: Self)
        ensures
            r.nodes@.len() == 0,
            r.tree.is_none(),
            r.focus.is_none(),
    {
        TreeUpdate { nodes: Vec::new(), tree: None, focus: None }
    }
}

#[derive(Clone, Debug, PartialEq, Eq)]
pub enum ActionData {
    CustomAction(i32),
    Value(String),
    NumericValue(Float64),
    /// Optional target rectangle for [`Action::ScrollIntoView`], in
    /// the coordinate space of the action's target node.
    ScrollTargetRect(Rect),
    /// Target for [`Action::ScrollToPoint`], in platform-native coordinates
    /// relative to the origin of the tree's container (e.g. window).
    ScrollToPoint(Point),
    /// Target for [`Action::SetScrollOffset`], in the coordinate space
    /// of the action's target node.
    SetScrollOffset(Point),
    SetTextSelection(TextSelection),
}

#[derive(Clone, Debug, PartialEq, Eq)]
pub struct ActionRequest {
    pub action: Action,
    pub target: NodeId,
    pub data: Option<ActionData>,
}

/// Handles requests from assistive technologies or other clients.
pub trait ActionHandler: Send + Sync {
    /// Perform the requested action. If the requested action is not supported,
    /// this method must do nothing.
    ///
    /// This method may be called on any thread. In particular, on platforms
    /// with a designated UI thread, this method may or may not be called
    /// on that thread. Implementations must correctly handle both cases.
    ///
    /// This method may queue the request and handle it asynchronously.
    /// This behavior is preferred over blocking, e.g. when dispatching
    /// the request to another thread.
    fn do_action(&self, request: ActionRequest);
}

} // verus!
