//! The node of an accessibility tree.

use vstd::prelude::*;
use crate::schema::{
    Affine, AriaCurrent, CheckedState, CustomAction, DefaultActionVerb, DescriptionFrom,
    Float32, Float64, HasPopup, InvalidState, ListStyle, Live, NameFrom, NodeId, Orientation,
    Rect, Role, SortDirection, TextAlign, TextDecoration, TextDirection, TextSelection,
    VerticalOffset,
};
use crate::sets::{ActionSet, DropEffectSet};

verus! {

/// A single accessible object. A complete UI is represented as a tree of these.
#[derive(Clone, Debug)]
pub struct Node {
    pub role: Role,
    /// An affine transform to apply to any coordinates within this node
    /// and its descendants, including the [`bounds`] field of this node.
    /// The combined transforms of this node and its ancestors define
    /// the coordinate space of this node. This field should be `None`
    /// if it would be set to the identity transform, which should be
    /// the case for most nodes.
    ///
    /// The tree expects the final transformed coordinates to be relative
    /// to the origin of the tree's container (e.g. window), in physical
    /// pixels, with the y coordinate being top-down.
    ///
    /// [`bounds`]: Node::bounds
    pub transform: Option<Affine>,
    /// The bounding box of this node, in the node's coordinate space.
    /// This field does not affect the coordinate space of either this node
    /// or its descendants; only the [`transform`] field affects that.
    /// This, along with the recommendation that most nodes should have `None`
    /// in their [`transform`] field, implies that the `bounds` field
    /// of most nodes should be in the coordinate space of the nearest ancestor
    /// with a non-`None` [`transform`] field, or if there is no such ancestor,
    /// the tree's container (e.g. window).
    ///
    /// [`transform`]: Node::transform
    pub bounds: Option<Rect>,
    pub children: Vec<NodeId>,
    /// Unordered set of actions supported by this node.
    pub actions: ActionSet,
    pub name: Option<String>,
    /// What information was used to compute the object's name.
    pub name_from: Option<NameFrom>,
    pub description: Option<String>,
    /// What information was used to compute the object's description.
    pub description_from: Option<DescriptionFrom>,
    pub value: Option<String>,
    pub autofill_available: bool,
    /// Whether this node is expanded, collapsed, or neither.
    ///
    /// Setting this to `false` means the node is collapsed; omitting it means this state
    /// isn't applicable.
    pub expanded: Option<bool>,
    pub default: bool,
    pub editable: bool,
    pub focusable: bool,
    pub orientation: Option<Orientation>,
    pub hovered: bool,
    /// Exclude this node and its descendants from the tree presented to
    /// assistive technologies, and from hit testing.
    pub hidden: bool,
    pub linked: bool,
    pub multiline: bool,
    pub multiselectable: bool,
    pub protected: bool,
    pub required: bool,
    pub visited: bool,
    pub busy: bool,
    /// The object functions as a text field which exposes its descendants.
    ///
    /// Use cases include the root of a content-editable region, an ARIA
    /// textbox which isn't currently editable and which has interactive
    /// descendants, and a `<body>` element that has "design-mode" set to "on".
    pub nonatomic_text_field_root: bool,
    pub live_atomic: bool,
    /// If a dialog box is marked as explicitly modal.
    pub modal: bool,
    /// Set on a canvas element if it has fallback content.
    pub canvas_has_fallback: bool,
    /// Indicates this node is user-scrollable, e.g. `overflow: scroll|auto`, as
    /// opposed to only programmatically scrollable, like `overflow: hidden`, or
    /// not scrollable at all, e.g. `overflow: visible`.
    pub scrollable: bool,
    /// A hint to clients that the node is clickable.
    pub clickable: bool,
    /// Indicates that this node clips its children, i.e. may have
    /// `overflow: hidden` or clip children by default.
    pub clips_children: bool,
    /// Indicates that this node is not selectable because the style has
    /// `user-select: none`. Note that there may be other reasons why a node is
    /// not selectable - for example, bullets in a list. However, this attribute
    /// is only set on `user-select: none`.
    pub not_user_selectable_style: bool,
    /// Indicates whether this node is selected or unselected.
    ///
    /// The absence of this flag (as opposed to a `false` setting)
    /// means that the concept of "selected" doesn't apply.
    /// When deciding whether to set the flag to false or omit it,
    /// consider whether it would be appropriate for a screen reader
    /// to announce "not selected". The ambiguity of this flag
    /// in platform accessibility APIs has made extraneous
    /// "not selected" announcements a common annoyance.
    pub selected: Option<bool>,
    /// Indicates whether this node is selected due to selection follows focus.
    pub selected_from_focus: bool,
    /// Indicates whether this node can be grabbed for drag-and-drop operation.
    ///
    /// Setting this flag to `false` rather than omitting it means that
    /// this node is not currently grabbed but it can be.
    ///
    /// Note: [`aria-grabbed`] is deprecated in WAI-ARIA 1.1.
    ///
    /// [`aria-grabbed`]: https://www.w3.org/TR/wai-aria-1.1/#aria-grabbed
    pub grabbed: Option<bool>,
    /// Note: [`aria-dropeffect`] is deprecated in WAI-ARIA 1.1.
    ///
    /// [`aria-dropeffect`]: https://www.w3.org/TR/wai-aria-1.1/#aria-dropeffect
    pub drop_effects: DropEffectSet,
    /// Indicates whether this node causes a hard line-break
    /// (e.g. block level elements, or `<br>`).
    pub is_line_breaking_object: bool,
    /// Indicates whether this node causes a page break.
    pub is_page_breaking_object: bool,
    /// True if the node has any ARIA attributes set.
    pub has_aria_attribute: bool,
    /// This element allows touches to be passed through when a screen reader
    /// is in touch exploration mode, e.g. a virtual keyboard normally
    /// behaves this way.
    pub touch_pass_through: bool,
    /// Ids of nodes that are children of this node logically, but are
    /// not children of this node in the tree structure. As an example,
    /// a table cell is a child of a row, and an 'indirect' child of a
    /// column.
    pub indirect_children: Vec<NodeId>,
    pub active_descendant: Option<NodeId>,
    pub error_message: Option<NodeId>,
    pub in_page_link_target: Option<NodeId>,
    pub member_of: Option<NodeId>,
    pub next_on_line: Option<NodeId>,
    pub previous_on_line: Option<NodeId>,
    pub popup_for: Option<NodeId>,
    pub controls: Vec<NodeId>,
    pub details: Vec<NodeId>,
    pub described_by: Vec<NodeId>,
    pub flow_to: Vec<NodeId>,
    pub labelled_by: Vec<NodeId>,
    /// On radio buttons this should be set to a list of all of the buttons
    /// in the same group as this one, including this radio button itself.
    pub radio_group: Vec<NodeId>,
    pub is_spelling_error: bool,
    pub is_grammar_error: bool,
    pub is_search_match: bool,
    pub is_suggestion: bool,
    pub text_direction: Option<TextDirection>,
    /// For inline text. The length (non-inclusive) of each character
    /// in UTF-8 code units (bytes). The sum of these lengths must equal
    /// the length of [`Node::value`], also in bytes.
    ///
    /// A character is defined as the smallest unit of text that
    /// can be selected. This isn't necessarily a single Unicode
    /// scalar value (code point). This is why the tree can't compute
    /// the lengths of the characters from the text itself; this information
    /// must be provided by the text editing implementation.
    ///
    /// If this node is the last text box in a line that ends with a hard
    /// line break, that line break should be included at the end of this
    /// node's value as either a CRLF or LF; in both cases, the line break
    /// should be counted as a single character for the sake of this slice.
    /// When the caret is at the end of such a line, the focus of the text
    /// selection should be on the line break, not after it.
    pub character_lengths: Vec<u8>,
    /// For inline text. This is the position of each character within
    /// the node's bounding box, in the direction given by
    /// [`Node::text_direction`], in the coordinate space of this node.
    ///
    /// When present, the length of this slice should be the same as the length
    /// of [`Node::character_lengths`], including for lines that end
    /// with a hard line break. The position of such a line break should
    /// be the position where an end-of-paragraph marker would be rendered.
    ///
    /// This field is optional. Without it, the tree can't support some
    /// use cases, such as screen magnifiers that track the caret position
    /// or screen readers that display a highlight cursor. However,
    /// most text functionality still works without this information.
    pub character_positions: Option<Vec<Float32>>,
    /// For inline text. This is the advance width of each character,
    /// in the direction given by [`Node::text_direction`], in the coordinate
    /// space of this node.
    ///
    /// When present, the length of this slice should be the same as the length
    /// of [`Node::character_lengths`], including for lines that end
    /// with a hard line break. The width of such a line break should
    /// be non-zero if selecting the line break by itself results in
    /// a visible highlight (as in Microsoft Word), or zero if not
    /// (as in Windows Notepad).
    ///
    /// This field is optional. Without it, the tree can't support some
    /// use cases, such as screen magnifiers that track the caret position
    /// or screen readers that display a highlight cursor. However,
    /// most text functionality still works without this information.
    pub character_widths: Option<Vec<Float32>>,
    /// For inline text. The length of each word in characters, as defined
    /// in [`Node::character_lengths`]. The sum of these lengths must equal
    /// the length of [`Node::character_lengths`].
    ///
    /// The end of each word is the beginning of the next word; there are no
    /// characters that are not considered part of a word. Trailing whitespace
    /// is typically considered part of the word that precedes it, while
    /// a line's leading whitespace is considered its own word. Whether
    /// punctuation is considered a separate word or part of the preceding
    /// word depends on the particular text editing implementation.
    /// Some editors may have their own definition of a word; for example,
    /// in an IDE, words may correspond to programming language tokens.
    ///
    /// Not all assistive technologies require information about word
    /// boundaries, and not all platform accessibility APIs even expose
    /// this information, but for assistive technologies that do use
    /// this information, users will get unpredictable results if the word
    /// boundaries exposed by the accessibility tree don't match
    /// the editor's behavior. This is why the tree does not determine
    /// word boundaries itself.
    pub word_lengths: Vec<u8>,
    pub custom_actions: Vec<CustomAction>,
    pub access_key: Option<String>,
    pub invalid_state: Option<InvalidState>,
    pub auto_complete: Option<String>,
    pub checked_state: Option<CheckedState>,
    pub checked_state_description: Option<String>,
    pub class_name: Option<String>,
    pub css_display: Option<String>,
    /// Only present when different from parent.
    pub font_family: Option<String>,
    pub html_tag: Option<String>,
    /// Inner HTML of an element. Only used for a top-level math element,
    /// to support third-party math accessibility products that parse MathML.
    pub inner_html: Option<String>,
    pub input_type: Option<String>,
    pub key_shortcuts: Option<String>,
    /// Only present when different from parent.
    pub language: Option<String>,
    pub live_relevant: Option<String>,
    pub live: Option<Live>,
    /// Only if not already exposed in [`Node::name`] ([`NameFrom::Placeholder`]).
    pub placeholder: Option<String>,
    pub aria_role: Option<String>,
    pub role_description: Option<String>,
    /// Only if not already exposed in [`Node::name`] ([`NameFrom::Title`]).
    pub tooltip: Option<String>,
    pub url: Option<String>,
    pub default_action_verb: Option<DefaultActionVerb>,
    pub scroll_x: Option<Float32>,
    pub scroll_x_min: Option<Float32>,
    pub scroll_x_max: Option<Float32>,
    pub scroll_y: Option<Float32>,
    pub scroll_y_min: Option<Float32>,
    pub scroll_y_max: Option<Float32>,
    pub text_selection: Option<TextSelection>,
    pub aria_column_count: Option<usize>,
    pub aria_cell_column_index: Option<usize>,
    pub aria_cell_column_span: Option<usize>,
    pub aria_row_count: Option<usize>,
    pub aria_cell_row_index: Option<usize>,
    pub aria_cell_row_span: Option<usize>,
    pub table_row_count: Option<usize>,
    pub table_column_count: Option<usize>,
    pub table_header: Option<NodeId>,
    pub table_row_index: Option<usize>,
    pub table_row_header: Option<NodeId>,
    pub table_column_index: Option<usize>,
    pub table_column_header: Option<NodeId>,
    pub table_cell_column_index: Option<usize>,
    pub table_cell_column_span: Option<usize>,
    pub table_cell_row_index: Option<usize>,
    pub table_cell_row_span: Option<usize>,
    pub sort_direction: Option<SortDirection>,
    /// Tree control attributes.
    pub hierarchical_level: Option<usize>,
    /// Use for a textbox that allows focus/selection but not input.
    pub read_only: bool,
    /// Use for a control or group of controls that disallows input.
    pub disabled: bool,
    pub set_size: Option<usize>,
    pub pos_in_set: Option<usize>,
    /// For [`Role::ColorWell`], specifies the selected color in RGBA.
    pub color_value: Option<u32>,
    pub aria_current: Option<AriaCurrent>,
    /// Background color in RGBA.
    pub background_color: Option<u32>,
    /// Foreground color in RGBA.
    pub foreground_color: Option<u32>,
    pub has_popup: Option<HasPopup>,
    /// The list style type. Only available on list items.
    pub list_style: Option<ListStyle>,
    pub text_align: Option<TextAlign>,
    pub vertical_offset: Option<VerticalOffset>,
    pub bold: bool,
    pub italic: bool,
    pub overline: Option<TextDecoration>,
    pub strikethrough: Option<TextDecoration>,
    pub underline: Option<TextDecoration>,
    pub previous_focus: Option<NodeId>,
    pub next_focus: Option<NodeId>,
    pub numeric_value: Option<Float64>,
    pub min_numeric_value: Option<Float64>,
    pub max_numeric_value: Option<Float64>,
    pub numeric_value_step: Option<Float64>,
    pub numeric_value_jump: Option<Float64>,
    /// Font size is in pixels.
    pub font_size: Option<Float32>,
    /// Font weight can take on any arbitrary numeric value. Increments of 100 in
    /// range `[0, 900]` represent keywords such as light, normal, bold, etc.
    pub font_weight: Option<Float32>,
    /// The text indent of the text, in mm.
    pub text_indent: Option<Float32>,
}

impl Node {
    /// Whether every field has its default: the role is unknown, every flag
    /// is unset, every list and set is empty and every optional value is
    /// absent.
    pub open spec fn is_blank(&self) -> bool {
        &&& self.role == Role::Unknown
        &&& self.transform.is_none()
        &&& self.bounds.is_none()
        &&& self.children@.len() == 0
        &&& self.actions@ == Set::<crate::schema::Action>::empty()
        &&& self.name.is_none()
        &&& self.name_from.is_none()
        &&& self.description.is_none()
        &&& self.description_from.is_none()
        &&& self.value.is_none()
        &&& !self.autofill_available
        &&& self.expanded.is_none()
        &&& !self.default
        &&& !self.editable
        &&& !self.focusable
        &&& self.orientation.is_none()
        &&& !self.hovered
        &&& !self.hidden
        &&& !self.linked
        &&& !self.multiline
        &&& !self.multiselectable
        &&& !self.protected
        &&& !self.required
        &&& !self.visited
        &&& !self.busy
        &&& !self.nonatomic_text_field_root
        &&& !self.live_atomic
        &&& !self.modal
        &&& !self.canvas_has_fallback
        &&& !self.scrollable
        &&& !self.clickable
        &&& !self.clips_children
        &&& !self.not_user_selectable_style
        &&& self.selected.is_none()
        &&& !self.selected_from_focus
        &&& self.grabbed.is_none()
        &&& self.drop_effects@ == Set::<crate::schema::DropEffect>::empty()
        &&& !self.is_line_breaking_object
        &&& !self.is_page_breaking_object
        &&& !self.has_aria_attribute
        &&& !self.touch_pass_through
        &&& self.indirect_children@.len() == 0
        &&& self.active_descendant.is_none()
        &&& self.error_message.is_none()
        &&& self.in_page_link_target.is_none()
        &&& self.member_of.is_none()
        &&& self.next_on_line.is_none()
        &&& self.previous_on_line.is_none()
        &&& self.popup_for.is_none()
        &&& self.controls@.len() == 0
        &&& self.details@.len() == 0
        &&& self.described_by@.len() == 0
        &&& self.flow_to@.len() == 0
        &&& self.labelled_by@.len() == 0
        &&& self.radio_group@.len() == 0
        &&& !self.is_spelling_error
        &&& !self.is_grammar_error
        &&& !self.is_search_match
        &&& !self.is_suggestion
        &&& self.text_direction.is_none()
        &&& self.character_lengths@.len() == 0
        &&& self.character_positions.is_none()
        &&& self.character_widths.is_none()
        &&& self.word_lengths@.len() == 0
        &&& self.custom_actions@.len() == 0
        &&& self.access_key.is_none()
        &&& self.invalid_state.is_none()
        &&& self.auto_complete.is_none()
        &&& self.checked_state.is_none()
        &&& self.checked_state_description.is_none()
        &&& self.class_name.is_none()
        &&& self.css_display.is_none()
        &&& self.font_family.is_none()
        &&& self.html_tag.is_none()
        &&& self.inner_html.is_none()
        &&& self.input_type.is_none()
        &&& self.key_shortcuts.is_none()
        &&& self.language.is_none()
        &&& self.live_relevant.is_none()
        &&& self.live.is_none()
        &&& self.placeholder.is_none()
        &&& self.aria_role.is_none()
        &&& self.role_description.is_none()
        &&& self.tooltip.is_none()
        &&& self.url.is_none()
        &&& self.default_action_verb.is_none()
        &&& self.scroll_x.is_none()
        &&& self.scroll_x_min.is_none()
        &&& self.scroll_x_max.is_none()
        &&& self.scroll_y.is_none()
        &&& self.scroll_y_min.is_none()
        &&& self.scroll_y_max.is_none()
        &&& self.text_selection.is_none()
        &&& self.aria_column_count.is_none()
        &&& self.aria_cell_column_index.is_none()
        &&& self.aria_cell_column_span.is_none()
        &&& self.aria_row_count.is_none()
        &&& self.aria_cell_row_index.is_none()
        &&& self.aria_cell_row_span.is_none()
        &&& self.table_row_count.is_none()
        &&& self.table_column_count.is_none()
        &&& self.table_header.is_none()
        &&& self.table_row_index.is_none()
        &&& self.table_row_header.is_none()
        &&& self.table_column_index.is_none()
        &&& self.table_column_header.is_none()
        &&& self.table_cell_column_index.is_none()
        &&& self.table_cell_column_span.is_none()
        &&& self.table_cell_row_index.is_none()
        &&& self.table_cell_row_span.is_none()
        &&& self.sort_direction.is_none()
        &&& self.hierarchical_level.is_none()
        &&& !self.read_only
        &&& !self.disabled
        &&& self.set_size.is_none()
        &&& self.pos_in_set.is_none()
        &&& self.color_value.is_none()
        &&& self.aria_current.is_none()
        &&& self.background_color.is_none()
        &&& self.foreground_color.is_none()
        &&& self.has_popup.is_none()
        &&& self.list_style.is_none()
        &&& self.text_align.is_none()
        &&& self.vertical_offset.is_none()
        &&& !self.bold
        &&& !self.italic
        &&& self.overline.is_none()
        &&& self.strikethrough.is_none()
        &&& self.underline.is_none()
        &&& self.previous_focus.is_none()
        &&& self.next_focus.is_none()
        &&& self.numeric_value.is_none()
        &&& self.min_numeric_value.is_none()
        &&& self.max_numeric_value.is_none()
        &&& self.numeric_value_step.is_none()
        &&& self.numeric_value_jump.is_none()
        &&& self.font_size.is_none()
        &&& self.font_weight.is_none()
        &&& self.text_indent.is_none()
    }

    /// Whether `self` and `other` agree, by value, on the fields from `role` to `value`.
    pub open spec fn same_part_1(&self, other: &Node) -> bool {
        &&& self.role == other.role
        &&& self.transform == other.transform
        &&& self.bounds == other.bounds
        &&& self.children@ == other.children@
        &&& self.actions == other.actions
        &&& text_of(self.name) == text_of(other.name)
        &&& self.name_from == other.name_from
        &&& text_of(self.description) == text_of(other.description)
        &&& self.description_from == other.description_from
        &&& text_of(self.value) == text_of(other.value)
    }

    /// Whether `self` and `other` agree, by value, on the fields from `autofill_available` to `multiline`.
    pub open spec fn same_part_2(&self, other: &Node) -> bool {
        &&& self.autofill_available == other.autofill_available
        &&& self.expanded == other.expanded
        &&& self.default == other.default
        &&& self.editable == other.editable
        &&& self.focusable == other.focusable
        &&& self.orientation == other.orientation
        &&& self.hovered == other.hovered
        &&& self.hidden == other.hidden
        &&& self.linked == other.linked
        &&& self.multiline == other.multiline
    }

    /// Whether `self` and `other` agree, by value, on the fields from `multiselectable` to `scrollable`.
    pub open spec fn same_part_3(&self, other: &Node) -> bool {
        &&& self.multiselectable == other.multiselectable
        &&& self.protected == other.protected
        &&& self.required == other.required
        &&& self.visited == other.visited
        &&& self.busy == other.busy
        &&& self.nonatomic_text_field_root == other.nonatomic_text_field_root
        &&& self.live_atomic == other.live_atomic
        &&& self.modal == other.modal
        &&& self.canvas_has_fallback == other.canvas_has_fallback
        &&& self.scrollable == other.scrollable
    }

    /// Whether `self` and `other` agree, by value, on the fields from `clickable` to `has_aria_attribute`.
    pub open spec fn same_part_4(&self, other: &Node) -> bool {
        &&& self.clickable == other.clickable
        &&& self.clips_children == other.clips_children
        &&& self.not_user_selectable_style == other.not_user_selectable_style
        &&& self.selected == other.selected
        &&& self.selected_from_focus == other.selected_from_focus
        &&& self.grabbed == other.grabbed
        &&& self.drop_effects == other.drop_effects
        &&& self.is_line_breaking_object == other.is_line_breaking_object
        &&& self.is_page_breaking_object == other.is_page_breaking_object
        &&& self.has_aria_attribute == other.has_aria_attribute
    }

    /// Whether `self` and `other` agree, by value, on the fields from `touch_pass_through` to `controls`.
    pub open spec fn same_part_5(&self, other: &Node) -> bool {
        &&& self.touch_pass_through == other.touch_pass_through
        &&& self.indirect_children@ == other.indirect_children@
        &&& self.active_descendant == other.active_descendant
        &&& self.error_message == other.error_message
        &&& self.in_page_link_target == other.in_page_link_target
        &&& self.member_of == other.member_of
        &&& self.next_on_line == other.next_on_line
        &&& self.previous_on_line == other.previous_on_line
        &&& self.popup_for == other.popup_for
        &&& self.controls@ == other.controls@
    }

    /// Whether `self` and `other` agree, by value, on the fields from `details` to `text_direction`.
    pub open spec fn same_part_6(&self, other: &Node) -> bool {
        &&& self.details@ == other.details@
        &&& self.described_by@ == other.described_by@
        &&& self.flow_to@ == other.flow_to@
        &&& self.labelled_by@ == other.labelled_by@
        &&& self.radio_group@ == other.radio_group@
        &&& self.is_spelling_error == other.is_spelling_error
        &&& self.is_grammar_error == other.is_grammar_error
        &&& self.is_search_match == other.is_search_match
        &&& self.is_suggestion == other.is_suggestion
        &&& self.text_direction == other.text_direction
    }

    /// Whether `self` and `other` agree, by value, on the fields from `character_lengths` to `checked_state_description`.
    pub open spec fn same_part_7(&self, other: &Node) -> bool {
        &&& self.character_lengths@ == other.character_lengths@
        &&& numbers_of(self.character_positions) == numbers_of(other.character_positions)
        &&& numbers_of(self.character_widths) == numbers_of(other.character_widths)
        &&& self.word_lengths@ == other.word_lengths@
        &&& custom_actions_of(self.custom_actions) == custom_actions_of(other.custom_actions)
        &&& text_of(self.access_key) == text_of(other.access_key)
        &&& invalid_state_of(self.invalid_state) == invalid_state_of(other.invalid_state)
        &&& text_of(self.auto_complete) == text_of(other.auto_complete)
        &&& self.checked_state == other.checked_state
        &&& text_of(self.checked_state_description) == text_of(other.checked_state_description)
    }

    /// Whether `self` and `other` agree, by value, on the fields from `class_name` to `live`.
    pub open spec fn same_part_8(&self, other: &Node) -> bool {
        &&& text_of(self.class_name) == text_of(other.class_name)
        &&& text_of(self.css_display) == text_of(other.css_display)
        &&& text_of(self.font_family) == text_of(other.font_family)
        &&& text_of(self.html_tag) == text_of(other.html_tag)
        &&& text_of(self.inner_html) == text_of(other.inner_html)
        &&& text_of(self.input_type) == text_of(other.input_type)
        &&& text_of(self.key_shortcuts) == text_of(other.key_shortcuts)
        &&& text_of(self.language) == text_of(other.language)
        &&& text_of(self.live_relevant) == text_of(other.live_relevant)
        &&& self.live == other.live
    }

    /// Whether `self` and `other` agree, by value, on the fields from `placeholder` to `scroll_y`.
    pub open spec fn same_part_9(&self, other: &Node) -> bool {
        &&& text_of(self.placeholder) == text_of(other.placeholder)
        &&& text_of(self.aria_role) == text_of(other.aria_role)
        &&& text_of(self.role_description) == text_of(other.role_description)
        &&& text_of(self.tooltip) == text_of(other.tooltip)
        &&& text_of(self.url) == text_of(other.url)
        &&& self.default_action_verb == other.default_action_verb
        &&& self.scroll_x == other.scroll_x
        &&& self.scroll_x_min == other.scroll_x_min
        &&& self.scroll_x_max == other.scroll_x_max
        &&& self.scroll_y == other.scroll_y
    }

    /// Whether `self` and `other` agree, by value, on the fields from `scroll_y_min` to `table_row_count`.
    pub open spec fn same_part_10(&self, other: &Node) -> bool {
        &&& self.scroll_y_min == other.scroll_y_min
        &&& self.scroll_y_max == other.scroll_y_max
        &&& self.text_selection == other.text_selection
        &&& self.aria_column_count == other.aria_column_count
        &&& self.aria_cell_column_index == other.aria_cell_column_index
        &&& self.aria_cell_column_span == other.aria_cell_column_span
        &&& self.aria_row_count == other.aria_row_count
        &&& self.aria_cell_row_index == other.aria_cell_row_index
        &&& self.aria_cell_row_span == other.aria_cell_row_span
        &&& self.table_row_count == other.table_row_count
    }

    /// Whether `self` and `other` agree, by value, on the fields from `table_column_count` to `table_cell_row_span`.
    pub open spec fn same_part_11(&self, other: &Node) -> bool {
        &&& self.table_column_count == other.table_column_count
        &&& self.table_header == other.table_header
        &&& self.table_row_index == other.table_row_index
        &&& self.table_row_header == other.table_row_header
        &&& self.table_column_index == other.table_column_index
        &&& self.table_column_header == other.table_column_header
        &&& self.table_cell_column_index == other.table_cell_column_index
        &&& self.table_cell_column_span == other.table_cell_column_span
        &&& self.table_cell_row_index == other.table_cell_row_index
        &&& self.table_cell_row_span == other.table_cell_row_span
    }

    /// Whether `self` and `other` agree, by value, on the fields from `sort_direction` to `foreground_color`.
    pub open spec fn same_part_12(&self, other: &Node) -> bool {
        &&& self.sort_direction == other.sort_direction
        &&& self.hierarchical_level == other.hierarchical_level
        &&& self.read_only == other.read_only
        &&& self.disabled == other.disabled
        &&& self.set_size == other.set_size
        &&& self.pos_in_set == other.pos_in_set
        &&& self.color_value == other.color_value
        &&& self.aria_current == other.aria_current
        &&& self.background_color == other.background_color
        &&& self.foreground_color == other.foreground_color
    }

    /// Whether `self` and `other` agree, by value, on the fields from `has_popup` to `previous_focus`.
    pub open spec fn same_part_13(&self, other: &Node) -> bool {
        &&& self.has_popup == other.has_popup
        &&& self.list_style == other.list_style
        &&& self.text_align == other.text_align
        &&& self.vertical_offset == other.vertical_offset
        &&& self.bold == other.bold
        &&& self.italic == other.italic
        &&& self.overline == other.overline
        &&& self.strikethrough == other.strikethrough
        &&& self.underline == other.underline
        &&& self.previous_focus == other.previous_focus
    }

    /// Whether `self` and `other` agree, by value, on the fields from `next_focus` to `text_indent`.
    pub open spec fn same_part_14(&self, other: &Node) -> bool {
        &&& self.next_focus == other.next_focus
        &&& self.numeric_value == other.numeric_value
        &&& self.min_numeric_value == other.min_numeric_value
        &&& self.max_numeric_value == other.max_numeric_value
        &&& self.numeric_value_step == other.numeric_value_step
        &&& self.numeric_value_jump == other.numeric_value_jump
        &&& self.font_size == other.font_size
        &&& self.font_weight == other.font_weight
        &&& self.text_indent == other.text_indent
    }

    /// Whether `self` and `other` have the same content: every field of the
    /// one equals, by value, the same field of the other.
    pub open spec fn same_content(&self, other: &Node) -> bool {
        &&& self.same_part_1(other)
        &&& self.same_part_2(other)
        &&& self.same_part_3(other)
        &&& self.same_part_4(other)
        &&& self.same_part_5(other)
        &&& self.same_part_6(other)
        &&& self.same_part_7(other)
        &&& self.same_part_8(other)
        &&& self.same_part_9(other)
        &&& self.same_part_10(other)
        &&& self.same_part_11(other)
        &&& self.same_part_12(other)
        &&& self.same_part_13(other)
        &&& self.same_part_14(other)
    }

    fn part_1_eq(&self, other: &Node) -> (r: bool)
        ensures
            r == self.same_part_1(other),
    {
        self.role == other.role
            && self.transform == other.transform
            && self.bounds == other.bounds
            && same_ids(&self.children, &other.children)
            && self.actions == other.actions
            && same_text(&self.name, &other.name)
            && self.name_from == other.name_from
            && same_text(&self.description, &other.description)
            && self.description_from == other.description_from
            && same_text(&self.value, &other.value)
    }

    fn part_2_eq(&self, other: &Node) -> (r: bool)
        ensures
            r == self.same_part_2(other),
    {
        self.autofill_available == other.autofill_available
            && self.expanded == other.expanded
            && self.default == other.default
            && self.editable == other.editable
            && self.focusable == other.focusable
            && self.orientation == other.orientation
            && self.hovered == other.hovered
            && self.hidden == other.hidden
            && self.linked == other.linked
            && self.multiline == other.multiline
    }

    fn part_3_eq(&self, other: &Node) -> (r: bool)
        ensures
            r == self.same_part_3(other),
    {
        self.multiselectable == other.multiselectable
            && self.protected == other.protected
            && self.required == other.required
            && self.visited == other.visited
            && self.busy == other.busy
            && self.nonatomic_text_field_root == other.nonatomic_text_field_root
            && self.live_atomic == other.live_atomic
            && self.modal == other.modal
            && self.canvas_has_fallback == other.canvas_has_fallback
            && self.scrollable == other.scrollable
    }

    fn part_4_eq(&self, other: &Node) -> (r: bool)
        ensures
            r == self.same_part_4(other),
    {
        self.clickable == other.clickable
            && self.clips_children == other.clips_children
            && self.not_user_selectable_style == other.not_user_selectable_style
            && self.selected == other.selected
            && self.selected_from_focus == other.selected_from_focus
            && self.grabbed == other.grabbed
            && self.drop_effects == other.drop_effects
            && self.is_line_breaking_object == other.is_line_breaking_object
            && self.is_page_breaking_object == other.is_page_breaking_object
            && self.has_aria_attribute == other.has_aria_attribute
    }

    fn part_5_eq(&self, other: &Node) -> (r: bool)
        ensures
            r == self.same_part_5(other),
    {
        self.touch_pass_through == other.touch_pass_through
            && same_ids(&self.indirect_children, &other.indirect_children)
            && self.active_descendant == other.active_descendant
            && self.error_message == other.error_message
            && self.in_page_link_target == other.in_page_link_target
            && self.member_of == other.member_of
            && self.next_on_line == other.next_on_line
            && self.previous_on_line == other.previous_on_line
            && self.popup_for == other.popup_for
            && same_ids(&self.controls, &other.controls)
    }

    fn part_6_eq(&self, other: &Node) -> (r: bool)
        ensures
            r == self.same_part_6(other),
    {
        same_ids(&self.details, &other.details)
            && same_ids(&self.described_by, &other.described_by)
            && same_ids(&self.flow_to, &other.flow_to)
            && same_ids(&self.labelled_by, &other.labelled_by)
            && same_ids(&self.radio_group, &other.radio_group)
            && self.is_spelling_error == other.is_spelling_error
            && self.is_grammar_error == other.is_grammar_error
            && self.is_search_match == other.is_search_match
            && self.is_suggestion == other.is_suggestion
            && self.text_direction == other.text_direction
    }

    fn part_7_eq(&self, other: &Node) -> (r: bool)
        ensures
            r == self.same_part_7(other),
    {
        same_bytes(&self.character_lengths, &other.character_lengths)
            && same_numbers(&self.character_positions, &other.character_positions)
            && same_numbers(&self.character_widths, &other.character_widths)
            && same_bytes(&self.word_lengths, &other.word_lengths)
            && same_custom_actions(&self.custom_actions, &other.custom_actions)
            && same_text(&self.access_key, &other.access_key)
            && same_invalid_state(&self.invalid_state, &other.invalid_state)
            && same_text(&self.auto_complete, &other.auto_complete)
            && self.checked_state == other.checked_state
            && same_text(&self.checked_state_description, &other.checked_state_description)
    }

    fn part_8_eq(&self, other: &Node) -> (r: bool)
        ensures
            r == self.same_part_8(other),
    {
        same_text(&self.class_name, &other.class_name)
            && same_text(&self.css_display, &other.css_display)
            && same_text(&self.font_family, &other.font_family)
            && same_text(&self.html_tag, &other.html_tag)
            && same_text(&self.inner_html, &other.inner_html)
            && same_text(&self.input_type, &other.input_type)
            && same_text(&self.key_shortcuts, &other.key_shortcuts)
            && same_text(&self.language, &other.language)
            && same_text(&self.live_relevant, &other.live_relevant)
            && self.live == other.live
    }

    fn part_9_eq(&self, other: &Node) -> (r: bool)
        ensures
            r == self.same_part_9(other),
    {
        same_text(&self.placeholder, &other.placeholder)
            && same_text(&self.aria_role, &other.aria_role)
            && same_text(&self.role_description, &other.role_description)
            && same_text(&self.tooltip, &other.tooltip)
            && same_text(&self.url, &other.url)
            && self.default_action_verb == other.default_action_verb
            && self.scroll_x == other.scroll_x
            && self.scroll_x_min == other.scroll_x_min
            && self.scroll_x_max == other.scroll_x_max
            && self.scroll_y == other.scroll_y
    }

    fn part_10_eq(&self, other: &Node) -> (r: bool)
        ensures
            r == self.same_part_10(other),
    {
        self.scroll_y_min == other.scroll_y_min
            && self.scroll_y_max == other.scroll_y_max
            && self.text_selection == other.text_selection
            && self.aria_column_count == other.aria_column_count
            && self.aria_cell_column_index == other.aria_cell_column_index
            && self.aria_cell_column_span == other.aria_cell_column_span
            && self.aria_row_count == other.aria_row_count
            && self.aria_cell_row_index == other.aria_cell_row_index
            && self.aria_cell_row_span == other.aria_cell_row_span
            && self.table_row_count == other.table_row_count
    }

    fn part_11_eq(&self, other: &Node) -> (r: bool)
        ensures
            r == self.same_part_11(other),
    {
        self.table_column_count == other.table_column_count
            && self.table_header == other.table_header
            && self.table_row_index == other.table_row_index
            && self.table_row_header == other.table_row_header
            && self.table_column_index == other.table_column_index
            && self.table_column_header == other.table_column_header
            && self.table_cell_column_index == other.table_cell_column_index
            && self.table_cell_column_span == other.table_cell_column_span
            && self.table_cell_row_index == other.table_cell_row_index
            && self.table_cell_row_span == other.table_cell_row_span
    }

    fn part_12_eq(&self, other: &Node) -> (r: bool)
        ensures
            r == self.same_part_12(other),
    {
        self.sort_direction == other.sort_direction
            && self.hierarchical_level == other.hierarchical_level
            && self.read_only == other.read_only
            && self.disabled == other.disabled
            && self.set_size == other.set_size
            && self.pos_in_set == other.pos_in_set
            && self.color_value == other.color_value
            && self.aria_current == other.aria_current
            && self.background_color == other.background_color
            && self.foreground_color == other.foreground_color
    }

    fn part_13_eq(&self, other: &Node) -> (r: bool)
        ensures
            r == self.same_part_13(other),
    {
        self.has_popup == other.has_popup
            && self.list_style == other.list_style
            && self.text_align == other.text_align
            && self.vertical_offset == other.vertical_offset
            && self.bold == other.bold
            && self.italic == other.italic
            && self.overline == other.overline
            && self.strikethrough == other.strikethrough
            && self.underline == other.underline
            && self.previous_focus == other.previous_focus
    }

    fn part_14_eq(&self, other: &Node) -> (r: bool)
        ensures
            r == self.same_part_14(other),
    {
        self.next_focus == other.next_focus
            && self.numeric_value == other.numeric_value
            && self.min_numeric_value == other.min_numeric_value
            && self.max_numeric_value == other.max_numeric_value
            && self.numeric_value_step == other.numeric_value_step
            && self.numeric_value_jump == other.numeric_value_jump
            && self.font_size == other.font_size
            && self.font_weight == other.font_weight
            && self.text_indent == other.text_indent
    }

    /// Compares two nodes by value.
    pub fn content_eq(&self, other: &Node) -> (r: bool)
        ensures
            r == self.same_content(other),
    {
        self.part_1_eq(other)
            && self.part_2_eq(other)
            && self.part_3_eq(other)
            && self.part_4_eq(other)
            && self.part_5_eq(other)
            && self.part_6_eq(other)
            && self.part_7_eq(other)
            && self.part_8_eq(other)
            && self.part_9_eq(other)
            && self.part_10_eq(other)
            && self.part_11_eq(other)
            && self.part_12_eq(other)
            && self.part_13_eq(other)
            && self.part_14_eq(other)
    }
}

impl Default for Node {
    fn default() -> (r: Self)
        ensures
            r.is_blank(),
    {
        Node {
            role: Role::Unknown,
            transform: None,
            bounds: None,
            children: Vec::new(),
            actions: ActionSet::new(),
            name: None,
            name_from: None,
            description: None,
            description_from: None,
            value: None,
            autofill_available: false,
            expanded: None,
            default: false,
            editable: false,
            focusable: false,
            orientation: None,
            hovered: false,
            hidden: false,
            linked: false,
            multiline: false,
            multiselectable: false,
            protected: false,
            required: false,
            visited: false,
            busy: false,
            nonatomic_text_field_root: false,
            live_atomic: false,
            modal: false,
            canvas_has_fallback: false,
            scrollable: false,
            clickable: false,
            clips_children: false,
            not_user_selectable_style: false,
            selected: None,
            selected_from_focus: false,
            grabbed: None,
            drop_effects: DropEffectSet::new(),
            is_line_breaking_object: false,
            is_page_breaking_object: false,
            has_aria_attribute: false,
            touch_pass_through: false,
            indirect_children: Vec::new(),
            active_descendant: None,
            error_message: None,
            in_page_link_target: None,
            member_of: None,
            next_on_line: None,
            previous_on_line: None,
            popup_for: None,
            controls: Vec::new(),
            details: Vec::new(),
            described_by: Vec::new(),
            flow_to: Vec::new(),
            labelled_by: Vec::new(),
            radio_group: Vec::new(),
            is_spelling_error: false,
            is_grammar_error: false,
            is_search_match: false,
            is_suggestion: false,
            text_direction: None,
            character_lengths: Vec::new(),
            character_positions: None,
            character_widths: None,
            word_lengths: Vec::new(),
            custom_actions: Vec::new(),
            access_key: None,
            invalid_state: None,
            auto_complete: None,
            checked_state: None,
            checked_state_description: None,
            class_name: None,
            css_display: None,
            font_family: None,
            html_tag: None,
            inner_html: None,
            input_type: None,
            key_shortcuts: None,
            language: None,
            live_relevant: None,
            live: None,
            placeholder: None,
            aria_role: None,
            role_description: None,
            tooltip: None,
            url: None,
            default_action_verb: None,
            scroll_x: None,
            scroll_x_min: None,
            scroll_x_max: None,
            scroll_y: None,
            scroll_y_min: None,
            scroll_y_max: None,
            text_selection: None,
            aria_column_count: None,
            aria_cell_column_index: None,
            aria_cell_column_span: None,
            aria_row_count: None,
            aria_cell_row_index: None,
            aria_cell_row_span: None,
            table_row_count: None,
            table_column_count: None,
            table_header: None,
            table_row_index: None,
            table_row_header: None,
            table_column_index: None,
            table_column_header: None,
            table_cell_column_index: None,
            table_cell_column_span: None,
            table_cell_row_index: None,
            table_cell_row_span: None,
            sort_direction: None,
            hierarchical_level: None,
            read_only: false,
            disabled: false,
            set_size: None,
            pos_in_set: None,
            color_value: None,
            aria_current: None,
            background_color: None,
            foreground_color: None,
            has_popup: None,
            list_style: None,
            text_align: None,
            vertical_offset: None,
            bold: false,
            italic: false,
            overline: None,
            strikethrough: None,
            underline: None,
            previous_focus: None,
            next_focus: None,
            numeric_value: None,
            min_numeric_value: None,
            max_numeric_value: None,
            numeric_value_step: None,
            numeric_value_jump: None,
            font_size: None,
            font_weight: None,
            text_indent: None,
        }
    }
}
/// The characters of an optional string.
pub open spec fn text_of(s: Option<String>) -> Option<Seq<char>> {
    match s {
        Some(s) => Some(s@),
        None => None,
    }
}

/// The items of an optional list of numbers.
pub open spec fn numbers_of(v: Option<Vec<Float32>>) -> Option<Seq<Float32>> {
    match v {
        Some(v) => Some(v@),
        None => None,
    }
}

/// The custom actions of a list, each as its identifier and the characters
/// of its description.
pub open spec fn custom_actions_of(v: Vec<CustomAction>) -> Seq<(i32, Seq<char>)> {
    Seq::new(v@.len(), |i: int| v@[i]@)
}

/// An optional validity state with the characters of its text, if it has one.
/// The outer option tells whether there is a state, the inner pair which.
pub open spec fn invalid_state_of(s: Option<InvalidState>) -> Option<(int, Seq<char>)> {
    match s {
        None => None,
        Some(InvalidState::False) => Some((0, Seq::empty())),
        Some(InvalidState::True) => Some((1, Seq::empty())),
        Some(InvalidState::Other(text)) => Some((2, text@)),
    }
}

/// Compares two optional strings by their characters.
pub fn same_text(a: &Option<String>, b: &Option<String>) -> (r: bool)
    ensures
        r == (text_of(*a) == text_of(*b)),
{
    match (a, b) {
        (None, None) => true,
        (Some(x), Some(y)) => *x == *y,
        _ => false,
    }
}

/// Compares two lists of identifiers item by item.
pub fn same_ids(a: &Vec<NodeId>, b: &Vec<NodeId>) -> (r: bool)
    ensures
        r == (a@ == b@),
{
    if a.len() != b.len() {
        return false;
    }
    let mut i: usize = 0;
    while i < a.len()
        invariant
            a.len() == b.len(),
            i <= a.len(),
            forall|k: int| 0 <= k < i ==> a@[k] == b@[k],
        decreases a.len() - i,
    {
        if a[i] != b[i] {
            return false;
        }
        i += 1;
    }
    assert(a@ =~= b@);
    true
}

/// Compares two lists of bytes item by item.
pub fn same_bytes(a: &Vec<u8>, b: &Vec<u8>) -> (r: bool)
    ensures
        r == (a@ == b@),
{
    if a.len() != b.len() {
        return false;
    }
    let mut i: usize = 0;
    while i < a.len()
        invariant
            a.len() == b.len(),
            i <= a.len(),
            forall|k: int| 0 <= k < i ==> a@[k] == b@[k],
        decreases a.len() - i,
    {
        if a[i] != b[i] {
            return false;
        }
        i += 1;
    }
    assert(a@ =~= b@);
    true
}

/// Compares two lists of numbers item by item.
pub fn same_floats(a: &Vec<Float32>, b: &Vec<Float32>) -> (r: bool)
    ensures
        r == (a@ == b@),
{
    if a.len() != b.len() {
        return false;
    }
    let mut i: usize = 0;
    while i < a.len()
        invariant
            a.len() == b.len(),
            i <= a.len(),
            forall|k: int| 0 <= k < i ==> a@[k] == b@[k],
        decreases a.len() - i,
    {
        if a[i] != b[i] {
            return false;
        }
        i += 1;
    }
    assert(a@ =~= b@);
    true
}

/// Compares two optional lists of numbers item by item.
pub fn same_numbers(a: &Option<Vec<Float32>>, b: &Option<Vec<Float32>>) -> (r: bool)
    ensures
        r == (numbers_of(*a) == numbers_of(*b)),
{
    match (a, b) {
        (None, None) => true,
        (Some(x), Some(y)) => same_floats(x, y),
        _ => false,
    }
}

/// Compares two lists of custom actions item by item.
pub fn same_custom_actions(a: &Vec<CustomAction>, b: &Vec<CustomAction>) -> (r: bool)
    ensures
        r == (custom_actions_of(*a) == custom_actions_of(*b)),
{
    if a.len() != b.len() {
        assert(custom_actions_of(*a).len() != custom_actions_of(*b).len());
        return false;
    }
    let mut i: usize = 0;
    while i < a.len()
        invariant
            a.len() == b.len(),
            i <= a.len(),
            forall|k: int| 0 <= k < i ==> a@[k]@ == b@[k]@,
        decreases a.len() - i,
    {
        if a[i].id != b[i].id || a[i].description != b[i].description {
            assert(custom_actions_of(*a)[i as int] != custom_actions_of(*b)[i as int]);
            return false;
        }
        i += 1;
    }
    assert(custom_actions_of(*a) =~= custom_actions_of(*b));
    true
}

/// Compares two optional validity states by value.
pub fn same_invalid_state(a: &Option<InvalidState>, b: &Option<InvalidState>) -> (r: bool)
    ensures
        r == (invalid_state_of(*a) == invalid_state_of(*b)),
{
    match (a, b) {
        (None, None) => true,
        (Some(InvalidState::False), Some(InvalidState::False)) => true,
        (Some(InvalidState::True), Some(InvalidState::True)) => true,
        (Some(InvalidState::Other(x)), Some(InvalidState::Other(y))) => *x == *y,
        _ => false,
    }
}

} // verus!
