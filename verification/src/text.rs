//! Text ranges as assistive technology uses them: a range is kept in its
//! stored form, each call resolves it against the tree of the moment, does
//! its work on positions of the document and stores the result.

use vstd::prelude::*;
use crate::document::{document_of, is_document, Document, DocumentView};
use crate::position::{compare_keys, key_order, Position};
use crate::changes::view_of;
use crate::range::{resolved, Range, WeakRange, WeakRangeView};
use crate::schema::{Action, ActionData, ActionRequest, NodeId, TextSelection};
use crate::tree::{TreeState, TreeView};

verus! {

/// The units of text by which a range moves and grows.
pub const TEXT_UNIT_CHARACTER: i32 = 0;

pub const TEXT_UNIT_FORMAT: i32 = 1;

pub const TEXT_UNIT_WORD: i32 = 2;

pub const TEXT_UNIT_LINE: i32 = 3;

pub const TEXT_UNIT_PARAGRAPH: i32 = 4;

pub const TEXT_UNIT_PAGE: i32 = 5;

pub const TEXT_UNIT_DOCUMENT: i32 = 6;

/// The two ends of a range.
pub const ENDPOINT_START: i32 = 0;

pub const ENDPOINT_END: i32 = 1;

/// A unit of text, by its number.
pub type TextUnit = i32;

/// An end of a range, by its number.
pub type TextPatternRangeEndpoint = i32;

/// Why a call on a text range failed. A failed call changes nothing in the
/// tree.
#[derive(Clone, Copy, Debug, PartialEq, Eq, Structural)]
pub enum TextError {
    /// The tree is gone, or the range no longer resolves against it.
    ElementNotAvailable,
    /// A unit or an end that does not exist, or ranges of two documents.
    InvalidArgument,
    /// More than one selection was asked for.
    UnsupportedOperation,
}

/// Whether `unit` is the number of a unit of text.
pub open spec fn is_unit(unit: i32) -> bool {
    0 <= unit <= 6
}

/// Whether `endpoint` is the number of an end of a range.
pub open spec fn is_endpoint(endpoint: i32) -> bool {
    endpoint == ENDPOINT_START || endpoint == ENDPOINT_END
}

impl DocumentView {
    /// The start of the unit that `p` stands in, for a `p` that starts a
    /// range with something in it.
    pub open spec fn unit_start(self, p: Position, unit: i32) -> Position {
        if unit == TEXT_UNIT_CHARACTER {
            p
        } else if unit == TEXT_UNIT_WORD {
            if self.at_word_start(p) {
                p
            } else {
                self.previous_word_start(p)
            }
        } else if unit == TEXT_UNIT_LINE {
            if self.at_line_start(p) {
                p
            } else {
                self.previous_line_start(p)
            }
        } else if unit == TEXT_UNIT_PARAGRAPH {
            if self.at_paragraph_start(p) {
                p
            } else {
                self.previous_paragraph_start(p)
            }
        } else {
            if self.at_document_start(p) {
                p
            } else {
                self.first_position()
            }
        }
    }

    /// The start of the unit after the one at `p`.
    pub open spec fn unit_forward_start(self, p: Position, unit: i32) -> Position {
        if unit == TEXT_UNIT_CHARACTER {
            self.next_character_start(p)
        } else if unit == TEXT_UNIT_WORD {
            self.next_word_start(p)
        } else if unit == TEXT_UNIT_LINE {
            self.next_line_start(p)
        } else if unit == TEXT_UNIT_PARAGRAPH {
            self.next_paragraph_start(p)
        } else {
            self.last_position()
        }
    }

    /// The end of the unit at `p`.
    pub open spec fn unit_forward_end(self, p: Position, unit: i32) -> Position {
        if unit == TEXT_UNIT_CHARACTER {
            self.next_character_end(p)
        } else if unit == TEXT_UNIT_WORD {
            self.next_word_end(p)
        } else if unit == TEXT_UNIT_LINE {
            self.next_line_end(p)
        } else if unit == TEXT_UNIT_PARAGRAPH {
            self.next_paragraph_end(p)
        } else {
            self.last_position()
        }
    }

    /// The start of the unit that ends at or after `p`.
    pub open spec fn unit_backward(self, p: Position, unit: i32) -> Position {
        if unit == TEXT_UNIT_CHARACTER {
            self.previous_character_start(p)
        } else if unit == TEXT_UNIT_WORD {
            self.previous_word_start(p)
        } else if unit == TEXT_UNIT_LINE {
            self.previous_line_start(p)
        } else if unit == TEXT_UNIT_PARAGRAPH {
            self.previous_paragraph_start(p)
        } else {
            self.first_position()
        }
    }

    /// Whether `p` is at the end of the document that a move in the given
    /// direction runs into.
    pub open spec fn at_bound(self, p: Position, forward: bool) -> bool {
        if forward {
            self.at_document_end(p)
        } else {
            self.at_document_start(p)
        }
    }

    /// One step from `p` by `unit`: forward to the end or to the start of
    /// a unit, or backward to the start of one.
    pub open spec fn step(self, p: Position, unit: i32, to_end: bool, forward: bool) -> Position {
        if forward {
            if to_end {
                self.unit_forward_end(p, unit)
            } else {
                self.unit_forward_start(p, unit)
            }
        } else {
            self.unit_backward(p, unit)
        }
    }

    /// Where up to `steps` steps from `p` lead, and how many of them were
    /// taken: a step is taken only from a position that is not at the end
    /// of the document that the move runs into.
    pub open spec fn walk(
        self,
        p: Position,
        unit: i32,
        to_end: bool,
        forward: bool,
        steps: nat,
    ) -> (Position, nat)
        decreases steps,
    {
        if steps == 0 || self.at_bound(p, forward) {
            (p, 0)
        } else {
            let rest = self.walk(
                self.step(p, unit, to_end, forward),
                unit,
                to_end,
                forward,
                (steps - 1) as nat,
            );
            (rest.0, rest.1 + 1)
        }
    }
}

impl DocumentView {
    /// A move takes no more steps than it is asked for, and none from the
    /// end of the document that it runs into, where it leaves the position
    /// as it is.
    pub proof fn lemma_walk_stops(
        self,
        p: Position,
        unit: i32,
        to_end: bool,
        forward: bool,
        steps: nat,
    )
        ensures
            self.walk(p, unit, to_end, forward, steps).1 <= steps,
            self.at_bound(p, forward) ==> self.walk(p, unit, to_end, forward, steps) == (p, 0nat),
        decreases steps,
    {
        if steps > 0 && !self.at_bound(p, forward) {
            self.lemma_walk_stops(
                self.step(p, unit, to_end, forward),
                unit,
                to_end,
                forward,
                (steps - 1) as nat,
            );
        }
    }
}

/// The number of steps that `count` asks for.
pub open spec fn magnitude(count: i32) -> nat {
    if count >= 0 {
        count as nat
    } else {
        (-count) as nat
    }
}

/// The number of steps taken, with the sign of the direction.
pub open spec fn signed(taken: nat, forward: bool) -> int {
    if forward {
        taken as int
    } else {
        -(taken as int)
    }
}


/// Resolves a stored range against the tree.
pub fn upgrade_range(weak: &WeakRange, tree_state: &TreeState) -> (r: Result<
    (Document, Range),
    TextError,
>)
    ensures
        match r {
            Ok((doc, range)) => {
                &&& is_document(tree_state@, weak.node_id)
                &&& doc@ == document_of(tree_state@, weak.node_id)
                &&& doc@.wf()
                &&& doc@.holds(range)
                &&& resolved(tree_state@, weak@) == Some(range)
            },
            Err(e) => e == TextError::ElementNotAvailable && resolved(tree_state@, weak@).is_none(),
        },
{
    proof {
        use_type_invariant(tree_state);
    }
    if let Some(range) = weak.upgrade(tree_state) {
        Ok(range)
    } else {
        Err(TextError::ElementNotAvailable)
    }
}

/// Resolves the document of a stored range against the tree.
pub fn upgrade_range_node(weak: &WeakRange, tree_state: &TreeState) -> (r: Result<
    Document,
    TextError,
>)
    ensures
        match r {
            Ok(doc) => is_document(tree_state@, weak.node_id) && doc@ == document_of(
                tree_state@,
                weak.node_id,
            ) && doc@.wf(),
            Err(e) => e == TextError::ElementNotAvailable && !is_document(
                tree_state@,
                weak.node_id,
            ),
        },
{
    proof {
        use_type_invariant(tree_state);
    }
    if let Some(node) = weak.upgrade_node(tree_state) {
        Ok(node)
    } else {
        Err(TextError::ElementNotAvailable)
    }
}

/// The key of the end of `range` that `endpoint` names.
pub open spec fn weak_key(range: WeakRangeView, endpoint: i32) -> (Seq<usize>, usize) {
    if endpoint == ENDPOINT_START {
        range.start_key
    } else {
        range.end_key
    }
}

/// The end of `range` that `endpoint` names.
pub open spec fn end_of(range: Range, endpoint: i32) -> Position {
    if endpoint == ENDPOINT_START {
        range.start
    } else {
        range.end
    }
}

/// The key of an end of a stored range.
pub fn weak_comparable_position_from_endpoint(
    range: &WeakRange,
    endpoint: TextPatternRangeEndpoint,
) -> (r: Result<&(Vec<usize>, usize), TextError>)
    ensures
        match r {
            Ok(key) => is_endpoint(endpoint) && crate::position::key_view(*key) == weak_key(
                range@,
                endpoint,
            ),
            Err(e) => !is_endpoint(endpoint) && e == TextError::InvalidArgument,
        },
{
    if endpoint == ENDPOINT_START {
        Ok(range.start_comparable())
    } else if endpoint == ENDPOINT_END {
        Ok(range.end_comparable())
    } else {
        Err(TextError::InvalidArgument)
    }
}

/// An end of a range.
pub fn position_from_endpoint(range: &Range, endpoint: TextPatternRangeEndpoint) -> (r: Result<
    Position,
    TextError,
>)
    ensures
        match r {
            Ok(p) => is_endpoint(endpoint) && p == end_of(*range, endpoint),
            Err(e) => !is_endpoint(endpoint) && e == TextError::InvalidArgument,
        },
{
    if endpoint == ENDPOINT_START {
        Ok(range.start)
    } else if endpoint == ENDPOINT_END {
        Ok(range.end)
    } else {
        Err(TextError::InvalidArgument)
    }
}

impl DocumentView {
    /// `range` with the end that `endpoint` names moved to `pos`.
    pub open spec fn with_endpoint(self, range: Range, endpoint: i32, pos: Position) -> Range {
        if endpoint == ENDPOINT_START {
            self.with_start(range, pos)
        } else {
            self.with_end(range, pos)
        }
    }
}

/// Moves an end of a range. An end that does not exist leaves the range as
/// it is.
pub fn set_endpoint_position(
    doc: &Document,
    range: &mut Range,
    endpoint: TextPatternRangeEndpoint,
    pos: Position,
) -> (r: Result<(), TextError>)
    requires
        doc@.holds(*old(range)),
        doc@.valid(pos),
    ensures
        doc@.holds(*final(range)),
        match r {
            Ok(()) => is_endpoint(endpoint) && *final(range) == doc@.with_endpoint(
                *old(range),
                endpoint,
                pos,
            ),
            Err(e) => !is_endpoint(endpoint) && e == TextError::InvalidArgument && *final(range)
                == *old(range),
        },
{
    if endpoint == ENDPOINT_START {
        doc.set_start(range, pos);
    } else if endpoint == ENDPOINT_END {
        doc.set_end(range, pos);
    } else {
        return Err(TextError::InvalidArgument);
    }
    Ok(())
}

/// Moves the start of a range that has something in it back to the start
/// of the unit that it stands in.
pub fn back_to_unit_start(doc: &Document, start: Position, unit: TextUnit) -> (r: Result<
    Position,
    TextError,
>)
    requires
        doc@.valid(start),
    ensures
        match r {
            Ok(p) => is_unit(unit) && p == doc@.unit_start(start, unit) && doc@.valid(p),
            Err(e) => !is_unit(unit) && e == TextError::InvalidArgument,
        },
{
    proof {
        use_type_invariant(doc);
    }
    if unit == TEXT_UNIT_CHARACTER {
        // The position starts a range with something in it, so it is the
        // start of a character.
        Ok(start)
    } else if unit == TEXT_UNIT_FORMAT {
        if doc.is_format_start(start) {
            Ok(start)
        } else {
            Ok(doc.backward_to_format_start(start))
        }
    } else if unit == TEXT_UNIT_WORD {
        if doc.is_word_start(start) {
            Ok(start)
        } else {
            Ok(doc.backward_to_word_start(start))
        }
    } else if unit == TEXT_UNIT_LINE {
        if doc.is_line_start(start) {
            Ok(start)
        } else {
            Ok(doc.backward_to_line_start(start))
        }
    } else if unit == TEXT_UNIT_PARAGRAPH {
        if doc.is_paragraph_start(start) {
            Ok(start)
        } else {
            Ok(doc.backward_to_paragraph_start(start))
        }
    } else if unit == TEXT_UNIT_PAGE {
        if doc.is_page_start(start) {
            Ok(start)
        } else {
            Ok(doc.backward_to_page_start(start))
        }
    } else if unit == TEXT_UNIT_DOCUMENT {
        if doc.is_document_start(start) {
            Ok(start)
        } else {
            Ok(doc.document_start())
        }
    } else {
        Err(TextError::InvalidArgument)
    }
}

/// Moves forward to the start of the next unit.
pub fn move_forward_to_start(doc: &Document, pos: Position, unit: TextUnit) -> (r: Result<
    Position,
    TextError,
>)
    requires
        doc@.valid(pos),
    ensures
        match r {
            Ok(p) => is_unit(unit) && p == doc@.unit_forward_start(pos, unit) && doc@.valid(p),
            Err(e) => !is_unit(unit) && e == TextError::InvalidArgument,
        },
{
    proof {
        use_type_invariant(doc);
    }
    if unit == TEXT_UNIT_CHARACTER {
        Ok(doc.forward_to_character_start(pos))
    } else if unit == TEXT_UNIT_FORMAT {
        Ok(doc.forward_to_format_start(pos))
    } else if unit == TEXT_UNIT_WORD {
        Ok(doc.forward_to_word_start(pos))
    } else if unit == TEXT_UNIT_LINE {
        Ok(doc.forward_to_line_start(pos))
    } else if unit == TEXT_UNIT_PARAGRAPH {
        Ok(doc.forward_to_paragraph_start(pos))
    } else if unit == TEXT_UNIT_PAGE {
        Ok(doc.forward_to_page_start(pos))
    } else if unit == TEXT_UNIT_DOCUMENT {
        Ok(doc.document_end())
    } else {
        Err(TextError::InvalidArgument)
    }
}

/// Moves forward to the end of the unit.
pub fn move_forward_to_end(doc: &Document, pos: Position, unit: TextUnit) -> (r: Result<
    Position,
    TextError,
>)
    requires
        doc@.valid(pos),
    ensures
        match r {
            Ok(p) => is_unit(unit) && p == doc@.unit_forward_end(pos, unit) && doc@.valid(p),
            Err(e) => !is_unit(unit) && e == TextError::InvalidArgument,
        },
{
    proof {
        use_type_invariant(doc);
    }
    if unit == TEXT_UNIT_CHARACTER {
        Ok(doc.forward_to_character_end(pos))
    } else if unit == TEXT_UNIT_FORMAT {
        Ok(doc.forward_to_format_end(pos))
    } else if unit == TEXT_UNIT_WORD {
        Ok(doc.forward_to_word_end(pos))
    } else if unit == TEXT_UNIT_LINE {
        Ok(doc.forward_to_line_end(pos))
    } else if unit == TEXT_UNIT_PARAGRAPH {
        Ok(doc.forward_to_paragraph_end(pos))
    } else if unit == TEXT_UNIT_PAGE {
        Ok(doc.forward_to_page_end(pos))
    } else if unit == TEXT_UNIT_DOCUMENT {
        Ok(doc.document_end())
    } else {
        Err(TextError::InvalidArgument)
    }
}

/// Moves backward to the start of the unit.
pub fn move_backward(doc: &Document, pos: Position, unit: TextUnit) -> (r: Result<
    Position,
    TextError,
>)
    requires
        doc@.valid(pos),
    ensures
        match r {
            Ok(p) => is_unit(unit) && p == doc@.unit_backward(pos, unit) && doc@.valid(p),
            Err(e) => !is_unit(unit) && e == TextError::InvalidArgument,
        },
{
    proof {
        use_type_invariant(doc);
    }
    if unit == TEXT_UNIT_CHARACTER {
        Ok(doc.backward_to_character_start(pos))
    } else if unit == TEXT_UNIT_FORMAT {
        Ok(doc.backward_to_format_start(pos))
    } else if unit == TEXT_UNIT_WORD {
        Ok(doc.backward_to_word_start(pos))
    } else if unit == TEXT_UNIT_LINE {
        Ok(doc.backward_to_line_start(pos))
    } else if unit == TEXT_UNIT_PARAGRAPH {
        Ok(doc.backward_to_paragraph_start(pos))
    } else if unit == TEXT_UNIT_PAGE {
        Ok(doc.backward_to_page_start(pos))
    } else if unit == TEXT_UNIT_DOCUMENT {
        Ok(doc.document_start())
    } else {
        Err(TextError::InvalidArgument)
    }
}

/// Whether `pos` is at the end of the document that a move in the given
/// direction runs into.
fn is_at_bound(doc: &Document, pos: Position, forward: bool) -> (r: bool)
    requires
        doc@.valid(pos),
    ensures
        r == doc@.at_bound(pos, forward),
{
    proof {
        use_type_invariant(doc);
    }
    if forward {
        doc.is_document_end(pos)
    } else {
        doc.is_document_start(pos)
    }
}

/// Whether a move of `count` steps from `pos` fails: the unit does not
/// exist and a step would be taken.
pub open spec fn move_fails(doc: DocumentView, pos: Position, unit: i32, count: i32) -> bool {
    !is_unit(unit) && count != 0 && !doc.at_bound(pos, count > 0)
}

/// Moves a position by `count` units: forward where `count` is positive,
/// backward where it is negative. The move ends early at the end of the
/// document that it runs into. Returns the new position and the number of
/// units moved, with the sign of `count`.
pub fn move_position(doc: &Document, pos: Position, unit: TextUnit, to_end: bool, count: i32) -> (r:
    Result<(Position, i32), TextError>)
    requires
        doc@.valid(pos),
    ensures
        match r {
            Ok((p, moved)) => {
                &&& !move_fails(doc@, pos, unit, count)
                &&& doc@.valid(p)
                &&& p == doc@.walk(pos, unit, to_end, count > 0, magnitude(count)).0
                &&& moved == signed(
                    doc@.walk(pos, unit, to_end, count > 0, magnitude(count)).1,
                    count > 0,
                )
            },
            Err(e) => move_fails(doc@, pos, unit, count) && e == TextError::InvalidArgument,
        },
{
    proof {
        use_type_invariant(doc);
    }
    let forward = count > 0;
    let mut current = pos;
    let mut moved: i32 = 0;
    let ghost mut taken: nat = 0;
    while moved != count && !is_at_bound(doc, current, forward)
        invariant
            doc@.wf(),
            doc@.valid(current),
            doc@.valid(pos),
            forward == (count > 0),
            taken <= magnitude(count),
            moved == signed(taken, forward),
            taken > 0 ==> is_unit(unit),
            taken == 0 ==> current == pos,
            doc@.walk(pos, unit, to_end, forward, magnitude(count)) == ({
                let rest = doc@.walk(
                    current,
                    unit,
                    to_end,
                    forward,
                    (magnitude(count) - taken) as nat,
                );
                (rest.0, rest.1 + taken)
            }),
        decreases magnitude(count) - taken,
    {
        let next = if forward {
            if to_end {
                move_forward_to_end(doc, current, unit)
            } else {
                move_forward_to_start(doc, current, unit)
            }
        } else {
            move_backward(doc, current, unit)
        };
        match next {
            Ok(p) => {
                current = p;
            },
            Err(e) => {
                return Err(e);
            },
        }
        if forward {
            moved = moved + 1;
        } else {
            moved = moved - 1;
        }
        proof {
            taken = taken + 1;
        }
    }
    Ok((current, moved))
}


/// The attributes of text that a range can be asked for.
pub const ATTRIBUTE_IS_READ_ONLY: i32 = 40015;

pub const ATTRIBUTE_CARET_POSITION: i32 = 40038;

/// Where a caret stands on its line.
pub const CARET_POSITION_UNKNOWN: i32 = 0;

pub const CARET_POSITION_END_OF_LINE: i32 = 1;

pub const CARET_POSITION_BEGINNING_OF_LINE: i32 = 2;

/// The value of an attribute of text.
#[derive(Clone, Copy, Debug, PartialEq, Eq, Structural)]
pub enum AttributeValue {
    Bool(bool),
    CaretPosition(i32),
    /// The attribute is not one that the range knows.
    NotSupported,
}

impl DocumentView {
    /// `range`, grown to the unit that its start stands in. A range that
    /// starts at the end of the document is not grown by a character.
    pub open spec fn expanded(self, range: Range, unit: i32) -> Range {
        if unit == TEXT_UNIT_CHARACTER && self.at_document_end(range.start) {
            range
        } else {
            let start = self.unit_start(range.start, unit);
            let moved = self.with_start(range, start);
            if self.at_document_end(start) {
                moved
            } else {
                self.with_end(moved, self.unit_forward_end(start, unit))
            }
        }
    }

    /// Where the start of a moved range starts from: a caret moves from
    /// where it is, a range with something in it from the start of its
    /// unit.
    pub open spec fn move_origin(self, range: Range, unit: i32) -> Position {
        if self.order(range.start, range.end) == 0 {
            range.start
        } else {
            self.unit_start(range.start, unit)
        }
    }

    /// Whether moving `range` by `count` units fails: the unit does not
    /// exist, and it is needed.
    pub open spec fn move_range_fails(self, range: Range, unit: i32, count: i32) -> bool {
        !is_unit(unit) && (self.order(range.start, range.end) != 0 || move_fails(
            self,
            range.start,
            unit,
            count,
        ))
    }

    /// The number of units by which `range` moves when it is asked to move
    /// by `count`.
    pub open spec fn range_moves(self, range: Range, unit: i32, count: i32) -> int {
        signed(
            self.walk(self.move_origin(range, unit), unit, false, count > 0, magnitude(count)).1,
            count > 0,
        )
    }

    /// `range`, moved by `count` units: a caret stays a caret, and a range
    /// with something in it becomes the unit that it lands on.
    pub open spec fn moved_range(self, range: Range, unit: i32, count: i32) -> Range {
        let landed = self.walk(
            self.move_origin(range, unit),
            unit,
            false,
            count > 0,
            magnitude(count),
        ).0;
        if self.range_moves(range, unit, count) == 0 {
            range
        } else {
            let end = if self.order(range.start, range.end) == 0 || self.at_document_end(landed) {
                landed
            } else {
                self.unit_forward_end(landed, unit)
            };
            self.with_end(self.with_start(range, landed), end)
        }
    }

    /// The number of units by which an end of `range` moves when it is
    /// asked to move by `count`.
    pub open spec fn endpoint_moves(self, range: Range, endpoint: i32, unit: i32, count: i32) -> int {
        signed(
            self.walk(
                end_of(range, endpoint),
                unit,
                endpoint == ENDPOINT_END,
                count > 0,
                magnitude(count),
            ).1,
            count > 0,
        )
    }

    /// `range` with one end moved by `count` units.
    pub open spec fn with_endpoint_moved(
        self,
        range: Range,
        endpoint: i32,
        unit: i32,
        count: i32,
    ) -> Range {
        self.with_endpoint(
            range,
            endpoint,
            self.walk(
                end_of(range, endpoint),
                unit,
                endpoint == ENDPOINT_END,
                count > 0,
                magnitude(count),
            ).0,
        )
    }

    /// Where a caret stands on its line.
    pub open spec fn caret_position(self, range: Range) -> i32 {
        if self.order(range.start, range.end) != 0 {
            CARET_POSITION_UNKNOWN
        } else if self.at_line_start(range.start) {
            CARET_POSITION_BEGINNING_OF_LINE
        } else if self.at_line_end(range.start) {
            CARET_POSITION_END_OF_LINE
        } else {
            CARET_POSITION_UNKNOWN
        }
    }
}

/// Whether an end of the stored range still is a position of its document.
pub open spec fn some_end_resolves(tree: TreeView, weak: WeakRangeView) -> bool {
    &&& is_document(tree, weak.node_id)
    &&& (document_of(tree, weak.node_id).resolve(weak.start).is_some() || document_of(
        tree,
        weak.node_id,
    ).resolve(weak.end).is_some())
}

/// A text range as a client holds it: the engine that it belongs to, by
/// an identity that the adapter gives, and the range in its stored form.
pub struct PlatformRange {
    pub tree: u64,
    pub state: WeakRange,
}

impl Clone for PlatformRange {
    fn clone(&self) -> (r: Self)
        ensures
            r.tree == self.tree,
            r.state@ == self.state@,
    {
        PlatformRange { tree: self.tree, state: self.state.clone() }
    }
}

#[allow(non_snake_case)]
impl PlatformRange {
    /// A range of the engine `tree`.
    pub fn new(tree: u64, doc: &Document, range: Range) -> (r: Self)
        requires
            doc@.holds(range),
        ensures
            r.tree == tree,
            r.state@ == doc@.stored(range),
    {
        PlatformRange { tree, state: doc.downgrade(&range) }
    }

    /// Both ranges must belong to one engine.
    pub fn require_same_tree(&self, other: &PlatformRange) -> (r: Result<(), TextError>)
        ensures
            r == if self.tree == other.tree {
                Ok::<(), TextError>(())
            } else {
                Err::<(), TextError>(TextError::InvalidArgument)
            },
    {
        if self.tree == other.tree {
            Ok(())
        } else {
            Err(TextError::InvalidArgument)
        }
    }

    /// Whether the two ranges are the same range of one engine.
    pub fn Compare(&self, other: &PlatformRange) -> (r: bool)
        ensures
            r == (self.tree == other.tree && self.state@ == other.state@),
    {
        self.tree == other.tree && self.state.same_as(&other.state)
    }

    /// What `CompareEndpoints` returns for two ends of this one range: the
    /// order of their stored keys, whether the range still resolves or
    /// not.
    pub open spec fn own_endpoints_order(&self, endpoint: i32, other_endpoint: i32) -> Result<
        int,
        TextError,
    > {
        if !is_endpoint(endpoint) || !is_endpoint(other_endpoint) {
            Err(TextError::InvalidArgument)
        } else {
            Ok(key_order(weak_key(self.state@, endpoint), weak_key(self.state@, other_endpoint)))
        }
    }

    /// What `CompareEndpoints` returns for an end of this range and an end
    /// of another range object.
    pub open spec fn endpoints_order(
        &self,
        tree: Option<TreeView>,
        endpoint: i32,
        other: &PlatformRange,
        other_endpoint: i32,
    ) -> Result<int, TextError> {
        if self.tree != other.tree {
            Err(TextError::InvalidArgument)
        } else if tree.is_none() {
            Err(TextError::ElementNotAvailable)
        } else if resolved(tree.unwrap(), self.state@).is_none() || resolved(
            tree.unwrap(),
            other.state@,
        ).is_none() {
            Err(TextError::ElementNotAvailable)
        } else if self.state.node_id != other.state.node_id || !is_endpoint(endpoint)
            || !is_endpoint(other_endpoint) {
            Err(TextError::InvalidArgument)
        } else {
            Ok(
                document_of(tree.unwrap(), self.state.node_id).order(
                    end_of(resolved(tree.unwrap(), self.state@).unwrap(), endpoint),
                    end_of(resolved(tree.unwrap(), other.state@).unwrap(), other_endpoint),
                ),
            )
        }
    }

    /// Compares an end of this range with an end of `other`: -1, 0 or 1 as
    /// the first comes before, at or after the second. `same_object` tells
    /// that `other` is this very range object; its ends are then compared
    /// by their stored keys, which works when the range no longer
    /// resolves. `tree_state` is the tree of the moment, `None` where the
    /// engine is gone.
    pub fn CompareEndpoints(
        &self,
        tree_state: Option<&TreeState>,
        endpoint: TextPatternRangeEndpoint,
        other: &PlatformRange,
        same_object: bool,
        other_endpoint: TextPatternRangeEndpoint,
    ) -> (r: Result<i32, TextError>)
        ensures
            match r {
                Ok(order) => Ok::<int, TextError>(order as int) == if same_object {
                    self.own_endpoints_order(endpoint, other_endpoint)
                } else {
                    self.endpoints_order(view_of(tree_state), endpoint, other, other_endpoint)
                },
                Err(e) => Err::<int, TextError>(e) == if same_object {
                    self.own_endpoints_order(endpoint, other_endpoint)
                } else {
                    self.endpoints_order(view_of(tree_state), endpoint, other, other_endpoint)
                },
            },
    {
        proof {
            if let Some(tree) = tree_state {
                use_type_invariant(tree);
            }
        }
        if same_object {
            let pos = match weak_comparable_position_from_endpoint(&self.state, endpoint) {
                Ok(pos) => pos,
                Err(e) => {
                    return Err(e);
                },
            };
            let other_pos = match weak_comparable_position_from_endpoint(
                &self.state,
                other_endpoint,
            ) {
                Ok(pos) => pos,
                Err(e) => {
                    return Err(e);
                },
            };
            return Ok(compare_keys(pos, other_pos));
        }
        if let Err(e) = self.require_same_tree(other) {
            return Err(e);
        }
        let tree = match tree_state {
            Some(tree) => tree,
            None => {
                return Err(TextError::ElementNotAvailable);
            },
        };
        let (doc, range) = match upgrade_range(&self.state, tree) {
            Ok(found) => found,
            Err(e) => {
                return Err(e);
            },
        };
        let (_other_doc, other_range) = match upgrade_range(&other.state, tree) {
            Ok(found) => found,
            Err(e) => {
                return Err(e);
            },
        };
        if self.state.node_id != other.state.node_id {
            return Err(TextError::InvalidArgument);
        }
        let pos = match position_from_endpoint(&range, endpoint) {
            Ok(pos) => pos,
            Err(e) => {
                return Err(e);
            },
        };
        let other_pos = match position_from_endpoint(&other_range, other_endpoint) {
            Ok(pos) => pos,
            Err(e) => {
                return Err(e);
            },
        };
        Ok(doc.compare(pos, other_pos))
    }

    /// What `ExpandToEnclosingUnit` stores and returns.
    pub open spec fn expand_outcome(tree: Option<TreeView>, weak: WeakRangeView, unit: i32) -> (
        WeakRangeView,
        Result<(), TextError>,
    ) {
        if tree.is_none() {
            (weak, Err(TextError::ElementNotAvailable))
        } else if unit == TEXT_UNIT_DOCUMENT {
            if some_end_resolves(tree.unwrap(), weak) {
                let doc = document_of(tree.unwrap(), weak.node_id);
                (
                    doc.stored(doc.range_between(doc.first_position(), doc.last_position())),
                    Ok(()),
                )
            } else {
                (weak, Err(TextError::ElementNotAvailable))
            }
        } else if resolved(tree.unwrap(), weak).is_none() {
            (weak, Err(TextError::ElementNotAvailable))
        } else {
            let doc = document_of(tree.unwrap(), weak.node_id);
            let range = resolved(tree.unwrap(), weak).unwrap();
            if unit == TEXT_UNIT_CHARACTER && doc.at_document_end(range.start) {
                (doc.stored(range), Ok(()))
            } else if !is_unit(unit) {
                (doc.stored(range), Err(TextError::InvalidArgument))
            } else {
                (doc.stored(doc.expanded(range, unit)), Ok(()))
            }
        }
    }

    /// Grows the range to the unit that encloses its start. For the unit
    /// of the whole document it is enough that one end of the range still
    /// resolves: the range becomes the whole document. For the other
    /// units both ends must resolve.
    pub fn ExpandToEnclosingUnit(&mut self, tree_state: Option<&TreeState>, unit: TextUnit) -> (r:
        Result<(), TextError>)
        ensures
            final(self).tree == old(self).tree,
            (final(self).state@, r) == Self::expand_outcome(
                view_of(tree_state),
                old(self).state@,
                unit,
            ),
    {
        proof {
            if let Some(tree) = tree_state {
                use_type_invariant(tree);
            }
        }
        let tree = match tree_state {
            Some(tree) => tree,
            None => {
                return Err(TextError::ElementNotAvailable);
            },
        };
        if unit == TEXT_UNIT_DOCUMENT {
            // The whole document can be had though an end went stale.
            let doc = match upgrade_range_node(&self.state, tree) {
                Ok(doc) => doc,
                Err(e) => {
                    return Err(e);
                },
            };
            if doc.upgrade_position(self.state.start).is_none() && doc.upgrade_position(
                self.state.end,
            ).is_none() {
                return Err(TextError::ElementNotAvailable);
            }
            let whole = doc.document_range();
            self.state = doc.downgrade(&whole);
            return Ok(());
        }
        let (doc, mut range) = match upgrade_range(&self.state, tree) {
            Ok(found) => found,
            Err(e) => {
                return Err(e);
            },
        };
        let result = expand(&doc, &mut range, unit);
        self.state = doc.downgrade(&range);
        result
    }

    /// What `Move` stores and returns.
    pub open spec fn move_outcome(
        tree: Option<TreeView>,
        weak: WeakRangeView,
        unit: i32,
        count: i32,
    ) -> (WeakRangeView, Result<int, TextError>) {
        if tree.is_none() || resolved(tree.unwrap(), weak).is_none() {
            (weak, Err(TextError::ElementNotAvailable))
        } else {
            let doc = document_of(tree.unwrap(), weak.node_id);
            let range = resolved(tree.unwrap(), weak).unwrap();
            if doc.move_range_fails(range, unit, count) {
                (doc.stored(range), Err(TextError::InvalidArgument))
            } else {
                (
                    doc.stored(doc.moved_range(range, unit, count)),
                    Ok(doc.range_moves(range, unit, count)),
                )
            }
        }
    }

    /// Moves the range by `count` units and returns the number of units
    /// moved, with the sign of `count`. The move ends early at the end of
    /// the document that it runs into.
    pub fn Move(&mut self, tree_state: Option<&TreeState>, unit: TextUnit, count: i32) -> (r:
        Result<i32, TextError>)
        ensures
            final(self).tree == old(self).tree,
            final(self).state@ == Self::move_outcome(
                view_of(tree_state),
                old(self).state@,
                unit,
                count,
            ).0,
            match r {
                Ok(moved) => Ok::<int, TextError>(moved as int) == Self::move_outcome(
                    view_of(tree_state),
                    old(self).state@,
                    unit,
                    count,
                ).1,
                Err(e) => Err::<int, TextError>(e) == Self::move_outcome(
                    view_of(tree_state),
                    old(self).state@,
                    unit,
                    count,
                ).1,
            },
    {
        proof {
            if let Some(tree) = tree_state {
                use_type_invariant(tree);
            }
        }
        let tree = match tree_state {
            Some(tree) => tree,
            None => {
                return Err(TextError::ElementNotAvailable);
            },
        };
        let (doc, mut range) = match upgrade_range(&self.state, tree) {
            Ok(found) => found,
            Err(e) => {
                return Err(e);
            },
        };
        let result = move_range(&doc, &mut range, unit, count);
        self.state = doc.downgrade(&range);
        result
    }

    /// What `MoveEndpointByUnit` stores and returns.
    pub open spec fn move_endpoint_outcome(
        tree: Option<TreeView>,
        weak: WeakRangeView,
        endpoint: i32,
        unit: i32,
        count: i32,
    ) -> (WeakRangeView, Result<int, TextError>) {
        if tree.is_none() || resolved(tree.unwrap(), weak).is_none() {
            (weak, Err(TextError::ElementNotAvailable))
        } else {
            let doc = document_of(tree.unwrap(), weak.node_id);
            let range = resolved(tree.unwrap(), weak).unwrap();
            if !is_endpoint(endpoint) || move_fails(doc, end_of(range, endpoint), unit, count) {
                (doc.stored(range), Err(TextError::InvalidArgument))
            } else {
                (
                    doc.stored(doc.with_endpoint_moved(range, endpoint, unit, count)),
                    Ok(doc.endpoint_moves(range, endpoint, unit, count)),
                )
            }
        }
    }

    /// Moves one end of the range by `count` units and returns the number
    /// of units moved, with the sign of `count`. The end of the range
    /// moves forward to ends of units, everything else to starts.
    pub fn MoveEndpointByUnit(
        &mut self,
        tree_state: Option<&TreeState>,
        endpoint: TextPatternRangeEndpoint,
        unit: TextUnit,
        count: i32,
    ) -> (r: Result<i32, TextError>)
        ensures
            final(self).tree == old(self).tree,
            final(self).state@ == Self::move_endpoint_outcome(
                view_of(tree_state),
                old(self).state@,
                endpoint,
                unit,
                count,
            ).0,
            match r {
                Ok(moved) => Ok::<int, TextError>(moved as int) == Self::move_endpoint_outcome(
                    view_of(tree_state),
                    old(self).state@,
                    endpoint,
                    unit,
                    count,
                ).1,
                Err(e) => Err::<int, TextError>(e) == Self::move_endpoint_outcome(
                    view_of(tree_state),
                    old(self).state@,
                    endpoint,
                    unit,
                    count,
                ).1,
            },
    {
        proof {
            if let Some(tree) = tree_state {
                use_type_invariant(tree);
            }
        }
        let tree = match tree_state {
            Some(tree) => tree,
            None => {
                return Err(TextError::ElementNotAvailable);
            },
        };
        let (doc, mut range) = match upgrade_range(&self.state, tree) {
            Ok(found) => found,
            Err(e) => {
                return Err(e);
            },
        };
        let result = move_endpoint(&doc, &mut range, endpoint, unit, count);
        self.state = doc.downgrade(&range);
        result
    }

    /// What `MoveEndpointByRange` stores and returns.
    pub open spec fn move_to_range_outcome(
        &self,
        tree: Option<TreeView>,
        endpoint: i32,
        other: &PlatformRange,
        other_endpoint: i32,
    ) -> (WeakRangeView, Result<(), TextError>) {
        let weak = self.state@;
        if self.tree != other.tree {
            (weak, Err(TextError::InvalidArgument))
        } else if tree.is_none() || resolved(tree.unwrap(), other.state@).is_none() || resolved(
            tree.unwrap(),
            weak,
        ).is_none() {
            (weak, Err(TextError::ElementNotAvailable))
        } else if weak.node_id != other.state.node_id || !is_endpoint(other_endpoint)
            || !is_endpoint(endpoint) {
            (weak, Err(TextError::InvalidArgument))
        } else {
            let doc = document_of(tree.unwrap(), weak.node_id);
            (
                doc.stored(
                    doc.with_endpoint(
                        resolved(tree.unwrap(), weak).unwrap(),
                        endpoint,
                        end_of(resolved(tree.unwrap(), other.state@).unwrap(), other_endpoint),
                    ),
                ),
                Ok(()),
            )
        }
    }

    /// Moves one end of the range to an end of `other`. Both ranges must
    /// belong to one engine and lie in one document.
    pub fn MoveEndpointByRange(
        &mut self,
        tree_state: Option<&TreeState>,
        endpoint: TextPatternRangeEndpoint,
        other: &PlatformRange,
        other_endpoint: TextPatternRangeEndpoint,
    ) -> (r: Result<(), TextError>)
        ensures
            final(self).tree == old(self).tree,
            (final(self).state@, r) == old(self).move_to_range_outcome(
                view_of(tree_state),
                endpoint,
                other,
                other_endpoint,
            ),
    {
        proof {
            if let Some(tree) = tree_state {
                use_type_invariant(tree);
            }
        }
        if let Err(e) = self.require_same_tree(other) {
            return Err(e);
        }
        let tree = match tree_state {
            Some(tree) => tree,
            None => {
                return Err(TextError::ElementNotAvailable);
            },
        };
        let (_other_doc, other_range) = match upgrade_range(&other.state, tree) {
            Ok(found) => found,
            Err(e) => {
                return Err(e);
            },
        };
        let (doc, mut range) = match upgrade_range(&self.state, tree) {
            Ok(found) => found,
            Err(e) => {
                return Err(e);
            },
        };
        if self.state.node_id != other.state.node_id {
            return Err(TextError::InvalidArgument);
        }
        let pos = match position_from_endpoint(&other_range, other_endpoint) {
            Ok(pos) => pos,
            Err(e) => {
                return Err(e);
            },
        };
        if let Err(e) = set_endpoint_position(&doc, &mut range, endpoint, pos) {
            return Err(e);
        }
        self.state = doc.downgrade(&range);
        Ok(())
    }

    /// What `GetAttributeValue` returns.
    pub open spec fn attribute_outcome(tree: Option<TreeView>, weak: WeakRangeView, id: i32) -> Result<
        AttributeValue,
        TextError,
    > {
        if id == ATTRIBUTE_IS_READ_ONLY {
            if tree.is_none() || !is_document(tree.unwrap(), weak.node_id) {
                Err(TextError::ElementNotAvailable)
            } else {
                Ok(AttributeValue::Bool(tree.unwrap().node(weak.node_id).read_only))
            }
        } else if id == ATTRIBUTE_CARET_POSITION {
            if tree.is_none() || resolved(tree.unwrap(), weak).is_none() {
                Err(TextError::ElementNotAvailable)
            } else {
                Ok(
                    AttributeValue::CaretPosition(
                        document_of(tree.unwrap(), weak.node_id).caret_position(
                            resolved(tree.unwrap(), weak).unwrap(),
                        ),
                    ),
                )
            }
        } else {
            Ok(AttributeValue::NotSupported)
        }
    }

    /// The value of an attribute of the text of the range: whether it can
    /// only be read, and where a caret stands on its line.
    pub fn GetAttributeValue(&self, tree_state: Option<&TreeState>, id: i32) -> (r: Result<
        AttributeValue,
        TextError,
    >)
        ensures
            r == Self::attribute_outcome(view_of(tree_state), self.state@, id),
    {
        proof {
            if let Some(tree) = tree_state {
                use_type_invariant(tree);
            }
        }
        if id == ATTRIBUTE_IS_READ_ONLY {
            let tree = match tree_state {
                Some(tree) => tree,
                None => {
                    return Err(TextError::ElementNotAvailable);
                },
            };
            let doc = match upgrade_range_node(&self.state, tree) {
                Ok(doc) => doc,
                Err(e) => {
                    return Err(e);
                },
            };
            let found = tree.node_by_id(doc.id());
            Ok(AttributeValue::Bool(found.unwrap().read_only))
        } else if id == ATTRIBUTE_CARET_POSITION {
            let tree = match tree_state {
                Some(tree) => tree,
                None => {
                    return Err(TextError::ElementNotAvailable);
                },
            };
            let (doc, range) = match upgrade_range(&self.state, tree) {
                Ok(found) => found,
                Err(e) => {
                    return Err(e);
                },
            };
            let mut value = CARET_POSITION_UNKNOWN;
            if doc.is_degenerate(&range) {
                let pos = range.start;
                if doc.is_line_start(pos) {
                    value = CARET_POSITION_BEGINNING_OF_LINE;
                } else if doc.is_line_end(pos) {
                    value = CARET_POSITION_END_OF_LINE;
                }
            }
            Ok(AttributeValue::CaretPosition(value))
        } else {
            Ok(AttributeValue::NotSupported)
        }
    }

    /// The node that encloses the range: the one that carries its
    /// document.
    pub fn GetEnclosingElement(&self, tree_state: Option<&TreeState>) -> (r: Result<
        NodeId,
        TextError,
    >)
        ensures
            r == if tree_state.is_some() && is_document(view_of(tree_state).unwrap(), self.state.node_id) {
                Ok::<NodeId, TextError>(self.state.node_id)
            } else {
                Err::<NodeId, TextError>(TextError::ElementNotAvailable)
            },
    {
        proof {
            if let Some(tree) = tree_state {
                use_type_invariant(tree);
            }
        }
        let tree = match tree_state {
            Some(tree) => tree,
            None => {
                return Err(TextError::ElementNotAvailable);
            },
        };
        match upgrade_range_node(&self.state, tree) {
            Ok(doc) => Ok(doc.id()),
            Err(e) => Err(e),
        }
    }

    /// What `Select` asks the producer to do.
    pub open spec fn select_outcome(tree: Option<TreeView>, weak: WeakRangeView) -> Result<
        ActionRequest,
        TextError,
    > {
        if tree.is_none() || resolved(tree.unwrap(), weak).is_none() {
            Err(TextError::ElementNotAvailable)
        } else {
            Ok(
                ActionRequest {
                    action: Action::SetTextSelection,
                    target: weak.node_id,
                    data: Some(
                        ActionData::SetTextSelection(
                            TextSelection { anchor: weak.start, focus: weak.end },
                        ),
                    ),
                },
            )
        }
    }

    /// Makes the range the selection: returns the request that the
    /// producer is to be given. The tree itself is not changed.
    pub fn Select(&self, tree_state: Option<&TreeState>) -> (r: Result<ActionRequest, TextError>)
        ensures
            r == Self::select_outcome(view_of(tree_state), self.state@),
    {
        proof {
            if let Some(tree) = tree_state {
                use_type_invariant(tree);
            }
        }
        let tree = match tree_state {
            Some(tree) => tree,
            None => {
                return Err(TextError::ElementNotAvailable);
            },
        };
        let (doc, range) = match upgrade_range(&self.state, tree) {
            Ok(found) => found,
            Err(e) => {
                return Err(e);
            },
        };
        proof {
            document_of(tree@, self.state.node_id).lemma_resolve(self.state.start);
            document_of(tree@, self.state.node_id).lemma_resolve(self.state.end);
        }
        let selection = TextSelection {
            anchor: doc.downgrade_position(range.start),
            focus: doc.downgrade_position(range.end),
        };
        Ok(
            ActionRequest {
                action: Action::SetTextSelection,
                target: doc.id(),
                data: Some(ActionData::SetTextSelection(selection)),
            },
        )
    }

    /// A second selection cannot be had.
    pub fn AddToSelection(&self) -> (r: Result<(), TextError>)
        ensures
            r == Err::<(), TextError>(TextError::UnsupportedOperation),
    {
        Err(TextError::UnsupportedOperation)
    }

    /// A second selection cannot be had, so none can be taken away.
    pub fn RemoveFromSelection(&self) -> (r: Result<(), TextError>)
        ensures
            r == Err::<(), TextError>(TextError::UnsupportedOperation),
    {
        Err(TextError::UnsupportedOperation)
    }

    /// What `ScrollIntoView` asks the producer to do.
    pub open spec fn scroll_outcome(
        tree: Option<TreeView>,
        weak: WeakRangeView,
        align_to_top: bool,
    ) -> Result<ActionRequest, TextError> {
        if tree.is_none() || resolved(tree.unwrap(), weak).is_none() {
            Err(TextError::ElementNotAvailable)
        } else {
            Ok(
                ActionRequest {
                    action: Action::ScrollIntoView,
                    target: if align_to_top {
                        weak.start.node
                    } else {
                        weak.end.node
                    },
                    data: None,
                },
            )
        }
    }

    /// Scrolls the start or the end of the range into view: returns the
    /// request that the producer is to be given.
    pub fn ScrollIntoView(&self, tree_state: Option<&TreeState>, align_to_top: bool) -> (r: Result<
        ActionRequest,
        TextError,
    >)
        ensures
            r == Self::scroll_outcome(view_of(tree_state), self.state@, align_to_top),
    {
        proof {
            if let Some(tree) = tree_state {
                use_type_invariant(tree);
            }
        }
        let tree = match tree_state {
            Some(tree) => tree,
            None => {
                return Err(TextError::ElementNotAvailable);
            },
        };
        let (doc, range) = match upgrade_range(&self.state, tree) {
            Ok(found) => found,
            Err(e) => {
                return Err(e);
            },
        };
        proof {
            document_of(tree@, self.state.node_id).lemma_resolve(self.state.start);
            document_of(tree@, self.state.node_id).lemma_resolve(self.state.end);
        }
        let position = if align_to_top {
            range.start
        } else {
            range.end
        };
        Ok(
            ActionRequest {
                action: Action::ScrollIntoView,
                target: doc.downgrade_position(position).node,
                data: None,
            },
        )
    }
}

/// Grows `range` to the unit that encloses its start.
fn expand(doc: &Document, range: &mut Range, unit: TextUnit) -> (r: Result<(), TextError>)
    requires
        doc@.holds(*old(range)),
        unit != TEXT_UNIT_DOCUMENT,
    ensures
        doc@.holds(*final(range)),
        if unit == TEXT_UNIT_CHARACTER && doc@.at_document_end(old(range).start) {
            r == Ok::<(), TextError>(()) && *final(range) == *old(range)
        } else if !is_unit(unit) {
            r == Err::<(), TextError>(TextError::InvalidArgument) && *final(range) == *old(range)
        } else {
            r == Ok::<(), TextError>(()) && *final(range) == doc@.expanded(*old(range), unit)
        },
{
    proof {
        use_type_invariant(doc);
    }
    let start = range.start;
    if unit == TEXT_UNIT_CHARACTER && doc.is_document_end(start) {
        // A caret at the end of the document has no character to grow to.
        return Ok(());
    }
    let start = match back_to_unit_start(doc, start, unit) {
        Ok(p) => p,
        Err(e) => {
            return Err(e);
        },
    };
    doc.set_start(range, start);
    if !doc.is_document_end(start) {
        let end = match move_forward_to_end(doc, start, unit) {
            Ok(p) => p,
            Err(e) => {
                return Err(e);
            },
        };
        doc.set_end(range, end);
    }
    Ok(())
}

/// Moves `range` by `count` units.
fn move_range(doc: &Document, range: &mut Range, unit: TextUnit, count: i32) -> (r: Result<
    i32,
    TextError,
>)
    requires
        doc@.holds(*old(range)),
    ensures
        doc@.holds(*final(range)),
        match r {
            Ok(moved) => !doc@.move_range_fails(*old(range), unit, count) && moved
                == doc@.range_moves(*old(range), unit, count) && *final(range) == doc@.moved_range(
                *old(range),
                unit,
                count,
            ),
            Err(e) => doc@.move_range_fails(*old(range), unit, count) && e
                == TextError::InvalidArgument && *final(range) == *old(range),
        },
{
    proof {
        use_type_invariant(doc);
    }
    let degenerate = doc.is_degenerate(range);
    let start = range.start;
    let start = if degenerate {
        start
    } else {
        match back_to_unit_start(doc, start, unit) {
            Ok(p) => p,
            Err(e) => {
                return Err(e);
            },
        }
    };
    let (start, moved) = match move_position(doc, start, unit, false, count) {
        Ok(found) => found,
        Err(e) => {
            return Err(e);
        },
    };
    if moved != 0 {
        doc.set_start(range, start);
        let end = if degenerate || doc.is_document_end(start) {
            start
        } else {
            match move_forward_to_end(doc, start, unit) {
                Ok(p) => p,
                Err(e) => {
                    return Err(e);
                },
            }
        };
        doc.set_end(range, end);
    }
    Ok(moved)
}

/// Moves one end of `range` by `count` units.
fn move_endpoint(
    doc: &Document,
    range: &mut Range,
    endpoint: TextPatternRangeEndpoint,
    unit: TextUnit,
    count: i32,
) -> (r: Result<i32, TextError>)
    requires
        doc@.holds(*old(range)),
    ensures
        doc@.holds(*final(range)),
        match r {
            Ok(moved) => is_endpoint(endpoint) && !move_fails(
                doc@,
                end_of(*old(range), endpoint),
                unit,
                count,
            ) && moved == doc@.endpoint_moves(*old(range), endpoint, unit, count) && *final(range)
                == doc@.with_endpoint_moved(*old(range), endpoint, unit, count),
            Err(e) => (!is_endpoint(endpoint) || move_fails(
                doc@,
                end_of(*old(range), endpoint),
                unit,
                count,
            )) && e == TextError::InvalidArgument && *final(range) == *old(range),
        },
{
    proof {
        use_type_invariant(doc);
    }
    let pos = match position_from_endpoint(range, endpoint) {
        Ok(p) => p,
        Err(e) => {
            return Err(e);
        },
    };
    let (pos, moved) = match move_position(doc, pos, unit, endpoint == ENDPOINT_END, count) {
        Ok(found) => found,
        Err(e) => {
            return Err(e);
        },
    };
    match set_endpoint_position(doc, range, endpoint, pos) {
        Ok(()) => Ok(moved),
        Err(e) => Err(e),
    }
}

} // verus!
