//! Ranges of text: a pair of positions in a document, and the form in
//! which a range is kept while the tree may change.

use vstd::prelude::*;
use crate::document::{document_of, is_document, Document, DocumentView};
use crate::position::{compare_keys, key_view, lemma_key_order_total, Position};
use crate::schema::{NodeId, TextPosition};
use crate::tree::{TreeState, TreeView};

verus! {

/// A range of text in a document: from `start` to `end`.
#[derive(Clone, Copy, Debug, PartialEq, Eq, Structural)]
pub struct Range {
    pub start: Position,
    pub end: Position,
}

/// A range as it is kept between calls: the document and the two ends by
/// identifier, which must be resolved against the tree before use, and the
/// keys of the two ends, which can be compared without the tree.
#[derive(Debug)]
pub struct WeakRange {
    pub node_id: NodeId,
    pub start: TextPosition,
    pub end: TextPosition,
    pub start_comparable: (Vec<usize>, usize),
    pub end_comparable: (Vec<usize>, usize),
}

/// A stored range as a mathematical value.
pub struct WeakRangeView {
    pub node_id: NodeId,
    pub start: TextPosition,
    pub end: TextPosition,
    pub start_key: (Seq<usize>, usize),
    pub end_key: (Seq<usize>, usize),
}

impl View for WeakRange {
    type V = WeakRangeView;

    open spec fn view(&self) -> WeakRangeView {
        WeakRangeView {
            node_id: self.node_id,
            start: self.start,
            end: self.end,
            start_key: key_view(self.start_comparable),
            end_key: key_view(self.end_comparable),
        }
    }
}

/// The range that `weak` names in `tree`, if its node is a document there
/// and both its ends are positions of that document.
pub open spec fn resolved(tree: TreeView, weak: WeakRangeView) -> Option<Range> {
    if is_document(tree, weak.node_id) {
        let doc = document_of(tree, weak.node_id);
        match (doc.resolve(weak.start), doc.resolve(weak.end)) {
            (Some(start), Some(end)) => Some(Range { start, end }),
            _ => None,
        }
    } else {
        None
    }
}

impl DocumentView {
    /// Whether both ends of `range` are positions of this document.
    pub open spec fn holds(self, range: Range) -> bool {
        self.valid(range.start) && self.valid(range.end)
    }

    /// The range between `a` and `b`, whichever comes first.
    pub open spec fn range_between(self, a: Position, b: Position) -> Range {
        if self.order(a, b) > 0 {
            Range { start: b, end: a }
        } else {
            Range { start: a, end: b }
        }
    }

    /// `range` with its start moved to `pos`; where that is at or after
    /// the end, the end is moved there too.
    pub open spec fn with_start(self, range: Range, pos: Position) -> Range {
        if self.order(pos, range.end) >= 0 {
            Range { start: pos, end: pos }
        } else {
            Range { start: pos, end: range.end }
        }
    }

    /// `range` with its end moved to `pos`; where that is at or before the
    /// start, the start is moved there too.
    pub open spec fn with_end(self, range: Range, pos: Position) -> Range {
        if self.order(range.start, pos) >= 0 {
            Range { start: pos, end: pos }
        } else {
            Range { start: range.start, end: pos }
        }
    }

    /// The stored form of the position `p`.
    pub open spec fn weak_position(self, p: Position) -> TextPosition {
        TextPosition {
            node: self.boxes[p.index as int].id,
            character_index: p.character_index,
        }
    }

    /// The stored form of `range`.
    pub open spec fn stored(self, range: Range) -> WeakRangeView {
        WeakRangeView {
            node_id: self.id,
            start: self.weak_position(range.start),
            end: self.weak_position(range.end),
            start_key: self.key(range.start),
            end_key: self.key(range.end),
        }
    }

    /// The index of the first box with the identifier `id`, if there is
    /// one.
    pub open spec fn first_box(self, id: NodeId, from: int) -> Option<int>
        decreases self.boxes.len() - from,
    {
        if from < 0 || from >= self.boxes.len() {
            None
        } else if self.boxes[from].id == id {
            Some(from)
        } else {
            self.first_box(id, from + 1)
        }
    }

    /// The position that `weak` names, if its node is a box of this
    /// document and has that many characters.
    pub open spec fn resolve(self, weak: TextPosition) -> Option<Position> {
        match self.first_box(weak.node, 0) {
            Some(i) => if weak.character_index <= self.boxes[i].character_count {
                Some(Position { index: i as usize, character_index: weak.character_index })
            } else {
                None
            },
            None => None,
        }
    }

    /// Every range that is built from two positions, or by moving an end
    /// of a range, runs forward: its start does not come after its end.
    pub proof fn lemma_ranges_run_forward(self, range: Range, a: Position, b: Position)
        ensures
            self.order(self.range_between(a, b).start, self.range_between(a, b).end) <= 0,
            self.order(self.with_start(range, a).start, self.with_start(range, a).end) <= 0,
            self.order(self.with_end(range, a).start, self.with_end(range, a).end) <= 0,
    {
        lemma_key_order_total(self.key(a), self.key(b), self.key(a));
        lemma_key_order_total(self.key(a), self.key(a), self.key(a));
        lemma_key_order_total(self.key(range.start), self.key(a), self.key(a));
        lemma_key_order_total(self.key(a), self.key(range.end), self.key(a));
    }

    /// A position that resolves is stored as what it was resolved from.
    pub proof fn lemma_resolve(self, weak: TextPosition)
        requires
            self.wf(),
        ensures
            self.resolve(weak) matches Some(p) ==> self.valid(p) && self.weak_position(p) == weak,
    {
        self.lemma_first_box(weak.node, 0);
    }

    /// The box that `first_box` finds has the identifier asked for.
    pub proof fn lemma_first_box(self, id: NodeId, from: int)
        requires
            0 <= from,
        ensures
            match self.first_box(id, from) {
                Some(i) => from <= i < self.boxes.len() && self.boxes[i].id == id,
                None => forall|k: int| from <= k < self.boxes.len() ==> (#[trigger] self.boxes[k]).id
                    != id,
            },
        decreases self.boxes.len() - from,
    {
        if from < self.boxes.len() && self.boxes[from].id != id {
            self.lemma_first_box(id, from + 1);
        }
    }
}

impl Document {
    /// The range between `a` and `b`, whichever comes first.
    pub fn range(&self, a: Position, b: Position) -> (r: Range)
        requires
            self@.valid(a),
            self@.valid(b),
        ensures
            r == self@.range_between(a, b),
            self@.holds(r),
    {
        if self.compare(a, b) > 0 {
            Range { start: b, end: a }
        } else {
            Range { start: a, end: b }
        }
    }

    /// The range from the first position of the document to its last.
    pub fn document_range(&self) -> (r: Range)
        ensures
            r == self@.range_between(self@.first_position(), self@.last_position()),
            self@.holds(r),
    {
        proof {
            use_type_invariant(self);
        }
        let start = self.document_start();
        let end = self.document_end();
        self.range(start, end)
    }

    /// Whether `range` is a caret: its ends are the same place.
    pub fn is_degenerate(&self, range: &Range) -> (r: bool)
        requires
            self@.holds(*range),
        ensures
            r == (self@.order(range.start, range.end) == 0),
    {
        self.compare(range.start, range.end) == 0
    }

    /// Moves the start of `range` to `pos`. Where `pos` is at or after
    /// the end, the end moves there too.
    pub fn set_start(&self, range: &mut Range, pos: Position)
        requires
            self@.holds(*old(range)),
            self@.valid(pos),
        ensures
            *final(range) == self@.with_start(*old(range), pos),
            self@.holds(*final(range)),
    {
        range.start = pos;
        // `>=` and not `>`: ends that are the same place under two names
        // are given one name.
        if self.compare(range.start, range.end) >= 0 {
            range.end = range.start;
        }
    }

    /// Moves the end of `range` to `pos`. Where `pos` is at or before the
    /// start, the start moves there too.
    pub fn set_end(&self, range: &mut Range, pos: Position)
        requires
            self@.holds(*old(range)),
            self@.valid(pos),
        ensures
            *final(range) == self@.with_end(*old(range), pos),
            self@.holds(*final(range)),
    {
        range.end = pos;
        if self.compare(range.start, range.end) >= 0 {
            range.start = range.end;
        }
    }

    /// The stored form of the position `p`.
    pub fn downgrade_position(&self, p: Position) -> (r: TextPosition)
        requires
            self@.valid(p),
        ensures
            r == self@.weak_position(p),
    {
        TextPosition { node: self.boxes[p.index].id, character_index: p.character_index }
    }

    /// The stored form of `range`.
    pub fn downgrade(&self, range: &Range) -> (r: WeakRange)
        requires
            self@.holds(*range),
        ensures
            r@ == self@.stored(*range),
    {
        WeakRange {
            node_id: self.id,
            start: self.downgrade_position(range.start),
            end: self.downgrade_position(range.end),
            start_comparable: self.comparable(range.start),
            end_comparable: self.comparable(range.end),
        }
    }

    /// The position that `weak` names, if its node is a box of this
    /// document and has that many characters.
    pub fn upgrade_position(&self, weak: TextPosition) -> (r: Option<Position>)
        ensures
            r == self@.resolve(weak),
            r matches Some(p) ==> self@.valid(p),
    {
        let mut i: usize = 0;
        while i < self.boxes.len()
            invariant
                i <= self.boxes.len(),
                self@.first_box(weak.node, i as int) == self@.first_box(weak.node, 0),
            decreases self.boxes.len() - i,
        {
            if self.boxes[i].id == weak.node {
                if weak.character_index <= self.boxes[i].character_count {
                    return Some(Position { index: i, character_index: weak.character_index });
                } else {
                    return None;
                }
            }
            i += 1;
        }
        None
    }
}

impl Clone for WeakRange {
    fn clone(&self) -> (r: Self)
        ensures
            r@ == self@,
    {
        WeakRange {
            node_id: self.node_id,
            start: self.start,
            end: self.end,
            start_comparable: (self.start_comparable.0.clone(), self.start_comparable.1),
            end_comparable: (self.end_comparable.0.clone(), self.end_comparable.1),
        }
    }
}

impl WeakRange {
    /// The identifier of the node that carries the document.
    pub fn node_id(&self) -> (r: NodeId)
        ensures
            r == self.node_id,
    {
        self.node_id
    }

    /// The key of the start.
    pub fn start_comparable(&self) -> (r: &(Vec<usize>, usize))
        ensures
            *r == self.start_comparable,
    {
        &self.start_comparable
    }

    /// The key of the end.
    pub fn end_comparable(&self) -> (r: &(Vec<usize>, usize))
        ensures
            *r == self.end_comparable,
    {
        &self.end_comparable
    }

    /// Whether the two stored ranges are the same: the same document, the
    /// same ends and the same keys.
    pub fn same_as(&self, other: &WeakRange) -> (r: bool)
        ensures
            r == (self@ == other@),
    {
        proof {
            let none = (Seq::<usize>::empty(), 0usize);
            lemma_key_order_total(
                key_view(self.start_comparable),
                key_view(other.start_comparable),
                none,
            );
            lemma_key_order_total(key_view(self.end_comparable), key_view(other.end_comparable), none);
        }
        self.node_id == other.node_id && self.start == other.start && self.end == other.end
            && compare_keys(&self.start_comparable, &other.start_comparable) == 0 && compare_keys(
            &self.end_comparable,
            &other.end_comparable,
        ) == 0
    }

    /// The document of the range, if its node still is one.
    pub fn upgrade_node(&self, state: &TreeState) -> (r: Option<Document>)
        ensures
            match r {
                Some(doc) => is_document(state@, self.node_id) && doc@ == document_of(
                    state@,
                    self.node_id,
                ) && doc@.wf(),
                None => !is_document(state@, self.node_id),
            },
    {
        proof {
            use_type_invariant(state);
        }
        Document::new(state, self.node_id)
    }

    /// The document and the range, if the node still is a document and
    /// both ends still are positions of it.
    pub fn upgrade(&self, state: &TreeState) -> (r: Option<(Document, Range)>)
        ensures
            match r {
                Some((doc, range)) => {
                    &&& is_document(state@, self.node_id)
                    &&& doc@ == document_of(state@, self.node_id)
                    &&& doc@.wf()
                    &&& doc@.holds(range)
                    &&& resolved(state@, self@) == Some(range)
                },
                None => resolved(state@, self@).is_none(),
            },
    {
        proof {
            use_type_invariant(state);
        }
        let doc = match self.upgrade_node(state) {
            Some(doc) => doc,
            None => {
                return None;
            },
        };
        let start = match doc.upgrade_position(self.start) {
            Some(p) => p,
            None => {
                return None;
            },
        };
        let end = match doc.upgrade_position(self.end) {
            Some(p) => p,
            None => {
                return None;
            },
        };
        Some((doc, Range { start, end }))
    }
}

} // verus!
