//! A text document: a node that carries text, read as the row of inline
//! text boxes below it.

use vstd::prelude::*;
use crate::filter::{
    filtered_child, filtered_children_from, filtered_children_of, Filter, FilterResult,
};
use crate::node::{text_of, Node};
use crate::position::{path_order, Position};
use crate::schema::{NodeId, Role};
use crate::tree::{TreeState, TreeView};

verus! {

/// What the text model reads of one inline text box.
pub struct TextBox {
    pub id: NodeId,
    /// The number of characters of the box.
    pub character_count: usize,
    /// The length of each word of the box, in characters.
    pub word_lengths: Vec<u8>,
    /// The box that the producer names as the one before this on the line.
    pub previous_on_line: Option<NodeId>,
    /// The box that the producer names as the one after this on the line.
    pub next_on_line: Option<NodeId>,
    /// Whether the text of the box ends with a line feed.
    pub ends_paragraph: bool,
    /// The index of the box among its parent's children, after that of
    /// the parent among its own, and so on up to a child of the document.
    pub path: Vec<usize>,
}

/// A text document: the node that carries it and its inline text boxes in
/// reading order.
pub struct Document {
    pub(crate) id: NodeId,
    pub(crate) boxes: Vec<TextBox>,
}

/// An inline text box as a mathematical value.
pub struct TextBoxView {
    pub id: NodeId,
    pub character_count: usize,
    pub word_lengths: Seq<u8>,
    pub previous_on_line: Option<NodeId>,
    pub next_on_line: Option<NodeId>,
    pub ends_paragraph: bool,
    pub path: Seq<usize>,
}

/// A text document as a mathematical value.
pub struct DocumentView {
    pub id: NodeId,
    pub boxes: Seq<TextBoxView>,
}

impl View for TextBox {
    type V = TextBoxView;

    open spec fn view(&self) -> TextBoxView {
        TextBoxView {
            id: self.id,
            character_count: self.character_count,
            word_lengths: self.word_lengths@,
            previous_on_line: self.previous_on_line,
            next_on_line: self.next_on_line,
            ends_paragraph: self.ends_paragraph,
            path: self.path@,
        }
    }
}

impl View for Document {
    type V = DocumentView;

    open(crate) spec fn view(&self) -> DocumentView {
        DocumentView { id: self.id, boxes: Seq::new(self.boxes@.len(), |i: int| self.boxes@[i]@) }
    }
}

/// The sum of the first `n` items of `lengths`.
pub open spec fn prefix_sum(lengths: Seq<u8>, n: int) -> int
    decreases n,
{
    if n <= 0 {
        0
    } else {
        prefix_sum(lengths, n - 1) + lengths[n - 1]
    }
}

/// The sum of all items of `lengths`.
pub open spec fn total(lengths: Seq<u8>) -> int {
    prefix_sum(lengths, lengths.len() as int)
}

/// Whether a string ends with a line feed.
pub open spec fn ends_with_line_feed(text: Option<Seq<char>>) -> bool {
    text matches Some(s) && s.len() > 0 && s.last() == '\n'
}

/// The child indexes that lead from `top` down to `id`; those that lead
/// from the root where `id` is not below `top`.
pub open spec fn index_path(tree: TreeView, top: NodeId, id: NodeId) -> Seq<usize>
    decreases tree.rank(id),
    when tree.wf() && tree.contains(id)
{
    if id == top {
        Seq::empty()
    } else {
        match tree.place(id) {
            None => Seq::empty(),
            Some(place) => index_path(tree, top, place.parent).push(place.index),
        }
    }
}

/// Whether a node of this role can carry a text document.
pub open spec fn carries_text(role: Role) -> bool {
    role == Role::StaticText || role == Role::TextField || role == Role::Document
}

/// The inline text boxes of the document `top`, in reading order.
pub open spec fn text_boxes_of(tree: TreeView, top: NodeId) -> Seq<NodeId> {
    filtered_children_of(tree, Filter::InlineText { root: top }, top)
}

/// What the text model reads of the node `id` in the document `top`.
pub open spec fn box_of(tree: TreeView, top: NodeId, id: NodeId) -> TextBoxView {
    TextBoxView {
        id,
        character_count: tree.node(id).character_lengths@.len() as usize,
        word_lengths: tree.node(id).word_lengths@,
        previous_on_line: tree.node(id).previous_on_line,
        next_on_line: tree.node(id).next_on_line,
        ends_paragraph: ends_with_line_feed(text_of(tree.node(id).value)),
        path: index_path(tree, top, id),
    }
}

/// The node `top` of `tree`, read as a text document.
pub open spec fn document_of(tree: TreeView, top: NodeId) -> DocumentView {
    DocumentView {
        id: top,
        boxes: Seq::new(
            text_boxes_of(tree, top).len(),
            |i: int| box_of(tree, top, text_boxes_of(tree, top)[i]),
        ),
    }
}

/// Whether the node `top` is a text document in `tree`: it is live, its
/// role can carry text, it has at least one inline text box and in every
/// box the words add up to the characters.
pub open spec fn is_document(tree: TreeView, top: NodeId) -> bool {
    &&& tree.contains(top)
    &&& carries_text(tree.node(top).role)
    &&& text_boxes_of(tree, top).len() > 0
    &&& forall|i: int|
        0 <= i < text_boxes_of(tree, top).len() ==> total(
            tree.node(#[trigger] text_boxes_of(tree, top)[i]).word_lengths@,
        ) == tree.node(text_boxes_of(tree, top)[i]).character_lengths@.len()
}

/// Everything that the children of a live node give to a view is live.
pub proof fn lemma_filtered_children_live(
    tree: TreeView,
    filter: Filter,
    id: NodeId,
    from: int,
    i: int,
)
    requires
        tree.wf(),
        tree.contains(id),
        0 <= from,
        0 <= i < filtered_children_from(tree, filter, id, from).len(),
    ensures
        tree.contains(filtered_children_from(tree, filter, id, from)[i]),
    decreases tree.order.len() - tree.rank(id), tree.children(id).len() - from,
{
    let child = tree.children(id)[from];
    assert(tree.contains(child));
    let head = match filter.result(tree, child) {
        FilterResult::Include => seq![child],
        FilterResult::ExcludeNode => filtered_children_from(tree, filter, child, 0),
        FilterResult::ExcludeSubtree => Seq::empty(),
    };
    if i < head.len() {
        if filter.result(tree, child) == FilterResult::ExcludeNode {
            lemma_filtered_children_live(tree, filter, child, 0, i);
        }
    } else {
        lemma_filtered_children_live(tree, filter, id, from + 1, i - head.len());
    }
}

/// Whether `a` is the start of `b`.
pub open spec fn is_prefix(a: Seq<usize>, b: Seq<usize>) -> bool {
    a.len() <= b.len() && forall|j: int| 0 <= j < a.len() ==> a[j] == b[j]
}

/// Two paths that agree up to an index, where the first has the lower
/// item, compare as first before second.
pub proof fn lemma_path_order_differs(a: Seq<usize>, b: Seq<usize>, n: int, k: int)
    requires
        0 <= k <= n,
        n < a.len(),
        n < b.len(),
        forall|j: int| 0 <= j < n ==> a[j] == b[j],
        a[n] < b[n],
    ensures
        path_order(a, b, k) == -1,
    decreases n - k,
{
    if k < n {
        lemma_path_order_differs(a, b, n, k + 1);
    }
}

/// The path of a child is the path of its parent with the index of the
/// child after it.
proof fn lemma_child_path(tree: TreeView, top: NodeId, id: NodeId, k: int)
    requires
        tree.wf(),
        tree.contains(top),
        tree.contains(id),
        tree.rank(top) <= tree.rank(id),
        0 <= k < tree.children(id).len(),
    ensures
        tree.contains(tree.children(id)[k]),
        tree.rank(top) <= tree.rank(tree.children(id)[k]),
        index_path(tree, top, tree.children(id)[k]) == index_path(tree, top, id).push(k as usize),
{
    let c = tree.children(id)[k];
    assert(tree.contains(c));
    assert(k < tree.nodes[id].data.children.len());
    assert(c != tree.root);
    assert(tree.rank(id) < tree.rank(c));
}

/// What the children of a node give to a view lies below the node: the
/// path of each item starts with the path of the node, and goes on with
/// the index of a child that was looked at.
proof fn lemma_filtered_path_extends(
    tree: TreeView,
    top: NodeId,
    filter: Filter,
    id: NodeId,
    from: int,
    a: int,
)
    requires
        tree.wf(),
        tree.contains(top),
        tree.contains(id),
        tree.rank(top) <= tree.rank(id),
        0 <= from,
        0 <= a < filtered_children_from(tree, filter, id, from).len(),
    ensures
        is_prefix(
            index_path(tree, top, id),
            index_path(tree, top, filtered_children_from(tree, filter, id, from)[a]),
        ),
        index_path(tree, top, id).len() < index_path(
            tree,
            top,
            filtered_children_from(tree, filter, id, from)[a],
        ).len(),
        from <= index_path(tree, top, filtered_children_from(tree, filter, id, from)[a])[index_path(
            tree,
            top,
            id,
        ).len() as int],
        a < filtered_child(tree, filter, id, from).len() ==> index_path(
            tree,
            top,
            filtered_children_from(tree, filter, id, from)[a],
        )[index_path(tree, top, id).len() as int] == from,
    decreases tree.order.len() - tree.rank(id), tree.children(id).len() - from,
{
    let child = tree.children(id)[from];
    let head = filtered_child(tree, filter, id, from);
    let tail = filtered_children_from(tree, filter, id, from + 1);
    let all = filtered_children_from(tree, filter, id, from);
    let own = index_path(tree, top, id);
    assert(from < tree.nodes[id].data.children.len());
    assert(all == head + tail);
    lemma_child_path(tree, top, id, from);
    let reached = index_path(tree, top, child);
    assert(reached == own.push(from as usize));
    if a < head.len() {
        assert(all[a] == head[a]);
        if filter.result(tree, child) == FilterResult::ExcludeNode {
            lemma_filtered_path_extends(tree, top, filter, child, 0, a);
            let path = index_path(tree, top, all[a]);
            assert(path[own.len() as int] == reached[own.len() as int]);
            assert forall|j: int| 0 <= j < own.len() implies own[j] == path[j] by {
                assert(reached[j] == path[j]);
            }
        } else {
            assert(all[a] == child);
        }
    } else {
        assert(all[a] == tail[a - head.len()]);
        lemma_filtered_path_extends(tree, top, filter, id, from + 1, a - head.len());
    }
}

/// What the children of a node give to a view comes in the order of the
/// paths.
proof fn lemma_filtered_paths_sorted(
    tree: TreeView,
    top: NodeId,
    filter: Filter,
    id: NodeId,
    from: int,
    a: int,
    b: int,
)
    requires
        tree.wf(),
        tree.contains(top),
        tree.contains(id),
        tree.rank(top) <= tree.rank(id),
        0 <= from,
        0 <= a < b < filtered_children_from(tree, filter, id, from).len(),
    ensures
        path_order(
            index_path(tree, top, filtered_children_from(tree, filter, id, from)[a]),
            index_path(tree, top, filtered_children_from(tree, filter, id, from)[b]),
            0,
        ) == -1,
    decreases tree.order.len() - tree.rank(id), tree.children(id).len() - from,
{
    let child = tree.children(id)[from];
    let head = filtered_child(tree, filter, id, from);
    let tail = filtered_children_from(tree, filter, id, from + 1);
    let all = filtered_children_from(tree, filter, id, from);
    let own = index_path(tree, top, id);
    assert(all == head + tail);
    lemma_child_path(tree, top, id, from);
    if b < head.len() {
        assert(all[a] == head[a] && all[b] == head[b]);
        lemma_filtered_paths_sorted(tree, top, filter, child, 0, a, b);
    } else if a >= head.len() {
        assert(all[a] == tail[a - head.len()] && all[b] == tail[b - head.len()]);
        lemma_filtered_paths_sorted(tree, top, filter, id, from + 1, a - head.len(), b - head.len());
    } else {
        assert(all[b] == tail[b - head.len()]);
        lemma_filtered_path_extends(tree, top, filter, id, from, a);
        lemma_filtered_path_extends(tree, top, filter, id, from + 1, b - head.len());
        lemma_path_order_differs(
            index_path(tree, top, all[a]),
            index_path(tree, top, all[b]),
            own.len() as int,
            0,
        );
    }
}

/// The boxes of a document come in the order of their paths.
pub proof fn lemma_boxes_in_path_order(tree: TreeView, top: NodeId, i: int, j: int)
    requires
        tree.wf(),
        tree.contains(top),
        0 <= i < j < document_of(tree, top).boxes.len(),
    ensures
        path_order(document_of(tree, top).boxes[i].path, document_of(tree, top).boxes[j].path, 0)
            == -1,
{
    lemma_filtered_paths_sorted(tree, top, Filter::InlineText { root: top }, top, 0, i, j);
}

/// `str::ends_with`, asked for a line feed: tells whether the last
/// character of the string is one.
#[verifier::external_body]
fn ends_with_newline(s: &str) -> (r: bool)
    ensures
        r == (s@.len() > 0 && s@.last() == '\n'),
{
    s.ends_with('\n')
}

/// Whether the items of `lengths` add up to `count`.
fn adds_up_to(lengths: &Vec<u8>, count: usize) -> (r: bool)
    ensures
        r == (total(lengths@) == count),
{
    let mut sum: usize = 0;
    let mut i: usize = 0;
    while i < lengths.len()
        invariant
            i <= lengths.len(),
            sum == prefix_sum(lengths@, i as int),
            sum <= count,
        decreases lengths.len() - i,
    {
        let w = lengths[i] as usize;
        if w > count - sum {
            proof {
                lemma_prefix_sum_grows(lengths@, i + 1, lengths.len() as int);
            }
            return false;
        }
        sum += w;
        i += 1;
    }
    sum == count
}

/// A longer prefix does not add up to less.
pub proof fn lemma_prefix_sum_grows(lengths: Seq<u8>, a: int, b: int)
    requires
        0 <= a <= b,
    ensures
        prefix_sum(lengths, a) <= prefix_sum(lengths, b),
        0 <= prefix_sum(lengths, a),
    decreases b,
{
    if a < b {
        lemma_prefix_sum_grows(lengths, a, b - 1);
    } else if a > 0 {
        lemma_prefix_sum_grows(lengths, a - 1, a - 1);
    }
}

impl TreeState {
    /// The child indexes that lead from `top` down to the live node `id`.
    pub fn relative_index_path(&self, top: NodeId, id: NodeId) -> (r: Vec<usize>)
        requires
            self@.contains(id),
        ensures
            r@ == index_path(self@, top, id),
    {
        proof {
            use_type_invariant(self);
        }
        let mut reversed: Vec<usize> = Vec::new();
        let mut current = id;
        loop
            invariant
                self.wf(),
                self@.contains(id),
                self@.contains(current),
                index_path(self@, top, id) == index_path(self@, top, current) + reversed@.reverse(),
            ensures
                index_path(self@, top, id) == reversed@.reverse(),
            decreases self@.rank(current),
        {
            if current == top {
                assert(index_path(self@, top, current) + reversed@.reverse() =~= reversed@.reverse());
                break;
            }
            match self.parent_and_index(current) {
                None => {
                    assert(index_path(self@, top, current) + reversed@.reverse()
                        =~= reversed@.reverse());
                    break;
                },
                Some(place) => {
                    proof {
                        let rest = index_path(self@, top, place.parent);
                        assert(index_path(self@, top, current) == rest.push(place.index));
                        assert(reversed@.push(place.index).reverse() =~= seq![place.index]
                            + reversed@.reverse());
                        assert(rest.push(place.index) + reversed@.reverse() =~= rest + (
                        seq![place.index] + reversed@.reverse()));
                    }
                    reversed.push(place.index);
                    current = place.parent;
                },
            }
        }
        let mut path: Vec<usize> = Vec::new();
        let mut i: usize = reversed.len();
        while i > 0
            invariant
                i <= reversed.len(),
                path@ == reversed@.reverse().subrange(0, reversed.len() - i),
            decreases i,
        {
            i -= 1;
            path.push(reversed[i]);
            assert(path@ =~= reversed@.reverse().subrange(0, reversed.len() - i));
        }
        assert(path@ =~= reversed@.reverse());
        path
    }
}


impl DocumentView {
    /// The document has a box, and in every box the words add up to the
    /// characters.
    pub open spec fn wf(self) -> bool {
        &&& 0 < self.boxes.len() <= usize::MAX
        &&& forall|i: int|
            0 <= i < self.boxes.len() ==> total((#[trigger] self.boxes[i]).word_lengths)
                == self.boxes[i].character_count
        &&& self.in_path_order()
    }

    /// The boxes come in the order of their paths.
    pub open spec fn in_path_order(self) -> bool {
        forall|i: int, j: int|
            0 <= i < j < self.boxes.len() ==> path_order(
                (#[trigger] self.boxes[i]).path,
                (#[trigger] self.boxes[j]).path,
                0,
            ) == -1
    }
}

impl Document {
    /// Reads the node `id` as a text document, if it is one.
    pub fn new(state: &TreeState, id: NodeId) -> (r: Option<Document>)
        ensures
            match r {
                Some(doc) => is_document(state@, id) && doc@ == document_of(state@, id) && doc@.wf(),
                None => !is_document(state@, id),
            },
    {
        proof {
            use_type_invariant(state);
        }
        let node = match state.node_by_id(id) {
            Some(node) => node,
            None => {
                return None;
            },
        };
        if !(node.role == Role::StaticText || node.role == Role::TextField || node.role
            == Role::Document) {
            return None;
        }
        let filter = Filter::InlineText { root: id };
        let ids = state.filtered_children(id, filter);
        if ids.len() == 0 {
            return None;
        }
        let mut boxes: Vec<TextBox> = Vec::new();
        let mut i: usize = 0;
        while i < ids.len()
            invariant
                state.wf(),
                state@.contains(id),
                filter == (Filter::InlineText { root: id }),
                ids@ == text_boxes_of(state@, id),
                i <= ids.len(),
                boxes.len() == i,
                forall|k: int|
                    0 <= k < i ==> (#[trigger] boxes@[k])@ == box_of(state@, id, ids@[k]) && total(
                        boxes@[k].word_lengths@,
                    ) == boxes@[k].character_count,
            decreases ids.len() - i,
        {
            let box_id = ids[i];
            proof {
                lemma_filtered_children_live(state@, filter, id, 0, i as int);
            }
            let found = state.node_by_id(box_id);
            let content = found.unwrap();
            let character_count = content.character_lengths.len();
            if !adds_up_to(&content.word_lengths, character_count) {
                assert(total(state@.node(text_boxes_of(state@, id)[i as int]).word_lengths@)
                    != state@.node(text_boxes_of(state@, id)[i as int]).character_lengths@.len());
                return None;
            }
            let ends_paragraph = match &content.value {
                Some(text) => ends_with_newline(text.as_str()),
                None => false,
            };
            let path = state.relative_index_path(id, box_id);
            boxes.push(
                TextBox {
                    id: box_id,
                    character_count,
                    word_lengths: content.word_lengths.clone(),
                    previous_on_line: content.previous_on_line,
                    next_on_line: content.next_on_line,
                    ends_paragraph,
                    path,
                },
            );
            i += 1;
        }
        proof {
            let view = DocumentView { id, boxes: Seq::new(boxes@.len(), |k: int| boxes@[k]@) };
            assert forall|k: int| 0 <= k < text_boxes_of(state@, id).len() implies total(
                state@.node(#[trigger] text_boxes_of(state@, id)[k]).word_lengths@,
            ) == state@.node(text_boxes_of(state@, id)[k]).character_lengths@.len() by {
                assert(boxes@[k]@ == box_of(state@, id, ids@[k]));
                assert(state@.node(ids@[k]).character_lengths@.len() == state@.node(
                    ids@[k],
                ).character_lengths.len());
            }
            assert(view.boxes =~= document_of(state@, id).boxes);
            assert forall|a: int, b: int| 0 <= a < b < view.boxes.len() implies path_order(
                (#[trigger] view.boxes[a]).path,
                (#[trigger] view.boxes[b]).path,
                0,
            ) == -1 by {
                lemma_boxes_in_path_order(state@, id, a, b);
            }
            assert(view.wf());
        }
        Some(Document { id, boxes })
    }

    /// Every document has a box, and in every box the words add up to the
    /// characters: the library builds no other.
    #[verifier::type_invariant]
    pub open(crate) spec fn wf(&self) -> bool {
        self@.wf()
    }

    /// The identifier of the node that carries the document.
    pub fn id(&self) -> (r: NodeId)
        ensures
            r == self@.id,
    {
        self.id
    }

    /// The inline text boxes of the document, in reading order.
    pub fn boxes(&self) -> (r: &Vec<TextBox>)
        ensures
            r@.len() == self@.boxes.len(),
            forall|i: int| 0 <= i < r@.len() ==> (#[trigger] r@[i])@ == self@.boxes[i],
            self@.wf(),
    {
        proof {
            use_type_invariant(self);
        }
        &self.boxes
    }

    /// Whether `p` is a position of this document.
    pub fn has_position(&self, p: Position) -> (r: bool)
        ensures
            r == self@.valid(p),
    {
        p.index < self.boxes.len() && p.character_index <= self.boxes[p.index].character_count
    }
}

} // verus!
