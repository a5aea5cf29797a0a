use accesskit::document::Document;
use accesskit::engine::TreeEngine;
use accesskit::node::Node;
use accesskit::position::{compare_keys, Position};
use accesskit::range::Range;
use accesskit::schema::{
    Action, ActionData, NodeId, Role, TextPosition, TextSelection, Tree, TreeUpdate,
};
use accesskit::text::{
    back_to_unit_start, move_position, AttributeValue, PlatformRange, TextError,
    ATTRIBUTE_CARET_POSITION, ATTRIBUTE_IS_READ_ONLY, CARET_POSITION_BEGINNING_OF_LINE,
    CARET_POSITION_END_OF_LINE, CARET_POSITION_UNKNOWN, ENDPOINT_END, ENDPOINT_START,
    TEXT_UNIT_CHARACTER, TEXT_UNIT_DOCUMENT, TEXT_UNIT_FORMAT, TEXT_UNIT_LINE, TEXT_UNIT_PAGE,
    TEXT_UNIT_PARAGRAPH, TEXT_UNIT_WORD,
};
use std::sync::Arc;

fn container(role: Role, children: &[u128]) -> Arc<Node> {
    let mut n = Node::default();
    n.role = role;
    n.children = children.iter().map(|c| NodeId(*c)).collect();
    Arc::new(n)
}

fn text_box(text: &str, words: &[u8], previous: Option<u128>, next: Option<u128>) -> Arc<Node> {
    let mut n = Node::default();
    n.role = Role::InlineTextBox;
    n.value = Some(text.to_string());
    n.character_lengths = text.chars().map(|c| c.len_utf8() as u8).collect();
    n.word_lengths = words.to_vec();
    n.previous_on_line = previous.map(NodeId);
    n.next_on_line = next.map(NodeId);
    Arc::new(n)
}

fn engine_with(nodes: Vec<(u128, Arc<Node>)>) -> TreeEngine {
    let mut engine = TreeEngine::new();
    engine
        .apply(&TreeUpdate {
            nodes: nodes.into_iter().map(|(id, n)| (NodeId(id), n)).collect(),
            tree: Some(Tree::new(NodeId(1))),
            focus: None,
        })
        .unwrap();
    engine
}

/// A window with one text field whose text is "ab" then "c", on two lines.
fn two_boxes() -> TreeEngine {
    engine_with(vec![
        (1, container(Role::Window, &[2])),
        (2, container(Role::TextField, &[3, 4])),
        (3, text_box("ab", &[2], None, None)),
        (4, text_box("c", &[1], None, None)),
    ])
}

/// Three lines in two paragraphs: "one two " + "three\n" on the first line,
/// "four" on the second.
fn paragraphs() -> TreeEngine {
    engine_with(vec![
        (1, container(Role::Window, &[2])),
        (2, container(Role::Document, &[10, 20])),
        (10, container(Role::Paragraph, &[11, 12])),
        (11, text_box("one two ", &[4, 4], None, Some(12))),
        (12, text_box("three\n", &[6], Some(11), None)),
        (20, container(Role::Paragraph, &[21])),
        (21, text_box("four", &[4], None, None)),
    ])
}

fn pos(index: usize, character_index: usize) -> Position {
    Position { index, character_index }
}

#[test]
fn positions_follow_reading_order() {
    let engine = two_boxes();
    let state = engine.state().unwrap();
    let doc = Document::new(state, NodeId(2)).unwrap();
    assert_eq!(doc.boxes().len(), 2);
    let a0 = pos(0, 0);
    let a1 = pos(0, 1);
    let b0 = pos(1, 0);
    let b1 = pos(1, 1);
    assert_eq!(doc.compare(a0, a1), -1);
    assert_eq!(doc.compare(a1, b0), -1);
    assert_eq!(doc.compare(b0, b1), -1);
    assert_eq!(doc.compare(a0, b1), -1);
    assert_eq!(doc.compare(b1, a0), 1);
    assert_eq!(doc.compare(a1, a1), 0);
    // The end of the first box and the start of the second are one place.
    assert_eq!(doc.compare(pos(0, 2), b0), 0);
    assert!(doc.is_document_start(a0));
    assert!(doc.is_document_end(b1));
    assert!(!doc.is_document_end(b0));
}

#[test]
fn keys_compare_by_path_then_by_character() {
    assert_eq!(compare_keys(&(vec![0], 5), &(vec![1], 0)), -1);
    assert_eq!(compare_keys(&(vec![1, 0], 0), &(vec![1], 9)), 1);
    assert_eq!(compare_keys(&(vec![1], 9), &(vec![1, 0], 0)), -1);
    assert_eq!(compare_keys(&(vec![2, 3], 4), &(vec![2, 3], 4)), 0);
    assert_eq!(compare_keys(&(vec![2, 3], 4), &(vec![2, 3], 5)), -1);
    assert_eq!(compare_keys(&(vec![], 1), &(vec![], 0)), 1);
}

#[test]
fn index_paths_lead_from_the_document_to_the_box() {
    let engine = paragraphs();
    let state = engine.state().unwrap();
    let doc = Document::new(state, NodeId(2)).unwrap();
    let paths: Vec<Vec<usize>> = doc.boxes().iter().map(|b| b.path.clone()).collect();
    assert_eq!(paths, vec![vec![0, 0], vec![0, 1], vec![1, 0]]);
    assert_eq!(state.relative_index_path(NodeId(1), NodeId(12)), vec![0, 0, 1]);
    let ids: Vec<u128> = doc.boxes().iter().map(|b| b.id.0).collect();
    assert_eq!(ids, vec![11, 12, 21]);
    assert!(doc.boxes()[1].ends_paragraph);
    assert!(!doc.boxes()[0].ends_paragraph);
}

#[test]
fn nodes_without_text_are_no_documents() {
    let engine = two_boxes();
    let state = engine.state().unwrap();
    assert!(Document::new(state, NodeId(1)).is_none());
    assert!(Document::new(state, NodeId(3)).is_none());
    assert!(Document::new(state, NodeId(99)).is_none());
    let empty = engine_with(vec![
        (1, container(Role::Window, &[2])),
        (2, container(Role::TextField, &[])),
    ]);
    assert!(Document::new(empty.state().unwrap(), NodeId(2)).is_none());
    let bad_words = engine_with(vec![
        (1, container(Role::Window, &[2])),
        (2, container(Role::TextField, &[3])),
        (3, text_box("abc", &[2], None, None)),
    ]);
    assert!(Document::new(bad_words.state().unwrap(), NodeId(2)).is_none());
}

#[test]
fn character_moves() {
    let engine = two_boxes();
    let doc = Document::new(engine.state().unwrap(), NodeId(2)).unwrap();
    assert_eq!(doc.forward_to_character_start(pos(0, 0)), pos(0, 1));
    assert_eq!(doc.forward_to_character_start(pos(0, 1)), pos(1, 0));
    assert_eq!(doc.forward_to_character_end(pos(0, 1)), pos(0, 2));
    assert_eq!(doc.forward_to_character_start(pos(1, 0)), pos(1, 1));
    assert_eq!(doc.forward_to_character_start(pos(1, 1)), pos(1, 1));
    assert_eq!(doc.backward_to_character_start(pos(1, 1)), pos(1, 0));
    assert_eq!(doc.backward_to_character_start(pos(1, 0)), pos(0, 1));
    assert_eq!(doc.backward_to_character_start(pos(0, 0)), pos(0, 0));
}

#[test]
fn word_moves() {
    let engine = paragraphs();
    let doc = Document::new(engine.state().unwrap(), NodeId(2)).unwrap();
    assert!(doc.is_word_start(pos(0, 0)));
    assert!(doc.is_word_start(pos(0, 4)));
    assert!(!doc.is_word_start(pos(0, 5)));
    assert!(doc.is_word_start(pos(0, 8)));
    assert_eq!(doc.forward_to_word_end(pos(0, 1)), pos(0, 4));
    assert_eq!(doc.forward_to_word_start(pos(0, 1)), pos(0, 4));
    assert_eq!(doc.forward_to_word_start(pos(0, 4)), pos(1, 0));
    assert_eq!(doc.forward_to_word_end(pos(0, 4)), pos(0, 8));
    assert_eq!(doc.backward_to_word_start(pos(0, 6)), pos(0, 4));
    assert_eq!(doc.backward_to_word_start(pos(0, 4)), pos(0, 0));
    assert_eq!(doc.backward_to_word_start(pos(1, 0)), pos(0, 4));
    assert_eq!(doc.backward_to_word_start(pos(1, 3)), pos(1, 0));
}

#[test]
fn line_moves() {
    let engine = paragraphs();
    let doc = Document::new(engine.state().unwrap(), NodeId(2)).unwrap();
    assert!(doc.is_line_start(pos(0, 0)));
    assert!(!doc.is_line_start(pos(1, 0)));
    assert!(doc.is_line_start(pos(2, 0)));
    assert!(doc.is_line_start(pos(1, 6)));
    assert!(doc.is_line_end(pos(1, 6)));
    assert!(doc.is_line_end(pos(2, 0)));
    assert!(!doc.is_line_end(pos(0, 8)));
    assert!(doc.is_line_end(pos(2, 4)));
    assert_eq!(doc.forward_to_line_end(pos(0, 3)), pos(1, 6));
    assert_eq!(doc.forward_to_line_start(pos(0, 3)), pos(2, 0));
    assert_eq!(doc.forward_to_line_end(pos(2, 0)), pos(2, 4));
    assert_eq!(doc.forward_to_line_start(pos(2, 1)), pos(2, 4));
    assert_eq!(doc.backward_to_line_start(pos(1, 2)), pos(0, 0));
    assert_eq!(doc.backward_to_line_start(pos(2, 0)), pos(0, 0));
    assert_eq!(doc.backward_to_line_start(pos(2, 3)), pos(2, 0));
}

#[test]
fn paragraph_moves() {
    let engine = paragraphs();
    let doc = Document::new(engine.state().unwrap(), NodeId(2)).unwrap();
    assert!(doc.is_paragraph_start(pos(0, 0)));
    assert!(doc.is_paragraph_start(pos(2, 0)));
    assert!(!doc.is_paragraph_start(pos(1, 0)));
    assert!(doc.is_paragraph_end(pos(1, 6)));
    assert!(doc.is_paragraph_end(pos(2, 4)));
    assert!(!doc.is_paragraph_end(pos(0, 8)));
    assert_eq!(doc.forward_to_paragraph_start(pos(0, 2)), pos(2, 0));
    assert_eq!(doc.forward_to_paragraph_end(pos(0, 2)), pos(1, 6));
    assert_eq!(doc.forward_to_paragraph_start(pos(2, 0)), pos(2, 4));
    assert_eq!(doc.forward_to_paragraph_end(pos(2, 0)), pos(2, 4));
    assert_eq!(doc.backward_to_paragraph_start(pos(1, 3)), pos(0, 0));
    assert_eq!(doc.backward_to_paragraph_start(pos(2, 2)), pos(2, 0));
    assert_eq!(doc.backward_to_paragraph_start(pos(2, 0)), pos(0, 0));
}

#[test]
fn format_page_and_document_moves_go_to_the_ends() {
    let engine = paragraphs();
    let doc = Document::new(engine.state().unwrap(), NodeId(2)).unwrap();
    let p = pos(1, 2);
    assert_eq!(doc.document_start(), pos(0, 0));
    assert_eq!(doc.document_end(), pos(2, 4));
    assert_eq!(doc.forward_to_format_start(p), pos(2, 4));
    assert_eq!(doc.forward_to_format_end(p), pos(2, 4));
    assert_eq!(doc.backward_to_format_start(p), pos(0, 0));
    assert_eq!(doc.forward_to_page_start(p), pos(2, 4));
    assert_eq!(doc.forward_to_page_end(p), pos(2, 4));
    assert_eq!(doc.backward_to_page_start(p), pos(0, 0));
    assert!(doc.is_format_start(pos(0, 0)));
    assert!(!doc.is_page_start(p));
}

#[test]
fn back_to_unit_start_by_unit() {
    let engine = paragraphs();
    let doc = Document::new(engine.state().unwrap(), NodeId(2)).unwrap();
    let p = pos(1, 2);
    assert_eq!(back_to_unit_start(&doc, p, TEXT_UNIT_CHARACTER), Ok(p));
    assert_eq!(back_to_unit_start(&doc, p, TEXT_UNIT_WORD), Ok(pos(1, 0)));
    assert_eq!(back_to_unit_start(&doc, p, TEXT_UNIT_LINE), Ok(pos(0, 0)));
    assert_eq!(back_to_unit_start(&doc, pos(2, 1), TEXT_UNIT_PARAGRAPH), Ok(pos(2, 0)));
    assert_eq!(back_to_unit_start(&doc, p, TEXT_UNIT_FORMAT), Ok(pos(0, 0)));
    assert_eq!(back_to_unit_start(&doc, p, TEXT_UNIT_PAGE), Ok(pos(0, 0)));
    assert_eq!(back_to_unit_start(&doc, p, TEXT_UNIT_DOCUMENT), Ok(pos(0, 0)));
    assert_eq!(back_to_unit_start(&doc, pos(0, 4), TEXT_UNIT_WORD), Ok(pos(0, 4)));
    assert_eq!(back_to_unit_start(&doc, p, 7), Err(TextError::InvalidArgument));
    assert_eq!(back_to_unit_start(&doc, p, -1), Err(TextError::InvalidArgument));
}

#[test]
fn move_position_counts_the_steps_taken() {
    let engine = paragraphs();
    let doc = Document::new(engine.state().unwrap(), NodeId(2)).unwrap();
    assert_eq!(
        move_position(&doc, pos(0, 0), TEXT_UNIT_CHARACTER, false, 3),
        Ok((pos(0, 3), 3))
    );
    assert_eq!(
        move_position(&doc, pos(0, 0), TEXT_UNIT_WORD, false, 2),
        Ok((pos(1, 0), 2))
    );
    assert_eq!(
        move_position(&doc, pos(0, 0), TEXT_UNIT_WORD, true, 2),
        Ok((pos(0, 8), 2))
    );
    assert_eq!(
        move_position(&doc, pos(0, 0), TEXT_UNIT_LINE, false, 10),
        Ok((pos(2, 4), 2))
    );
    assert_eq!(
        move_position(&doc, pos(2, 4), TEXT_UNIT_LINE, false, -10),
        Ok((pos(0, 0), -2))
    );
    assert_eq!(
        move_position(&doc, pos(1, 1), TEXT_UNIT_DOCUMENT, false, -3),
        Ok((pos(0, 0), -1))
    );
    assert_eq!(move_position(&doc, pos(1, 1), TEXT_UNIT_WORD, false, 0), Ok((pos(1, 1), 0)));
    // A unit that does not exist fails only where a step would be taken.
    assert_eq!(move_position(&doc, pos(1, 1), 9, false, 1), Err(TextError::InvalidArgument));
    assert_eq!(move_position(&doc, pos(1, 1), 9, false, 0), Ok((pos(1, 1), 0)));
    assert_eq!(move_position(&doc, pos(2, 4), 9, false, 1), Ok((pos(2, 4), 0)));
    assert_eq!(move_position(&doc, pos(0, 0), 9, false, -1), Ok((pos(0, 0), 0)));
    assert_eq!(
        move_position(&doc, pos(0, 0), TEXT_UNIT_CHARACTER, false, i32::MIN),
        Ok((pos(0, 0), 0))
    );
}

fn caret(engine: &TreeEngine, doc_id: u128, p: Position) -> PlatformRange {
    let doc = Document::new(engine.state().unwrap(), NodeId(doc_id)).unwrap();
    PlatformRange::new(1, &doc, Range { start: p, end: p })
}

fn span(engine: &TreeEngine, doc_id: u128, a: Position, b: Position) -> PlatformRange {
    let doc = Document::new(engine.state().unwrap(), NodeId(doc_id)).unwrap();
    let range = doc.range(a, b);
    PlatformRange::new(1, &doc, range)
}

fn stored(node: u128, character_index: usize) -> TextPosition {
    TextPosition { node: NodeId(node), character_index }
}

/// "ab" then "cd": four characters.
fn four_characters() -> TreeEngine {
    engine_with(vec![
        (1, container(Role::Window, &[2])),
        (2, container(Role::TextField, &[3, 4])),
        (3, text_box("ab", &[2], None, None)),
        (4, text_box("cd", &[2], None, None)),
    ])
}

#[test]
fn move_by_character_stops_at_the_ends_of_the_document() {
    let engine = four_characters();
    let state = engine.state();
    let mut at_end = caret(&engine, 2, pos(1, 2));
    assert_eq!(at_end.Move(state, TEXT_UNIT_CHARACTER, 1), Ok(0));
    assert_eq!(at_end.state.start, stored(4, 2));
    assert_eq!(at_end.state.end, stored(4, 2));
    let mut middle = caret(&engine, 2, pos(1, 0));
    assert_eq!(middle.Move(state, TEXT_UNIT_CHARACTER, -5), Ok(-2));
    assert_eq!(middle.state.start, stored(3, 0));
    assert_eq!(middle.state.end, stored(3, 0));
    let mut forward = caret(&engine, 2, pos(0, 1));
    assert_eq!(forward.Move(state, TEXT_UNIT_CHARACTER, 2), Ok(2));
    assert_eq!(forward.state.start, stored(4, 1));
    assert_eq!(forward.state.end, stored(4, 1));
}

#[test]
fn move_of_a_range_lands_on_a_whole_unit() {
    let engine = paragraphs();
    let state = engine.state();
    let mut range = span(&engine, 2, pos(0, 1), pos(0, 2));
    assert_eq!(range.Move(state, TEXT_UNIT_WORD, 1), Ok(1));
    assert_eq!(range.state.start, stored(11, 4));
    assert_eq!(range.state.end, stored(11, 8));
    assert_eq!(range.Move(state, TEXT_UNIT_LINE, 1), Ok(1));
    assert_eq!(range.state.start, stored(21, 0));
    assert_eq!(range.state.end, stored(21, 4));
    assert_eq!(range.Move(state, 12, 1), Err(TextError::InvalidArgument));
    assert_eq!(range.state.start, stored(21, 0));
    assert_eq!(range.Move(None, TEXT_UNIT_LINE, 1), Err(TextError::ElementNotAvailable));
}

#[test]
fn expand_to_enclosing_unit() {
    let engine = paragraphs();
    let state = engine.state();
    let mut range = caret(&engine, 2, pos(0, 5));
    assert_eq!(range.ExpandToEnclosingUnit(state, TEXT_UNIT_CHARACTER), Ok(()));
    assert_eq!((range.state.start, range.state.end), (stored(11, 5), stored(11, 6)));
    assert_eq!(range.ExpandToEnclosingUnit(state, TEXT_UNIT_WORD), Ok(()));
    assert_eq!((range.state.start, range.state.end), (stored(11, 4), stored(11, 8)));
    assert_eq!(range.ExpandToEnclosingUnit(state, TEXT_UNIT_LINE), Ok(()));
    assert_eq!((range.state.start, range.state.end), (stored(11, 0), stored(12, 6)));
    assert_eq!(range.ExpandToEnclosingUnit(state, TEXT_UNIT_PARAGRAPH), Ok(()));
    assert_eq!((range.state.start, range.state.end), (stored(11, 0), stored(12, 6)));
    assert_eq!(range.ExpandToEnclosingUnit(state, TEXT_UNIT_PAGE), Ok(()));
    assert_eq!((range.state.start, range.state.end), (stored(11, 0), stored(21, 4)));
    let mut other = caret(&engine, 2, pos(2, 2));
    assert_eq!(other.ExpandToEnclosingUnit(state, TEXT_UNIT_FORMAT), Ok(()));
    assert_eq!((other.state.start, other.state.end), (stored(11, 0), stored(21, 4)));
    assert_eq!(other.ExpandToEnclosingUnit(state, 7), Err(TextError::InvalidArgument));
    // A caret at the end of the document is not grown by a character.
    let mut at_end = caret(&engine, 2, pos(2, 4));
    assert_eq!(at_end.ExpandToEnclosingUnit(state, TEXT_UNIT_CHARACTER), Ok(()));
    assert_eq!((at_end.state.start, at_end.state.end), (stored(21, 4), stored(21, 4)));
}

#[test]
fn expand_to_document_tolerates_one_stale_end() {
    let mut engine = two_boxes();
    let mut range = span(&engine, 2, pos(0, 1), pos(1, 1));
    assert_eq!((range.state.start, range.state.end), (stored(3, 1), stored(4, 1)));
    // The second box leaves the tree: the end of the range goes stale.
    engine
        .apply(&TreeUpdate {
            nodes: vec![(NodeId(2), container(Role::TextField, &[3]))],
            tree: None,
            focus: None,
        })
        .unwrap();
    assert_eq!(
        range.ExpandToEnclosingUnit(engine.state(), TEXT_UNIT_WORD),
        Err(TextError::ElementNotAvailable)
    );
    assert_eq!(range.ExpandToEnclosingUnit(engine.state(), TEXT_UNIT_DOCUMENT), Ok(()));
    assert_eq!((range.state.start, range.state.end), (stored(3, 0), stored(3, 2)));
    assert_eq!(range.state.node_id, NodeId(2));
}

#[test]
fn expand_to_document_fails_when_both_ends_are_stale() {
    let mut engine = two_boxes();
    let mut range = span(&engine, 2, pos(0, 1), pos(1, 1));
    engine
        .apply(&TreeUpdate {
            nodes: vec![
                (NodeId(2), container(Role::TextField, &[5])),
                (NodeId(5), text_box("xyz", &[3], None, None)),
            ],
            tree: None,
            focus: None,
        })
        .unwrap();
    assert_eq!(
        range.ExpandToEnclosingUnit(engine.state(), TEXT_UNIT_DOCUMENT),
        Err(TextError::ElementNotAvailable)
    );
    assert_eq!((range.state.start, range.state.end), (stored(3, 1), stored(4, 1)));
    assert_eq!(
        range.ExpandToEnclosingUnit(None, TEXT_UNIT_DOCUMENT),
        Err(TextError::ElementNotAvailable)
    );
}

#[test]
fn compare_endpoints_of_one_range_works_on_stale_ranges() {
    let mut engine = two_boxes();
    let range = span(&engine, 2, pos(0, 1), pos(1, 1));
    engine
        .apply(&TreeUpdate {
            nodes: vec![(NodeId(1), container(Role::Window, &[]))],
            tree: None,
            focus: None,
        })
        .unwrap();
    let state = engine.state();
    assert_eq!(range.CompareEndpoints(state, ENDPOINT_START, &range, true, ENDPOINT_END), Ok(-1));
    assert_eq!(range.CompareEndpoints(state, ENDPOINT_END, &range, true, ENDPOINT_START), Ok(1));
    assert_eq!(range.CompareEndpoints(None, ENDPOINT_END, &range, true, ENDPOINT_END), Ok(0));
    assert_eq!(
        range.CompareEndpoints(state, 2, &range, true, ENDPOINT_END),
        Err(TextError::InvalidArgument)
    );
    let other = range.clone();
    assert_eq!(
        range.CompareEndpoints(state, ENDPOINT_START, &other, false, ENDPOINT_END),
        Err(TextError::ElementNotAvailable)
    );
}

#[test]
fn compare_endpoints_of_two_ranges() {
    let engine = paragraphs();
    let state = engine.state();
    let a = span(&engine, 2, pos(0, 1), pos(1, 1));
    let b = span(&engine, 2, pos(1, 1), pos(2, 1));
    assert_eq!(a.CompareEndpoints(state, ENDPOINT_START, &b, false, ENDPOINT_START), Ok(-1));
    assert_eq!(a.CompareEndpoints(state, ENDPOINT_END, &b, false, ENDPOINT_START), Ok(0));
    assert_eq!(b.CompareEndpoints(state, ENDPOINT_END, &a, false, ENDPOINT_END), Ok(1));
    assert_eq!(
        a.CompareEndpoints(state, ENDPOINT_END, &b, false, 5),
        Err(TextError::InvalidArgument)
    );
    assert_eq!(
        a.CompareEndpoints(None, ENDPOINT_END, &b, false, ENDPOINT_END),
        Err(TextError::ElementNotAvailable)
    );
    let mut foreign = b.clone();
    foreign.tree = 2;
    assert_eq!(
        a.CompareEndpoints(state, ENDPOINT_END, &foreign, false, ENDPOINT_END),
        Err(TextError::InvalidArgument)
    );
    assert!(a.Compare(&a.clone()));
    assert!(!a.Compare(&b));
    assert!(!b.Compare(&foreign));
}

#[test]
fn ranges_of_two_documents_do_not_compare() {
    let engine = engine_with(vec![
        (1, container(Role::Window, &[2, 5])),
        (2, container(Role::TextField, &[3])),
        (3, text_box("ab", &[2], None, None)),
        (5, container(Role::TextField, &[6])),
        (6, text_box("cd", &[2], None, None)),
    ]);
    let state = engine.state();
    let a = caret(&engine, 2, pos(0, 1));
    let mut b = caret(&engine, 5, pos(0, 1));
    assert_eq!(
        a.CompareEndpoints(state, ENDPOINT_START, &b, false, ENDPOINT_START),
        Err(TextError::InvalidArgument)
    );
    assert_eq!(
        b.MoveEndpointByRange(state, ENDPOINT_START, &a, ENDPOINT_START),
        Err(TextError::InvalidArgument)
    );
    assert_eq!(b.state.start, stored(6, 1));
}

#[test]
fn move_endpoint_by_unit() {
    let engine = paragraphs();
    let state = engine.state();
    let mut range = caret(&engine, 2, pos(0, 1));
    assert_eq!(range.MoveEndpointByUnit(state, ENDPOINT_END, TEXT_UNIT_WORD, 1), Ok(1));
    assert_eq!((range.state.start, range.state.end), (stored(11, 1), stored(11, 4)));
    assert_eq!(range.MoveEndpointByUnit(state, ENDPOINT_START, TEXT_UNIT_WORD, 1), Ok(1));
    assert_eq!((range.state.start, range.state.end), (stored(11, 4), stored(11, 4)));
    assert_eq!(range.MoveEndpointByUnit(state, ENDPOINT_START, TEXT_UNIT_CHARACTER, -9), Ok(-4));
    assert_eq!((range.state.start, range.state.end), (stored(11, 0), stored(11, 4)));
    assert_eq!(range.MoveEndpointByUnit(state, ENDPOINT_END, TEXT_UNIT_DOCUMENT, 1), Ok(1));
    assert_eq!((range.state.start, range.state.end), (stored(11, 0), stored(21, 4)));
    // Moving the end before the start takes the start along.
    assert_eq!(range.MoveEndpointByUnit(state, ENDPOINT_END, TEXT_UNIT_DOCUMENT, -1), Ok(-1));
    assert_eq!((range.state.start, range.state.end), (stored(11, 0), stored(11, 0)));
    assert_eq!(
        range.MoveEndpointByUnit(state, 3, TEXT_UNIT_WORD, 1),
        Err(TextError::InvalidArgument)
    );
    assert_eq!(
        range.MoveEndpointByUnit(state, ENDPOINT_END, 40, 1),
        Err(TextError::InvalidArgument)
    );
    assert_eq!(
        range.MoveEndpointByUnit(None, ENDPOINT_END, TEXT_UNIT_WORD, 1),
        Err(TextError::ElementNotAvailable)
    );
}

#[test]
fn move_endpoint_by_range() {
    let engine = paragraphs();
    let state = engine.state();
    let mut a = span(&engine, 2, pos(0, 1), pos(0, 3));
    let b = span(&engine, 2, pos(1, 2), pos(2, 1));
    assert_eq!(a.MoveEndpointByRange(state, ENDPOINT_END, &b, ENDPOINT_START), Ok(()));
    assert_eq!((a.state.start, a.state.end), (stored(11, 1), stored(12, 2)));
    assert_eq!(a.MoveEndpointByRange(state, ENDPOINT_START, &b, ENDPOINT_END), Ok(()));
    assert_eq!((a.state.start, a.state.end), (stored(21, 1), stored(21, 1)));
    assert_eq!(
        a.MoveEndpointByRange(state, ENDPOINT_START, &b, 4),
        Err(TextError::InvalidArgument)
    );
    assert_eq!(
        a.MoveEndpointByRange(state, 4, &b, ENDPOINT_START),
        Err(TextError::InvalidArgument)
    );
    assert_eq!(
        a.MoveEndpointByRange(None, ENDPOINT_START, &b, ENDPOINT_START),
        Err(TextError::ElementNotAvailable)
    );
}

#[test]
fn more_than_one_selection_is_not_supported() {
    let engine = two_boxes();
    let range = caret(&engine, 2, pos(0, 1));
    assert_eq!(range.AddToSelection(), Err(TextError::UnsupportedOperation));
    assert_eq!(range.RemoveFromSelection(), Err(TextError::UnsupportedOperation));
}

#[test]
fn select_and_scroll_are_forwarded_as_requests() {
    let engine = two_boxes();
    let state = engine.state();
    let range = span(&engine, 2, pos(0, 1), pos(1, 1));
    let request = range.Select(state).unwrap();
    assert_eq!(request.action, Action::SetTextSelection);
    assert_eq!(request.target, NodeId(2));
    assert_eq!(
        request.data,
        Some(ActionData::SetTextSelection(TextSelection {
            anchor: stored(3, 1),
            focus: stored(4, 1),
        }))
    );
    let top = range.ScrollIntoView(state, true).unwrap();
    assert_eq!(top.action, Action::ScrollIntoView);
    assert_eq!(top.target, NodeId(3));
    assert_eq!(top.data, None);
    let bottom = range.ScrollIntoView(state, false).unwrap();
    assert_eq!(bottom.target, NodeId(4));
    assert_eq!(range.Select(None).err(), Some(TextError::ElementNotAvailable));
    assert_eq!(range.ScrollIntoView(None, true).err(), Some(TextError::ElementNotAvailable));
}

#[test]
fn attributes_of_a_range() {
    let engine = paragraphs();
    let state = engine.state();
    let start_of_line = caret(&engine, 2, pos(2, 0));
    assert_eq!(
        start_of_line.GetAttributeValue(state, ATTRIBUTE_CARET_POSITION),
        Ok(AttributeValue::CaretPosition(CARET_POSITION_BEGINNING_OF_LINE))
    );
    let end_of_line = caret(&engine, 2, pos(2, 4));
    assert_eq!(
        end_of_line.GetAttributeValue(state, ATTRIBUTE_CARET_POSITION),
        Ok(AttributeValue::CaretPosition(CARET_POSITION_END_OF_LINE))
    );
    let middle = caret(&engine, 2, pos(0, 2));
    assert_eq!(
        middle.GetAttributeValue(state, ATTRIBUTE_CARET_POSITION),
        Ok(AttributeValue::CaretPosition(CARET_POSITION_UNKNOWN))
    );
    let wide = span(&engine, 2, pos(2, 0), pos(2, 4));
    assert_eq!(
        wide.GetAttributeValue(state, ATTRIBUTE_CARET_POSITION),
        Ok(AttributeValue::CaretPosition(CARET_POSITION_UNKNOWN))
    );
    assert_eq!(
        wide.GetAttributeValue(state, ATTRIBUTE_IS_READ_ONLY),
        Ok(AttributeValue::Bool(false))
    );
    assert_eq!(wide.GetAttributeValue(state, 1), Ok(AttributeValue::NotSupported));
    assert_eq!(wide.GetAttributeValue(None, 1), Ok(AttributeValue::NotSupported));
    assert_eq!(
        wide.GetAttributeValue(None, ATTRIBUTE_IS_READ_ONLY),
        Err(TextError::ElementNotAvailable)
    );
    assert_eq!(wide.GetEnclosingElement(state), Ok(NodeId(2)));
    assert_eq!(wide.GetEnclosingElement(None), Err(TextError::ElementNotAvailable));
}

#[test]
fn ranges_are_built_in_reading_order() {
    let engine = paragraphs();
    let doc = Document::new(engine.state().unwrap(), NodeId(2)).unwrap();
    let r = doc.range(pos(2, 1), pos(0, 3));
    assert_eq!((r.start, r.end), (pos(0, 3), pos(2, 1)));
    assert!(!doc.is_degenerate(&r));
    assert!(doc.is_degenerate(&Range { start: pos(0, 8), end: pos(1, 0) }));
    let whole = doc.document_range();
    assert_eq!((whole.start, whole.end), (pos(0, 0), pos(2, 4)));
    let mut r = r;
    doc.set_start(&mut r, pos(2, 3));
    assert_eq!((r.start, r.end), (pos(2, 3), pos(2, 3)));
    doc.set_end(&mut r, pos(1, 1));
    assert_eq!((r.start, r.end), (pos(1, 1), pos(1, 1)));
    doc.set_end(&mut r, pos(1, 4));
    assert_eq!((r.start, r.end), (pos(1, 1), pos(1, 4)));
}

#[test]
fn positions_of_a_document_are_told_from_others() {
    let engine = two_boxes();
    let doc = Document::new(engine.state().unwrap(), NodeId(2)).unwrap();
    assert_eq!(doc.id(), NodeId(2));
    assert!(doc.has_position(pos(0, 0)));
    assert!(doc.has_position(pos(0, 2)));
    assert!(doc.has_position(pos(1, 1)));
    assert!(!doc.has_position(pos(0, 3)));
    assert!(!doc.has_position(pos(1, 2)));
    assert!(!doc.has_position(pos(2, 0)));
    assert_eq!(doc.upgrade_position(stored(4, 1)), Some(pos(1, 1)));
    assert_eq!(doc.upgrade_position(stored(4, 2)), None);
    assert_eq!(doc.upgrade_position(stored(2, 0)), None);
    assert_eq!(doc.downgrade_position(pos(0, 2)), stored(3, 2));
}

#[test]
fn ends_of_words_formats_and_pages() {
    let engine = paragraphs();
    let doc = Document::new(engine.state().unwrap(), NodeId(2)).unwrap();
    assert!(doc.is_word_end(pos(0, 4)));
    assert!(doc.is_word_end(pos(0, 8)));
    assert!(doc.is_word_end(pos(1, 0)));
    assert!(doc.is_word_end(pos(1, 6)));
    assert!(!doc.is_word_end(pos(0, 0)));
    assert!(!doc.is_word_end(pos(0, 5)));
    assert!(doc.is_format_end(pos(2, 4)));
    assert!(!doc.is_format_end(pos(1, 6)));
    assert!(doc.is_page_end(pos(2, 4)));
    assert!(!doc.is_page_end(pos(0, 0)));
}
