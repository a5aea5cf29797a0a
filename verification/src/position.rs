//! Positions in a text document, and the moves between them.

use vstd::prelude::*;
use crate::document::{lemma_prefix_sum_grows, prefix_sum, total, Document, DocumentView};

verus! {

/// A place between two characters of a document, or at one of its ends:
/// the index of a box of the document, and the index of a character in the
/// box or, for its end, the number of its characters.
#[derive(Clone, Copy, Debug, PartialEq, Eq, Structural)]
pub struct Position {
    pub index: usize,
    pub character_index: usize,
}

/// Whether a word of `words` starts at the character `c`.
pub open spec fn word_starts_at(words: Seq<u8>, c: int) -> bool {
    exists|k: int| 0 <= k < words.len() && #[trigger] prefix_sum(words, k) == c
}

/// Whether a word of `words` ends at the character `c`.
pub open spec fn word_ends_at(words: Seq<u8>, c: int) -> bool {
    exists|k: int| 0 < k <= words.len() && #[trigger] prefix_sum(words, k) == c
}

/// The end of the first word, looking from word `k` on, that ends after
/// the character `c`; the end of the last word where none does.
pub open spec fn word_end_from(words: Seq<u8>, c: int, k: int) -> int
    decreases words.len() - k,
{
    if k < 0 || k >= words.len() {
        total(words)
    } else if prefix_sum(words, k + 1) > c {
        prefix_sum(words, k + 1)
    } else {
        word_end_from(words, c, k + 1)
    }
}

/// The start of the first word, looking from word `k` on, that ends at or
/// after the character `c`; the end of the last word where none does.
pub open spec fn word_start_from(words: Seq<u8>, c: int, k: int) -> int
    decreases words.len() - k,
{
    if k < 0 || k >= words.len() {
        total(words)
    } else if prefix_sum(words, k + 1) >= c {
        prefix_sum(words, k)
    } else {
        word_start_from(words, c, k + 1)
    }
}

/// Whether a word of `words` starts at the character `c`.
fn is_word_start_in(words: &Vec<u8>, c: usize) -> (r: bool)
    requires
        total(words@) <= usize::MAX,
    ensures
        r == word_starts_at(words@, c as int),
{
    let mut sum: usize = 0;
    let mut k: usize = 0;
    while k < words.len()
        invariant
            k <= words.len(),
            total(words@) <= usize::MAX,
            sum == prefix_sum(words@, k as int),
            forall|j: int| 0 <= j < k ==> #[trigger] prefix_sum(words@, j) != c,
        decreases words.len() - k,
    {
        if sum == c {
            return true;
        }
        proof {
            lemma_prefix_sum_grows(words@, k + 1, words.len() as int);
        }
        sum += words[k] as usize;
        k += 1;
    }
    false
}

/// Whether a word of `words` ends at the character `c`.
fn is_word_end_in(words: &Vec<u8>, c: usize) -> (r: bool)
    requires
        total(words@) <= usize::MAX,
    ensures
        r == word_ends_at(words@, c as int),
{
    let mut sum: usize = 0;
    let mut k: usize = 0;
    while k < words.len()
        invariant
            k <= words.len(),
            total(words@) <= usize::MAX,
            sum == prefix_sum(words@, k as int),
            forall|j: int| 0 < j <= k ==> #[trigger] prefix_sum(words@, j) != c,
        decreases words.len() - k,
    {
        proof {
            lemma_prefix_sum_grows(words@, k + 1, words.len() as int);
        }
        sum += words[k] as usize;
        k += 1;
        if sum == c {
            return true;
        }
    }
    false
}

/// The end of the word that holds the character `c`.
fn word_end_in(words: &Vec<u8>, c: usize) -> (r: usize)
    requires
        total(words@) <= usize::MAX,
    ensures
        r == word_end_from(words@, c as int, 0),
        r <= total(words@),
{
    let mut sum: usize = 0;
    let mut k: usize = 0;
    while k < words.len()
        invariant
            k <= words.len(),
            total(words@) <= usize::MAX,
            sum == prefix_sum(words@, k as int),
            word_end_from(words@, c as int, k as int) == word_end_from(words@, c as int, 0),
        decreases words.len() - k,
    {
        proof {
            lemma_prefix_sum_grows(words@, k + 1, words.len() as int);
        }
        sum += words[k] as usize;
        if sum > c {
            return sum;
        }
        k += 1;
    }
    sum
}

/// The start of the word that ends at or after the character `c`.
fn word_start_in(words: &Vec<u8>, c: usize) -> (r: usize)
    requires
        total(words@) <= usize::MAX,
    ensures
        r == word_start_from(words@, c as int, 0),
        r <= total(words@),
{
    let mut sum: usize = 0;
    let mut k: usize = 0;
    while k < words.len()
        invariant
            k <= words.len(),
            total(words@) <= usize::MAX,
            sum == prefix_sum(words@, k as int),
            word_start_from(words@, c as int, k as int) == word_start_from(words@, c as int, 0),
        decreases words.len() - k,
    {
        proof {
            lemma_prefix_sum_grows(words@, k + 1, words.len() as int);
            lemma_prefix_sum_grows(words@, k as int, words.len() as int);
        }
        let next = sum + words[k] as usize;
        if next >= c {
            return sum;
        }
        sum = next;
        k += 1;
    }
    sum
}

impl DocumentView {
    /// The number of characters of the box `i`.
    pub open spec fn count(self, i: int) -> int {
        self.boxes[i].character_count as int
    }

    /// Whether `p` is a position of this document.
    pub open spec fn valid(self, p: Position) -> bool {
        &&& p.index < self.boxes.len()
        &&& p.character_index <= self.count(p.index as int)
    }

    /// Whether the box `i` and the one after it stand on one line: the
    /// producer names the one after as the next on the line.
    pub open spec fn joins_next(self, i: int) -> bool {
        &&& 0 <= i
        &&& i + 1 < self.boxes.len()
        &&& self.boxes[i].next_on_line == Some(self.boxes[i + 1].id)
    }

    /// Whether the box `i` and the one before it stand on one line: the
    /// producer names the one before as the previous on the line.
    pub open spec fn joins_previous(self, i: int) -> bool {
        &&& 0 < i < self.boxes.len()
        &&& self.boxes[i].previous_on_line == Some(self.boxes[i - 1].id)
    }

    /// Whether `p` is at the end of its box.
    pub open spec fn at_box_end(self, p: Position) -> bool {
        p.character_index == self.count(p.index as int)
    }

    /// The position `p`, named from the box after where `p` is the end of
    /// a box that has one after it.
    pub open spec fn start_biased(self, p: Position) -> Position {
        if self.at_box_end(p) && p.index + 1 < self.boxes.len() {
            Position { index: (p.index + 1) as usize, character_index: 0 }
        } else {
            p
        }
    }

    /// The position `p`, named from the box before where `p` is the start
    /// of a box that has one before it.
    pub open spec fn end_biased(self, p: Position) -> Position {
        if p.character_index == 0 && p.index > 0 {
            Position {
                index: (p.index - 1) as usize,
                character_index: self.boxes[p.index - 1].character_count,
            }
        } else {
            p
        }
    }

    /// The first position of the document.
    pub open spec fn first_position(self) -> Position {
        Position { index: 0, character_index: 0 }
    }

    /// The last position of the document.
    pub open spec fn last_position(self) -> Position {
        Position {
            index: (self.boxes.len() - 1) as usize,
            character_index: self.boxes[self.boxes.len() - 1].character_count,
        }
    }

    /// Whether `p` is the first position of the document.
    pub open spec fn at_document_start(self, p: Position) -> bool {
        p.index == 0 && p.character_index == 0
    }

    /// Whether `p` is the last position of the document.
    pub open spec fn at_document_end(self, p: Position) -> bool {
        p.index == self.boxes.len() - 1 && self.at_box_end(p)
    }

    /// The index of the first box of the line that holds the box `i`.
    pub open spec fn line_start_index(self, i: int) -> int
        decreases i,
    {
        if self.joins_previous(i) {
            self.line_start_index(i - 1)
        } else {
            i
        }
    }

    /// The index of the last box of the line that holds the box `i`.
    pub open spec fn line_end_index(self, i: int) -> int
        decreases self.boxes.len() - i,
    {
        if self.joins_next(i) {
            self.line_end_index(i + 1)
        } else {
            i
        }
    }

    /// Whether `p`, taken as it is named, ends a line.
    pub open spec fn ends_line(self, p: Position) -> bool {
        self.at_box_end(p) && !self.joins_next(p.index as int)
    }

    /// Whether `p`, taken as it is named, ends a paragraph: it ends a line
    /// whose text ends with a line feed.
    pub open spec fn ends_paragraph(self, p: Position) -> bool {
        self.ends_line(p) && self.boxes[p.index as int].ends_paragraph
    }

    /// Whether a word starts at `p`.
    pub open spec fn at_word_start(self, p: Position) -> bool {
        word_starts_at(
            self.boxes[self.start_biased(p).index as int].word_lengths,
            self.start_biased(p).character_index as int,
        )
    }

    /// Whether a word ends at `p`.
    pub open spec fn at_word_end(self, p: Position) -> bool {
        word_ends_at(
            self.boxes[self.end_biased(p).index as int].word_lengths,
            self.end_biased(p).character_index as int,
        )
    }

    /// Whether a line starts at `p`.
    pub open spec fn at_line_start(self, p: Position) -> bool {
        self.start_biased(p).character_index == 0 && !self.joins_previous(
            self.start_biased(p).index as int,
        )
    }

    /// Whether a line ends at `p`.
    pub open spec fn at_line_end(self, p: Position) -> bool {
        self.ends_line(self.end_biased(p))
    }

    /// Whether a paragraph starts at `p`: at the start of the document,
    /// and at the start of a line after a line feed.
    pub open spec fn at_paragraph_start(self, p: Position) -> bool {
        self.at_document_start(p) || (self.at_line_start(p) && self.ends_paragraph(
            self.end_biased(p),
        ))
    }

    /// Whether a paragraph ends at `p`: at the end of the document, and
    /// after a line feed that ends a line.
    pub open spec fn at_paragraph_end(self, p: Position) -> bool {
        self.at_document_end(p) || self.ends_paragraph(self.end_biased(p))
    }

    /// The position after the character at `p`, named from the box after
    /// where that is a box end; `p` itself at the end of the document.
    pub open spec fn next_character_start(self, p: Position) -> Position {
        self.start_biased(self.next_character_end(p))
    }

    /// The position after the character at `p`; `p` itself at the end of
    /// the document.
    pub open spec fn next_character_end(self, p: Position) -> Position {
        let q = self.start_biased(p);
        if self.at_box_end(q) {
            q
        } else {
            Position { index: q.index, character_index: (q.character_index + 1) as usize }
        }
    }

    /// The position before the character that ends at `p`; `p` itself at
    /// the start of the document.
    pub open spec fn previous_character_start(self, p: Position) -> Position {
        let q = self.end_biased(p);
        if q.character_index == 0 {
            self.start_biased(q)
        } else {
            self.start_biased(
                Position { index: q.index, character_index: (q.character_index - 1) as usize },
            )
        }
    }

    /// The end of the word at `p`.
    pub open spec fn next_word_end(self, p: Position) -> Position {
        let q = self.start_biased(p);
        Position {
            index: q.index,
            character_index: word_end_from(
                self.boxes[q.index as int].word_lengths,
                q.character_index as int,
                0,
            ) as usize,
        }
    }

    /// The start of the word after the one at `p`.
    pub open spec fn next_word_start(self, p: Position) -> Position {
        self.start_biased(self.next_word_end(p))
    }

    /// The start of the word that ends at or after `p`.
    pub open spec fn previous_word_start(self, p: Position) -> Position {
        let q = self.end_biased(p);
        self.start_biased(
            Position {
                index: q.index,
                character_index: word_start_from(
                    self.boxes[q.index as int].word_lengths,
                    q.character_index as int,
                    0,
                ) as usize,
            },
        )
    }

    /// The end of the line at `p`.
    pub open spec fn next_line_end(self, p: Position) -> Position {
        let i = self.line_end_index(self.start_biased(p).index as int);
        Position { index: i as usize, character_index: self.boxes[i].character_count }
    }

    /// The start of the line after the one at `p`.
    pub open spec fn next_line_start(self, p: Position) -> Position {
        self.start_biased(self.next_line_end(p))
    }

    /// The start of the line that ends at or after `p`.
    pub open spec fn previous_line_start(self, p: Position) -> Position {
        let i = self.line_start_index(self.end_biased(p).index as int);
        self.start_biased(Position { index: i as usize, character_index: 0 })
    }

    /// The line that holds a box starts at or before it.
    pub proof fn lemma_line_start_index(self, i: int)
        requires
            0 <= i < self.boxes.len(),
        ensures
            0 <= self.line_start_index(i) <= i,
        decreases i,
    {
        if self.joins_previous(i) {
            self.lemma_line_start_index(i - 1);
        }
    }

    /// The line that holds a box ends at or after it.
    pub proof fn lemma_line_end_index(self, i: int)
        requires
            0 <= i < self.boxes.len(),
        ensures
            i <= self.line_end_index(i) < self.boxes.len(),
            !self.joins_next(self.line_end_index(i)),
        decreases self.boxes.len() - i,
    {
        if self.joins_next(i) {
            self.lemma_line_end_index(i + 1);
        }
    }
}

impl Document {
    /// Whether `p` is at the start of its box.
    fn is_box_start(&self, p: Position) -> (r: bool)
        ensures
            r == (p.character_index == 0),
    {
        p.character_index == 0
    }

    /// Whether `p` is at the end of its box.
    fn is_box_end(&self, p: Position) -> (r: bool)
        requires
            self@.valid(p),
        ensures
            r == self@.at_box_end(p),
    {
        p.character_index == self.boxes[p.index].character_count
    }

    /// Whether the producer puts the box `i` and the one after it on one
    /// line.
    fn has_next_on_line(&self, i: usize) -> (r: bool)
        requires
            i < self@.boxes.len(),
        ensures
            r == self@.joins_next(i as int),
    {
        if i < self.boxes.len() - 1 {
            match self.boxes[i].next_on_line {
                Some(id) => id == self.boxes[i + 1].id,
                None => false,
            }
        } else {
            false
        }
    }

    /// Whether the producer puts the box `i` and the one before it on one
    /// line.
    fn has_previous_on_line(&self, i: usize) -> (r: bool)
        requires
            i < self@.boxes.len(),
        ensures
            r == self@.joins_previous(i as int),
    {
        if i > 0 {
            match self.boxes[i].previous_on_line {
                Some(id) => id == self.boxes[i - 1].id,
                None => false,
            }
        } else {
            false
        }
    }

    /// `p`, named from the box after where it is a box end.
    pub fn biased_to_start(&self, p: Position) -> (r: Position)
        requires
            self@.valid(p),
        ensures
            r == self@.start_biased(p),
            self@.valid(r),
    {
        if self.is_box_end(p) && p.index < self.boxes.len() - 1 {
            Position { index: p.index + 1, character_index: 0 }
        } else {
            p
        }
    }

    /// `p`, named from the box before where it is a box start.
    pub fn biased_to_end(&self, p: Position) -> (r: Position)
        requires
            self@.valid(p),
        ensures
            r == self@.end_biased(p),
            self@.valid(r),
    {
        if p.character_index == 0 && p.index > 0 {
            Position {
                index: p.index - 1,
                character_index: self.boxes[p.index - 1].character_count,
            }
        } else {
            p
        }
    }

    fn ends_line_here(&self, p: Position) -> (r: bool)
        requires
            self@.valid(p),
        ensures
            r == self@.ends_line(p),
    {
        self.is_box_end(p) && !self.has_next_on_line(p.index)
    }

    fn ends_paragraph_here(&self, p: Position) -> (r: bool)
        requires
            self@.valid(p),
        ensures
            r == self@.ends_paragraph(p),
    {
        self.ends_line_here(p) && self.boxes[p.index].ends_paragraph
    }

    /// The first position of the document.
    pub fn document_start(&self) -> (r: Position)
        ensures
            r == self@.first_position(),
            self@.valid(r),
            self@.at_document_start(r),
    {
        proof {
            use_type_invariant(self);
        }
        Position { index: 0, character_index: 0 }
    }

    /// The last position of the document.
    pub fn document_end(&self) -> (r: Position)
        ensures
            r == self@.last_position(),
            self@.valid(r),
            self@.at_document_end(r),
    {
        proof {
            use_type_invariant(self);
        }
        let last = self.boxes.len() - 1;
        Position { index: last, character_index: self.boxes[last].character_count }
    }

    /// Whether `p` is the first position of the document.
    pub fn is_document_start(&self, p: Position) -> (r: bool)
        requires
            self@.valid(p),
        ensures
            r == self@.at_document_start(p),
    {
        proof {
            use_type_invariant(self);
        }
        p.index == 0 && p.character_index == 0
    }

    /// Whether `p` is the last position of the document.
    pub fn is_document_end(&self, p: Position) -> (r: bool)
        requires
            self@.valid(p),
        ensures
            r == self@.at_document_end(p),
    {
        proof {
            use_type_invariant(self);
        }
        p.index == self.boxes.len() - 1 && self.is_box_end(p)
    }

    /// Whether a run of one format starts at `p`. The text of a document
    /// has one format throughout.
    pub fn is_format_start(&self, p: Position) -> (r: bool)
        requires
            self@.valid(p),
        ensures
            r == self@.at_document_start(p),
    {
        proof {
            use_type_invariant(self);
        }
        self.is_document_start(p)
    }

    /// Whether a page starts at `p`. A document is one page.
    pub fn is_page_start(&self, p: Position) -> (r: bool)
        requires
            self@.valid(p),
        ensures
            r == self@.at_document_start(p),
    {
        proof {
            use_type_invariant(self);
        }
        self.is_document_start(p)
    }

    /// Whether a word starts at `p`.
    pub fn is_word_start(&self, p: Position) -> (r: bool)
        requires
            self@.valid(p),
        ensures
            r == self@.at_word_start(p),
    {
        proof {
            use_type_invariant(self);
        }
        let q = self.biased_to_start(p);
        is_word_start_in(&self.boxes[q.index].word_lengths, q.character_index)
    }

    /// Whether a word ends at `p`.
    pub fn is_word_end(&self, p: Position) -> (r: bool)
        requires
            self@.valid(p),
        ensures
            r == self@.at_word_end(p),
    {
        proof {
            use_type_invariant(self);
        }
        let q = self.biased_to_end(p);
        is_word_end_in(&self.boxes[q.index].word_lengths, q.character_index)
    }

    /// Whether a run of one format ends at `p`: at the end of the
    /// document.
    pub fn is_format_end(&self, p: Position) -> (r: bool)
        requires
            self@.valid(p),
        ensures
            r == self@.at_document_end(p),
    {
        self.is_document_end(p)
    }

    /// Whether a page ends at `p`: at the end of the document.
    pub fn is_page_end(&self, p: Position) -> (r: bool)
        requires
            self@.valid(p),
        ensures
            r == self@.at_document_end(p),
    {
        self.is_document_end(p)
    }

    /// Whether a line starts at `p`.
    pub fn is_line_start(&self, p: Position) -> (r: bool)
        requires
            self@.valid(p),
        ensures
            r == self@.at_line_start(p),
    {
        proof {
            use_type_invariant(self);
        }
        let q = self.biased_to_start(p);
        self.is_box_start(q) && !self.has_previous_on_line(q.index)
    }

    /// Whether a line ends at `p`.
    pub fn is_line_end(&self, p: Position) -> (r: bool)
        requires
            self@.valid(p),
        ensures
            r == self@.at_line_end(p),
    {
        proof {
            use_type_invariant(self);
        }
        let q = self.biased_to_end(p);
        self.ends_line_here(q)
    }

    /// Whether a paragraph starts at `p`.
    pub fn is_paragraph_start(&self, p: Position) -> (r: bool)
        requires
            self@.valid(p),
        ensures
            r == self@.at_paragraph_start(p),
    {
        proof {
            use_type_invariant(self);
        }
        self.is_document_start(p) || (self.is_line_start(p) && self.ends_paragraph_here(
            self.biased_to_end(p),
        ))
    }

    /// Whether a paragraph ends at `p`.
    pub fn is_paragraph_end(&self, p: Position) -> (r: bool)
        requires
            self@.valid(p),
        ensures
            r == self@.at_paragraph_end(p),
    {
        proof {
            use_type_invariant(self);
        }
        self.is_document_end(p) || self.ends_paragraph_here(self.biased_to_end(p))
    }

    /// Moves after the character at `p`, and names the result from the
    /// box after where it is a box end. At the end of the document the
    /// position stays.
    pub fn forward_to_character_start(&self, p: Position) -> (r: Position)
        requires
            self@.valid(p),
        ensures
            r == self@.next_character_start(p),
            self@.valid(r),
    {
        proof {
            use_type_invariant(self);
        }
        let q = self.forward_to_character_end(p);
        self.biased_to_start(q)
    }

    /// Moves after the character at `p`. At the end of the document the
    /// position stays.
    pub fn forward_to_character_end(&self, p: Position) -> (r: Position)
        requires
            self@.valid(p),
        ensures
            r == self@.next_character_end(p),
            self@.valid(r),
    {
        proof {
            use_type_invariant(self);
        }
        let q = self.biased_to_start(p);
        if self.is_box_end(q) {
            q
        } else {
            Position { index: q.index, character_index: q.character_index + 1 }
        }
    }

    /// Moves before the character that ends at `p`. At the start of the
    /// document the position stays.
    pub fn backward_to_character_start(&self, p: Position) -> (r: Position)
        requires
            self@.valid(p),
        ensures
            r == self@.previous_character_start(p),
            self@.valid(r),
    {
        proof {
            use_type_invariant(self);
        }
        let q = self.biased_to_end(p);
        if q.character_index == 0 {
            self.biased_to_start(q)
        } else {
            self.biased_to_start(
                Position { index: q.index, character_index: q.character_index - 1 },
            )
        }
    }

    /// Moves to the start of the next run of one format: the end of the
    /// document.
    pub fn forward_to_format_start(&self, p: Position) -> (r: Position)
        requires
            self@.valid(p),
        ensures
            r == self@.last_position(),
            self@.valid(r),
    {
        proof {
            use_type_invariant(self);
        }
        self.document_end()
    }

    /// Moves to the end of the run of one format: the end of the document.
    pub fn forward_to_format_end(&self, p: Position) -> (r: Position)
        requires
            self@.valid(p),
        ensures
            r == self@.last_position(),
            self@.valid(r),
    {
        proof {
            use_type_invariant(self);
        }
        self.document_end()
    }

    /// Moves to the start of the run of one format: the start of the
    /// document.
    pub fn backward_to_format_start(&self, p: Position) -> (r: Position)
        requires
            self@.valid(p),
        ensures
            r == self@.first_position(),
            self@.valid(r),
    {
        proof {
            use_type_invariant(self);
        }
        self.document_start()
    }

    /// Moves to the start of the next page: the end of the document.
    pub fn forward_to_page_start(&self, p: Position) -> (r: Position)
        requires
            self@.valid(p),
        ensures
            r == self@.last_position(),
            self@.valid(r),
    {
        proof {
            use_type_invariant(self);
        }
        self.document_end()
    }

    /// Moves to the end of the page: the end of the document.
    pub fn forward_to_page_end(&self, p: Position) -> (r: Position)
        requires
            self@.valid(p),
        ensures
            r == self@.last_position(),
            self@.valid(r),
    {
        proof {
            use_type_invariant(self);
        }
        self.document_end()
    }

    /// Moves to the start of the page: the start of the document.
    pub fn backward_to_page_start(&self, p: Position) -> (r: Position)
        requires
            self@.valid(p),
        ensures
            r == self@.first_position(),
            self@.valid(r),
    {
        proof {
            use_type_invariant(self);
        }
        self.document_start()
    }

    /// Moves to the end of the word at `p`.
    pub fn forward_to_word_end(&self, p: Position) -> (r: Position)
        requires
            self@.valid(p),
        ensures
            r == self@.next_word_end(p),
            self@.valid(r),
    {
        proof {
            use_type_invariant(self);
        }
        let q = self.biased_to_start(p);
        let end = word_end_in(&self.boxes[q.index].word_lengths, q.character_index);
        Position { index: q.index, character_index: end }
    }

    /// Moves to the start of the word after the one at `p`.
    pub fn forward_to_word_start(&self, p: Position) -> (r: Position)
        requires
            self@.valid(p),
        ensures
            r == self@.next_word_start(p),
            self@.valid(r),
    {
        proof {
            use_type_invariant(self);
        }
        let q = self.forward_to_word_end(p);
        self.biased_to_start(q)
    }

    /// Moves to the start of the word that ends at or after `p`.
    pub fn backward_to_word_start(&self, p: Position) -> (r: Position)
        requires
            self@.valid(p),
        ensures
            r == self@.previous_word_start(p),
            self@.valid(r),
    {
        proof {
            use_type_invariant(self);
        }
        let q = self.biased_to_end(p);
        let start = word_start_in(&self.boxes[q.index].word_lengths, q.character_index);
        self.biased_to_start(Position { index: q.index, character_index: start })
    }

    /// Moves to the end of the line at `p`.
    pub fn forward_to_line_end(&self, p: Position) -> (r: Position)
        requires
            self@.valid(p),
        ensures
            r == self@.next_line_end(p),
            self@.valid(r),
    {
        proof {
            use_type_invariant(self);
        }
        let q = self.biased_to_start(p);
        let mut i = q.index;
        while self.has_next_on_line(i)
            invariant
                i < self@.boxes.len(),
                self@.line_end_index(i as int) == self@.line_end_index(q.index as int),
            decreases self@.boxes.len() - i,
        {
            assert(i + 1 < self.boxes.len());
            i += 1;
        }
        Position { index: i, character_index: self.boxes[i].character_count }
    }

    /// Moves to the start of the line after the one at `p`.
    pub fn forward_to_line_start(&self, p: Position) -> (r: Position)
        requires
            self@.valid(p),
        ensures
            r == self@.next_line_start(p),
            self@.valid(r),
    {
        proof {
            use_type_invariant(self);
        }
        let q = self.forward_to_line_end(p);
        self.biased_to_start(q)
    }

    /// Moves to the start of the line that ends at or after `p`.
    pub fn backward_to_line_start(&self, p: Position) -> (r: Position)
        requires
            self@.valid(p),
        ensures
            r == self@.previous_line_start(p),
            self@.valid(r),
    {
        proof {
            use_type_invariant(self);
        }
        let q = self.biased_to_end(p);
        let mut i = q.index;
        while self.has_previous_on_line(i)
            invariant
                i < self@.boxes.len(),
                self@.line_start_index(i as int) == self@.line_start_index(q.index as int),
            decreases i,
        {
            i -= 1;
        }
        self.biased_to_start(Position { index: i, character_index: 0 })
    }
}


/// Whether `a` comes before `b`, by box and then by character.
pub open spec fn stands_before(a: Position, b: Position) -> bool {
    a.index < b.index || (a.index == b.index && a.character_index < b.character_index)
}

impl DocumentView {
    /// The end of a line is a position, and it is at the end of its box.
    /// From a position that is not the end of the document it lies in a
    /// later box or, in the same box, not before the position.
    pub proof fn lemma_next_line_end(self, p: Position)
        requires
            self.wf(),
            self.valid(p),
        ensures
            self.valid(self.next_line_end(p)),
            self.at_box_end(self.next_line_end(p)),
            !self.joins_next(self.next_line_end(p).index as int),
            self.next_line_end(p).index >= p.index,
            self.next_line_end(p).index == p.index ==> self.next_line_end(p).character_index
                >= p.character_index,
            self.next_line_end(p) == p ==> self.at_document_end(p),
    {
        let q = self.start_biased(p);
        self.lemma_line_end_index(q.index as int);
    }

    /// The start of the next line is a position. It lies in a later box
    /// than the position that the move starts from, or it is the end of
    /// the document.
    pub proof fn lemma_next_line_start(self, p: Position)
        requires
            self.wf(),
            self.valid(p),
        ensures
            self.valid(self.next_line_start(p)),
            self.next_line_start(p).index > p.index || self.at_document_end(
                self.next_line_start(p),
            ),
            self.next_line_start(p).index >= p.index,
            self.next_line_start(p).index == p.index ==> self.next_line_start(p).character_index
                >= p.character_index,
    {
        self.lemma_next_line_end(p);
    }

    /// The start of the next paragraph after `p`: the first of the line
    /// starts after `p` where a paragraph starts, or the end of the
    /// document.
    pub open spec fn next_paragraph_start(self, p: Position) -> Position
        decreases self.boxes.len() - p.index,
        when self.wf() && self.valid(p)
    {
        let n = self.next_line_start(p);
        if self.at_document_end(n) || self.at_paragraph_start(n) {
            n
        } else {
            proof {
                self.lemma_next_line_start(p);
            }
            self.next_paragraph_start(n)
        }
    }

    /// The end of the paragraph at `p`: the first of the line ends at or
    /// after `p` where a paragraph ends, or the end of the document.
    pub open spec fn next_paragraph_end(self, p: Position) -> Position
        decreases self.boxes.len() - p.index, self.count(p.index as int) - p.character_index,
        when self.wf() && self.valid(p)
    {
        let n = self.next_line_end(p);
        if self.at_document_end(n) || self.ends_paragraph(n) {
            n
        } else {
            proof {
                self.lemma_next_line_end(p);
            }
            self.next_paragraph_end(n)
        }
    }

    /// The start of the paragraph that ends at or after `p`: the first of
    /// the line starts before `p`, going back, where a paragraph starts.
    /// The search ends where a move to the start of the line does not lead
    /// back.
    pub open spec fn previous_paragraph_start(self, p: Position) -> Position
        decreases p.index, p.character_index,
    {
        let n = self.previous_line_start(p);
        if self.at_paragraph_start(n) || !stands_before(n, p) {
            n
        } else {
            self.previous_paragraph_start(n)
        }
    }
}

impl Document {
    /// Moves to the start of the next paragraph.
    pub fn forward_to_paragraph_start(&self, p: Position) -> (r: Position)
        requires
            self@.valid(p),
        ensures
            r == self@.next_paragraph_start(p),
            self@.valid(r),
    {
        proof {
            use_type_invariant(self);
        }
        let mut current = self.forward_to_line_start(p);
        proof {
            self@.lemma_next_line_start(p);
        }
        while !(self.is_document_end(current) || self.is_paragraph_start(current))
            invariant
                self@.wf(),
                self@.valid(current),
                self@.next_paragraph_start(p) == if self@.at_document_end(current)
                    || self@.at_paragraph_start(current) {
                    current
                } else {
                    self@.next_paragraph_start(current)
                },
            decreases
                    self@.boxes.len() - current.index,
                    self@.count(current.index as int) - current.character_index,
        {
            proof {
                self@.lemma_next_line_start(current);
            }
            current = self.forward_to_line_start(current);
        }
        current
    }

    /// Moves to the end of the paragraph.
    pub fn forward_to_paragraph_end(&self, p: Position) -> (r: Position)
        requires
            self@.valid(p),
        ensures
            r == self@.next_paragraph_end(p),
            self@.valid(r),
    {
        proof {
            use_type_invariant(self);
        }
        let mut previous = p;
        let mut current = self.forward_to_line_end(p);
        proof {
            self@.lemma_next_line_end(p);
        }
        while !(self.is_document_end(current) || self.ends_paragraph_here(current))
            invariant
                self@.wf(),
                self@.valid(current),
                self@.valid(previous),
                current == self@.next_line_end(previous),
                self@.next_paragraph_end(p) == self@.next_paragraph_end(previous),
            decreases
                    self@.boxes.len() - previous.index,
                    self@.count(previous.index as int) - previous.character_index,
        {
            proof {
                self@.lemma_next_line_end(previous);
                self@.lemma_next_line_end(current);
            }
            previous = current;
            current = self.forward_to_line_end(current);
        }
        current
    }

    /// Moves to the start of the paragraph.
    pub fn backward_to_paragraph_start(&self, p: Position) -> (r: Position)
        requires
            self@.valid(p),
        ensures
            r == self@.previous_paragraph_start(p),
            self@.valid(r),
    {
        proof {
            use_type_invariant(self);
        }
        let mut previous = p;
        let mut current = self.backward_to_line_start(p);
        while !(self.is_paragraph_start(current) || !(current.index < previous.index || (
        current.index == previous.index && current.character_index < previous.character_index)))
            invariant
                self@.wf(),
                self@.valid(current),
                self@.valid(previous),
                current == self@.previous_line_start(previous),
                self@.previous_paragraph_start(p) == self@.previous_paragraph_start(previous),
            decreases previous.index, previous.character_index,
        {
            previous = current;
            current = self.backward_to_line_start(current);
        }
        current
    }
}

impl DocumentView {
    /// The end of a word in a box lies in the box.
    pub proof fn lemma_word_end_in_box(words: Seq<u8>, c: int, k: int)
        requires
            0 <= k,
        ensures
            0 <= word_end_from(words, c, k) <= total(words),
            0 <= word_start_from(words, c, k) <= total(words),
        decreases words.len() - k,
    {
        lemma_prefix_sum_grows(words, 0, words.len() as int);
        if k < words.len() {
            lemma_prefix_sum_grows(words, k + 1, words.len() as int);
            lemma_prefix_sum_grows(words, k, words.len() as int);
            Self::lemma_word_end_in_box(words, c, k + 1);
        }
    }

    /// The start of a paragraph, searched forward, is a position.
    pub proof fn lemma_next_paragraph_start(self, p: Position)
        requires
            self.wf(),
            self.valid(p),
        ensures
            self.valid(self.next_paragraph_start(p)),
        decreases self.boxes.len() - p.index,
    {
        self.lemma_next_line_start(p);
        let n = self.next_line_start(p);
        if !(self.at_document_end(n) || self.at_paragraph_start(n)) {
            self.lemma_next_paragraph_start(n);
        }
    }

    /// The end of a paragraph is a position.
    pub proof fn lemma_next_paragraph_end(self, p: Position)
        requires
            self.wf(),
            self.valid(p),
        ensures
            self.valid(self.next_paragraph_end(p)),
        decreases self.boxes.len() - p.index, self.count(p.index as int) - p.character_index,
    {
        self.lemma_next_line_end(p);
        let n = self.next_line_end(p);
        if !(self.at_document_end(n) || self.ends_paragraph(n)) {
            self.lemma_next_paragraph_end(n);
        }
    }

    /// The start of a line, searched backward, is a position.
    pub proof fn lemma_previous_line_start(self, p: Position)
        requires
            self.wf(),
            self.valid(p),
        ensures
            self.valid(self.previous_line_start(p)),
    {
        self.lemma_line_start_index(self.end_biased(p).index as int);
    }

    /// The start of a paragraph, searched backward, is a position.
    pub proof fn lemma_previous_paragraph_start(self, p: Position)
        requires
            self.wf(),
            self.valid(p),
        ensures
            self.valid(self.previous_paragraph_start(p)),
        decreases p.index, p.character_index,
    {
        self.lemma_previous_line_start(p);
        let n = self.previous_line_start(p);
        if !(self.at_paragraph_start(n) || !stands_before(n, p)) {
            self.lemma_previous_paragraph_start(n);
        }
    }

    /// Every move from a position leads to a position.
    pub proof fn lemma_moves_valid(self, p: Position)
        requires
            self.wf(),
            self.valid(p),
        ensures
            self.valid(self.start_biased(p)),
            self.valid(self.end_biased(p)),
            self.valid(self.first_position()),
            self.valid(self.last_position()),
            self.valid(self.next_character_start(p)),
            self.valid(self.next_character_end(p)),
            self.valid(self.previous_character_start(p)),
            self.valid(self.next_word_start(p)),
            self.valid(self.next_word_end(p)),
            self.valid(self.previous_word_start(p)),
            self.valid(self.next_line_start(p)),
            self.valid(self.next_line_end(p)),
            self.valid(self.previous_line_start(p)),
            self.valid(self.next_paragraph_start(p)),
            self.valid(self.next_paragraph_end(p)),
            self.valid(self.previous_paragraph_start(p)),
    {
        let q = self.start_biased(p);
        let e = self.end_biased(p);
        Self::lemma_word_end_in_box(self.boxes[q.index as int].word_lengths, q.character_index as int, 0);
        Self::lemma_word_end_in_box(self.boxes[e.index as int].word_lengths, e.character_index as int, 0);
        self.lemma_next_line_end(p);
        self.lemma_next_line_start(p);
        self.lemma_previous_line_start(p);
        self.lemma_next_paragraph_start(p);
        self.lemma_next_paragraph_end(p);
        self.lemma_previous_paragraph_start(p);
    }
}

/// How two index paths compare from the index `k` on: the first index that
/// differs decides, and a path that ends first comes first. The result is
/// -1, 0 or 1.
pub open spec fn path_order(a: Seq<usize>, b: Seq<usize>, k: int) -> int
    decreases a.len() - k,
{
    if k < 0 {
        0
    } else if k >= a.len() && k >= b.len() {
        0
    } else if k >= a.len() {
        -1
    } else if k >= b.len() {
        1
    } else if a[k] < b[k] {
        -1
    } else if a[k] > b[k] {
        1
    } else {
        path_order(a, b, k + 1)
    }
}

/// How two keys compare: by their paths and then by their character
/// indexes. The result is -1, 0 or 1.
pub open spec fn key_order(a: (Seq<usize>, usize), b: (Seq<usize>, usize)) -> int {
    let by_path = path_order(a.0, b.0, 0);
    if by_path != 0 {
        by_path
    } else if a.1 < b.1 {
        -1
    } else if a.1 > b.1 {
        1
    } else {
        0
    }
}

/// Two paths compare as equal from `k` on exactly where they have the same
/// length and the same indexes from `k` on.
pub proof fn lemma_path_order_equal(a: Seq<usize>, b: Seq<usize>, k: int)
    requires
        0 <= k <= a.len(),
        k <= b.len(),
    ensures
        path_order(a, b, k) == 0 <==> (a.len() == b.len() && forall|j: int|
            k <= j < a.len() ==> a[j] == b[j]),
        -1 <= path_order(a, b, k) <= 1,
    decreases a.len() - k,
{
    if k < a.len() && k < b.len() && a[k] == b[k] {
        lemma_path_order_equal(a, b, k + 1);
    }
}

/// Comparing two paths the other way round gives the opposite result.
pub proof fn lemma_path_order_opposite(a: Seq<usize>, b: Seq<usize>, k: int)
    requires
        0 <= k <= a.len(),
        k <= b.len(),
    ensures
        path_order(b, a, k) == -path_order(a, b, k),
    decreases a.len() - k,
{
    if k < a.len() && k < b.len() && a[k] == b[k] {
        lemma_path_order_opposite(a, b, k + 1);
    }
}

/// Where two paths agree before `k`, a path that does not come after a
/// second, which does not come after a third, does not come after the
/// third; and it comes before it where one of the two steps is strict.
pub proof fn lemma_path_order_transitive(a: Seq<usize>, b: Seq<usize>, c: Seq<usize>, k: int)
    requires
        0 <= k <= a.len(),
        k <= b.len(),
        k <= c.len(),
        path_order(a, b, k) <= 0,
        path_order(b, c, k) <= 0,
    ensures
        path_order(a, c, k) <= 0,
        path_order(a, b, k) < 0 || path_order(b, c, k) < 0 ==> path_order(a, c, k) < 0,
    decreases a.len() - k,
{
    if k < a.len() && k < b.len() && k < c.len() && a[k] == b[k] && b[k] == c[k] {
        lemma_path_order_transitive(a, b, c, k + 1);
    }
}

/// The order of keys is total: two keys compare as equal exactly where
/// they are the same key, comparing them the other way round gives the
/// opposite result, and the order is transitive.
pub proof fn lemma_key_order_total(
    a: (Seq<usize>, usize),
    b: (Seq<usize>, usize),
    c: (Seq<usize>, usize),
)
    ensures
        key_order(a, b) == 0 <==> a == b,
        key_order(b, a) == -key_order(a, b),
        -1 <= key_order(a, b) <= 1,
        key_order(a, b) <= 0 && key_order(b, c) <= 0 ==> key_order(a, c) <= 0,
        key_order(a, b) <= 0 && key_order(b, c) <= 0 && (key_order(a, b) < 0 || key_order(b, c)
            < 0) ==> key_order(a, c) < 0,
{
    lemma_path_order_equal(a.0, b.0, 0);
    lemma_path_order_equal(b.0, c.0, 0);
    lemma_path_order_equal(a.0, c.0, 0);
    lemma_path_order_opposite(a.0, b.0, 0);
    if path_order(a.0, b.0, 0) == 0 {
        assert(a.0 =~= b.0);
    }
    if path_order(b.0, c.0, 0) == 0 {
        assert(b.0 =~= c.0);
    }
    if a == b {
        assert(a.0 =~= b.0);
    }
    if path_order(a.0, b.0, 0) <= 0 && path_order(b.0, c.0, 0) <= 0 {
        lemma_path_order_transitive(a.0, b.0, c.0, 0);
    }
}

/// The key of a stored position as a mathematical value.
pub open spec fn key_view(key: (Vec<usize>, usize)) -> (Seq<usize>, usize) {
    (key.0@, key.1)
}

/// Compares two keys: -1 where `a` comes first, 1 where `b` does, 0 where
/// they are the same.
pub fn compare_keys(a: &(Vec<usize>, usize), b: &(Vec<usize>, usize)) -> (r: i32)
    ensures
        r == key_order(key_view(*a), key_view(*b)),
{
    let mut k: usize = 0;
    while k < a.0.len() && k < b.0.len()
        invariant
            k <= a.0.len(),
            k <= b.0.len(),
            path_order(a.0@, b.0@, k as int) == path_order(a.0@, b.0@, 0),
        decreases a.0.len() - k,
    {
        if a.0[k] < b.0[k] {
            return -1;
        }
        if a.0[k] > b.0[k] {
            return 1;
        }
        k += 1;
    }
    if k < b.0.len() {
        -1
    } else if k < a.0.len() {
        1
    } else if a.1 < b.1 {
        -1
    } else if a.1 > b.1 {
        1
    } else {
        0
    }
}

impl DocumentView {
    /// The key by which `p` is ordered in the document: the index path of
    /// the box of `p`, taken from the box after where `p` is a box end,
    /// and the character index.
    pub open spec fn key(self, p: Position) -> (Seq<usize>, usize) {
        let q = self.start_biased(p);
        (self.boxes[q.index as int].path, q.character_index)
    }

    /// How `a` and `b` compare in reading order: -1, 0 or 1.
    pub open spec fn order(self, a: Position, b: Position) -> int {
        key_order(self.key(a), self.key(b))
    }
}

/// How two positions compare as they are named: by their boxes first and
/// by their characters second. The result is -1, 0 or 1.
pub open spec fn named_order(a: Position, b: Position) -> int {
    if stands_before(a, b) {
        -1
    } else if a == b {
        0
    } else {
        1
    }
}

impl DocumentView {
    /// The order of positions is the reading order: once both are named
    /// from the box after where they are box ends, the position in the
    /// earlier box comes first, and in one box the one at the earlier
    /// character.
    pub proof fn lemma_order_is_reading_order(self, p: Position, q: Position)
        requires
            self.wf(),
            self.valid(p),
            self.valid(q),
        ensures
            self.order(p, q) == named_order(self.start_biased(p), self.start_biased(q)),
    {
        let a = self.start_biased(p);
        let b = self.start_biased(q);
        let path_a = self.boxes[a.index as int].path;
        let path_b = self.boxes[b.index as int].path;
        if a.index < b.index {
            assert(path_order(path_a, path_b, 0) == -1);
        } else if a.index > b.index {
            assert(path_order(path_b, path_a, 0) == -1);
            lemma_path_order_opposite(path_b, path_a, 0);
        } else {
            lemma_path_order_equal(path_a, path_b, 0);
        }
    }
}

impl Document {
    /// The key by which `p` is ordered. It can be compared with other keys
    /// of the document when the tree has changed and `p` is no longer a
    /// position.
    pub fn comparable(&self, p: Position) -> (r: (Vec<usize>, usize))
        requires
            self@.valid(p),
        ensures
            key_view(r) == self@.key(p),
    {
        let q = self.biased_to_start(p);
        (self.boxes[q.index].path.clone(), q.character_index)
    }

    /// Compares two positions in reading order: -1 where `a` comes first,
    /// 1 where `b` does, 0 where they are the same place.
    pub fn compare(&self, a: Position, b: Position) -> (r: i32)
        requires
            self@.valid(a),
            self@.valid(b),
        ensures
            r == self@.order(a, b),
    {
        let key_a = self.comparable(a);
        let key_b = self.comparable(b);
        compare_keys(&key_a, &key_b)
    }
}

} // verus!
