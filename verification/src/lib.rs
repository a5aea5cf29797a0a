//! The core of an accessibility tree: the schema that a toolkit fills in,
//! the engine that folds updates into a committed tree and reports what
//! changed, and the text navigation model that platform adapters query.
//!
//! - [`schema`], [`node`] and [`sets`] hold the values that a producer sends:
//!   nodes, identifiers, updates and action requests.
//! - [`tree`] is the committed tree, a snapshot that is a tree by
//!   construction; [`engine`] applies updates to it as a whole or not at
//!   all; [`changes`] tells two trees apart and [`notify`] delivers the
//!   difference to a handler; [`shared`] puts the tree behind a lock for
//!   many readers and one writer.
//! - [`filter`] gives the views of the tree that leave nodes out.
//! - [`document`], [`position`] and [`range`] are the text model: a
//!   document is the row of inline text boxes below a node, a position a
//!   place between two of its characters, and a range a pair of positions.
//! - [`text`], [`adapter`] and [`bus`] are what platform adapters need of
//!   all this: text ranges as clients hold them, the events of a window,
//!   and the signals of the accessibility bus.
//!
//! Everything here is verified: each function states what it returns, and
//! the statement is proved. What is taken on trust is marked as such where
//! it stands: a handful of calls into the standard library and into the
//! lock.

pub mod adapter;
pub mod bus;
pub mod changes;
pub mod document;
pub mod engine;
pub mod filter;
pub mod node;
pub mod notify;
pub mod position;
pub mod range;
pub mod schema;
pub mod sets;
pub mod shared;
pub mod text;
pub mod tree;

pub use crate::node::Node;
pub use crate::schema::{
    is_empty, is_false, Action, ActionData, ActionHandler, ActionRequest, Affine, AriaCurrent,
    CheckedState, CustomAction, DefaultActionVerb, DescriptionFrom, DropEffect, Float32, Float64,
    HasPopup, InvalidState, ListStyle, Live, NameFrom, NodeId, NodeIdContent, Orientation, Point,
    Rect, Role, SortDirection, TextAlign, TextDecoration, TextDirection, TextPosition,
    TextSelection, Tree, TreeUpdate, VerticalOffset,
};
pub use crate::sets::{ActionSet, DropEffectSet};
