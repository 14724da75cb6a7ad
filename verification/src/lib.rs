//! Addressing into a JSON document and laying it out as a tree of labelled nodes.
//!
//! A document is a `serde_json::Value`. [`select`] resolves a path of [`Selector`] steps
//! to the value it addresses; [`tree_items`] turns the whole document into
//! [`TreeItem`]s, one node for each value below the root, labelled for display.

pub mod document;
pub mod select;
pub mod selector;
pub mod tree;

pub use crate::select::select;
pub use crate::select::select_one;
pub use crate::selector::Selector;
pub use crate::tree::tree_items;
pub use crate::tree::TreeItem;
