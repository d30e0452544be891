//! The window layout: a binary tree of panes and splits, and the manager
//! that owns it together with the focus and the panes' screen rectangles.

pub mod layout_manager;
pub mod rect;
pub mod tree;
