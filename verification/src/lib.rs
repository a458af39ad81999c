//! A persistent rope over text and an edit history with exact undo and redo.

pub mod accept;
pub mod editor;
pub mod layout;
pub mod rope;
pub mod session;
pub mod shape;
pub mod text;
