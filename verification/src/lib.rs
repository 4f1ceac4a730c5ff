//! A small modal text editor: pure editor state and behaviour, screen
//! geometry, and the cell grid the terminal front end draws from.

pub mod editor;
pub mod layout;
pub mod render;
pub mod strings;
pub mod terminal;
