//! A CSV table viewer: the layout, the search and the screen contents of a
//! terminal viewer, each with a contract that says what is computed.

pub mod alignment;
pub mod canvas;
pub mod cells;
pub mod geometry;
pub mod key_laws;
pub mod lines;
pub mod pictures;
pub mod reader;
pub mod render;
pub mod search;
pub mod state;
pub mod state_laws;
pub mod table;
pub mod text;
pub mod viewer;
pub mod viewer_laws;
