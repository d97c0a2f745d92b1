//! Navigation model of a line-oriented text buffer: per-line length
//! statistics, a cursor bounded by them, a scrolling window of rows and the
//! editor state that ties them together.

pub mod cursor;
pub mod editor;
pub mod stats;
pub mod window;
