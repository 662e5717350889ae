//! Renders the files of one directory as a column-aligned text table: one row
//! per file, the file name first, then the leading lines of its content.
//!
//! The crate holds the pure part of that work: capturing a bounded prefix of
//! a file's lines, measuring column widths over all rows, and laying out each
//! row as a line of text. Reading the directory and writing the lines is left
//! to the caller.

pub mod laws;
pub mod layout;
pub mod render;
pub mod row;
pub mod scan;
pub mod style;
pub mod table;
pub mod text;
pub mod widths;
