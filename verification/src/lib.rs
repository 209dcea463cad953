//! Assembling a serialized web novel into a single e-book: the rules that
//! turn fetched pages into titles, chapters, file names and archive entries.

pub mod archive;
pub mod error;
pub mod markup;
pub mod naming;
pub mod novel;
pub mod order;
pub mod page;
pub mod text;
pub mod title;
pub mod url;
