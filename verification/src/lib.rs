//! Core logic of a terminal client for an issue tracker: normalizing ticket
//! references, linearizing rich-text descriptions, colorizing status labels,
//! and laying out fixed-width tables whose cells may carry invisible
//! terminal styling.

pub mod document;
pub mod presenter;
pub mod request;
pub mod resolver;
pub mod status;
pub mod table;
pub mod text;
