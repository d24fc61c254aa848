//! Conversion of XMind mind maps (ZIP archives holding a JSON topic tree)
//! into Markdown text.

pub mod archive;
pub mod convert;
pub mod error;
pub mod json;
pub mod notes;
pub mod render;
pub mod text;
pub mod topic;
