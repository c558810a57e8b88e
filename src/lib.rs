//! Renders the doc comments of a source file's functions and modules as terminal text.
//!
//! The pipeline is: a declaration tree is walked in pre-order ([`walker`]), each function
//! or module becomes a [`doc::Doc`], and each doc is rendered with its Markdown body
//! turned into plain text, heading markers and highlighted code ([`markdown`]).
pub mod doc;
pub mod foo;
pub mod markdown;
pub mod text;
pub mod walker;
