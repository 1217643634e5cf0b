//! From a line-oriented wiki markup to Markdown.
//!
//! [`parser`] reads the markup into a [`ast::Page`]: hashtags, block
//! quotes, bracketed links and decorations, plain text, and list items
//! marked by tabs. [`visitor`] walks a page and lets a visitor replace or
//! delete nodes; [`visitor::markdown`] holds the pass that promotes bold
//! decorations to headings, and the generator that writes the page out as
//! Markdown. [`laws`] states what holds of the whole way: no text is lost.

pub mod ast;
pub mod laws;
pub mod parser;
pub mod visitor;
