//! Renders a sequence of structured document events (headings, paragraphs,
//! lists, tables, code blocks, ...) into an HTML fragment, while collecting
//! every heading into a table-of-contents fragment that is prepended to the
//! rendered body.

pub mod events;
pub mod escape;
pub mod numfmt;
pub mod render;
pub mod toc;
pub mod document;
pub mod balance;
