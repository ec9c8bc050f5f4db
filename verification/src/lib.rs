//! Editing core of a code editor: the text of an open file, a cursor into it,
//! the edits that change it, the syntax highlighting of its lines, and the
//! messages that keep a language server up to date.

pub mod action;
pub mod boundary;
pub mod buffer;
pub mod cursor;
pub mod edit;
pub mod editor;
pub mod highlight;
pub mod jsonrpc;
pub mod lsp;
pub mod model;
pub mod rope;
pub mod session;
pub mod text;
pub mod ts;
pub mod view;
pub mod wire;
