//! An XML pull parser: a lexer that turns characters into tokens, and a
//! parser that turns tokens into events, with namespace resolution and
//! element nesting checked along the way.

pub mod common;
pub mod name;
pub mod attribute;
pub mod namespace;
pub mod reader;
