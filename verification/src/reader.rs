//! Reading XML: configuration, the lexer, events and the pull parser.

pub mod events;
pub mod config;
pub mod lexer;
pub mod parser;
