//! A reader for a declarative build-description language: manifest text is
//! lexed into tokens, parsed by recursive descent, and collected into a
//! validated in-memory build graph of rules, edges and variable bindings.

pub mod graph;
pub mod ninja_file;
pub mod ninjalexer;
pub mod state;
