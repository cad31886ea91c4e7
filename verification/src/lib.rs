//! A single-pass compiler for a small declarative UI markup language.
//!
//! Source text is lexed into a token stream, parsed into an abstract
//! syntax tree, and rendered as one self-contained HTML document with an
//! embedded stylesheet and a small reactive runtime script.
//!
//! Every stage carries a full functional specification: the token stream
//! is pinned down by a specification-level lexer, the tree by a
//! specification-level recursive-descent parser, and the output document
//! by a specification-level renderer.

pub mod ast;
pub mod dict;
pub mod error;
pub mod grammar;
pub mod laws;
pub mod lexer;
pub mod numfmt;
pub mod parser;
pub mod render;
pub mod text;
pub mod token;
