//! Markdown to HTML conversion through a fixed sequence of verified text-rewrite passes.
pub mod text;
pub mod element;
pub mod lexer;
pub mod builder;
pub mod laws;
