//! A generic, token-type-agnostic parser-combinator engine.
//!
//! Given a sequence of already-lexed tokens, a tree of combinators
//! recognizes a grammar by recursive descent with bounded backtracking,
//! producing either a typed parse tree or a syntax error anchored to a
//! source location.
//!
//! The behaviour of every combinator is pinned down by a mathematical
//! model (`model::spec_parse`); each executable `parse` method is proved
//! to return exactly what the model says.

pub mod grammar;
pub mod laws;
pub mod model;
pub mod parse;
pub mod token;
