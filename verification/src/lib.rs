//! Front end of a small imperative-language compiler.
//!
//! The library has two halves. The lexical analyzer turns raw source lines
//! into an ordered token stream: a multi-state tokenizer with maximal-munch
//! disambiguation (`==` and `!=` win over `=` and `!`) and graceful error
//! recovery (malformed text degrades to `ILLEGAL` tokens instead of aborting
//! the line). The reducer is a stack-based grammar engine that consumes
//! tokens one at a time and greedily reduces matching suffixes against a
//! fixed rule table, building an abstract-syntax fragment per reduction.
//!
//! Everything the components compute is stated in contracts over the
//! mathematical models in each module; the concrete instruction-emission
//! backend is out of scope and is handed the abstract-syntax fragments by
//! the caller.

pub mod lex_props;
pub mod lex_spec;
pub mod lexical;
pub mod parser;
pub mod render;
pub mod rules;
pub mod token;
