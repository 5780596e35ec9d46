//! A lexical scanner for a small C-like scripting language.
//!
//! The scanner turns an in-memory ASCII buffer into a stream of tokens:
//! keywords, identifiers, integer literals, boolean literals, operators and
//! punctuation, ending in a stable end-of-input token.  Malformed input never
//! makes a call fail; it degrades to an illegal token.

pub mod lexer;
