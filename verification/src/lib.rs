//! Reading the arguments of an attribute, token by token, into typed values.
//!
//! The input is a sequence of tokens that a lexer has already produced. On top
//! of it stand a cursor, a grammar of items (path, `name = literal`,
//! `name(...)`, literal) that is read eagerly into a tree, and a stricter
//! `name = value` scanner that reads one pair at a time.

pub mod token;
pub mod cursor;
pub mod literal;
pub mod tree;
pub mod stream;
pub mod pairs;
pub mod derive;
pub mod assemble;
