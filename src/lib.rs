//! Document indexing and position queries for a language server of a small
//! class-based teaching language: positions, hovers from tokens, an index of
//! symbols, hovers and definition links built from the program, and the
//! queries answered from it.
pub mod position;
pub mod query;
pub mod facts;
pub mod tokens;
pub mod ast;
pub mod index;
pub mod completion;
pub mod document;

pub use position::{pos, range, range2, range_name};
pub use tokens::token;
