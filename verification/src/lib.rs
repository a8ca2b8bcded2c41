//! A verified lexical scanner for a small programming language.
//!
//! The scanner walks a byte buffer left to right and classifies maximal
//! token spans: punctuation and operators, identifiers and keywords,
//! decimal, binary and hexadecimal integer literals, character and string
//! literals, newlines, comments and line continuations.  Whitespace,
//! comments and continuations are consumed but never handed to the caller;
//! every other span, including unrecognized input, is yielded so that one
//! pass surfaces every lexical error.
//!
//! The classification rules live as specification functions in [`rules`];
//! the executable scanner in [`scan`] is proved to follow them exactly, and
//! [`laws`] states the scanner's guarantees as standalone theorems.

pub mod laws;
pub mod rules;
pub mod scan;
pub mod token;

pub use scan::Scanner;
pub use scan::tokenize;
pub use scan::tokenize_raw;
pub use token::Token;
pub use token::TokenKind;
