//! Token categories and spans.

use vstd::prelude::*;

verus! {

/// The lexical category of one span of input.
///
/// `Whitespace`, `Comment` and `Continuation` are recognized and consumed
/// but never yielded by the scanner; they exist so that every byte of the
/// input is accounted for by exactly one classified span.  `Error` marks a
/// single unrecognized byte, after which scanning resumes.
#[derive(Clone, Copy, Debug, PartialEq, Eq, Structural)]
pub enum TokenKind {
    /// `(`
    LParen,
    /// `)`
    RParen,
    /// `[`
    LBrack,
    /// `]`
    RBrack,
    /// `{`
    LBrace,
    /// `}`
    RBrace,
    /// `+`
    Plus,
    /// `-`
    Minus,
    /// `*`
    Star,
    /// `/`
    Slash,
    /// `.`
    Dot,
    /// `,`
    Comma,
    /// `=`
    Equal,
    /// `==`
    EqualEqual,
    /// `!=`
    BangEqual,
    /// `<`
    Less,
    /// `>`
    Greater,
    /// `<=`
    LesserEqual,
    /// `>=`
    GreaterEqual,
    /// `:=`
    ColonEqual,
    /// `::`, the type separator
    ColonColon,
    /// `=>`, the function return type arrow
    Arrow,
    /// `#` up to, and not including, the end of the line; never yielded
    Comment,
    /// A letter or underscore followed by at least one more letter, digit
    /// or underscore; single-letter names are not identifiers
    Identifier,
    /// A run of decimal digits
    Integer,
    /// Exactly one byte other than a newline between single quotes
    Char,
    /// A double-quoted literal; `\"` and `\\` are the only escapes
    String,
    /// `0b` or `0B` followed by binary digits
    BinInteger,
    /// `0x` or `0X` followed by digits or upper-case `A` through `F`
    HexInteger,
    /// The keyword `if`
    If,
    /// The keyword `for`
    For,
    /// The keyword `def`
    Def,
    /// The keyword `fun`
    Fun,
    /// The type keyword `int`
    IntType,
    /// The type keyword `str`
    StrType,
    /// The type keyword `bool`
    BoolType,
    /// A backslash immediately followed by a newline; never yielded
    Continuation,
    /// A bare newline, significant for statement separation
    NewLine,
    /// A run of spaces, tabs or form feeds; never yielded
    Whitespace,
    /// One unrecognized byte, or an unopened or unterminated literal
    Error,
}

/// One classified span of the input: its category and the half-open byte
/// range `[start, end)` where its text lies.
#[derive(Clone, Copy, Debug, PartialEq, Eq, Structural)]
pub struct Token {
    /// The lexical category of the span.
    pub kind: TokenKind,
    /// The byte offset where the span begins.
    pub start: usize,
    /// The byte offset one past the last byte of the span.
    pub end: usize,
}

} // verus!
