//! The lexical rules, as specification functions.
//!
//! [`raw_token`] is the heart of the scanner's contract: at a cursor
//! position it names the category and the end of the one maximal span that
//! the rules recognize there.  Longest match wins, and on an equal-length
//! tie a keyword beats the identifier rule.  [`raw_regions`] chains those
//! spans so that they tile the whole input, and [`visible_regions`] is the
//! subsequence a caller actually sees once whitespace, comments and
//! continuations are dropped.

use vstd::prelude::*;

use crate::token::TokenKind;

verus! {

/// `'\t'`
pub const B_TAB: u8 = 9;

/// `'\n'`
pub const B_NEWLINE: u8 = 10;

/// The form feed.
pub const B_FORM_FEED: u8 = 12;

/// `' '`
pub const B_SPACE: u8 = 32;

/// `'!'`
pub const B_BANG: u8 = 33;

/// `'"'`
pub const B_DOUBLE_QUOTE: u8 = 34;

/// `'#'`
pub const B_HASH: u8 = 35;

/// `'\''`
pub const B_SINGLE_QUOTE: u8 = 39;

/// `'('`
pub const B_LPAREN: u8 = 40;

/// `')'`
pub const B_RPAREN: u8 = 41;

/// `'*'`
pub const B_STAR: u8 = 42;

/// `'+'`
pub const B_PLUS: u8 = 43;

/// `','`
pub const B_COMMA: u8 = 44;

/// `'-'`
pub const B_MINUS: u8 = 45;

/// `'.'`
pub const B_DOT: u8 = 46;

/// `'/'`
pub const B_SLASH: u8 = 47;

/// `'0'`
pub const B_0: u8 = 48;

/// `'1'`
pub const B_1: u8 = 49;

/// `'9'`
pub const B_9: u8 = 57;

/// `':'`
pub const B_COLON: u8 = 58;

/// `'<'`
pub const B_LESS: u8 = 60;

/// `'='`
pub const B_EQUALS: u8 = 61;

/// `'>'`
pub const B_GREATER: u8 = 62;

/// `'A'`
pub const B_UPPER_A: u8 = 65;

/// `'B'`
pub const B_UPPER_B: u8 = 66;

/// `'F'`
pub const B_UPPER_F: u8 = 70;

/// `'X'`
pub const B_UPPER_X: u8 = 88;

/// `'Z'`
pub const B_UPPER_Z: u8 = 90;

/// `'['`
pub const B_LBRACK: u8 = 91;

/// `'\\'`
pub const B_BACKSLASH: u8 = 92;

/// `']'`
pub const B_RBRACK: u8 = 93;

/// `'_'`
pub const B_UNDERSCORE: u8 = 95;

/// `'a'`
pub const B_LOWER_A: u8 = 97;

/// `'b'`
pub const B_LOWER_B: u8 = 98;

/// `'d'`
pub const B_LOWER_D: u8 = 100;

/// `'e'`
pub const B_LOWER_E: u8 = 101;

/// `'f'`
pub const B_LOWER_F: u8 = 102;

/// `'i'`
pub const B_LOWER_I: u8 = 105;

/// `'l'`
pub const B_LOWER_L: u8 = 108;

/// `'n'`
pub const B_LOWER_N: u8 = 110;

/// `'o'`
pub const B_LOWER_O: u8 = 111;

/// `'r'`
pub const B_LOWER_R: u8 = 114;

/// `'s'`
pub const B_LOWER_S: u8 = 115;

/// `'t'`
pub const B_LOWER_T: u8 = 116;

/// `'u'`
pub const B_LOWER_U: u8 = 117;

/// `'x'`
pub const B_LOWER_X: u8 = 120;

/// `'z'`
pub const B_LOWER_Z: u8 = 122;

/// `'{'`
pub const B_LBRACE: u8 = 123;

/// `'}'`
pub const B_RBRACE: u8 = 125;

/// A space, tab or form feed: consumed silently, never yielded.
pub open spec fn is_space_byte(c: u8) -> bool {
    c == B_SPACE || c == B_TAB || c == B_FORM_FEED
}

/// A decimal digit.
pub open spec fn is_digit_byte(c: u8) -> bool {
    B_0 <= c && c <= B_9
}

/// A binary digit.
pub open spec fn is_bin_digit_byte(c: u8) -> bool {
    c == B_0 || c == B_1
}

/// A hexadecimal digit; only upper-case letters count.
pub open spec fn is_hex_digit_byte(c: u8) -> bool {
    is_digit_byte(c) || (B_UPPER_A <= c && c <= B_UPPER_F)
}

/// An ASCII letter.
pub open spec fn is_letter_byte(c: u8) -> bool {
    (B_LOWER_A <= c && c <= B_LOWER_Z) || (B_UPPER_A <= c && c <= B_UPPER_Z)
}

/// A byte that may open an identifier.
pub open spec fn is_ident_start_byte(c: u8) -> bool {
    is_letter_byte(c) || c == B_UNDERSCORE
}

/// A byte that may continue an identifier.
pub open spec fn is_ident_byte(c: u8) -> bool {
    is_ident_start_byte(c) || is_digit_byte(c)
}

/// The classes of bytes over which the scanner takes maximal runs.
#[derive(Clone, Copy)]
pub enum CharClass {
    /// Spaces, tabs and form feeds.
    Space,
    /// Decimal digits.
    Digit,
    /// Binary digits.
    BinDigit,
    /// Hexadecimal digits, upper-case letters only.
    HexDigit,
    /// Identifier bytes.
    IdentChar,
    /// Every byte but a newline; a comment runs over these.
    NotNewline,
}

/// Whether byte `c` belongs to class `cl`.
pub open spec fn in_class(cl: CharClass, c: u8) -> bool {
    match cl {
        CharClass::Space => is_space_byte(c),
        CharClass::Digit => is_digit_byte(c),
        CharClass::BinDigit => is_bin_digit_byte(c),
        CharClass::HexDigit => is_hex_digit_byte(c),
        CharClass::IdentChar => is_ident_byte(c),
        CharClass::NotNewline => c != B_NEWLINE,
    }
}

/// The end of the maximal run of class-`cl` bytes that starts at `i`:
/// the first position at or after `i` holding no such byte, or the end of
/// the input.
pub open spec fn run_end(s: Seq<u8>, i: int, cl: CharClass) -> int
    recommends
        0 <= i <= s.len(),
    decreases s.len() - i,
{
    if i < s.len() && in_class(cl, s[i]) {
        run_end(s, i + 1, cl)
    } else {
        i
    }
}

/// Scans the inside of a string literal from `j`, just past the opening
/// quote.  Returns the position one past the closing quote, or `None` when
/// the literal never closes: the input ends first, a bare newline
/// intervenes, or a backslash escapes anything but `"` or `\`.
pub open spec fn string_close(s: Seq<u8>, j: int) -> Option<int>
    recommends
        0 <= j <= s.len(),
    decreases s.len() - j,
{
    if j >= s.len() {
        None
    } else if s[j] == B_DOUBLE_QUOTE {
        Some(j + 1)
    } else if s[j] == B_NEWLINE {
        None
    } else if s[j] == B_BACKSLASH {
        if j + 2 <= s.len() && (s[j + 1] == B_DOUBLE_QUOTE || s[j + 1] == B_BACKSLASH) {
            string_close(s, j + 2)
        } else {
            None
        }
    } else {
        string_close(s, j + 1)
    }
}

/// The keyword that the word `w` spells, if any.  A keyword match takes
/// priority over the identifier rule on an equal-length span.
pub open spec fn keyword_of(w: Seq<u8>) -> Option<TokenKind> {
    if w.len() == 2 && w[0] == B_LOWER_I && w[1] == B_LOWER_F {
        Some(TokenKind::If)
    } else if w.len() == 3 && w[0] == B_LOWER_F && w[1] == B_LOWER_O && w[2] == B_LOWER_R {
        Some(TokenKind::For)
    } else if w.len() == 3 && w[0] == B_LOWER_D && w[1] == B_LOWER_E && w[2] == B_LOWER_F {
        Some(TokenKind::Def)
    } else if w.len() == 3 && w[0] == B_LOWER_F && w[1] == B_LOWER_U && w[2] == B_LOWER_N {
        Some(TokenKind::Fun)
    } else if w.len() == 3 && w[0] == B_LOWER_I && w[1] == B_LOWER_N && w[2] == B_LOWER_T {
        Some(TokenKind::IntType)
    } else if w.len() == 3 && w[0] == B_LOWER_S && w[1] == B_LOWER_T && w[2] == B_LOWER_R {
        Some(TokenKind::StrType)
    } else if w.len() == 4 && w[0] == B_LOWER_B && w[1] == B_LOWER_O && w[2] == B_LOWER_O
        && w[3] == B_LOWER_L {
        Some(TokenKind::BoolType)
    } else {
        None
    }
}

/// The one maximal span that the rules recognize at position `i`: its
/// category and its end.  Every position yields a span of at least one
/// byte, so the scan always advances; a byte no rule claims becomes a
/// one-byte `Error` span.
pub open spec fn raw_token(s: Seq<u8>, i: int) -> (TokenKind, int)
    recommends
        0 <= i < s.len(),
{
    let c = s[i];
    if is_space_byte(c) {
        (TokenKind::Whitespace, run_end(s, i, CharClass::Space))
    } else if c == B_NEWLINE {
        (TokenKind::NewLine, i + 1)
    } else if c == B_BACKSLASH {
        if i + 1 < s.len() && s[i + 1] == B_NEWLINE {
            (TokenKind::Continuation, i + 2)
        } else {
            (TokenKind::Error, i + 1)
        }
    } else if c == B_HASH {
        (TokenKind::Comment, run_end(s, i + 1, CharClass::NotNewline))
    } else if c == B_DOUBLE_QUOTE {
        match string_close(s, i + 1) {
            Some(e) => (TokenKind::String, e),
            None => (TokenKind::Error, i + 1),
        }
    } else if c == B_SINGLE_QUOTE {
        if i + 2 < s.len() && s[i + 1] != B_NEWLINE && s[i + 2] == B_SINGLE_QUOTE {
            (TokenKind::Char, i + 3)
        } else {
            (TokenKind::Error, i + 1)
        }
    } else if is_digit_byte(c) {
        if c == B_0 && i + 2 < s.len() && (s[i + 1] == B_LOWER_X || s[i + 1] == B_UPPER_X)
            && is_hex_digit_byte(s[i + 2]) {
            (TokenKind::HexInteger, run_end(s, i + 2, CharClass::HexDigit))
        } else if c == B_0 && i + 2 < s.len() && (s[i + 1] == B_LOWER_B || s[i + 1] == B_UPPER_B)
            && is_bin_digit_byte(s[i + 2]) {
            (TokenKind::BinInteger, run_end(s, i + 2, CharClass::BinDigit))
        } else {
            (TokenKind::Integer, run_end(s, i, CharClass::Digit))
        }
    } else if is_ident_start_byte(c) {
        let e = run_end(s, i, CharClass::IdentChar);
        match keyword_of(s.subrange(i, e)) {
            Some(k) => (k, e),
            None => if e - i >= 2 {
                (TokenKind::Identifier, e)
            } else {
                (TokenKind::Error, i + 1)
            },
        }
    } else if c == B_EQUALS {
        if i + 1 < s.len() && s[i + 1] == B_EQUALS {
            (TokenKind::EqualEqual, i + 2)
        } else if i + 1 < s.len() && s[i + 1] == B_GREATER {
            (TokenKind::Arrow, i + 2)
        } else {
            (TokenKind::Equal, i + 1)
        }
    } else if c == B_BANG {
        if i + 1 < s.len() && s[i + 1] == B_EQUALS {
            (TokenKind::BangEqual, i + 2)
        } else {
            (TokenKind::Error, i + 1)
        }
    } else if c == B_LESS {
        if i + 1 < s.len() && s[i + 1] == B_EQUALS {
            (TokenKind::LesserEqual, i + 2)
        } else {
            (TokenKind::Less, i + 1)
        }
    } else if c == B_GREATER {
        if i + 1 < s.len() && s[i + 1] == B_EQUALS {
            (TokenKind::GreaterEqual, i + 2)
        } else {
            (TokenKind::Greater, i + 1)
        }
    } else if c == B_COLON {
        if i + 1 < s.len() && s[i + 1] == B_EQUALS {
            (TokenKind::ColonEqual, i + 2)
        } else if i + 1 < s.len() && s[i + 1] == B_COLON {
            (TokenKind::ColonColon, i + 2)
        } else {
            (TokenKind::Error, i + 1)
        }
    } else if c == B_LPAREN {
        (TokenKind::LParen, i + 1)
    } else if c == B_RPAREN {
        (TokenKind::RParen, i + 1)
    } else if c == B_LBRACK {
        (TokenKind::LBrack, i + 1)
    } else if c == B_RBRACK {
        (TokenKind::RBrack, i + 1)
    } else if c == B_LBRACE {
        (TokenKind::LBrace, i + 1)
    } else if c == B_RBRACE {
        (TokenKind::RBrace, i + 1)
    } else if c == B_PLUS {
        (TokenKind::Plus, i + 1)
    } else if c == B_MINUS {
        (TokenKind::Minus, i + 1)
    } else if c == B_STAR {
        (TokenKind::Star, i + 1)
    } else if c == B_SLASH {
        (TokenKind::Slash, i + 1)
    } else if c == B_DOT {
        (TokenKind::Dot, i + 1)
    } else if c == B_COMMA {
        (TokenKind::Comma, i + 1)
    } else {
        (TokenKind::Error, i + 1)
    }
}

/// Whether spans of this category are consumed without being yielded.
pub open spec fn is_discarded(k: TokenKind) -> bool {
    k is Whitespace || k is Comment || k is Continuation
}

/// Every classified span from position `i` to the end of the input, in
/// order.  Consecutive spans are adjacent, so together they reconstruct
/// the input byte for byte.
pub open spec fn raw_regions(s: Seq<u8>, i: int) -> Seq<(TokenKind, int, int)>
    decreases s.len() - i,
{
    if !(0 <= i < s.len()) {
        Seq::empty()
    } else {
        let t = raw_token(s, i);
        if i < t.1 <= s.len() {
            seq![(t.0, i, t.1)] + raw_regions(s, t.1)
        } else {
            Seq::empty()
        }
    }
}

/// The classified spans from position `i` that the scanner yields:
/// [`raw_regions`] with whitespace, comments and continuations dropped.
pub open spec fn visible_regions(s: Seq<u8>, i: int) -> Seq<(TokenKind, int, int)>
    decreases s.len() - i,
{
    if !(0 <= i < s.len()) {
        Seq::empty()
    } else {
        let t = raw_token(s, i);
        if i < t.1 <= s.len() {
            if is_discarded(t.0) {
                visible_regions(s, t.1)
            } else {
                seq![(t.0, i, t.1)] + visible_regions(s, t.1)
            }
        } else {
            Seq::empty()
        }
    }
}

/// Unrolls [`raw_regions`] by one span: the span at `i` followed by the
/// spans from its end.
pub proof fn lemma_raw_regions_step(s: Seq<u8>, i: int)
    requires
        0 <= i < s.len(),
    ensures
        i < raw_token(s, i).1 <= s.len(),
        raw_regions(s, i) == seq![(raw_token(s, i).0, i, raw_token(s, i).1)] + raw_regions(
            s,
            raw_token(s, i).1,
        ),
{
    lemma_raw_token_bounds(s, i);
}

/// Past the end of the input there are no spans left.
pub proof fn lemma_raw_regions_empty(s: Seq<u8>, i: int)
    requires
        i >= s.len(),
    ensures
        raw_regions(s, i) == Seq::<(TokenKind, int, int)>::empty(),
{
}

/// Unrolls [`visible_regions`] by one span: a discarded span at `i` is
/// dropped, any other is the head of the result.
pub proof fn lemma_visible_regions_step(s: Seq<u8>, i: int)
    requires
        0 <= i < s.len(),
    ensures
        i < raw_token(s, i).1 <= s.len(),
        is_discarded(raw_token(s, i).0) ==> visible_regions(s, i) == visible_regions(
            s,
            raw_token(s, i).1,
        ),
        !is_discarded(raw_token(s, i).0) ==> visible_regions(s, i) == seq![
            (raw_token(s, i).0, i, raw_token(s, i).1),
        ] + visible_regions(s, raw_token(s, i).1),
{
    lemma_raw_token_bounds(s, i);
}

/// Past the end of the input there are no visible spans left.
pub proof fn lemma_visible_regions_empty(s: Seq<u8>, i: int)
    requires
        i >= s.len(),
    ensures
        visible_regions(s, i) == Seq::<(TokenKind, int, int)>::empty(),
{
}

/// A maximal run never leaves the input, holds only class bytes, and
/// stops at the input's end or just before a byte outside the class.
pub proof fn lemma_run_end_bounds(s: Seq<u8>, i: int, cl: CharClass)
    requires
        0 <= i <= s.len(),
    ensures
        i <= run_end(s, i, cl) <= s.len(),
        forall|j: int| i <= j < run_end(s, i, cl) ==> in_class(cl, #[trigger] s[j]),
        run_end(s, i, cl) < s.len() ==> !in_class(cl, s[run_end(s, i, cl)]),
    decreases s.len() - i,
{
    if i < s.len() && in_class(cl, s[i]) {
        lemma_run_end_bounds(s, i + 1, cl);
    }
}

/// A run over nothing but class bytes reaches the end of the input.
pub proof fn lemma_run_end_full(s: Seq<u8>, i: int, cl: CharClass)
    requires
        0 <= i <= s.len(),
        forall|j: int| i <= j < s.len() ==> in_class(cl, #[trigger] s[j]),
    ensures
        run_end(s, i, cl) == s.len(),
{
    lemma_run_end_bounds(s, i, cl);
}

/// When a string literal closes, its closing quote lies past the opening
/// one and within the input.
pub proof fn lemma_string_close_bounds(s: Seq<u8>, j: int)
    requires
        0 <= j <= s.len(),
    ensures
        string_close(s, j) matches Some(e) ==> j < e <= s.len(),
    decreases s.len() - j,
{
    if j < s.len() && s[j] != B_DOUBLE_QUOTE && s[j] != B_NEWLINE {
        if s[j] == B_BACKSLASH {
            if j + 2 <= s.len() && (s[j + 1] == B_DOUBLE_QUOTE || s[j + 1] == B_BACKSLASH) {
                lemma_string_close_bounds(s, j + 2);
            }
        } else {
            lemma_string_close_bounds(s, j + 1);
        }
    }
}

/// Every classified span moves the cursor strictly forward and never past
/// the end of the input: the scan always advances and never overruns the
/// buffer, comments on a final line without a newline included.
pub proof fn lemma_raw_token_bounds(s: Seq<u8>, i: int)
    requires
        0 <= i < s.len(),
    ensures
        i < raw_token(s, i).1 <= s.len(),
{
    let c = s[i];
    if is_space_byte(c) {
        lemma_run_end_bounds(s, i + 1, CharClass::Space);
        assert(run_end(s, i, CharClass::Space) == run_end(s, i + 1, CharClass::Space));
    } else if c == B_HASH {
        lemma_run_end_bounds(s, i + 1, CharClass::NotNewline);
    } else if c == B_DOUBLE_QUOTE {
        lemma_string_close_bounds(s, i + 1);
    } else if is_digit_byte(c) {
        if c == B_0 && i + 2 < s.len() && (s[i + 1] == B_LOWER_X || s[i + 1] == B_UPPER_X)
            && is_hex_digit_byte(s[i + 2]) {
            lemma_run_end_bounds(s, i + 2, CharClass::HexDigit);
        } else if c == B_0 && i + 2 < s.len() && (s[i + 1] == B_LOWER_B || s[i + 1] == B_UPPER_B)
            && is_bin_digit_byte(s[i + 2]) {
            lemma_run_end_bounds(s, i + 2, CharClass::BinDigit);
        } else {
            lemma_run_end_bounds(s, i + 1, CharClass::Digit);
            assert(run_end(s, i, CharClass::Digit) == run_end(s, i + 1, CharClass::Digit));
        }
    } else if is_ident_start_byte(c) {
        lemma_run_end_bounds(s, i + 1, CharClass::IdentChar);
        assert(run_end(s, i, CharClass::IdentChar) == run_end(s, i + 1, CharClass::IdentChar));
    }
}

} // verus!
