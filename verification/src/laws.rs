//! The scanner's guarantees, stated as standalone theorems over the
//! lexical rules.

use vstd::prelude::*;

use crate::rules::CharClass;
use crate::rules::B_0;
use crate::rules::B_DOUBLE_QUOTE;
use crate::rules::B_HASH;
use crate::rules::B_LOWER_B;
use crate::rules::B_LOWER_X;
use crate::rules::B_NEWLINE;
use crate::rules::B_UPPER_B;
use crate::rules::B_UPPER_X;
use crate::rules::in_class;
use crate::rules::is_digit_byte;
use crate::rules::is_discarded;
use crate::rules::is_hex_digit_byte;
use crate::rules::is_bin_digit_byte;
use crate::rules::is_ident_byte;
use crate::rules::is_ident_start_byte;
use crate::rules::keyword_of;
use crate::rules::lemma_run_end_bounds;
use crate::rules::lemma_run_end_full;
use crate::rules::raw_token;
use crate::rules::run_end;
use crate::rules::string_close;
use crate::rules::visible_regions;
use crate::token::TokenKind;

verus! {

/// When the rules recognize the whole input as one undiscarded span, the
/// scanner yields exactly that one token.
proof fn lemma_whole_input_token(s: Seq<u8>, k: TokenKind)
    requires
        s.len() > 0,
        raw_token(s, 0) == (k, s.len() as int),
        !is_discarded(k),
    ensures
        visible_regions(s, 0) == seq![(k, 0int, s.len() as int)],
{
    assert(visible_regions(s, s.len() as int) =~= Seq::<(TokenKind, int, int)>::empty());
    assert(visible_regions(s, 0) =~= seq![(k, 0int, s.len() as int)]);
}

/// An input of nothing but decimal digits is exactly one `Integer` token
/// spanning the whole input.
pub proof fn lemma_digits_single_integer(s: Seq<u8>)
    requires
        s.len() > 0,
        forall|j: int| 0 <= j < s.len() ==> is_digit_byte(#[trigger] s[j]),
    ensures
        visible_regions(s, 0) == seq![(TokenKind::Integer, 0int, s.len() as int)],
{
    assert(forall|j: int| 0 <= j < s.len() ==> in_class(CharClass::Digit, #[trigger] s[j]));
    lemma_run_end_full(s, 0, CharClass::Digit);
    lemma_whole_input_token(s, TokenKind::Integer);
}

/// `0x` or `0X` followed by nothing but upper-case hexadecimal digits is
/// exactly one `HexInteger` token spanning the whole input.
pub proof fn lemma_hex_single_token(s: Seq<u8>)
    requires
        s.len() >= 3,
        s[0] == B_0,
        s[1] == B_LOWER_X || s[1] == B_UPPER_X,
        forall|j: int| 2 <= j < s.len() ==> is_hex_digit_byte(#[trigger] s[j]),
    ensures
        visible_regions(s, 0) == seq![(TokenKind::HexInteger, 0int, s.len() as int)],
{
    assert(forall|j: int| 2 <= j < s.len() ==> in_class(CharClass::HexDigit, #[trigger] s[j]));
    lemma_run_end_full(s, 2, CharClass::HexDigit);
    lemma_whole_input_token(s, TokenKind::HexInteger);
}

/// `0b` or `0B` followed by nothing but binary digits is exactly one
/// `BinInteger` token spanning the whole input.
pub proof fn lemma_bin_single_token(s: Seq<u8>)
    requires
        s.len() >= 3,
        s[0] == B_0,
        s[1] == B_LOWER_B || s[1] == B_UPPER_B,
        forall|j: int| 2 <= j < s.len() ==> is_bin_digit_byte(#[trigger] s[j]),
    ensures
        visible_regions(s, 0) == seq![(TokenKind::BinInteger, 0int, s.len() as int)],
{
    assert(forall|j: int| 2 <= j < s.len() ==> in_class(CharClass::BinDigit, #[trigger] s[j]));
    lemma_run_end_full(s, 2, CharClass::BinDigit);
    lemma_whole_input_token(s, TokenKind::BinInteger);
}

/// An input that spells a keyword is exactly one token of that keyword's
/// dedicated category, never an `Identifier`, although it also matches
/// the identifier pattern: on an equal-length tie the keyword wins.
pub proof fn lemma_keyword_never_identifier(s: Seq<u8>)
    ensures
        keyword_of(s) matches Some(k) ==> visible_regions(s, 0) == seq![
            (k, 0int, s.len() as int),
        ] && !(k is Identifier),
{
    match keyword_of(s) {
        Some(k) => {
            assert(is_ident_start_byte(s[0]));
            assert(forall|j: int| 0 <= j < s.len()
                ==> in_class(CharClass::IdentChar, #[trigger] s[j]));
            lemma_run_end_full(s, 0, CharClass::IdentChar);
            assert(s.subrange(0, s.len() as int) =~= s);
            lemma_whole_input_token(s, k);
        },
        None => {},
    }
}

/// A single letter or underscore is not an identifier: the identifier
/// rule asks for at least two bytes, so the input falls through to a
/// one-byte `Error` token.
pub proof fn lemma_single_letter_not_identifier(s: Seq<u8>)
    requires
        s.len() == 1,
        is_ident_start_byte(s[0]),
    ensures
        visible_regions(s, 0) == seq![(TokenKind::Error, 0int, 1int)],
{
    assert(run_end(s, 0, CharClass::IdentChar) == run_end(s, 1, CharClass::IdentChar));
    assert(run_end(s, 1, CharClass::IdentChar) == 1);
    assert(s.subrange(0, 1).len() == 1);
    lemma_whole_input_token(s, TokenKind::Error);
}

/// An input of two or more identifier bytes, opened by a letter or
/// underscore and spelling no keyword, is exactly one `Identifier` token
/// spanning the whole input.
pub proof fn lemma_identifier_spans_input(s: Seq<u8>)
    requires
        s.len() >= 2,
        is_ident_start_byte(s[0]),
        forall|j: int| 0 <= j < s.len() ==> is_ident_byte(#[trigger] s[j]),
        keyword_of(s) is None,
    ensures
        visible_regions(s, 0) == seq![(TokenKind::Identifier, 0int, s.len() as int)],
{
    assert(forall|j: int| 0 <= j < s.len() ==> in_class(CharClass::IdentChar, #[trigger] s[j]));
    lemma_run_end_full(s, 0, CharClass::IdentChar);
    assert(s.subrange(0, s.len() as int) =~= s);
    lemma_whole_input_token(s, TokenKind::Identifier);
}

/// A double-quoted literal that closes exactly at the end of the input is
/// one `String` token spanning the whole input, escaped quotes and
/// backslashes included.
pub proof fn lemma_string_single_token(s: Seq<u8>)
    requires
        s.len() > 0,
        s[0] == B_DOUBLE_QUOTE,
        string_close(s, 1) == Some(s.len() as int),
    ensures
        visible_regions(s, 0) == seq![(TokenKind::String, 0int, s.len() as int)],
{
    lemma_whole_input_token(s, TokenKind::String);
}

/// A comment runs from its `#` to the end of the line and no further: it
/// holds no newline, it stops right before one when one follows, and it
/// never runs past the end of the input, a final line without a trailing
/// newline included.
pub proof fn lemma_comment_stops_at_line_end(s: Seq<u8>, i: int)
    requires
        0 <= i < s.len(),
        s[i] == B_HASH,
    ensures
        raw_token(s, i).0 is Comment,
        i < raw_token(s, i).1 <= s.len(),
        forall|j: int| i <= j < raw_token(s, i).1 ==> s[j] != B_NEWLINE,
        raw_token(s, i).1 < s.len() ==> s[raw_token(s, i).1] == B_NEWLINE,
{
    lemma_run_end_bounds(s, i + 1, CharClass::NotNewline);
    assert(forall|j: int| i + 1 <= j < raw_token(s, i).1
        ==> in_class(CharClass::NotNewline, #[trigger] s[j]));
}

} // verus!
