use lexer::Scanner;
use lexer::Token;
use lexer::TokenKind;
use lexer::tokenize;
use lexer::tokenize_raw;

fn tokens_of(src: &str) -> Vec<Token> {
    tokenize(&src.as_bytes().to_vec())
}

fn kinds_of(src: &str) -> Vec<TokenKind> {
    tokens_of(src).iter().map(|t| t.kind).collect()
}

#[test]
fn empty_input_yields_nothing() {
    let buf: Vec<u8> = Vec::new();
    let mut sc = Scanner::new(&buf);
    assert_eq!(sc.next(), None);
    assert!(tokenize(&buf).is_empty());
    assert!(tokenize_raw(&buf).is_empty());
}

#[test]
fn digits_scan_as_one_integer() {
    let ts = tokens_of("123");
    assert_eq!(ts, vec![Token { kind: TokenKind::Integer, start: 0, end: 3 }]);
    let ts = tokens_of("0");
    assert_eq!(ts, vec![Token { kind: TokenKind::Integer, start: 0, end: 1 }]);
    let ts = tokens_of("00987654321");
    assert_eq!(ts, vec![Token { kind: TokenKind::Integer, start: 0, end: 11 }]);
}

#[test]
fn hex_uppercase_scans_as_one_token() {
    let ts = tokens_of("0x1AF");
    assert_eq!(ts, vec![Token { kind: TokenKind::HexInteger, start: 0, end: 5 }]);
    let ts = tokens_of("0XBEEF");
    assert_eq!(ts, vec![Token { kind: TokenKind::HexInteger, start: 0, end: 6 }]);
}

#[test]
fn hex_lowercase_digits_not_absorbed() {
    // A lower-case hex digit right after the prefix: no hex token at all.
    let ts = tokens_of("0xffAA");
    assert_eq!(ts[0], Token { kind: TokenKind::Integer, start: 0, end: 1 });
    assert_eq!(kinds_of("0xffAA"), vec![TokenKind::Integer, TokenKind::Identifier]);
    // A lower-case hex digit later on ends the token early.
    let ts = tokens_of("0X1f");
    assert_eq!(ts[0], Token { kind: TokenKind::HexInteger, start: 0, end: 3 });
    assert_eq!(kinds_of("0X1f"), vec![TokenKind::HexInteger, TokenKind::Error]);
}

#[test]
fn hex_prefix_alone_is_not_hex() {
    assert_eq!(kinds_of("0x"), vec![TokenKind::Integer, TokenKind::Error]);
}

#[test]
fn bin_scans_as_one_token() {
    let ts = tokens_of("0b0010");
    assert_eq!(ts, vec![Token { kind: TokenKind::BinInteger, start: 0, end: 6 }]);
    let ts = tokens_of("0B101");
    assert_eq!(ts, vec![Token { kind: TokenKind::BinInteger, start: 0, end: 5 }]);
}

#[test]
fn bin_invalid_digit_splits() {
    assert_eq!(kinds_of("0b2"), vec![TokenKind::Integer, TokenKind::Identifier]);
}

#[test]
fn keywords_yield_dedicated_tokens() {
    let cases = [
        ("if", TokenKind::If),
        ("for", TokenKind::For),
        ("def", TokenKind::Def),
        ("fun", TokenKind::Fun),
        ("int", TokenKind::IntType),
        ("str", TokenKind::StrType),
        ("bool", TokenKind::BoolType),
    ];
    for (src, kind) in cases {
        let ts = tokens_of(src);
        assert_eq!(ts, vec![Token { kind, start: 0, end: src.len() }]);
        assert_ne!(ts[0].kind, TokenKind::Identifier);
    }
}

#[test]
fn keyword_prefix_of_longer_word_is_identifier() {
    assert_eq!(kinds_of("iffy"), vec![TokenKind::Identifier]);
    assert_eq!(kinds_of("form"), vec![TokenKind::Identifier]);
    assert_eq!(kinds_of("ints"), vec![TokenKind::Identifier]);
}

#[test]
fn single_letter_is_not_identifier() {
    assert_eq!(
        tokens_of("a"),
        vec![Token { kind: TokenKind::Error, start: 0, end: 1 }],
    );
    assert_eq!(kinds_of("_"), vec![TokenKind::Error]);
}

#[test]
fn two_bytes_make_an_identifier() {
    assert_eq!(
        tokens_of("ab"),
        vec![Token { kind: TokenKind::Identifier, start: 0, end: 2 }],
    );
    assert_eq!(
        tokens_of("foo1bar2"),
        vec![Token { kind: TokenKind::Identifier, start: 0, end: 8 }],
    );
    assert_eq!(
        tokens_of("foo_bar_baz"),
        vec![Token { kind: TokenKind::Identifier, start: 0, end: 11 }],
    );
}

#[test]
fn raw_spans_reconstruct_the_input() {
    let src = "def foo2(a1, b2) => int:\n\tx1 := 0xFF # set up\n\"s\" '#' \\\n@";
    let buf: Vec<u8> = src.as_bytes().to_vec();
    let raw = tokenize_raw(&buf);
    assert!(!raw.is_empty());
    assert_eq!(raw[0].start, 0);
    assert_eq!(raw[raw.len() - 1].end, buf.len());
    for w in raw.windows(2) {
        assert_eq!(w[0].end, w[1].start);
    }
    let mut rebuilt: Vec<u8> = Vec::new();
    for t in &raw {
        assert!(t.start < t.end && t.end <= buf.len());
        rebuilt.extend_from_slice(&buf[t.start..t.end]);
    }
    assert_eq!(rebuilt, buf);
}

#[test]
fn comment_without_newline_stops_at_end() {
    let src = "# trailing comment";
    let buf: Vec<u8> = src.as_bytes().to_vec();
    let mut sc = Scanner::new(&buf);
    assert_eq!(sc.next(), None);
    assert!(tokenize(&buf).is_empty());
    let raw = tokenize_raw(&buf);
    assert_eq!(raw, vec![Token { kind: TokenKind::Comment, start: 0, end: buf.len() }]);
}

#[test]
fn comment_stops_right_before_newline() {
    let ts = tokens_of("ab # note\ncd");
    assert_eq!(
        ts,
        vec![
            Token { kind: TokenKind::Identifier, start: 0, end: 2 },
            Token { kind: TokenKind::NewLine, start: 9, end: 10 },
            Token { kind: TokenKind::Identifier, start: 10, end: 12 },
        ],
    );
}

#[test]
fn continuation_joins_lines_without_newline_token() {
    let ts = tokens_of("ab \\\ncd");
    assert_eq!(
        ts,
        vec![
            Token { kind: TokenKind::Identifier, start: 0, end: 2 },
            Token { kind: TokenKind::Identifier, start: 5, end: 7 },
        ],
    );
}

#[test]
fn continuation_between_single_letters() {
    // Single letters fall to Error, but the backslash-newline still
    // disappears: nothing between the two spans, and no NewLine token.
    let ts = tokens_of("a \\\nb");
    assert_eq!(
        ts,
        vec![
            Token { kind: TokenKind::Error, start: 0, end: 1 },
            Token { kind: TokenKind::Error, start: 4, end: 5 },
        ],
    );
}

#[test]
fn backslash_without_newline_is_error() {
    assert_eq!(kinds_of("\\"), vec![TokenKind::Error]);
}

#[test]
fn string_with_escaped_quotes_is_one_token() {
    let src = "\"he said \\\"hi\\\"\"";
    let ts = tokens_of(src);
    assert_eq!(ts, vec![Token { kind: TokenKind::String, start: 0, end: src.len() }]);
}

#[test]
fn string_with_escaped_backslash_is_one_token() {
    let src = "\"a\\\\b\"";
    let ts = tokens_of(src);
    assert_eq!(ts, vec![Token { kind: TokenKind::String, start: 0, end: src.len() }]);
}

#[test]
fn unterminated_string_is_error() {
    assert_eq!(kinds_of("\"abc"), vec![TokenKind::Error, TokenKind::Identifier]);
}

#[test]
fn string_with_unknown_escape_is_error() {
    // Only \" and \\ are escapes; a backslash before anything else keeps
    // the opening quote from forming a string token.
    let ts = tokens_of("\"a\\nb\"");
    assert_eq!(ts[0], Token { kind: TokenKind::Error, start: 0, end: 1 });
}

#[test]
fn string_broken_by_newline_is_error() {
    let ts = tokens_of("\"ab\ncd\"");
    assert_eq!(
        ts.iter().map(|t| t.kind).collect::<Vec<_>>(),
        vec![
            TokenKind::Error,
            TokenKind::Identifier,
            TokenKind::NewLine,
            TokenKind::Identifier,
            TokenKind::Error,
        ],
    );
}

#[test]
fn char_literal_edge_cases() {
    assert_eq!(kinds_of("'a"), vec![TokenKind::Error, TokenKind::Error]);
    assert_eq!(kinds_of("''"), vec![TokenKind::Error, TokenKind::Error]);
    assert_eq!(
        tokens_of("'''"),
        vec![Token { kind: TokenKind::Char, start: 0, end: 3 }],
    );
}

#[test]
fn two_byte_operators() {
    assert_eq!(kinds_of(":="), vec![TokenKind::ColonEqual]);
    assert_eq!(kinds_of("::"), vec![TokenKind::ColonColon]);
    assert_eq!(kinds_of("=>"), vec![TokenKind::Arrow]);
    assert_eq!(kinds_of("=="), vec![TokenKind::EqualEqual]);
    assert_eq!(kinds_of("!="), vec![TokenKind::BangEqual]);
    assert_eq!(kinds_of("<="), vec![TokenKind::LesserEqual]);
    assert_eq!(kinds_of(">="), vec![TokenKind::GreaterEqual]);
    assert_eq!(kinds_of("==="), vec![TokenKind::EqualEqual, TokenKind::Equal]);
}

#[test]
fn one_byte_operators_and_punctuation() {
    assert_eq!(
        kinds_of("()[]{}+-*/.,=<>"),
        vec![
            TokenKind::LParen,
            TokenKind::RParen,
            TokenKind::LBrack,
            TokenKind::RBrack,
            TokenKind::LBrace,
            TokenKind::RBrace,
            TokenKind::Plus,
            TokenKind::Minus,
            TokenKind::Star,
            TokenKind::Slash,
            TokenKind::Dot,
            TokenKind::Comma,
            TokenKind::Equal,
            TokenKind::Less,
            TokenKind::Greater,
        ],
    );
}

#[test]
fn bare_colon_and_bang_are_errors() {
    assert_eq!(kinds_of(":"), vec![TokenKind::Error]);
    assert_eq!(kinds_of("!"), vec![TokenKind::Error]);
}

#[test]
fn whitespace_is_discarded() {
    let src = " \t\u{c}";
    let buf: Vec<u8> = src.as_bytes().to_vec();
    assert!(tokenize(&buf).is_empty());
    assert_eq!(
        tokenize_raw(&buf),
        vec![Token { kind: TokenKind::Whitespace, start: 0, end: 3 }],
    );
}

#[test]
fn newlines_are_yielded() {
    assert_eq!(kinds_of("\n\n"), vec![TokenKind::NewLine, TokenKind::NewLine]);
}

#[test]
fn unrecognized_bytes_recover_one_at_a_time() {
    assert_eq!(
        kinds_of("@ ; $"),
        vec![TokenKind::Error, TokenKind::Error, TokenKind::Error],
    );
    assert_eq!(kinds_of("\r"), vec![TokenKind::Error]);
}

#[test]
fn exhausted_scanner_stays_exhausted() {
    let buf: Vec<u8> = "ab".as_bytes().to_vec();
    let mut sc = Scanner::new(&buf);
    assert_eq!(sc.next().map(|t| t.kind), Some(TokenKind::Identifier));
    assert_eq!(sc.next(), None);
    assert_eq!(sc.next(), None);
}

#[test]
fn mixed_statement_kinds() {
    assert_eq!(
        kinds_of("if x1 >= 10 { y2 := 0b01 } # done\n"),
        vec![
            TokenKind::If,
            TokenKind::Identifier,
            TokenKind::GreaterEqual,
            TokenKind::Integer,
            TokenKind::LBrace,
            TokenKind::Identifier,
            TokenKind::ColonEqual,
            TokenKind::BinInteger,
            TokenKind::RBrace,
            TokenKind::NewLine,
        ],
    );
}
