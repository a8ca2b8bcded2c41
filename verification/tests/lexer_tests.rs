use lexer::Scanner;
use lexer::TokenKind;

#[test]
/// Test to make sure we can lex a simple decimal integer
fn dec_literal() {
    let buf: Vec<u8> = "123".as_bytes().to_vec();
    let mut sc = Scanner::new(&buf);
    let next = sc.next();

    assert_eq!(next.map(|t| t.kind), Some(TokenKind::Integer));
}

#[test]
/// Test to make sure we can lex a simple hexadecimal integer
fn hex_literal() {
    let buf: Vec<u8> = "0x123f".as_bytes().to_vec();
    let mut sc = Scanner::new(&buf);
    let next = sc.next();

    assert_eq!(next.map(|t| t.kind), Some(TokenKind::HexInteger));
}

#[test]
/// Test to make sure we can lex a simple binary integer
fn bin_literal() {
    let buf: Vec<u8> = "0b0010".as_bytes().to_vec();
    let mut sc = Scanner::new(&buf);
    let next = sc.next();

    assert_eq!(next.map(|t| t.kind), Some(TokenKind::BinInteger));
}

// String and character tests
#[test]
fn string_literal() {
    let buf: Vec<u8> = r#""hello world""#.as_bytes().to_vec();
    let mut sc = Scanner::new(&buf);
    let next = sc.next();

    assert_eq!(next.map(|t| t.kind), Some(TokenKind::String));
}

#[test]
fn char_literal() {
    let buf: Vec<u8> = "'A'".as_bytes().to_vec();
    let mut sc = Scanner::new(&buf);
    let next = sc.next();

    assert_eq!(next.map(|t| t.kind), Some(TokenKind::Char));
}

/// Test to make sure we can lex an identifier containing a number
/// e.g foo1bar2
#[test]
fn identifier_with_number() {
    let buf: Vec<u8> = "foo1bar2".as_bytes().to_vec();
    let mut sc = Scanner::new(&buf);
    let next = sc.next();

    assert_eq!(next.map(|t| t.kind), Some(TokenKind::Identifier));
}

/// Tets to make sure we can lex an identifier containing underscores
/// in its name
#[test]
fn identifier_with_underscores() {
    let buf: Vec<u8> = "foo_bar_baz".as_bytes().to_vec();
    let mut sc = Scanner::new(&buf);
    let next = sc.next();

    assert_eq!(next.map(|t| t.kind), Some(TokenKind::Identifier));
}
