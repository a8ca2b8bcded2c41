//! The executable scanner, proved to follow the lexical rules exactly.

use vstd::prelude::*;

use crate::rules::CharClass;
use crate::rules::B_0;
use crate::rules::B_1;
use crate::rules::B_9;
use crate::rules::B_BACKSLASH;
use crate::rules::B_BANG;
use crate::rules::B_COLON;
use crate::rules::B_COMMA;
use crate::rules::B_DOT;
use crate::rules::B_DOUBLE_QUOTE;
use crate::rules::B_EQUALS;
use crate::rules::B_FORM_FEED;
use crate::rules::B_GREATER;
use crate::rules::B_HASH;
use crate::rules::B_LBRACE;
use crate::rules::B_LBRACK;
use crate::rules::B_LESS;
use crate::rules::B_LOWER_A;
use crate::rules::B_LOWER_B;
use crate::rules::B_LOWER_D;
use crate::rules::B_LOWER_E;
use crate::rules::B_LOWER_F;
use crate::rules::B_LOWER_I;
use crate::rules::B_LOWER_L;
use crate::rules::B_LOWER_N;
use crate::rules::B_LOWER_O;
use crate::rules::B_LOWER_R;
use crate::rules::B_LOWER_S;
use crate::rules::B_LOWER_T;
use crate::rules::B_LOWER_U;
use crate::rules::B_LOWER_X;
use crate::rules::B_LOWER_Z;
use crate::rules::B_LPAREN;
use crate::rules::B_MINUS;
use crate::rules::B_NEWLINE;
use crate::rules::B_PLUS;
use crate::rules::B_RBRACE;
use crate::rules::B_RBRACK;
use crate::rules::B_RPAREN;
use crate::rules::B_SINGLE_QUOTE;
use crate::rules::B_SLASH;
use crate::rules::B_SPACE;
use crate::rules::B_STAR;
use crate::rules::B_TAB;
use crate::rules::B_UNDERSCORE;
use crate::rules::B_UPPER_A;
use crate::rules::B_UPPER_B;
use crate::rules::B_UPPER_F;
use crate::rules::B_UPPER_X;
use crate::rules::B_UPPER_Z;
use crate::rules::in_class;
use crate::rules::is_discarded;
use crate::rules::keyword_of;
use crate::rules::lemma_raw_regions_empty;
use crate::rules::lemma_raw_regions_step;
use crate::rules::lemma_raw_token_bounds;
use crate::rules::lemma_visible_regions_empty;
use crate::rules::lemma_visible_regions_step;
use crate::rules::raw_regions;
use crate::rules::raw_token;
use crate::rules::run_end;
use crate::rules::string_close;
use crate::rules::visible_regions;
use crate::token::Token;
use crate::token::TokenKind;

verus! {

/// The categories and spans of a token sequence, for stating how a
/// produced `Vec<Token>` relates to the spans the rules describe.
pub open spec fn regions_of(v: Seq<Token>) -> Seq<(TokenKind, int, int)> {
    Seq::new(v.len(), |k: int| (v[k].kind, v[k].start as int, v[k].end as int))
}

/// Appending a token appends its category and span.
proof fn lemma_regions_of_push(v: Seq<Token>, t: Token)
    ensures
        regions_of(v.push(t)) == regions_of(v) + seq![(t.kind, t.start as int, t.end as int)],
{
    assert(regions_of(v.push(t)) =~= regions_of(v) + seq![
        (t.kind, t.start as int, t.end as int),
    ]);
}

/// Whether byte `c` belongs to class `cl`.
fn class_matches(cl: CharClass, c: u8) -> (b: bool)
    ensures
        b == in_class(cl, c),
{
    match cl {
        CharClass::Space => c == B_SPACE || c == B_TAB || c == B_FORM_FEED,
        CharClass::Digit => B_0 <= c && c <= B_9,
        CharClass::BinDigit => c == B_0 || c == B_1,
        CharClass::HexDigit => (B_0 <= c && c <= B_9) || (B_UPPER_A <= c && c <= B_UPPER_F),
        CharClass::IdentChar => (B_LOWER_A <= c && c <= B_LOWER_Z) || (B_UPPER_A <= c && c <= B_UPPER_Z)
            || c == B_UNDERSCORE || (B_0 <= c && c <= B_9),
        CharClass::NotNewline => c != B_NEWLINE,
    }
}

/// The end of the maximal run of class-`cl` bytes starting at `from`.
fn scan_while(input: &Vec<u8>, from: usize, cl: CharClass) -> (e: usize)
    requires
        from <= input.len(),
    ensures
        e as int == run_end(input@, from as int, cl),
        from <= e <= input.len(),
{
    let mut j: usize = from;
    while j < input.len()
        invariant
            from <= j <= input.len(),
            run_end(input@, from as int, cl) == run_end(input@, j as int, cl),
        ensures
            from <= j <= input.len(),
            run_end(input@, from as int, cl) == j as int,
        decreases input@.len() - j,
    {
        if !class_matches(cl, input[j]) {
            assert(run_end(input@, j as int, cl) == j as int);
            break;
        }
        assert(run_end(input@, j as int, cl) == run_end(input@, j as int + 1, cl));
        j = j + 1;
    }
    j
}

/// Scans the inside of a string literal from `from`, just past the
/// opening quote, and returns the position one past the closing quote if
/// the literal closes.
fn scan_string_end(input: &Vec<u8>, from: usize) -> (r: Option<usize>)
    requires
        from <= input.len(),
    ensures
        match r {
            Some(e) => string_close(input@, from as int) == Some(e as int) && e <= input.len(),
            None => string_close(input@, from as int) is None,
        },
{
    let mut j: usize = from;
    while j < input.len()
        invariant
            from <= j <= input.len(),
            string_close(input@, from as int) == string_close(input@, j as int),
        decreases input@.len() - j,
    {
        let c = input[j];
        if c == B_DOUBLE_QUOTE {
            return Some(j + 1);
        }
        if c == B_NEWLINE {
            return None;
        }
        if c == B_BACKSLASH {
            if j + 1 < input.len() && (input[j + 1] == B_DOUBLE_QUOTE || input[j + 1] == B_BACKSLASH) {
                j = j + 2;
            } else {
                return None;
            }
        } else {
            j = j + 1;
        }
    }
    None
}

/// The keyword spelled by `input[start..end]`, if any.
fn keyword_lookup(input: &Vec<u8>, start: usize, end: usize) -> (r: Option<TokenKind>)
    requires
        start <= end <= input.len(),
    ensures
        r == keyword_of(input@.subrange(start as int, end as int)),
{
    let n = end - start;
    if n == 2 {
        if input[start] == B_LOWER_I && input[start + 1] == B_LOWER_F {
            Some(TokenKind::If)
        } else {
            None
        }
    } else if n == 3 {
        let c0 = input[start];
        let c1 = input[start + 1];
        let c2 = input[start + 2];
        if c0 == B_LOWER_F && c1 == B_LOWER_O && c2 == B_LOWER_R {
            Some(TokenKind::For)
        } else if c0 == B_LOWER_D && c1 == B_LOWER_E && c2 == B_LOWER_F {
            Some(TokenKind::Def)
        } else if c0 == B_LOWER_F && c1 == B_LOWER_U && c2 == B_LOWER_N {
            Some(TokenKind::Fun)
        } else if c0 == B_LOWER_I && c1 == B_LOWER_N && c2 == B_LOWER_T {
            Some(TokenKind::IntType)
        } else if c0 == B_LOWER_S && c1 == B_LOWER_T && c2 == B_LOWER_R {
            Some(TokenKind::StrType)
        } else {
            None
        }
    } else if n == 4 {
        if input[start] == B_LOWER_B && input[start + 1] == B_LOWER_O && input[start + 2] == B_LOWER_O
            && input[start + 3] == B_LOWER_L {
            Some(TokenKind::BoolType)
        } else {
            None
        }
    } else {
        None
    }
}

/// Whether spans of category `k` are consumed without being yielded.
fn kind_discarded(k: TokenKind) -> (b: bool)
    ensures
        b == is_discarded(k),
{
    match k {
        TokenKind::Whitespace | TokenKind::Comment | TokenKind::Continuation => true,
        _ => false,
    }
}

/// Classifies the one maximal span starting at position `i`, returning
/// its category and its end, exactly as the rules describe.
fn raw_token_at(input: &Vec<u8>, i: usize) -> (r: (TokenKind, usize))
    requires
        i < input.len(),
    ensures
        r.0 == raw_token(input@, i as int).0,
        r.1 as int == raw_token(input@, i as int).1,
        i < r.1 <= input.len(),
{
    proof {
        lemma_raw_token_bounds(input@, i as int);
    }
    let c = input[i];
    if c == B_SPACE || c == B_TAB || c == B_FORM_FEED {
        let e = scan_while(input, i, CharClass::Space);
        (TokenKind::Whitespace, e)
    } else if c == B_NEWLINE {
        (TokenKind::NewLine, i + 1)
    } else if c == B_BACKSLASH {
        if i + 1 < input.len() && input[i + 1] == B_NEWLINE {
            (TokenKind::Continuation, i + 2)
        } else {
            (TokenKind::Error, i + 1)
        }
    } else if c == B_HASH {
        let e = scan_while(input, i + 1, CharClass::NotNewline);
        (TokenKind::Comment, e)
    } else if c == B_DOUBLE_QUOTE {
        match scan_string_end(input, i + 1) {
            Some(e) => (TokenKind::String, e),
            None => (TokenKind::Error, i + 1),
        }
    } else if c == B_SINGLE_QUOTE {
        if i + 1 < input.len() && i + 2 < input.len() && input[i + 1] != B_NEWLINE
            && input[i + 2] == B_SINGLE_QUOTE {
            (TokenKind::Char, i + 3)
        } else {
            (TokenKind::Error, i + 1)
        }
    } else if B_0 <= c && c <= B_9 {
        if c == B_0 && i + 1 < input.len() && i + 2 < input.len()
            && (input[i + 1] == B_LOWER_X || input[i + 1] == B_UPPER_X)
            && class_matches(CharClass::HexDigit, input[i + 2]) {
            let e = scan_while(input, i + 2, CharClass::HexDigit);
            (TokenKind::HexInteger, e)
        } else if c == B_0 && i + 1 < input.len() && i + 2 < input.len()
            && (input[i + 1] == B_LOWER_B || input[i + 1] == B_UPPER_B)
            && (input[i + 2] == B_0 || input[i + 2] == B_1) {
            let e = scan_while(input, i + 2, CharClass::BinDigit);
            (TokenKind::BinInteger, e)
        } else {
            let e = scan_while(input, i, CharClass::Digit);
            (TokenKind::Integer, e)
        }
    } else if (B_LOWER_A <= c && c <= B_LOWER_Z) || (B_UPPER_A <= c && c <= B_UPPER_Z) || c == B_UNDERSCORE {
        let e = scan_while(input, i, CharClass::IdentChar);
        match keyword_lookup(input, i, e) {
            Some(k) => (k, e),
            None => if e - i >= 2 {
                (TokenKind::Identifier, e)
            } else {
                (TokenKind::Error, i + 1)
            },
        }
    } else if c == B_EQUALS {
        if i + 1 < input.len() && input[i + 1] == B_EQUALS {
            (TokenKind::EqualEqual, i + 2)
        } else if i + 1 < input.len() && input[i + 1] == B_GREATER {
            (TokenKind::Arrow, i + 2)
        } else {
            (TokenKind::Equal, i + 1)
        }
    } else if c == B_BANG {
        if i + 1 < input.len() && input[i + 1] == B_EQUALS {
            (TokenKind::BangEqual, i + 2)
        } else {
            (TokenKind::Error, i + 1)
        }
    } else if c == B_LESS {
        if i + 1 < input.len() && input[i + 1] == B_EQUALS {
            (TokenKind::LesserEqual, i + 2)
        } else {
            (TokenKind::Less, i + 1)
        }
    } else if c == B_GREATER {
        if i + 1 < input.len() && input[i + 1] == B_EQUALS {
            (TokenKind::GreaterEqual, i + 2)
        } else {
            (TokenKind::Greater, i + 1)
        }
    } else if c == B_COLON {
        if i + 1 < input.len() && input[i + 1] == B_EQUALS {
            (TokenKind::ColonEqual, i + 2)
        } else if i + 1 < input.len() && input[i + 1] == B_COLON {
            (TokenKind::ColonColon, i + 2)
        } else {
            (TokenKind::Error, i + 1)
        }
    } else if c == B_LPAREN {
        (TokenKind::LParen, i + 1)
    } else if c == B_RPAREN {
        (TokenKind::RParen, i + 1)
    } else if c == B_LBRACK {
        (TokenKind::LBrack, i + 1)
    } else if c == B_RBRACK {
        (TokenKind::RBrack, i + 1)
    } else if c == B_LBRACE {
        (TokenKind::LBrace, i + 1)
    } else if c == B_RBRACE {
        (TokenKind::RBrace, i + 1)
    } else if c == B_PLUS {
        (TokenKind::Plus, i + 1)
    } else if c == B_MINUS {
        (TokenKind::Minus, i + 1)
    } else if c == B_STAR {
        (TokenKind::Star, i + 1)
    } else if c == B_SLASH {
        (TokenKind::Slash, i + 1)
    } else if c == B_DOT {
        (TokenKind::Dot, i + 1)
    } else if c == B_COMMA {
        (TokenKind::Comma, i + 1)
    } else {
        (TokenKind::Error, i + 1)
    }
}

/// One forward pass over one input buffer.
///
/// The scanner owns a cursor into a borrowed byte buffer and hands out the
/// classified spans left to right, one per call to [`Scanner::next`].
pub struct Scanner<'a> {
    input: &'a Vec<u8>,
    cursor: usize,
}

impl<'a> Scanner<'a> {
    /// The bytes being scanned.
    pub closed spec fn src(self) -> Seq<u8> {
        self.input@
    }

    /// The cursor: every byte before it is classified, none after it is.
    pub closed spec fn pos(self) -> int {
        self.cursor as int
    }

    /// The cursor never leaves the buffer.
    pub closed spec fn wf(self) -> bool {
        self.cursor <= self.input.len()
    }

    /// Starts a scan of `input` at its first byte.
    pub fn new(input: &'a Vec<u8>) -> (sc: Scanner<'a>)
        ensures
            sc.wf(),
            sc.src() == input@,
            sc.pos() == 0,
    {
        Scanner { input, cursor: 0 }
    }

    /// Yields the next token, or `None` once only discarded spans remain.
    ///
    /// The result is exactly the head of [`visible_regions`] at the
    /// current cursor: `Some` precisely when a visible span remains, and
    /// the cursor moves just past the yielded span, or to the end of the
    /// input when none is left.
    pub fn next(&mut self) -> (r: Option<Token>)
        requires
            old(self).wf(),
        ensures
            final(self).wf(),
            final(self).src() == old(self).src(),
            old(self).pos() <= final(self).pos() <= old(self).src().len(),
            ({
                let vis = visible_regions(old(self).src(), old(self).pos());
                match r {
                    Some(t) => {
                        &&& vis.len() > 0
                        &&& t.kind == vis[0].0
                        &&& t.start as int == vis[0].1
                        &&& t.end as int == vis[0].2
                        &&& old(self).pos() <= vis[0].1 < vis[0].2 <= old(self).src().len()
                        &&& !is_discarded(t.kind)
                        &&& final(self).pos() == vis[0].2
                        &&& visible_regions(final(self).src(), final(self).pos())
                            == vis.drop_first()
                    },
                    None => vis.len() == 0 && final(self).pos() == old(self).src().len(),
                }
            }),
    {
        while self.cursor < self.input.len()
            invariant
                self.wf(),
                self.input == old(self).input,
                old(self).cursor <= self.cursor,
                visible_regions(self.input@, self.cursor as int) == visible_regions(
                    old(self).input@,
                    old(self).cursor as int,
                ),
            decreases self.input@.len() - self.cursor,
        {
            let start = self.cursor;
            let (k, e) = raw_token_at(self.input, start);
            self.cursor = e;
            if !kind_discarded(k) {
                proof {
                    lemma_visible_regions_step(self.input@, start as int);
                    let vis = visible_regions(self.input@, start as int);
                    assert(vis[0] == (k, start as int, e as int));
                    assert(vis.drop_first() =~= visible_regions(self.input@, e as int));
                }
                return Some(Token { kind: k, start, end: e });
            }
            proof {
                lemma_visible_regions_step(self.input@, start as int);
            }
        }
        proof {
            lemma_visible_regions_empty(self.input@, self.cursor as int);
        }
        None
    }
}

/// Scans the whole input and collects every yielded token: exactly the
/// [`visible_regions`] of the buffer, in order.
pub fn tokenize(input: &Vec<u8>) -> (ts: Vec<Token>)
    ensures
        regions_of(ts@) == visible_regions(input@, 0),
{
    let mut ts: Vec<Token> = Vec::new();
    let mut sc = Scanner::new(input);
    proof {
        assert(regions_of(ts@) + visible_regions(input@, 0) =~= visible_regions(input@, 0));
    }
    loop
        invariant
            sc.wf(),
            sc.src() == input@,
            visible_regions(input@, 0) == regions_of(ts@) + visible_regions(input@, sc.pos()),
        ensures
            visible_regions(input@, 0) == regions_of(ts@) + visible_regions(input@, sc.pos()),
            visible_regions(input@, sc.pos()).len() == 0,
        decreases input@.len() - sc.pos(),
    {
        let ghost p = sc.pos();
        match sc.next() {
            Some(t) => {
                proof {
                    let vis = visible_regions(input@, p);
                    lemma_regions_of_push(ts@, t);
                    assert(vis =~= seq![vis[0]] + vis.drop_first());
                    assert(regions_of(ts@.push(t)) + visible_regions(input@, sc.pos())
                        =~= regions_of(ts@) + vis);
                }
                ts.push(t);
            },
            None => {
                break;
            },
        }
    }
    proof {
        assert(regions_of(ts@) =~= visible_regions(input@, 0));
    }
    ts
}

/// Scans the whole input and collects every classified span, the
/// discarded ones included: exactly the [`raw_regions`] of the buffer.
///
/// The spans tile the buffer: the first starts at offset zero, each
/// further one starts where its predecessor ends, and the last ends at
/// the buffer's end, so concatenating the spans' text reconstructs the
/// input byte for byte.
#[verifier::rlimit(50)]
pub fn tokenize_raw(input: &Vec<u8>) -> (ts: Vec<Token>)
    ensures
        regions_of(ts@) == raw_regions(input@, 0),
        (ts@.len() == 0) <==> (input@.len() == 0),
        ts@.len() > 0 ==> ts@[0].start == 0,
        ts@.len() > 0 ==> ts@[ts@.len() - 1].end == input@.len(),
        forall|k: int| 0 <= k < ts@.len()
            ==> (#[trigger] ts@[k]).start < ts@[k].end && ts@[k].end <= input@.len(),
        forall|k: int| 0 <= k < ts@.len() - 1 ==> (#[trigger] ts@[k]).end == ts@[k + 1].start,
{
    let mut ts: Vec<Token> = Vec::new();
    let mut cur: usize = 0;
    proof {
        assert(regions_of(ts@) + raw_regions(input@, 0) =~= raw_regions(input@, 0));
    }
    while cur < input.len()
        invariant
            cur <= input.len(),
            raw_regions(input@, 0) == regions_of(ts@) + raw_regions(input@, cur as int),
            (ts@.len() == 0) ==> cur == 0,
            ts@.len() > 0 ==> ts@[0].start == 0,
            ts@.len() > 0 ==> ts@[ts@.len() - 1].end == cur,
            forall|k: int| 0 <= k < ts@.len()
                ==> (#[trigger] ts@[k]).start < ts@[k].end && ts@[k].end <= input@.len(),
            forall|k: int| 0 <= k < ts@.len() - 1 ==> (#[trigger] ts@[k]).end == ts@[k + 1].start,
        decreases input@.len() - cur,
    {
        let (k, e) = raw_token_at(input, cur);
        let t = Token { kind: k, start: cur, end: e };
        proof {
            lemma_raw_regions_step(input@, cur as int);
            lemma_regions_of_push(ts@, t);
            assert(regions_of(ts@.push(t)) + raw_regions(input@, e as int)
                =~= regions_of(ts@) + raw_regions(input@, cur as int));
        }
        ts.push(t);
        cur = e;
    }
    proof {
        lemma_raw_regions_empty(input@, cur as int);
        assert(regions_of(ts@) =~= raw_regions(input@, 0));
    }
    ts
}

} // verus!
