use macrotk::cursor::{Cursor, Lit, TokenClass};
use macrotk::pairs::Pair;
use macrotk::stream::{close_braces, finish_body, FromMeta, Meta, MetaStream, Name};
use macrotk::token::{Decoded, Delim, Diagnostic, Span, Token};

fn sp(i: usize) -> Span {
    Span::new(i, i + 1)
}

/// `name = literal` pairs with commas between them, spans numbered from 0.
fn pairs(items: &[(&str, &str)], trailing: bool) -> Vec<Token> {
    let mut out = Vec::new();
    for (i, (name, lit)) in items.iter().enumerate() {
        out.push(Token::ident(name, sp(out.len())));
        out.push(Token::punct('=', sp(out.len())));
        if *lit == "true" || *lit == "false" {
            out.push(Token::ident(lit, sp(out.len())));
        } else {
            out.push(Token::literal(lit, sp(out.len())));
        }
        if i + 1 < items.len() || trailing {
            out.push(Token::punct(',', sp(out.len())));
        }
    }
    out
}

struct Keyword {
    keyword: String,
}

impl FromMeta for Keyword {
    fn from_meta(stream: &mut MetaStream) -> Result<Self, Diagnostic> {
        let mut keyword: Option<String> = None;
        while let Some(name) = stream.next_name()? {
            match name.as_str() {
                "keyword" => keyword = stream.next_value::<String>()?,
                _ => return Err(Diagnostic::new(name.span(), "unexpected key")),
            }
        }
        match keyword {
            Some(keyword) => Ok(Keyword { keyword }),
            None => Err(Diagnostic::new(stream.cursor.end, "missing value for keyword")),
        }
    }
}

struct Outer {
    inner: Keyword,
}

impl FromMeta for Outer {
    fn from_meta(stream: &mut MetaStream) -> Result<Self, Diagnostic> {
        let mut inner: Option<Keyword> = None;
        while let Some(name) = stream.next_name()? {
            match name.as_str() {
                "inner" => inner = stream.next_value::<Keyword>()?,
                _ => return Err(Diagnostic::new(name.span(), "unexpected key")),
            }
        }
        match inner {
            Some(inner) => Ok(Outer { inner }),
            None => Err(Diagnostic::new(stream.cursor.end, "missing value for inner")),
        }
    }
}

#[test]
fn required_string_field_is_assembled() {
    let tokens = pairs(&[("keyword", "\"hi\"")], false);
    match Meta::<Keyword>::parse(&tokens, sp(99)) {
        Ok(m) => assert_eq!(m.into_inner().keyword, "hi"),
        Err(e) => panic!("{}", e.message),
    }
}

#[test]
fn meta_derefs_to_the_value() {
    let tokens = pairs(&[("keyword", "\"hi\"")], true);
    match Meta::<Keyword>::parse(&tokens, sp(99)) {
        Ok(m) => assert_eq!(m.keyword, "hi"),
        Err(e) => panic!("{}", e.message),
    }
}

#[test]
fn nested_record_in_braces_is_assembled() {
    let tokens = vec![
        Token::ident("inner", sp(0)),
        Token::punct('=', sp(1)),
        Token::open(Delim::Brace, sp(2)),
        Token::ident("keyword", sp(3)),
        Token::punct('=', sp(4)),
        Token::literal("\"x\"", sp(5)),
        Token::close(Delim::Brace, sp(6)),
    ];
    match Meta::<Outer>::parse(&tokens, sp(99)) {
        Ok(m) => assert_eq!(m.into_inner().inner.keyword, "x"),
        Err(e) => panic!("{}", e.message),
    }
}

#[test]
fn nested_record_needs_its_closing_brace() {
    let tokens = vec![
        Token::ident("inner", sp(0)),
        Token::punct('=', sp(1)),
        Token::open(Delim::Brace, sp(2)),
        Token::ident("keyword", sp(3)),
        Token::punct('=', sp(4)),
        Token::literal("\"x\"", sp(5)),
    ];
    match Meta::<Outer>::parse(&tokens, sp(99)) {
        Ok(_) => panic!("accepted"),
        Err(e) => assert_eq!(e, Diagnostic::new(sp(99), "expected `}`")),
    }
}

#[test]
fn nested_record_needs_its_opening_brace() {
    let tokens = pairs(&[("inner", "1")], false);
    match Meta::<Outer>::parse(&tokens, sp(99)) {
        Ok(_) => panic!("accepted"),
        Err(e) => assert_eq!(e, Diagnostic::new(sp(2), "expected `{`")),
    }
}

#[test]
fn token_left_over_is_an_error() {
    let mut tokens = pairs(&[("keyword", "\"hi\"")], false);
    tokens.push(Token::close(Delim::Paren, sp(3)));
    match Meta::<Keyword>::parse(&tokens, sp(99)) {
        Ok(_) => panic!("accepted"),
        Err(e) => assert_eq!(e, Diagnostic::new(sp(3), "unexpected token")),
    }
}

#[test]
fn next_name_on_exhausted_cursor_reports_the_end() {
    let tokens: Vec<Token> = Vec::new();
    let mut stream = MetaStream::new(Cursor::new(&tokens, sp(9)));
    assert!(stream.is_empty());
    assert_eq!(stream.next_name(), Ok(None));
    assert_eq!(stream.next_name(), Ok(None));
    assert_eq!(stream.next_value::<String>(), Ok(None));
    assert_eq!(stream.cursor.pos, 0);
}

#[test]
fn next_name_at_a_closing_bracket_reports_the_end() {
    let tokens = vec![Token::close(Delim::Brace, sp(0))];
    let mut stream = MetaStream::new(Cursor::new(&tokens, sp(9)));
    assert_eq!(stream.next_name(), Ok(None));
    assert_eq!(stream.cursor.pos, 0);
}

#[test]
fn names_and_values_alternate() {
    let tokens = pairs(&[("a", "\"x\""), ("b", "true"), ("c", "42")], false);
    let mut stream = MetaStream::new(Cursor::new(&tokens, sp(99)));
    assert_eq!(stream.next_name(), Ok(Some(Name::from_text("a", sp(0)))));
    assert_eq!(stream.next_value::<String>(), Ok(Some(String::from("x"))));
    let b = stream.next_name().unwrap().unwrap();
    assert!(b.is("b"));
    assert!(!b.is("a"));
    assert_eq!(b.span(), sp(4));
    assert_eq!(stream.next_value::<bool>(), Ok(Some(true)));
    let c = stream.next_name().unwrap().unwrap();
    assert_eq!(c.as_str(), "c");
    assert_eq!(&*c, "c");
    assert_eq!(c.len(), 1);
    assert_eq!(stream.next_value::<i64>(), Ok(Some(42)));
    assert_eq!(stream.next_name(), Ok(None));
}

#[test]
fn name_of_a_path_is_its_last_identifier() {
    let tokens = vec![
        Token::ident("a", sp(0)),
        Token::path_sep(sp(1)),
        Token::ident("b", sp(2)),
        Token::punct('=', sp(3)),
        Token::literal("1", sp(4)),
    ];
    let mut stream = MetaStream::new(Cursor::new(&tokens, sp(99)));
    assert_eq!(stream.next_name(), Ok(Some(Name::from_text("b", Span::new(0, 3)))));
    assert_eq!(stream.next_value::<i64>(), Ok(Some(1)));
}

#[test]
fn name_can_be_read_as_a_value() {
    let tokens = vec![
        Token::ident("kind", sp(0)),
        Token::punct('=', sp(1)),
        Token::ident("fast", sp(2)),
    ];
    let mut stream = MetaStream::new(Cursor::new(&tokens, sp(99)));
    assert!(stream.next_name().unwrap().is_some());
    assert_eq!(stream.next_value::<Name>(), Ok(Some(Name::from_text("fast", sp(2)))));
}

#[test]
fn missing_equals_is_an_error_at_the_token_found() {
    let tokens = vec![Token::ident("a", sp(0)), Token::literal("1", sp(1))];
    let mut stream = MetaStream::new(Cursor::new(&tokens, sp(99)));
    assert_eq!(stream.next_name(), Err(Diagnostic::new(sp(1), "expected `=`")));
    let bare = vec![Token::ident("a", sp(0))];
    let mut stream = MetaStream::new(Cursor::new(&bare, sp(99)));
    assert_eq!(stream.next_name(), Err(Diagnostic::new(sp(99), "expected `=`")));
}

#[test]
fn name_must_be_a_path() {
    let tokens = vec![Token::literal("1", sp(0))];
    let mut stream = MetaStream::new(Cursor::new(&tokens, sp(99)));
    assert_eq!(stream.next_name(), Err(Diagnostic::new(sp(0), "expected identifier")));
}

#[test]
fn trailing_comma_is_accepted() {
    let with = pairs(&[("a", "1"), ("b", "2")], true);
    let without = pairs(&[("a", "1"), ("b", "2")], false);
    let r1 = MetaStream::new(Cursor::new(&with, sp(99))).pairs().unwrap();
    let r2 = MetaStream::new(Cursor::new(&without, sp(99))).pairs().unwrap();
    assert_eq!(r1, r2);
    assert_eq!(r1.len(), 2);
}

#[test]
fn missing_comma_is_rejected_at_the_second_name() {
    let tokens = vec![
        Token::ident("a", sp(0)),
        Token::punct('=', sp(1)),
        Token::literal("1", sp(2)),
        Token::ident("b", sp(3)),
        Token::punct('=', sp(4)),
        Token::literal("2", sp(5)),
    ];
    let mut stream = MetaStream::new(Cursor::new(&tokens, sp(99)));
    assert_eq!(stream.pairs(), Err(Diagnostic::new(sp(3), "expected `,`")));
    let mut stream = MetaStream::new(Cursor::new(&tokens, sp(99)));
    assert!(stream.next_name().unwrap().is_some());
    assert_eq!(stream.next_value::<i64>(), Err(Diagnostic::new(sp(3), "expected `,`")));
}

#[test]
fn pairs_come_back_as_written() {
    let tokens = pairs(&[("s", "\"hi\""), ("flag", "false"), ("n", "7")], false);
    let got = MetaStream::new(Cursor::new(&tokens, sp(99))).pairs().unwrap();
    let want = vec![
        Pair {
            name: Name::from_text("s", sp(0)),
            value: Lit::new("\"hi\"", sp(2)),
        },
        Pair {
            name: Name::from_text("flag", sp(4)),
            value: Lit { text: String::from("false"), span: sp(6), decoded: Decoded::nothing() },
        },
        Pair {
            name: Name::from_text("n", sp(8)),
            value: Lit::new("7", sp(10)),
        },
    ];
    assert_eq!(got, want);
    assert_eq!(got[0].value.to_text(), Ok(String::from("hi")));
    assert_eq!(got[1].value.to_bool(), Ok(false));
    assert_eq!(got[2].value.to_i64(), Ok(7));
}

#[test]
fn pair_without_a_literal_is_rejected() {
    let tokens = vec![
        Token::ident("a", sp(0)),
        Token::punct('=', sp(1)),
        Token::ident("b", sp(2)),
    ];
    let mut stream = MetaStream::new(Cursor::new(&tokens, sp(99)));
    assert_eq!(stream.pairs(), Err(Diagnostic::new(sp(2), "expected literal")));
}

#[test]
fn settle_value_hands_an_error_on() {
    let tokens = pairs(&[("a", "1")], false);
    let mut stream = MetaStream::new(Cursor::new(&tokens, sp(99)));
    let e = Diagnostic::new(sp(5), "bad");
    assert_eq!(stream.settle_value::<i64>(Err(e)), Err(Diagnostic::new(sp(5), "bad")));
    assert_eq!(stream.cursor.pos, 0);
}

#[test]
fn cursor_looks_ahead_without_consuming() {
    let tokens = vec![
        Token::ident("a", sp(0)),
        Token::punct('=', sp(1)),
        Token::ident("true", sp(2)),
        Token::punct(',', sp(3)),
        Token::open(Delim::Paren, sp(4)),
        Token::close(Delim::Paren, sp(5)),
    ];
    let mut cur = Cursor::new(&tokens, sp(99));
    assert!(cur.peek_is(TokenClass::PathStart));
    assert!(!cur.peek_is(TokenClass::Literal));
    assert_eq!(cur.pos, 0);
    assert_eq!(cur.span(), sp(0));
    assert_eq!(cur.advance_path().unwrap().segments, vec![String::from("a")]);
    assert!(cur.peek_is(TokenClass::Equals));
    assert_eq!(cur.advance_token(TokenClass::Comma), Err(Diagnostic::new(sp(1), "expected `,`")));
    assert_eq!(cur.advance_token(TokenClass::Equals), Ok(sp(1)));
    assert!(cur.peek_is(TokenClass::Literal));
    assert!(!cur.peek_is(TokenClass::PathStart));
    let truth = Lit { text: String::from("true"), span: sp(2), decoded: Decoded::nothing() };
    assert_eq!(cur.advance_literal(), Ok(truth));
    assert!(cur.peek_is(TokenClass::Comma));
    assert_eq!(cur.advance_token(TokenClass::Comma), Ok(sp(3)));
    assert!(cur.peek_is(TokenClass::Open(Delim::Paren)));
    assert!(!cur.peek_is(TokenClass::Open(Delim::Brace)));
    assert!(!cur.is_empty());
    assert_eq!(cur.advance_token(TokenClass::Open(Delim::Paren)), Ok(sp(4)));
    assert!(cur.is_empty());
    assert!(!cur.is_exhausted());
    assert_eq!(cur.advance_literal(), Err(Diagnostic::new(sp(5), "expected literal")));
    assert_eq!(cur.advance_token(TokenClass::Close(Delim::Paren)), Ok(sp(5)));
    assert!(cur.is_exhausted());
    assert_eq!(cur.span(), sp(99));
    assert_eq!(cur.expected(TokenClass::Close(Delim::Bracket)), Diagnostic::new(sp(99), "expected `]`"));
}

#[test]
fn path_must_go_on_behind_a_separator() {
    let tokens = vec![Token::ident("a", sp(0)), Token::path_sep(sp(1)), Token::literal("1", sp(2))];
    let mut cur = Cursor::new(&tokens, sp(99));
    assert_eq!(cur.advance_path(), Err(Diagnostic::new(sp(2), "expected identifier")));
    assert_eq!(cur.pos, 0);
}

#[test]
fn closing_and_ending_take_the_outcome_as_it_is() {
    let tokens = vec![Token::close(Delim::Brace, sp(0)), Token::punct(',', sp(1))];
    let mut cur = Cursor::new(&tokens, sp(99));
    assert_eq!(close_braces(&mut cur, Ok(7)), Ok(7));
    assert_eq!(cur.pos, 1);
    assert_eq!(close_braces(&mut cur, Ok(7)), Err(Diagnostic::new(sp(1), "expected `}`")));
    assert_eq!(cur.pos, 1);
    let bad: Result<i64, Diagnostic> = Err(Diagnostic::new(sp(5), "bad"));
    assert_eq!(close_braces(&mut cur, bad), Err(Diagnostic::new(sp(5), "bad")));
    match finish_body(&cur, Ok(7)) {
        Ok(_) => panic!("accepted"),
        Err(e) => assert_eq!(e, Diagnostic::new(sp(1), "unexpected token")),
    }
    cur.pos = 2;
    match finish_body(&cur, Ok(7)) {
        Ok(m) => assert_eq!(m.into_inner(), 7),
        Err(e) => panic!("{}", e.message),
    }
    let bad: Result<i64, Diagnostic> = Err(Diagnostic::new(sp(5), "bad"));
    match finish_body(&cur, bad) {
        Ok(_) => panic!("accepted"),
        Err(e) => assert_eq!(e, Diagnostic::new(sp(5), "bad")),
    }
}
