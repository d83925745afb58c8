//! A read position in a sequence of tokens, with lookahead.

use vstd::prelude::*;
use vstd::string::*;
use crate::token::{
    Decoded, DecodedView, Delim, Diagnostic, DiagnosticView, Integer, Span, Token, TokenKind, diag,
};
use crate::literal::{negate, negated};

verus! {

/// The text of the two boolean literals.
pub open spec fn is_bool_text(s: Seq<char>) -> bool {
    s == "true"@ || s == "false"@
}

/// An identifier that can start a path: any but the boolean literals.
pub open spec fn is_path_start(t: Token) -> bool {
    t.kind matches TokenKind::Ident(s) && !is_bool_text(s@)
}

/// A literal token, or one of the identifiers `true` and `false`.
pub open spec fn is_literal(t: Token) -> bool {
    match t.kind {
        TokenKind::Literal(_, _) => true,
        TokenKind::Ident(s) => is_bool_text(s@),
        _ => false,
    }
}

/// The text of an identifier or of a literal.
pub open spec fn token_text(t: Token) -> Seq<char> {
    match t.kind {
        TokenKind::Literal(s, _) => s@,
        TokenKind::Ident(s) => s@,
        _ => Seq::empty(),
    }
}

/// No token is left in the scope that `pos` stands in: the input has run
/// out, or a closing bracket is next.
pub open spec fn at_end(tokens: Seq<Token>, pos: int) -> bool {
    pos >= tokens.len() || tokens[pos].kind is Close
}

/// The span of the token at `pos`, or `end` where the input has run out.
pub open spec fn span_at(tokens: Seq<Token>, pos: int, end: Span) -> Span {
    if 0 <= pos < tokens.len() {
        tokens[pos].span
    } else {
        end
    }
}

/// The token at `pos` has the kind `kind`.
pub open spec fn kind_at(tokens: Seq<Token>, pos: int, kind: TokenKind) -> bool {
    0 <= pos < tokens.len() && tokens[pos].kind == kind
}

/// The error that stands where a reader would not move on. No input
/// reaches it: whatever is read ends behind where it starts.
pub open spec fn stalled(span: Span) -> DiagnosticView {
    diag(span, "no progress"@)
}

/// A literal: its text as it was written, its span, and what the text
/// denotes.
#[derive(Debug, PartialEq, Eq)]
pub struct Lit {
    pub text: String,
    pub span: Span,
    pub decoded: Decoded,
}

pub struct LitView {
    pub text: Seq<char>,
    pub span: Span,
    pub string: Option<Seq<char>>,
    pub integer: Integer,
}

impl View for Lit {
    type V = LitView;

    open spec fn view(&self) -> LitView {
        LitView {
            text: self.text@,
            span: self.span,
            string: self.decoded@.string,
            integer: self.decoded@.integer,
        }
    }
}

impl Clone for Lit {
    fn clone(&self) -> (r: Lit)
        ensures
            r@ == self@,
    {
        Lit { text: self.text.clone(), span: self.span, decoded: self.decoded.clone() }
    }
}

/// What the token `t` denotes as a literal: what a literal token keeps;
/// an identifier denotes neither string nor number.
pub open spec fn decoded_of(t: Token) -> DecodedView {
    match t.kind {
        TokenKind::Literal(_, d) => d@,
        _ => DecodedView { string: None, integer: Integer::NotInteger },
    }
}

/// The literal that the token `t` is.
pub open spec fn lit_of(t: Token) -> LitView {
    LitView {
        text: token_text(t),
        span: t.span,
        string: decoded_of(t).string,
        integer: decoded_of(t).integer,
    }
}

/// The text starts like a number: with a digit.
pub open spec fn is_numeric_text(s: Seq<char>) -> bool {
    s.len() > 0 && 48 <= s[0] as u32 <= 57
}

/// A minus sign stands at `pos`, and a number behind it.
pub open spec fn negative_at(tokens: Seq<Token>, pos: int) -> bool {
    &&& kind_at(tokens, pos, TokenKind::Punct('-'))
    &&& pos + 1 < tokens.len()
    &&& tokens[pos + 1].kind matches TokenKind::Literal(s, _) && is_numeric_text(s@)
}

/// The literal that a minus sign and the number behind it make: the text
/// of both, with the span of both; no string, and the number negated.
pub open spec fn negative_lit(tokens: Seq<Token>, pos: int) -> LitView {
    LitView {
        text: "-"@ + token_text(tokens[pos + 1]),
        span: tokens[pos].span.spec_join(tokens[pos + 1].span),
        string: None,
        integer: negated(decoded_of(tokens[pos + 1]).integer),
    }
}

/// The literal that stands at `pos`, and the position behind it: one
/// literal token, or a minus sign and a number.
pub open spec fn lit_at(tokens: Seq<Token>, pos: int) -> Option<(LitView, int)> {
    if 0 <= pos < tokens.len() && is_literal(tokens[pos]) {
        Some((lit_of(tokens[pos]), pos + 1))
    } else if negative_at(tokens, pos) {
        Some((negative_lit(tokens, pos), pos + 2))
    } else {
        None
    }
}

/// A path: identifiers separated by `::`, with the span from its first token
/// to its last.
///
/// Every identifier but `true` and `false` can be a segment: this reader
/// knows no reserved words, so `type` or `fn` is a name like any other. A
/// path does not start with `::`, and its segments take no arguments.
#[derive(Debug, PartialEq, Eq)]
pub struct Path {
    pub segments: Vec<String>,
    pub span: Span,
}

pub struct PathView {
    pub segments: Seq<Seq<char>>,
    pub span: Span,
}

impl View for Path {
    type V = PathView;

    open spec fn view(&self) -> PathView {
        PathView { segments: self.segments@.map_values(|s: String| s@), span: self.span }
    }
}

impl Clone for Path {
    fn clone(&self) -> (r: Path)
        ensures
            r@ == self@,
    {
        let mut segments: Vec<String> = Vec::new();
        let mut i: usize = 0;
        while i < self.segments.len()
            invariant
                i <= self.segments.len(),
                segments@.len() == i,
                forall|j: int| 0 <= j < i ==> segments@[j]@ == self.segments@[j]@,
            decreases self.segments.len() - i,
        {
            segments.push(self.segments[i].clone());
            i += 1;
        }
        let r = Path { segments, span: self.span };
        assert(r@.segments =~= self@.segments);
        r
    }
}

impl PathView {
    /// The last identifier of the path.
    pub open spec fn last(self) -> Seq<char>
        recommends
            self.segments.len() > 0,
    {
        self.segments[self.segments.len() - 1]
    }
}

/// Reads on after the first segments of a path: as long as `::` follows, an
/// identifier must follow it and joins the path.
pub open spec fn path_rest(tokens: Seq<Token>, pos: int, end: Span, acc: PathView) -> Result<
    (PathView, int),
    DiagnosticView,
>
    decreases tokens.len() - pos,
{
    if 0 <= pos < tokens.len() && tokens[pos].kind == TokenKind::PathSep {
        if pos + 1 < tokens.len() && is_path_start(tokens[pos + 1]) {
            path_rest(
                tokens,
                pos + 2,
                end,
                PathView {
                    segments: acc.segments.push(token_text(tokens[pos + 1])),
                    span: acc.span.spec_join(tokens[pos + 1].span),
                },
            )
        } else {
            Err(diag(span_at(tokens, pos + 1, end), "expected identifier"@))
        }
    } else {
        Ok((acc, pos))
    }
}

/// The path that starts at `pos` and the position behind it, or the error
/// at the token that is no identifier.
pub open spec fn path_spec(tokens: Seq<Token>, pos: int, end: Span) -> Result<
    (PathView, int),
    DiagnosticView,
> {
    if 0 <= pos < tokens.len() && is_path_start(tokens[pos]) {
        path_rest(
            tokens,
            pos + 1,
            end,
            PathView { segments: seq![token_text(tokens[pos])], span: tokens[pos].span },
        )
    } else {
        Err(diag(span_at(tokens, pos, end), "expected identifier"@))
    }
}

/// A path ends behind where it starts, within the input, and has a segment.
pub proof fn lemma_path_rest_advances(tokens: Seq<Token>, pos: int, end: Span, acc: PathView)
    requires
        0 <= pos <= tokens.len(),
        acc.segments.len() > 0,
    ensures
        path_rest(tokens, pos, end, acc) matches Ok((p, next)) ==> pos <= next <= tokens.len()
            && p.segments.len() > 0,
    decreases tokens.len() - pos,
{
    if 0 <= pos < tokens.len() && tokens[pos].kind == TokenKind::PathSep {
        if pos + 1 < tokens.len() && is_path_start(tokens[pos + 1]) {
            lemma_path_rest_advances(
                tokens,
                pos + 2,
                end,
                PathView {
                    segments: acc.segments.push(token_text(tokens[pos + 1])),
                    span: acc.span.spec_join(tokens[pos + 1].span),
                },
            );
        }
    }
}

/// A path ends behind where it starts, within the input, and has a segment.
pub proof fn lemma_path_advances(tokens: Seq<Token>, pos: int, end: Span)
    ensures
        path_spec(tokens, pos, end) matches Ok((p, next)) ==> 0 <= pos < next <= tokens.len()
            && p.segments.len() > 0,
{
    if 0 <= pos < tokens.len() && is_path_start(tokens[pos]) {
        lemma_path_rest_advances(
            tokens,
            pos + 1,
            end,
            PathView { segments: seq![token_text(tokens[pos])], span: tokens[pos].span },
        );
    }
}

/// The classes of token that a cursor can look ahead for.
#[derive(Clone, Copy, Debug, PartialEq, Eq, Structural)]
pub enum TokenClass {
    PathStart,
    Literal,
    Equals,
    Comma,
    Open(Delim),
    Close(Delim),
}

/// The token `t` belongs to the class `class`.
pub open spec fn in_class(t: Token, class: TokenClass) -> bool {
    match class {
        TokenClass::PathStart => is_path_start(t),
        TokenClass::Literal => is_literal(t),
        TokenClass::Equals => t.kind == TokenKind::Punct('='),
        TokenClass::Comma => t.kind == TokenKind::Punct(','),
        TokenClass::Open(d) => t.kind == TokenKind::Open(d),
        TokenClass::Close(d) => t.kind == TokenKind::Close(d),
    }
}

/// What a diagnostic says where a token of the class `class` was expected.
pub open spec fn expected_message(class: TokenClass) -> Seq<char> {
    match class {
        TokenClass::PathStart => "expected identifier"@,
        TokenClass::Literal => "expected literal"@,
        TokenClass::Equals => "expected `=`"@,
        TokenClass::Comma => "expected `,`"@,
        TokenClass::Open(Delim::Paren) => "expected `(`"@,
        TokenClass::Open(Delim::Brace) => "expected `{`"@,
        TokenClass::Open(Delim::Bracket) => "expected `[`"@,
        TokenClass::Close(Delim::Paren) => "expected `)`"@,
        TokenClass::Close(Delim::Brace) => "expected `}`"@,
        TokenClass::Close(Delim::Bracket) => "expected `]`"@,
    }
}

/// `s` is `true` or `false`.
pub fn is_bool_word(s: &String) -> (r: bool)
    ensures
        r == is_bool_text(s@),
{
    let t = String::from_str("true");
    let f = String::from_str("false");
    *s == t || *s == f
}

/// `s` starts with a digit.
pub fn starts_with_digit(s: &String) -> (r: bool)
    ensures
        r == is_numeric_text(s@),
{
    let t = s.as_str();
    if t.unicode_len() == 0 {
        false
    } else {
        let c = t.get_char(0) as u32;
        48 <= c && c <= 57
    }
}

/// A position in a sequence of tokens. `end` is the span that a diagnostic
/// gets where the input has run out.
pub struct Cursor<'a> {
    pub tokens: &'a Vec<Token>,
    pub pos: usize,
    pub end: Span,
}

impl<'a> Cursor<'a> {
    /// The position lies within the input or just behind it.
    pub open spec fn wf(&self) -> bool {
        self.pos <= self.tokens@.len()
    }

    /// `other` reads the same input as `self`, maybe at another position.
    pub open spec fn same_input(&self, other: &Cursor<'a>) -> bool {
        self.tokens == other.tokens && self.end == other.end
    }

    pub fn new(tokens: &'a Vec<Token>, end: Span) -> (c: Cursor<'a>)
        ensures
            c.wf(),
            c.tokens == tokens,
            c.pos == 0,
            c.end == end,
    {
        Cursor { tokens, pos: 0, end }
    }

    /// No token is left in the current scope.
    pub fn is_empty(&self) -> (r: bool)
        requires
            self.wf(),
        ensures
            r == at_end(self.tokens@, self.pos as int),
    {
        if self.pos >= self.tokens.len() {
            true
        } else {
            match &self.tokens[self.pos].kind {
                TokenKind::Close(_) => true,
                _ => false,
            }
        }
    }

    /// The whole input has been read.
    pub fn is_exhausted(&self) -> (r: bool)
        requires
            self.wf(),
        ensures
            r == (self.pos == self.tokens@.len()),
    {
        self.pos >= self.tokens.len()
    }

    /// The span of the next token, or `end` where there is none.
    pub fn span(&self) -> (s: Span)
        requires
            self.wf(),
        ensures
            s == span_at(self.tokens@, self.pos as int, self.end),
    {
        if self.pos < self.tokens.len() {
            self.tokens[self.pos].span
        } else {
            self.end
        }
    }

    /// Looks at the next token without consuming it.
    pub fn peek_is(&self, class: TokenClass) -> (r: bool)
        requires
            self.wf(),
        ensures
            r == (self.pos < self.tokens@.len() && in_class(
                self.tokens@[self.pos as int],
                class,
            )),
    {
        if self.pos >= self.tokens.len() {
            return false;
        }
        let t = &self.tokens[self.pos];
        match class {
            TokenClass::PathStart => match &t.kind {
                TokenKind::Ident(s) => !is_bool_word(s),
                _ => false,
            },
            TokenClass::Literal => match &t.kind {
                TokenKind::Literal(_, _) => true,
                TokenKind::Ident(s) => is_bool_word(s),
                _ => false,
            },
            TokenClass::Equals => match &t.kind {
                TokenKind::Punct(c) => *c == '=',
                _ => false,
            },
            TokenClass::Comma => match &t.kind {
                TokenKind::Punct(c) => *c == ',',
                _ => false,
            },
            TokenClass::Open(d) => match &t.kind {
                TokenKind::Open(e) => *e == d,
                _ => false,
            },
            TokenClass::Close(d) => match &t.kind {
                TokenKind::Close(e) => *e == d,
                _ => false,
            },
        }
    }

    /// The diagnostic for a missing token of the class `class`, at the next
    /// token.
    pub fn expected(&self, class: TokenClass) -> (d: Diagnostic)
        requires
            self.wf(),
        ensures
            d@ == diag(span_at(self.tokens@, self.pos as int, self.end), expected_message(class)),
    {
        let span = self.span();
        match class {
            TokenClass::PathStart => Diagnostic::new(span, "expected identifier"),
            TokenClass::Literal => Diagnostic::new(span, "expected literal"),
            TokenClass::Equals => Diagnostic::new(span, "expected `=`"),
            TokenClass::Comma => Diagnostic::new(span, "expected `,`"),
            TokenClass::Open(Delim::Paren) => Diagnostic::new(span, "expected `(`"),
            TokenClass::Open(Delim::Brace) => Diagnostic::new(span, "expected `{`"),
            TokenClass::Open(Delim::Bracket) => Diagnostic::new(span, "expected `[`"),
            TokenClass::Close(Delim::Paren) => Diagnostic::new(span, "expected `)`"),
            TokenClass::Close(Delim::Brace) => Diagnostic::new(span, "expected `}`"),
            TokenClass::Close(Delim::Bracket) => Diagnostic::new(span, "expected `]`"),
        }
    }

    /// Consumes one token of the class `class` and returns its span, or
    /// fails at the token found, leaving it where it is.
    pub fn advance_token(&mut self, class: TokenClass) -> (r: Result<Span, Diagnostic>)
        requires
            old(self).wf(),
        ensures
            final(self).wf(),
            final(self).same_input(old(self)),
            match r {
                Ok(span) => old(self).pos < old(self).tokens@.len() && in_class(
                    old(self).tokens@[old(self).pos as int],
                    class,
                ) && span == old(self).tokens@[old(self).pos as int].span && final(self).pos
                    == old(self).pos + 1,
                Err(e) => !(old(self).pos < old(self).tokens@.len() && in_class(
                    old(self).tokens@[old(self).pos as int],
                    class,
                )) && final(self).pos == old(self).pos && e@ == diag(
                    span_at(old(self).tokens@, old(self).pos as int, old(self).end),
                    expected_message(class),
                ),
            },
    {
        let n = self.tokens.len();
        if self.peek_is(class) {
            let span = self.tokens[self.pos].span;
            self.pos = self.pos + 1;
            Ok(span)
        } else {
            Err(self.expected(class))
        }
    }

    /// Consumes one literal, or fails at the token found, leaving it where
    /// it is. A minus sign and the number behind it are one literal.
    pub fn advance_literal(&mut self) -> (r: Result<Lit, Diagnostic>)
        requires
            old(self).wf(),
        ensures
            final(self).wf(),
            final(self).same_input(old(self)),
            match lit_at(old(self).tokens@, old(self).pos as int) {
                Some((l, next)) => r matches Ok(lit) && lit@ == l && final(self).pos == next
                    && old(self).pos < next,
                None => r matches Err(e) && final(self).pos == old(self).pos && e@ == diag(
                    span_at(old(self).tokens@, old(self).pos as int, old(self).end),
                    "expected literal"@,
                ),
            },
    {
        let n = self.tokens.len();
        if self.peek_is(TokenClass::Literal) {
            let t = &self.tokens[self.pos];
            let lit = match &t.kind {
                TokenKind::Literal(s, d) => Lit { text: s.clone(), span: t.span, decoded: d.clone() },
                TokenKind::Ident(s) => Lit {
                    text: s.clone(),
                    span: t.span,
                    decoded: Decoded::nothing(),
                },
                _ => Lit { text: String::new(), span: t.span, decoded: Decoded::nothing() },
            };
            self.pos = self.pos + 1;
            return Ok(lit);
        }
        if self.pos < n && n - self.pos >= 2 {
            let minus = match &self.tokens[self.pos].kind {
                TokenKind::Punct(c) => *c == '-',
                _ => false,
            };
            if minus {
                match &self.tokens[self.pos + 1].kind {
                    TokenKind::Literal(s, d) => {
                        if starts_with_digit(s) {
                            let mut text = String::from_str("-");
                            text.append(s.as_str());
                            let span = self.tokens[self.pos].span.join(self.tokens[self.pos + 1].span);
                            let decoded = Decoded { string: None, integer: negate(d.integer) };
                            self.pos = self.pos + 2;
                            return Ok(Lit { text, span, decoded });
                        }
                    },
                    _ => {},
                }
            }
        }
        Err(self.expected(TokenClass::Literal))
    }

    /// Consumes one path, or fails at the token that should have been an
    /// identifier, leaving the cursor where it was.
    pub fn advance_path(&mut self) -> (r: Result<Path, Diagnostic>)
        requires
            old(self).wf(),
        ensures
            final(self).wf(),
            final(self).same_input(old(self)),
            match path_spec(old(self).tokens@, old(self).pos as int, old(self).end) {
                Ok((p, next)) => r matches Ok(path) && path@ == p && final(self).pos == next
                    && old(self).pos < next,
                Err(d) => r matches Err(e) && e@ == d && final(self).pos == old(self).pos,
            },
    {
        let ghost tokens = self.tokens@;
        let ghost start = self.pos as int;
        let n = self.tokens.len();
        if !self.peek_is(TokenClass::PathStart) {
            return Err(self.expected(TokenClass::PathStart));
        }
        let first = &self.tokens[self.pos];
        let mut segments: Vec<String> = Vec::new();
        match &first.kind {
            TokenKind::Ident(s) => {
                segments.push(s.clone());
            },
            _ => {},
        }
        let mut path = Path { segments, span: first.span };
        assert(path@.segments =~= seq![token_text(tokens[start])]);
        let mut pos: usize = self.pos + 1;
        proof {
            lemma_path_advances(tokens, start, self.end);
        }
        loop
            invariant
                self.wf(),
                self.same_input(old(self)),
                self.tokens@ == tokens,
                self.pos == start,
                old(self).pos == start,
                n == tokens.len(),
                start < pos <= n,
                path@.segments.len() > 0,
                path_spec(tokens, start, self.end) == path_rest(tokens, pos as int, self.end, path@),
            decreases n - pos,
        {
            let sep = if pos < n {
                match &self.tokens[pos].kind {
                    TokenKind::PathSep => true,
                    _ => false,
                }
            } else {
                false
            };
            if !sep {
                proof {
                    lemma_path_rest_advances(tokens, pos as int, self.end, path@);
                }
                self.pos = pos;
                return Ok(path);
            }
            let ident = if pos + 1 < n {
                match &self.tokens[pos + 1].kind {
                    TokenKind::Ident(s) => if is_bool_word(s) {
                        None
                    } else {
                        Some(s.clone())
                    },
                    _ => None,
                }
            } else {
                None
            };
            match ident {
                Some(s) => {
                    let ghost before = path@;
                    path.segments.push(s);
                    path.span = path.span.join(self.tokens[pos + 1].span);
                    assert(path@.segments =~= before.segments.push(
                        token_text(tokens[pos as int + 1]),
                    ));
                    pos = pos + 2;
                },
                None => {
                    let span = if pos + 1 < n {
                        self.tokens[pos + 1].span
                    } else {
                        self.end
                    };
                    return Err(Diagnostic::new(span, "expected identifier"));
                },
            }
        }
    }
}

} // verus!
