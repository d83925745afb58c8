//! Tokens, spans and diagnostics.

use vstd::prelude::*;
use vstd::string::*;
use crate::literal::{decode, decoded_from};

verus! {

/// A range of source positions, from `start` up to `end`.
#[derive(Clone, Copy, Debug, PartialEq, Eq, Structural)]
pub struct Span {
    pub start: usize,
    pub end: usize,
}

impl Span {
    pub fn new(start: usize, end: usize) -> (s: Span)
        ensures
            s == (Span { start, end }),
    {
        Span { start, end }
    }

    /// The span that starts where `self` starts and ends where `last` ends.
    pub open spec fn spec_join(self, last: Span) -> Span {
        Span { start: self.start, end: last.end }
    }

    #[verifier::when_used_as_spec(spec_join)]
    pub fn join(self, last: Span) -> (s: Span)
        ensures
            s == self.spec_join(last),
    {
        Span { start: self.start, end: last.end }
    }
}

/// The three kinds of bracket that open and close a group.
#[derive(Clone, Copy, Debug, PartialEq, Eq, Structural)]
pub enum Delim {
    Paren,
    Brace,
    Bracket,
}

/// What the text of a literal denotes as an integer.
#[derive(Clone, Copy, Debug, PartialEq, Eq, Structural)]
pub enum Integer {
    /// The number, whatever a suffix says of its type.
    Is(i128),
    /// An integer literal whose number is above what is kept here.
    TooLarge,
    /// The negation of such a literal.
    TooSmall,
    /// No integer literal.
    NotInteger,
}

/// What the text of a literal denotes: as a string literal the string
/// without quotes and escapes, as an integer literal the number. Each is
/// absent where the text is no literal of that kind.
#[derive(Debug, PartialEq, Eq)]
pub struct Decoded {
    pub string: Option<String>,
    pub integer: Integer,
}

pub struct DecodedView {
    pub string: Option<Seq<char>>,
    pub integer: Integer,
}

impl View for Decoded {
    type V = DecodedView;

    open spec fn view(&self) -> DecodedView {
        DecodedView { string: opt_text(self.string), integer: self.integer }
    }
}

impl Clone for Decoded {
    fn clone(&self) -> (r: Decoded)
        ensures
            r@ == self@,
    {
        let string = match &self.string {
            Some(s) => Some(s.clone()),
            None => None,
        };
        Decoded { string, integer: self.integer }
    }
}

impl Decoded {
    /// What an identifier denotes as a literal: neither string nor number.
    pub fn nothing() -> (d: Decoded)
        ensures
            d@ == (DecodedView { string: None, integer: Integer::NotInteger }),
    {
        Decoded { string: None, integer: Integer::NotInteger }
    }
}

/// The view of an optional string.
pub open spec fn opt_text(s: Option<String>) -> Option<Seq<char>> {
    match s {
        Some(s) => Some(s@),
        None => None,
    }
}

/// What a token is. A group is written flat: its opening bracket, its
/// interior, its closing bracket.
#[derive(Debug, PartialEq, Eq)]
pub enum TokenKind {
    /// An identifier; `true` and `false` arrive as identifiers too.
    Ident(String),
    /// A literal: the text that stands in the source (`"hi"`, `42`), and
    /// what that text was found to denote.
    Literal(String, Decoded),
    /// A single punctuation character.
    Punct(char),
    /// The separator `::` between the segments of a path.
    PathSep,
    Open(Delim),
    Close(Delim),
}

#[derive(Debug, PartialEq, Eq)]
pub struct Token {
    pub kind: TokenKind,
    pub span: Span,
}

impl Token {
    pub fn ident(name: &str, span: Span) -> (t: Token)
        ensures
            t.span == span,
            t.kind matches TokenKind::Ident(s) && s@ == name@,
    {
        Token { kind: TokenKind::Ident(String::from_str(name)), span }
    }

    /// The literal with the source text `text`. What the text denotes is
    /// found out here, once, and kept in the token.
    pub fn literal(text: &str, span: Span) -> (t: Token)
        ensures
            t.span == span,
            t.kind matches TokenKind::Literal(s, d) && s@ == text@ && decoded_from(text@, d@),
    {
        Token { kind: TokenKind::Literal(String::from_str(text), decode(text)), span }
    }

    pub fn punct(c: char, span: Span) -> (t: Token)
        ensures
            t.span == span,
            t.kind == TokenKind::Punct(c),
    {
        Token { kind: TokenKind::Punct(c), span }
    }

    pub fn path_sep(span: Span) -> (t: Token)
        ensures
            t.span == span,
            t.kind == TokenKind::PathSep,
    {
        Token { kind: TokenKind::PathSep, span }
    }

    pub fn open(delim: Delim, span: Span) -> (t: Token)
        ensures
            t.span == span,
            t.kind == TokenKind::Open(delim),
    {
        Token { kind: TokenKind::Open(delim), span }
    }

    pub fn close(delim: Delim, span: Span) -> (t: Token)
        ensures
            t.span == span,
            t.kind == TokenKind::Close(delim),
    {
        Token { kind: TokenKind::Close(delim), span }
    }
}

/// An error: where it is, and what it says.
#[derive(Debug, PartialEq, Eq)]
pub struct Diagnostic {
    pub span: Span,
    pub message: String,
}

/// A diagnostic as contracts speak of it.
pub struct DiagnosticView {
    pub span: Span,
    pub message: Seq<char>,
}

impl View for Diagnostic {
    type V = DiagnosticView;

    open spec fn view(&self) -> DiagnosticView {
        DiagnosticView { span: self.span, message: self.message@ }
    }
}

impl Diagnostic {
    pub fn new(span: Span, message: &str) -> (d: Diagnostic)
        ensures
            d@ == diag(span, message@),
    {
        Diagnostic { span, message: String::from_str(message) }
    }
}

pub open spec fn diag(span: Span, message: Seq<char>) -> DiagnosticView {
    DiagnosticView { span, message }
}

} // verus!
