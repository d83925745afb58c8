//! The lazy reader: a strict sequence of `name = value` pairs, read one name
//! and one value at a time, each value by the type that is asked for.

use vstd::prelude::*;
use vstd::string::*;
use crate::token::{Delim, Diagnostic, DiagnosticView, Span, Token, TokenKind, diag};
use crate::cursor::{
    Cursor, LitView, Path, PathView, TokenClass, at_end, kind_at, lit_at, path_spec, span_at,
};
use crate::literal::{
    bool_spec, int_spec, plain_result_is, string_result_is, string_spec,
};

verus! {

/// The name of a pair: the last identifier of its path, and the path's span.
#[derive(Debug, PartialEq, Eq)]
pub struct Name {
    pub name: String,
    pub span: Span,
}

pub struct NameView {
    pub text: Seq<char>,
    pub span: Span,
}

impl View for Name {
    type V = NameView;

    open spec fn view(&self) -> NameView {
        NameView { text: self.name@, span: self.span }
    }
}

/// The name that the path `p` gives.
pub open spec fn name_of(p: PathView) -> NameView {
    NameView {
        text: if p.segments.len() > 0 {
            p.last()
        } else {
            Seq::empty()
        },
        span: p.span,
    }
}

impl Name {
    /// The name as text, to compare with a key.
    pub fn as_str(&self) -> (s: &str)
        ensures
            s@ == self@.text,
    {
        self.name.as_str()
    }

    /// The name that a path gives: its last identifier, with the span of the
    /// whole path.
    pub fn new(path: Path) -> (n: Name)
        ensures
            n@ == name_of(path@),
    {
        let k = path.segments.len();
        let name = if k > 0 {
            path.segments[k - 1].clone()
        } else {
            String::new()
        };
        Name { name, span: path.span }
    }

    /// A name that was not read from tokens, with the span it shall have.
    pub fn from_text(text: &str, span: Span) -> (n: Name)
        ensures
            n@ == (NameView { text: text@, span }),
    {
        Name { name: String::from_str(text), span }
    }

    pub fn span(&self) -> (s: Span)
        ensures
            s == self@.span,
    {
        self.span
    }

    /// The name is the key `key`.
    pub fn is(&self, key: &str) -> (r: bool)
        ensures
            r == (self@.text == key@),
    {
        let k = String::from_str(key);
        self.name == k
    }
}

/// A name can stand where its text is borrowed.
impl std::ops::Deref for Name {
    type Target = str;

    fn deref(&self) -> (s: &str)
        ensures
            s@ == self@.text,
    {
        self.name.as_str()
    }
}

/// What reading a name at `pos` yields: nothing where the scope has ended,
/// else the name of the path at `pos`, which `=` must follow, and the
/// position behind the `=`.
pub open spec fn name_spec(tokens: Seq<Token>, pos: int, end: Span) -> Result<
    (Option<NameView>, int),
    DiagnosticView,
> {
    if at_end(tokens, pos) {
        Ok((None, pos))
    } else {
        match path_spec(tokens, pos, end) {
            Ok((p, next)) => if kind_at(tokens, next, TokenKind::Punct('=')) {
                Ok((Some(name_of(p)), next + 1))
            } else {
                Err(diag(span_at(tokens, next, end), "expected `=`"@))
            },
            Err(d) => Err(d),
        }
    }
}

/// What follows a value that was read up to `mid`: the scope ends there, or
/// a comma is consumed, or the token found there is an error. A value that
/// failed to read hands its error on.
pub open spec fn value_settles<T>(
    tokens: Seq<Token>,
    end: Span,
    inner: Result<T, Diagnostic>,
    mid: int,
    r: Result<Option<T>, Diagnostic>,
    next: int,
) -> bool {
    match inner {
        Err(e) => r == Err::<Option<T>, Diagnostic>(e),
        Ok(v) => if at_end(tokens, mid) {
            r == Ok::<Option<T>, Diagnostic>(Some(v)) && next == mid
        } else if kind_at(tokens, mid, TokenKind::Punct(',')) {
            r == Ok::<Option<T>, Diagnostic>(Some(v)) && next == mid + 1
        } else {
            r matches Err(e) && e@ == diag(span_at(tokens, mid, end), "expected `,`"@)
        },
    }
}

/// Types that can be read as the value of a pair, from the tokens at the
/// cursor.
pub trait FromMetaValue: Sized {
    /// Reading at `pos` yields `r` and leaves the cursor at `next`. A type
    /// that says nothing here promises nothing of what it reads.
    open spec fn reads(
        tokens: Seq<Token>,
        pos: int,
        end: Span,
        r: Result<Self, Diagnostic>,
        next: int,
    ) -> bool {
        true
    }

    fn from_meta_value(cur: &mut Cursor) -> (r: Result<Self, Diagnostic>)
        requires
            old(cur).wf(),
        ensures
            final(cur).wf(),
            final(cur).same_input(old(cur)),
            Self::reads(
                old(cur).tokens@,
                old(cur).pos as int,
                old(cur).end,
                r,
                final(cur).pos as int,
            ),
    ;
}

/// Types that can be assembled from a sequence of pairs.
pub trait FromMeta: Sized {
    /// Assembling from `pos` on yields `r` and leaves the cursor at `next`.
    /// A type that says nothing here promises nothing of what it assembles.
    open spec fn assembles(
        tokens: Seq<Token>,
        pos: int,
        end: Span,
        r: Result<Self, Diagnostic>,
        next: int,
    ) -> bool {
        true
    }

    fn from_meta(stream: &mut MetaStream) -> (r: Result<Self, Diagnostic>)
        requires
            old(stream).wf(),
        ensures
            final(stream).wf(),
            final(stream).cursor.same_input(&old(stream).cursor),
            Self::assembles(
                old(stream).cursor.tokens@,
                old(stream).cursor.pos as int,
                old(stream).cursor.end,
                r,
                final(stream).cursor.pos as int,
            ),
    ;
}

/// A sequence of `name = value` pairs under a cursor.
pub struct MetaStream<'a> {
    pub cursor: Cursor<'a>,
}

impl<'a> MetaStream<'a> {
    pub open spec fn wf(&self) -> bool {
        self.cursor.wf()
    }

    pub fn new(cursor: Cursor<'a>) -> (s: MetaStream<'a>)
        ensures
            s.cursor == cursor,
    {
        MetaStream { cursor }
    }

    /// No pair is left in the current scope.
    pub fn is_empty(&self) -> (r: bool)
        requires
            self.wf(),
        ensures
            r == at_end(self.cursor.tokens@, self.cursor.pos as int),
    {
        self.cursor.is_empty()
    }

    /// Reads the next name and the `=` behind it. `Ok(None)` where no pair
    /// is left: that is no error.
    pub fn next_name(&mut self) -> (r: Result<Option<Name>, Diagnostic>)
        requires
            old(self).wf(),
        ensures
            final(self).wf(),
            final(self).cursor.same_input(&old(self).cursor),
            match name_spec(
                old(self).cursor.tokens@,
                old(self).cursor.pos as int,
                old(self).cursor.end,
            ) {
                Ok((Some(n), next)) => r matches Ok(Some(name)) && name@ == n
                    && final(self).cursor.pos == next,
                Ok((None, next)) => r matches Ok(None) && final(self).cursor.pos == next,
                Err(d) => r matches Err(e) && e@ == d,
            },
    {
        if self.cursor.is_empty() {
            Ok(None)
        } else {
            match self.cursor.advance_path() {
                Err(e) => Err(e),
                Ok(path) => match self.cursor.advance_token(TokenClass::Equals) {
                    Err(e) => Err(e),
                    Ok(_) => Ok(Some(Name::new(path))),
                },
            }
        }
    }

    /// Finishes a value that was read up to the cursor: where tokens are
    /// left in the scope, the next must be a comma, which is consumed.
    pub fn settle_value<T>(&mut self, inner: Result<T, Diagnostic>) -> (r: Result<
        Option<T>,
        Diagnostic,
    >)
        requires
            old(self).wf(),
        ensures
            final(self).wf(),
            final(self).cursor.same_input(&old(self).cursor),
            value_settles(
                old(self).cursor.tokens@,
                old(self).cursor.end,
                inner,
                old(self).cursor.pos as int,
                r,
                final(self).cursor.pos as int,
            ),
    {
        match inner {
            Err(e) => Err(e),
            Ok(v) => {
                if self.cursor.is_empty() {
                    Ok(Some(v))
                } else {
                    match self.cursor.advance_token(TokenClass::Comma) {
                        Err(e) => Err(e),
                        Ok(_) => Ok(Some(v)),
                    }
                }
            },
        }
    }

    /// Reads the next value as a `T`, and the comma behind it where tokens
    /// are left. `Ok(None)` where no value is left.
    pub fn next_value<T: FromMetaValue>(&mut self) -> (r: Result<Option<T>, Diagnostic>)
        requires
            old(self).wf(),
        ensures
            final(self).wf(),
            final(self).cursor.same_input(&old(self).cursor),
            at_end(old(self).cursor.tokens@, old(self).cursor.pos as int) ==> (r matches Ok(None)
                && final(self).cursor.pos == old(self).cursor.pos),
            !at_end(old(self).cursor.tokens@, old(self).cursor.pos as int) ==> exists|
                inner: Result<T, Diagnostic>,
                mid: int,
            |
                T::reads(
                    old(self).cursor.tokens@,
                    old(self).cursor.pos as int,
                    old(self).cursor.end,
                    inner,
                    mid,
                ) && #[trigger] value_settles(
                    old(self).cursor.tokens@,
                    old(self).cursor.end,
                    inner,
                    mid,
                    r,
                    final(self).cursor.pos as int,
                ),
    {
        if self.cursor.is_empty() {
            Ok(None)
        } else {
            let inner = T::from_meta_value(&mut self.cursor);
            let ghost mid = self.cursor.pos as int;
            let r = self.settle_value(inner);
            assert(value_settles(
                old(self).cursor.tokens@,
                old(self).cursor.end,
                inner,
                mid,
                r,
                self.cursor.pos as int,
            ));
            r
        }
    }
}

/// The literal at `pos`, worth what `worth` says of it; where no literal
/// stands there, the error `message` at the token found.
pub open spec fn literal_read<V>(
    tokens: Seq<Token>,
    pos: int,
    end: Span,
    worth: spec_fn(LitView) -> Result<V, DiagnosticView>,
    message: Seq<char>,
) -> Result<(V, int), DiagnosticView> {
    match lit_at(tokens, pos) {
        Some((l, next)) => match worth(l) {
            Ok(v) => Ok((v, next)),
            Err(d) => Err(d),
        },
        None => Err(diag(span_at(tokens, pos, end), message)),
    }
}

/// The string read at `pos`: the string literal there, decoded.
pub open spec fn string_read(tokens: Seq<Token>, pos: int, end: Span) -> Result<
    (Seq<char>, int),
    DiagnosticView,
> {
    literal_read(tokens, pos, end, |l: LitView| string_spec(l), "expected string literal"@)
}

/// The truth value read at `pos`: `true` or `false`.
pub open spec fn bool_read(tokens: Seq<Token>, pos: int, end: Span) -> Result<
    (bool, int),
    DiagnosticView,
> {
    literal_read(tokens, pos, end, |l: LitView| bool_spec(l), "expected boolean literal"@)
}

/// The integer read at `pos`: the integer literal there, in base ten, where
/// it fits in 64 bits with a sign.
pub open spec fn int_read(tokens: Seq<Token>, pos: int, end: Span) -> Result<
    (i64, int),
    DiagnosticView,
> {
    literal_read(tokens, pos, end, |l: LitView| int_spec(l), "expected integer literal"@)
}

impl FromMetaValue for String {
    open spec fn reads(
        tokens: Seq<Token>,
        pos: int,
        end: Span,
        r: Result<Self, Diagnostic>,
        next: int,
    ) -> bool {
        match string_read(tokens, pos, end) {
            Ok((s, n)) => r matches Ok(t) && t@ == s && next == n,
            Err(d) => r matches Err(e) && e@ == d,
        }
    }

    fn from_meta_value(cur: &mut Cursor) -> (r: Result<String, Diagnostic>) {
        match cur.advance_literal() {
            Err(_) => Err(Diagnostic::new(cur.span(), "expected string literal")),
            Ok(lit) => lit.to_text(),
        }
    }
}

impl FromMetaValue for bool {
    open spec fn reads(
        tokens: Seq<Token>,
        pos: int,
        end: Span,
        r: Result<Self, Diagnostic>,
        next: int,
    ) -> bool {
        match bool_read(tokens, pos, end) {
            Ok((b, n)) => r matches Ok(t) && t == b && next == n,
            Err(d) => r matches Err(e) && e@ == d,
        }
    }

    fn from_meta_value(cur: &mut Cursor) -> (r: Result<bool, Diagnostic>) {
        match cur.advance_literal() {
            Err(_) => Err(Diagnostic::new(cur.span(), "expected boolean literal")),
            Ok(lit) => lit.to_bool(),
        }
    }
}

impl FromMetaValue for i64 {
    open spec fn reads(
        tokens: Seq<Token>,
        pos: int,
        end: Span,
        r: Result<Self, Diagnostic>,
        next: int,
    ) -> bool {
        match int_read(tokens, pos, end) {
            Ok((k, n)) => r matches Ok(t) && t == k && next == n,
            Err(d) => r matches Err(e) && e@ == d,
        }
    }

    fn from_meta_value(cur: &mut Cursor) -> (r: Result<i64, Diagnostic>) {
        match cur.advance_literal() {
            Err(_) => Err(Diagnostic::new(cur.span(), "expected integer literal")),
            Ok(lit) => lit.to_i64(),
        }
    }
}

impl FromMetaValue for Name {
    /// A name is read as a path.
    open spec fn reads(
        tokens: Seq<Token>,
        pos: int,
        end: Span,
        r: Result<Self, Diagnostic>,
        next: int,
    ) -> bool {
        match path_spec(tokens, pos, end) {
            Ok((p, n)) => r matches Ok(t) && t@ == name_of(p) && next == n,
            Err(d) => r matches Err(e) && e@ == d,
        }
    }

    fn from_meta_value(cur: &mut Cursor) -> (r: Result<Name, Diagnostic>) {
        match cur.advance_path() {
            Err(e) => Err(e),
            Ok(path) => Ok(Name::new(path)),
        }
    }
}

/// What closes a record that was opened at `pos` and assembled, with the
/// outcome `inner`, up to `mid`: `}` must stand there. Tokens that the
/// assembly left unread are an error at the first of them.
pub open spec fn braces_close<T>(
    tokens: Seq<Token>,
    end: Span,
    inner: Result<T, Diagnostic>,
    mid: int,
    r: Result<T, Diagnostic>,
    next: int,
) -> bool {
    match inner {
        Err(e) => r == Err::<T, Diagnostic>(e),
        Ok(v) => if kind_at(tokens, mid, TokenKind::Close(Delim::Brace)) {
            r == Ok::<T, Diagnostic>(v) && next == mid + 1
        } else {
            r matches Err(e) && e@ == diag(span_at(tokens, mid, end), "expected `}`"@)
        },
    }
}

/// Reading a record in braces at `pos` yields `r` and leaves the cursor at
/// `next`: `{` must stand at `pos`, the record is assembled from the pairs
/// behind it, and `}` must follow.
pub open spec fn braced_reads<T: FromMeta>(
    tokens: Seq<Token>,
    pos: int,
    end: Span,
    r: Result<T, Diagnostic>,
    next: int,
) -> bool {
    if kind_at(tokens, pos, TokenKind::Open(Delim::Brace)) {
        exists|inner: Result<T, Diagnostic>, mid: int|
            T::assembles(tokens, pos + 1, end, inner, mid) && #[trigger] braces_close(
                tokens,
                end,
                inner,
                mid,
                r,
                next,
            )
    } else {
        r matches Err(e) && e@ == diag(span_at(tokens, pos, end), "expected `{`"@)
    }
}

/// Closes a record once it is assembled, with the outcome `inner`, up to
/// the cursor: `}` must stand there and is consumed.
pub fn close_braces<T>(cur: &mut Cursor, inner: Result<T, Diagnostic>) -> (r: Result<T, Diagnostic>)
    requires
        old(cur).wf(),
    ensures
        final(cur).wf(),
        final(cur).same_input(old(cur)),
        braces_close(
            old(cur).tokens@,
            old(cur).end,
            inner,
            old(cur).pos as int,
            r,
            final(cur).pos as int,
        ),
{
    match inner {
        Err(e) => Err(e),
        Ok(v) => match cur.advance_token(TokenClass::Close(Delim::Brace)) {
            Err(e) => Err(e),
            Ok(_) => Ok(v),
        },
    }
}

/// Reads a record as a value: `{`, its pairs, `}`.
pub fn read_braced<T: FromMeta>(cur: &mut Cursor) -> (r: Result<T, Diagnostic>)
    requires
        old(cur).wf(),
    ensures
        final(cur).wf(),
        final(cur).same_input(old(cur)),
        braced_reads(old(cur).tokens@, old(cur).pos as int, old(cur).end, r, final(cur).pos as int),
{
    match cur.advance_token(TokenClass::Open(Delim::Brace)) {
        Err(e) => Err(e),
        Ok(_) => {
            let mut stream = MetaStream {
                cursor: Cursor { tokens: cur.tokens, pos: cur.pos, end: cur.end },
            };
            let inner = T::from_meta(&mut stream);
            cur.pos = stream.cursor.pos;
            let ghost mid = cur.pos as int;
            let r = close_braces(cur, inner);
            assert(braces_close(old(cur).tokens@, old(cur).end, inner, mid, r, cur.pos as int));
            r
        },
    }
}

/// Every type that is assembled from pairs is read as a value in braces.
impl<T: FromMeta> FromMetaValue for T {
    open spec fn reads(
        tokens: Seq<Token>,
        pos: int,
        end: Span,
        r: Result<Self, Diagnostic>,
        next: int,
    ) -> bool {
        braced_reads::<T>(tokens, pos, end, r, next)
    }

    fn from_meta_value(cur: &mut Cursor) -> (r: Result<T, Diagnostic>) {
        read_braced::<T>(cur)
    }
}

/// A value that was assembled from a whole attribute body.
pub struct Meta<T>(pub T);

impl<T> Meta<T> {
    /// Takes the value out.
    pub fn into_inner(self) -> (t: T)
        ensures
            t == self.0,
    {
        self.0
    }
}

/// A `Meta` can stand where its value is borrowed.
impl<T> std::ops::Deref for Meta<T> {
    type Target = T;

    fn deref(&self) -> (t: &T)
        ensures
            *t == self.0,
    {
        &self.0
    }
}

/// What is left when a whole body was assembled, with the outcome `inner`,
/// up to `mid`: the input must be used up. A token that is left is an error.
pub open spec fn body_ends<T>(
    tokens: Seq<Token>,
    inner: Result<T, Diagnostic>,
    mid: int,
    r: Result<Meta<T>, Diagnostic>,
) -> bool {
    match inner {
        Err(e) => r == Err::<Meta<T>, Diagnostic>(e),
        Ok(v) => if mid == tokens.len() {
            r == Ok::<Meta<T>, Diagnostic>(Meta(v))
        } else {
            r matches Err(e) && 0 <= mid < tokens.len() && e@ == diag(
                tokens[mid].span,
                "unexpected token"@,
            )
        },
    }
}

/// Ends a whole body once it is assembled, with the outcome `inner`, up
/// to the cursor: a token that is left is an error at that token.
pub fn finish_body<T>(cursor: &Cursor, inner: Result<T, Diagnostic>) -> (r: Result<
    Meta<T>,
    Diagnostic,
>)
    requires
        cursor.wf(),
    ensures
        body_ends(cursor.tokens@, inner, cursor.pos as int, r),
{
    match inner {
        Err(e) => Err(e),
        Ok(v) => if cursor.is_exhausted() {
            Ok(Meta(v))
        } else {
            Err(Diagnostic::new(cursor.span(), "unexpected token"))
        },
    }
}

impl<T: FromMeta> Meta<T> {
    /// Assembles a `T` from the whole of `tokens`. `end` is the span of
    /// diagnostics that no token accounts for.
    pub fn parse(tokens: &Vec<Token>, end: Span) -> (r: Result<Meta<T>, Diagnostic>)
        ensures
            exists|inner: Result<T, Diagnostic>, mid: int|
                T::assembles(tokens@, 0, end, inner, mid) && #[trigger] body_ends(
                    tokens@,
                    inner,
                    mid,
                    r,
                ),
    {
        let mut stream = MetaStream::new(Cursor::new(tokens, end));
        let inner = T::from_meta(&mut stream);
        let ghost mid = stream.cursor.pos as int;
        let r = finish_body(&stream.cursor, inner);
        assert(body_ends(tokens@, inner, mid, r));
        r
    }
}

} // verus!
