//! Scanning a whole sequence of `name = literal` pairs, and what holds of
//! it: what was written is what is read.

use vstd::prelude::*;
use crate::token::{Diagnostic, DiagnosticView, Span, Token, TokenKind, diag};
use crate::cursor::{
    Cursor, Lit, LitView, TokenClass, at_end, is_literal, is_path_start, kind_at, lit_at, lit_of,
    path_rest, path_spec, span_at, stalled, token_text, PathView,
};
use crate::stream::{MetaStream, Name, NameView, name_of, name_spec};

verus! {

/// A pair as it was read.
#[derive(Debug, PartialEq, Eq)]
pub struct Pair {
    pub name: Name,
    pub value: Lit,
}

pub struct PairView {
    pub name: NameView,
    pub value: LitView,
}

impl View for Pair {
    type V = PairView;

    open spec fn view(&self) -> PairView {
        PairView { name: self.name@, value: self.value@ }
    }
}

/// The views of the pairs.
pub open spec fn pair_views(pairs: Seq<Pair>) -> Seq<PairView> {
    pairs.map_values(|p: Pair| p@)
}

/// The pairs from `pos` to the end of the scope, behind those of `acc`.
/// Each is a name, `=` and one literal; a comma stands between two pairs and
/// may stand behind the last.
pub open spec fn pairs_spec(tokens: Seq<Token>, pos: int, end: Span, acc: Seq<PairView>) -> Result<
    Seq<PairView>,
    DiagnosticView,
>
    decreases tokens.len() - pos,
{
    match name_spec(tokens, pos, end) {
        Err(d) => Err(d),
        Ok((None, _)) => Ok(acc),
        Ok((Some(name), rest)) => match lit_at(tokens, rest) {
            Some((value, next)) => {
                let more = acc.push(PairView { name, value });
                if at_end(tokens, next) {
                    Ok(more)
                } else if next <= pos {
                    Err(stalled(end))
                } else if kind_at(tokens, next, TokenKind::Punct(',')) {
                    pairs_spec(tokens, next + 1, end, more)
                } else {
                    Err(diag(span_at(tokens, next, end), "expected `,`"@))
                }
            },
            None => Err(diag(span_at(tokens, rest, end), "expected literal"@)),
        },
    }
}

impl<'a> MetaStream<'a> {
    /// Reads all the pairs that are left in the scope, each value as the
    /// literal that was written.
    pub fn pairs(&mut self) -> (r: Result<Vec<Pair>, Diagnostic>)
        requires
            old(self).wf(),
        ensures
            final(self).wf(),
            final(self).cursor.same_input(&old(self).cursor),
            match pairs_spec(
                old(self).cursor.tokens@,
                old(self).cursor.pos as int,
                old(self).cursor.end,
                Seq::empty(),
            ) {
                Ok(ps) => r matches Ok(pairs) && pair_views(pairs@) == ps,
                Err(d) => r matches Err(e) && e@ == d,
            },
    {
        let ghost tokens = self.cursor.tokens@;
        let ghost start = self.cursor.pos as int;
        let ghost end = self.cursor.end;
        let mut pairs: Vec<Pair> = Vec::new();
        assert(pair_views(pairs@) =~= Seq::empty());
        loop
            invariant
                self.wf(),
                self.cursor.same_input(&old(self).cursor),
                self.cursor.tokens@ == tokens,
                self.cursor.end == end,
                start == old(self).cursor.pos,
                pairs_spec(tokens, start, end, Seq::empty()) == pairs_spec(
                    tokens,
                    self.cursor.pos as int,
                    end,
                    pair_views(pairs@),
                ),
            decreases tokens.len() - self.cursor.pos,
        {
            let ghost pos = self.cursor.pos as int;
            let ghost before = pair_views(pairs@);
            proof {
                crate::cursor::lemma_path_advances(tokens, pos, end);
            }
            match self.next_name() {
                Err(e) => {
                    return Err(e);
                },
                Ok(None) => {
                    return Ok(pairs);
                },
                Ok(Some(name)) => match self.cursor.advance_literal() {
                    Err(e) => {
                        return Err(e);
                    },
                    Ok(value) => {
                        let pair = Pair { name, value };
                        pairs.push(pair);
                        assert(pair_views(pairs@) =~= before.push(pair@));
                        if self.cursor.is_empty() {
                            return Ok(pairs);
                        }
                        match self.cursor.advance_token(TokenClass::Comma) {
                            Err(e) => {
                                return Err(e);
                            },
                            Ok(_) => {},
                        }
                    },
                },
            }
        }
    }
}

/// `tokens` is `n` pairs as one writes them: for each an identifier, `=`
/// and a literal, a comma between two pairs, and one behind the last if
/// `trailing`.
pub open spec fn written_pairs(tokens: Seq<Token>, n: nat, trailing: bool) -> bool {
    &&& tokens.len() == if n == 0 {
        0int
    } else if trailing {
        4 * n as int
    } else {
        4 * n - 1
    }
    &&& forall|i: int|
        0 <= i < n ==> is_path_start(#[trigger] tokens[4 * i]) && tokens[4 * i + 1].kind
            == TokenKind::Punct('=') && is_literal(tokens[4 * i + 2])
    &&& forall|i: int|
        0 <= i < n && 4 * i + 3 < tokens.len() ==> (#[trigger] tokens[4 * i + 3]).kind
            == TokenKind::Punct(',')
}

/// The `i`-th pair of `tokens`, as it was written.
pub open spec fn written_pair(tokens: Seq<Token>, i: int) -> PairView {
    PairView {
        name: NameView { text: token_text(tokens[4 * i]), span: tokens[4 * i].span },
        value: lit_of(tokens[4 * i + 2]),
    }
}

/// The first `k` pairs of `tokens`, as they were written.
pub open spec fn written_prefix(tokens: Seq<Token>, k: nat) -> Seq<PairView> {
    Seq::new(k, |i: int| written_pair(tokens, i))
}

/// What is read from the pair `k` on, behind the pairs before it, is all
/// the pairs as they were written.
pub proof fn lemma_written_from(tokens: Seq<Token>, n: nat, trailing: bool, end: Span, k: nat)
    requires
        written_pairs(tokens, n, trailing),
        k <= n,
    ensures
        pairs_spec(tokens, (4 * k) as int, end, written_prefix(tokens, k)) == Ok::<
            Seq<PairView>,
            DiagnosticView,
        >(written_prefix(tokens, n)),
    decreases n - k,
{
    let pos = (4 * k) as int;
    if k == n {
        assert(at_end(tokens, pos));
    } else {
        let i = k as int;
        assert(is_path_start(tokens[4 * i]));
        assert(tokens[4 * i + 1].kind == TokenKind::Punct('='));
        assert(is_literal(tokens[4 * i + 2]));
        let first = PathView { segments: seq![token_text(tokens[pos])], span: tokens[pos].span };
        assert(path_rest(tokens, pos + 1, end, first) == Ok::<(PathView, int), DiagnosticView>(
            (first, pos + 1),
        ));
        assert(path_spec(tokens, pos, end) == Ok::<(PathView, int), DiagnosticView>(
            (first, pos + 1),
        ));
        assert(name_of(first) == written_pair(tokens, i).name);
        assert(name_spec(tokens, pos, end) == Ok::<(Option<NameView>, int), DiagnosticView>(
            (Some(written_pair(tokens, i).name), pos + 2),
        ));
        let more = written_prefix(tokens, k).push(written_pair(tokens, i));
        assert(more =~= written_prefix(tokens, (k + 1) as nat));
        if pos + 3 < tokens.len() {
            assert(tokens[4 * i + 3].kind == TokenKind::Punct(','));
            lemma_written_from(tokens, n, trailing, end, (k + 1) as nat);
        } else {
            assert(k + 1 == n);
        }
    }
}

/// Round trip: scanning `n` pairs that were written with single
/// identifiers for names yields, in order, each name and each literal as
/// written, with or without a comma behind the last pair.
pub proof fn lemma_round_trip(tokens: Seq<Token>, n: nat, trailing: bool, end: Span)
    requires
        written_pairs(tokens, n, trailing),
    ensures
        pairs_spec(tokens, 0, end, Seq::empty()) == Ok::<Seq<PairView>, DiagnosticView>(
            written_prefix(tokens, n),
        ),
        written_prefix(tokens, n).len() == n,
        forall|i: int| 0 <= i < n ==> (#[trigger] written_prefix(tokens, n)[i]) == written_pair(tokens, i),
{
    assert(written_prefix(tokens, 0) =~= Seq::empty());
    lemma_written_from(tokens, n, trailing, end, 0);
}

/// A name is never an error where nothing is left: reading a name at the
/// end of a scope reports the end.
pub proof fn lemma_exhausted_is_no_error(tokens: Seq<Token>, pos: int, end: Span)
    requires
        at_end(tokens, pos),
    ensures
        name_spec(tokens, pos, end) == Ok::<(Option<NameView>, int), DiagnosticView>((None, pos)),
        pairs_spec(tokens, pos, end, Seq::empty()) == Ok::<Seq<PairView>, DiagnosticView>(
            Seq::empty(),
        ),
{
}

/// A comma that is missing between two pairs is an error at the token that
/// follows the first pair's value: the start of the second pair's name.
pub proof fn lemma_missing_comma(tokens: Seq<Token>, pos: int, end: Span, acc: Seq<PairView>)
    requires
        0 <= pos,
        pos + 3 < tokens.len(),
        is_path_start(tokens[pos]),
        tokens[pos + 1].kind == TokenKind::Punct('='),
        is_literal(tokens[pos + 2]),
        is_path_start(tokens[pos + 3]),
    ensures
        pairs_spec(tokens, pos, end, acc) == Err::<Seq<PairView>, DiagnosticView>(
            diag(tokens[pos + 3].span, "expected `,`"@),
        ),
{
    let first = PathView { segments: seq![token_text(tokens[pos])], span: tokens[pos].span };
    assert(path_rest(tokens, pos + 1, end, first) == Ok::<(PathView, int), DiagnosticView>(
        (first, pos + 1),
    ));
}

} // verus!
