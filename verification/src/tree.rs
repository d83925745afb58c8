//! The eager reader: the whole argument list is read into a tree of items,
//! which is then looked up by name.

use vstd::prelude::*;
use vstd::string::*;
use crate::token::{Delim, Diagnostic, DiagnosticView, Span, Token, TokenKind, diag};
use crate::cursor::{
    Cursor, Lit, LitView, Path, PathView, TokenClass, at_end, kind_at, lit_at, path_spec,
    span_at, stalled, lemma_path_advances,
};
use crate::literal::string_result_is;

verus! {

/// One item of an argument list.
#[derive(Debug, PartialEq, Eq)]
pub enum MetaValue {
    /// A path alone.
    Path(Path),
    /// `name = literal`.
    NameValue(MetaNameValue),
    /// `name(...)`, or the list without a name that stands for a whole
    /// attribute body.
    List(MetaList),
    /// A literal alone.
    Lit(Lit),
}

/// A name, the `=` behind it, and a literal.
#[derive(Debug, PartialEq, Eq)]
pub struct MetaNameValue {
    pub name: Path,
    pub eq: Span,
    pub value: Lit,
}

/// A list of items in source order. `name` is `None` for the root list,
/// which was not written as `name(...)`; `paren` spans the brackets.
#[derive(Debug, PartialEq, Eq)]
pub struct MetaList {
    pub name: Option<Path>,
    pub paren: Span,
    pub list: Vec<MetaValue>,
}

pub enum ItemView {
    Path(PathView),
    NameValue(NameValueView),
    List(ListView),
    Lit(LitView),
}

pub struct NameValueView {
    pub name: PathView,
    pub eq: Span,
    pub value: LitView,
}

pub struct ListView {
    pub name: Option<PathView>,
    pub paren: Span,
    pub children: Seq<ItemView>,
}

/// The view of an optional path.
pub open spec fn opt_path_view(p: Option<Path>) -> Option<PathView> {
    match p {
        Some(p) => Some(p@),
        None => None,
    }
}

/// The view of an item.
pub open spec fn item_view(v: MetaValue) -> ItemView
    decreases v, 0nat,
{
    match v {
        MetaValue::Path(p) => ItemView::Path(p@),
        MetaValue::NameValue(nv) => ItemView::NameValue(nv@),
        MetaValue::List(l) => ItemView::List(
            ListView {
                name: opt_path_view(l.name),
                paren: l.paren,
                children: items_view(l.list, l.list.len() as nat),
            },
        ),
        MetaValue::Lit(l) => ItemView::Lit(l@),
    }
}

/// The views of the first `n` items of `list`, in order.
pub open spec fn items_view(list: Vec<MetaValue>, n: nat) -> Seq<ItemView>
    decreases list, n,
{
    if n == 0 || n > list.len() {
        Seq::empty()
    } else {
        items_view(list, (n - 1) as nat).push(item_view(list[n - 1]))
    }
}

/// `items_view` holds the view of each item, at the item's index.
pub proof fn lemma_items_view(list: Vec<MetaValue>, n: nat)
    requires
        n <= list.len(),
    ensures
        items_view(list, n).len() == n,
        forall|i: int| 0 <= i < n ==> (#[trigger] items_view(list, n)[i]) == list[i]@,
    decreases n,
{
    if n > 0 {
        lemma_items_view(list, (n - 1) as nat);
    }
}

impl View for MetaValue {
    type V = ItemView;

    open spec fn view(&self) -> ItemView {
        item_view(*self)
    }
}

impl View for MetaNameValue {
    type V = NameValueView;

    open spec fn view(&self) -> NameValueView {
        NameValueView { name: self.name@, eq: self.eq, value: self.value@ }
    }
}

impl View for MetaList {
    type V = ListView;

    open spec fn view(&self) -> ListView {
        ListView {
            name: opt_path_view(self.name),
            paren: self.paren,
            children: items_view(self.list, self.list.len() as nat),
        }
    }
}

/// The children of a list's view are the views of its items.
pub proof fn lemma_list_view(l: MetaList)
    ensures
        MetaValue::List(l)@ == ItemView::List(l@),
        l@.children.len() == l.list.len(),
        forall|i: int| 0 <= i < l.list.len() ==> (#[trigger] l@.children[i]) == l.list[i]@,
{
    lemma_items_view(l.list, l.list.len() as nat);
}

/// The span by which a list is pointed at where a literal was wanted: that
/// of its name, or of its brackets where it has none.
pub open spec fn list_name_span(l: ListView) -> Span {
    match l.name {
        Some(p) => p.span,
        None => l.paren,
    }
}

/// The span of the whole item: from its first token to its last. The root
/// list has the span of its brackets.
pub open spec fn item_span(v: ItemView) -> Span {
    match v {
        ItemView::Path(p) => p.span,
        ItemView::NameValue(nv) => nv.name.span.spec_join(nv.value.span),
        ItemView::List(l) => match l.name {
            Some(p) => p.span.spec_join(l.paren),
            None => l.paren,
        },
        ItemView::Lit(l) => l.span,
    }
}

/// The last identifier of the item's path; none for a literal, for the root
/// list and for a path without segments.
pub open spec fn item_name(v: ItemView) -> Option<Seq<char>> {
    let path = match v {
        ItemView::Path(p) => Some(p),
        ItemView::NameValue(nv) => Some(nv.name),
        ItemView::List(l) => l.name,
        ItemView::Lit(_) => None,
    };
    match path {
        Some(p) => if p.segments.len() > 0 {
            Some(p.last())
        } else {
            None
        },
        None => None,
    }
}

/// The item as a list: itself where it is one, else the root list that
/// holds it alone, with `call_site` for the span of its brackets.
pub open spec fn as_list_spec(v: ItemView, call_site: Span) -> ItemView {
    match v {
        ItemView::List(_) => v,
        _ => ItemView::List(ListView { name: None, paren: call_site, children: seq![v] }),
    }
}

/// What is converted where a child was found by name: of `name = literal`
/// the literal, of any other item the item.
pub open spec fn as_value(v: ItemView) -> ItemView {
    match v {
        ItemView::NameValue(nv) => ItemView::Lit(nv.value),
        _ => v,
    }
}

/// `i` is the first child that goes by the name `name`.
pub open spec fn is_first_named(children: Seq<ItemView>, name: Seq<char>, i: int) -> bool {
    &&& 0 <= i < children.len()
    &&& item_name(children[i]) == Some(name)
    &&& forall|j: int| 0 <= j < i ==> item_name(#[trigger] children[j]) != Some(name)
}

/// Types that can be made from an item of the tree.
pub trait FromMeta: Sized {
    /// `r` is what the conversion of `v` yields. A type that says nothing
    /// here promises nothing of what it converts to.
    open spec fn converts(v: ItemView, r: Result<Self, Diagnostic>) -> bool {
        true
    }

    fn from_meta(a: &MetaValue) -> (r: Result<Self, Diagnostic>)
        ensures
            Self::converts(a@, r),
    ;
}

impl Clone for MetaNameValue {
    fn clone(&self) -> (r: MetaNameValue)
        ensures
            r@ == self@,
    {
        MetaNameValue { name: self.name.clone(), eq: self.eq, value: self.value.clone() }
    }
}

impl Clone for MetaValue {
    fn clone(&self) -> (r: MetaValue)
        ensures
            r@ == self@,
        decreases *self,
    {
        match self {
            MetaValue::Path(p) => MetaValue::Path(p.clone()),
            MetaValue::NameValue(nv) => MetaValue::NameValue(nv.clone()),
            MetaValue::Lit(l) => MetaValue::Lit(l.clone()),
            MetaValue::List(l) => {
                let name = match &l.name {
                    Some(p) => Some(p.clone()),
                    None => None,
                };
                let mut list: Vec<MetaValue> = Vec::new();
                let mut i: usize = 0;
                while i < l.list.len()
                    invariant
                        i <= l.list.len(),
                        list@.len() == i,
                        forall|j: int| 0 <= j < i ==> list@[j]@ == l.list@[j]@,
                        *self == MetaValue::List(*l),
                    decreases l.list.len() - i,
                {
                    let child = &l.list[i];
                    proof {
                        assert(self->List_0 == *l);
                        assert(decreases_to!(*self => self->List_0.list[i as int]));
                    }
                    list.push(child.clone());
                    i += 1;
                }
                let out = MetaList { name, paren: l.paren, list };
                proof {
                    lemma_list_view(out);
                    lemma_list_view(*l);
                    assert(out@.children =~= l@.children);
                }
                MetaValue::List(out)
            },
        }
    }
}

impl MetaValue {
    /// Takes the item as a path. Any other item is an error: at the `=` of a
    /// name-value pair, at the brackets of a list, at a literal.
    pub fn path(&self) -> (r: Result<&Path, Diagnostic>)
        ensures
            match self@ {
                ItemView::Path(p) => r matches Ok(q) && *self == MetaValue::Path(*q),
                ItemView::NameValue(nv) => r matches Err(e) && e@ == diag(
                    nv.eq,
                    "unexpected =; expected a naked path"@,
                ),
                ItemView::List(l) => r matches Err(e) && e@ == diag(
                    l.paren,
                    "unexpected (...); expected a naked path"@,
                ),
                ItemView::Lit(l) => r matches Err(e) && e@ == diag(
                    l.span,
                    "expected a naked path"@,
                ),
            },
    {
        match self {
            MetaValue::Path(p) => Ok(p),
            MetaValue::NameValue(nv) => Err(
                Diagnostic::new(nv.eq, "unexpected =; expected a naked path"),
            ),
            MetaValue::List(list) => Err(
                Diagnostic::new(list.paren, "unexpected (...); expected a naked path"),
            ),
            MetaValue::Lit(lit) => Err(Diagnostic::new(lit.span, "expected a naked path")),
        }
    }

    /// Takes the item as a name-value pair. Any other item is an error: at a
    /// path, at the brackets of a list, at a literal.
    pub fn name_value(&self) -> (r: Result<&MetaNameValue, Diagnostic>)
        ensures
            match self@ {
                ItemView::NameValue(nv) => r matches Ok(q) && *self == MetaValue::NameValue(*q),
                ItemView::Path(p) => r matches Err(e) && e@ == diag(p.span, "expected ="@),
                ItemView::List(l) => r matches Err(e) && e@ == diag(l.paren, "expected ="@),
                ItemView::Lit(l) => r matches Err(e) && e@ == diag(
                    l.span,
                    "unexpected literal; expected ="@,
                ),
            },
    {
        match self {
            MetaValue::NameValue(nv) => Ok(nv),
            MetaValue::Path(p) => Err(Diagnostic::new(p.span, "expected =")),
            MetaValue::List(list) => Err(Diagnostic::new(list.paren, "expected =")),
            MetaValue::Lit(lit) => Err(
                Diagnostic::new(lit.span, "unexpected literal; expected ="),
            ),
        }
    }

    /// Takes the item as a literal. Any other item is an error at its name;
    /// at its brackets for the root list, which has none.
    pub fn literal(&self) -> (r: Result<&Lit, Diagnostic>)
        ensures
            match self@ {
                ItemView::Lit(l) => r matches Ok(q) && *self == MetaValue::Lit(*q),
                ItemView::Path(p) => r matches Err(e) && e@ == diag(p.span, "expected a literal"@),
                ItemView::List(l) => r matches Err(e) && e@ == diag(
                    list_name_span(l),
                    "expected a literal"@,
                ),
                ItemView::NameValue(nv) => r matches Err(e) && e@ == diag(
                    nv.name.span,
                    "expected a literal"@,
                ),
            },
    {
        match self {
            MetaValue::Lit(lit) => Ok(lit),
            MetaValue::Path(p) => Err(Diagnostic::new(p.span, "expected a literal")),
            MetaValue::List(list) => {
                let span = match &list.name {
                    Some(p) => p.span,
                    None => list.paren,
                };
                Err(Diagnostic::new(span, "expected a literal"))
            },
            MetaValue::NameValue(nv) => Err(Diagnostic::new(nv.name.span, "expected a literal")),
        }
    }

    /// Takes the item as a list. Any other item is an error: at a path, at
    /// the `=` of a name-value pair, at a literal.
    pub fn list(&self) -> (r: Result<&MetaList, Diagnostic>)
        ensures
            match self@ {
                ItemView::List(l) => r matches Ok(q) && *self == MetaValue::List(*q) && q@ == l,
                ItemView::Path(p) => r matches Err(e) && e@ == diag(p.span, "expected a list"@),
                ItemView::NameValue(nv) => r matches Err(e) && e@ == diag(
                    nv.eq,
                    "unexpected =; expected a list"@,
                ),
                ItemView::Lit(l) => r matches Err(e) && e@ == diag(l.span, "expected a list"@),
            },
    {
        match self {
            MetaValue::List(list) => {
                proof {
                    lemma_list_view(*list);
                }
                Ok(list)
            },
            MetaValue::Path(p) => Err(Diagnostic::new(p.span, "expected a list")),
            MetaValue::NameValue(nv) => Err(
                Diagnostic::new(nv.eq, "unexpected =; expected a list"),
            ),
            MetaValue::Lit(lit) => Err(Diagnostic::new(lit.span, "expected a list")),
        }
    }

    /// Makes the item behave as a list: a list stays what it is, any other
    /// item becomes the only child of a root list whose brackets have the
    /// span `call_site`.
    pub fn as_list(&self, call_site: Span) -> (r: MetaValue)
        ensures
            r@ == as_list_spec(self@, call_site),
    {
        match self {
            MetaValue::List(_) => self.clone(),
            _ => {
                let mut list: Vec<MetaValue> = Vec::new();
                list.push(self.clone());
                assert(list@[0]@ == self@);
                let out = MetaList { name: None, paren: call_site, list };
                proof {
                    lemma_list_view(out);
                    assert(out@.children =~= seq![self@]);
                }
                MetaValue::List(out)
            },
        }
    }

    /// The root list without children, with `call_site` for its brackets.
    pub fn empty(call_site: Span) -> (r: MetaValue)
        ensures
            r@ == ItemView::List(
                ListView { name: None, paren: call_site, children: Seq::empty() },
            ),
    {
        let out = MetaList { name: None, paren: call_site, list: Vec::new() };
        proof {
            lemma_list_view(out);
            assert(out@.children =~= Seq::empty());
        }
        MetaValue::List(out)
    }

    /// The span of the whole item.
    pub fn span(&self) -> (s: Span)
        ensures
            s == item_span(self@),
    {
        match self {
            MetaValue::Path(p) => p.span,
            MetaValue::NameValue(nv) => nv.name.span.join(nv.value.span),
            MetaValue::List(list) => {
                proof {
                    lemma_list_view(*list);
                }
                match &list.name {
                    Some(p) => p.span.join(list.paren),
                    None => list.paren,
                }
            },
            MetaValue::Lit(lit) => lit.span,
        }
    }

    /// The name that the item goes by: the last identifier of its path.
    pub fn name(&self) -> (r: Option<&String>)
        ensures
            match item_name(self@) {
                Some(n) => r matches Some(s) && s@ == n,
                None => r is None,
            },
    {
        let path = match self {
            MetaValue::Path(p) => p,
            MetaValue::List(list) => match &list.name {
                Some(p) => p,
                None => {
                    return None;
                },
            },
            MetaValue::NameValue(nv) => &nv.name,
            _ => {
                return None;
            },
        };
        let n = path.segments.len();
        if n > 0 {
            Some(&path.segments[n - 1])
        } else {
            None
        }
    }
}

/// A literal is an item.
impl From<Lit> for MetaValue {
    fn from(l: Lit) -> (r: MetaValue) {
        MetaValue::Lit(l)
    }
}

impl vstd::std_specs::convert::FromSpecImpl<Lit> for MetaValue {
    open spec fn obeys_from_spec() -> bool {
        true
    }

    open spec fn from_spec(l: Lit) -> MetaValue {
        MetaValue::Lit(l)
    }
}

/// The item that starts at `pos`, and the position behind it.
///
/// A path comes first. Behind it `(` opens a nested list, which `)` must
/// close; `=` must be followed by one literal; anything else leaves the path
/// alone. Where no path starts, a literal is the item; where neither does,
/// the error stands at `pos`.
pub open spec fn item_spec(tokens: Seq<Token>, pos: int, end: Span) -> Result<
    (ItemView, int),
    DiagnosticView,
>
    decreases tokens.len() - pos, 0nat,
{
    match path_spec(tokens, pos, end) {
        Ok((name, rest)) => {
            if rest <= pos {
                Err(stalled(end))
            } else if kind_at(tokens, rest, TokenKind::Open(Delim::Paren)) {
                match list_spec(tokens, rest + 1, end, Seq::empty()) {
                    Ok((children, close)) => {
                        if kind_at(tokens, close, TokenKind::Close(Delim::Paren)) {
                            Ok(
                                (
                                    ItemView::List(
                                        ListView {
                                            name: Some(name),
                                            paren: tokens[rest].span.spec_join(tokens[close].span),
                                            children,
                                        },
                                    ),
                                    close + 1,
                                ),
                            )
                        } else {
                            Err(diag(span_at(tokens, close, end), "expected `)`"@))
                        }
                    },
                    Err(e) => Err(e),
                }
            } else if kind_at(tokens, rest, TokenKind::Punct('=')) {
                match lit_at(tokens, rest + 1) {
                    Some((value, next)) => Ok(
                        (
                            ItemView::NameValue(
                                NameValueView { name, eq: tokens[rest].span, value },
                            ),
                            next,
                        ),
                    ),
                    None => Err(diag(span_at(tokens, rest + 1, end), "expected literal"@)),
                }
            } else {
                Ok((ItemView::Path(name), rest))
            }
        },
        Err(_) => {
            match lit_at(tokens, pos) {
                Some((l, next)) => Ok((ItemView::Lit(l), next)),
                None => Err(
                    diag(span_at(tokens, pos, end), "expected a path, list, or literal"@),
                ),
            }
        },
    }
}

/// The items from `pos` to the end of the scope, behind those of `acc`, and
/// the position where the scope ends. Items are separated by commas; one
/// more comma may follow the last.
pub open spec fn list_spec(tokens: Seq<Token>, pos: int, end: Span, acc: Seq<ItemView>) -> Result<
    (Seq<ItemView>, int),
    DiagnosticView,
>
    decreases tokens.len() - pos, 1nat,
{
    if at_end(tokens, pos) {
        Ok((acc, pos))
    } else {
        match item_spec(tokens, pos, end) {
            Ok((item, rest)) => {
                if rest <= pos {
                    Err(stalled(end))
                } else if at_end(tokens, rest) {
                    Ok((acc.push(item), rest))
                } else if kind_at(tokens, rest, TokenKind::Punct(',')) {
                    list_spec(tokens, rest + 1, end, acc.push(item))
                } else {
                    Err(diag(span_at(tokens, rest, end), "expected `,`"@))
                }
            },
            Err(e) => Err(e),
        }
    }
}

/// `r` is the item `spec`, or the error `spec`.
pub open spec fn item_result_is(
    r: Result<MetaValue, Diagnostic>,
    spec: Result<(ItemView, int), DiagnosticView>,
) -> bool {
    match spec {
        Ok((v, _)) => r matches Ok(mv) && mv@ == v,
        Err(d) => r matches Err(e) && e@ == d,
    }
}

/// `r` holds the items `spec`, or is the error `spec`.
pub open spec fn list_result_is(
    r: Result<Vec<MetaValue>, Diagnostic>,
    spec: Result<(Seq<ItemView>, int), DiagnosticView>,
) -> bool {
    match spec {
        Ok((vs, _)) => r matches Ok(list) && items_view(list, list.len() as nat) == vs,
        Err(d) => r matches Err(e) && e@ == d,
    }
}

impl MetaValue {
    /// Reads one item at the cursor and moves the cursor behind it.
    pub fn parse(cur: &mut Cursor) -> (r: Result<MetaValue, Diagnostic>)
        requires
            old(cur).wf(),
        ensures
            final(cur).wf(),
            final(cur).same_input(old(cur)),
            item_result_is(r, item_spec(old(cur).tokens@, old(cur).pos as int, old(cur).end)),
            item_spec(old(cur).tokens@, old(cur).pos as int, old(cur).end) matches Ok((_, next))
                ==> final(cur).pos == next && old(cur).pos < next,
        decreases old(cur).tokens@.len() - old(cur).pos, 0nat,
    {
        match cur.advance_path() {
            Err(_) => match cur.advance_literal() {
                Ok(lit) => Ok(MetaValue::Lit(lit)),
                Err(_) => Err(Diagnostic::new(cur.span(), "expected a path, list, or literal")),
            },
            Ok(name) => match cur.advance_token(TokenClass::Open(Delim::Paren)) {
                Ok(open) => match parse_list(cur) {
                    Err(e) => Err(e),
                    Ok(list) => match cur.advance_token(TokenClass::Close(Delim::Paren)) {
                        Err(e) => Err(e),
                        Ok(close) => {
                            let out = MetaList { name: Some(name), paren: open.join(close), list };
                            proof {
                                lemma_list_view(out);
                            }
                            Ok(MetaValue::List(out))
                        },
                    },
                },
                Err(_) => match cur.advance_token(TokenClass::Equals) {
                    Ok(eq) => match cur.advance_literal() {
                        Err(e) => Err(e),
                        Ok(value) => Ok(MetaValue::NameValue(MetaNameValue { name, eq, value })),
                    },
                    Err(_) => Ok(MetaValue::Path(name)),
                },
            },
        }
    }
}

/// Reads items up to the end of the scope that the cursor stands in, and
/// leaves the cursor there.
pub fn parse_list(cur: &mut Cursor) -> (r: Result<Vec<MetaValue>, Diagnostic>)
    requires
        old(cur).wf(),
    ensures
        final(cur).wf(),
        final(cur).same_input(old(cur)),
        list_result_is(
            r,
            list_spec(old(cur).tokens@, old(cur).pos as int, old(cur).end, Seq::empty()),
        ),
        list_spec(old(cur).tokens@, old(cur).pos as int, old(cur).end, Seq::empty()) matches Ok(
            (_, next),
        ) ==> final(cur).pos == next && old(cur).pos <= next,
    decreases old(cur).tokens@.len() - old(cur).pos, 1nat,
{
    let ghost tokens = cur.tokens@;
    let ghost start = cur.pos as int;
    let ghost end = cur.end;
    let mut list: Vec<MetaValue> = Vec::new();
    loop
        invariant
            cur.wf(),
            cur.same_input(old(cur)),
            cur.tokens@ == tokens,
            cur.end == end,
            start == old(cur).pos,
            start <= cur.pos,
            list_spec(tokens, start, end, Seq::empty()) == list_spec(
                tokens,
                cur.pos as int,
                end,
                items_view(list, list.len() as nat),
            ),
        decreases tokens.len() - cur.pos,
    {
        if cur.is_empty() {
            return Ok(list);
        }
        let ghost before = items_view(list, list.len() as nat);
        let ghost old_list = list;
        match MetaValue::parse(cur) {
            Err(e) => {
                return Err(e);
            },
            Ok(item) => {
                list.push(item);
                proof {
                    lemma_items_view(old_list, old_list.len() as nat);
                    lemma_items_view(list, list.len() as nat);
                    assert(items_view(list, list.len() as nat) =~= before.push(item@));
                }
                if cur.is_empty() {
                    return Ok(list);
                }
                match cur.advance_token(TokenClass::Comma) {
                    Err(e) => {
                        return Err(e);
                    },
                    Ok(_) => {},
                }
            },
        }
    }
}

impl MetaList {
    /// Looks a child up by name and converts the first that goes by it.
    /// Of a name-value pair the literal is converted, as if it stood alone.
    /// `None` where no child goes by the name.
    pub fn get<T: FromMeta>(&self, name: &str) -> (r: Option<Result<T, Diagnostic>>)
        ensures
            (forall|i: int|
                0 <= i < self@.children.len() ==> item_name(#[trigger] self@.children[i]) != Some(
                    name@,
                )) <==> r is None,
            forall|i: int| #[trigger]
                is_first_named(self@.children, name@, i) ==> (r matches Some(res) && T::converts(
                    as_value(self@.children[i]),
                    res,
                )),
    {
        let key = String::from_str(name);
        let mut i: usize = 0;
        proof {
            lemma_list_view(*self);
        }
        while i < self.list.len()
            invariant
                i <= self.list.len(),
                key@ == name@,
                self@.children.len() == self.list.len(),
                forall|j: int|
                    0 <= j < self.list.len() ==> (#[trigger] self@.children[j]) == self.list[j]@,
                forall|j: int| 0 <= j < i ==> item_name(#[trigger] self@.children[j]) != Some(name@),
            decreases self.list.len() - i,
        {
            let child = &self.list[i];
            let found = match child.name() {
                Some(n) => *n == key,
                None => false,
            };
            if found {
                assert(is_first_named(self@.children, name@, i as int));
                let item = match child {
                    MetaValue::NameValue(nv) => MetaValue::Lit(nv.value.clone()),
                    other => other.clone(),
                };
                assert(item@ == as_value(self@.children[i as int]));
                let res = T::from_meta(&item);
                assert forall|k: int| #[trigger]
                    is_first_named(self@.children, name@, k) implies k == i by {
                    if k < i {
                        assert(item_name(self@.children[k]) != Some(name@));
                    } else if i < k {
                        assert(item_name(self@.children[i as int]) == Some(name@));
                    }
                }
                return Some(res);
            }
            i += 1;
        }
        None
    }
}

/// A value that was read from a whole attribute body.
pub struct Meta<T>(pub T);

/// What `r` holds, without the wrapper.
pub open spec fn unwrapped<T>(r: Result<Meta<T>, Diagnostic>) -> Result<T, Diagnostic> {
    match r {
        Ok(m) => Ok(m.0),
        Err(e) => Err(e),
    }
}

impl<T> Meta<T> {
    /// Takes the value out.
    pub fn into_inner(self) -> (t: T)
        ensures
            t == self.0,
    {
        self.0
    }
}

/// A `Meta` can stand where its value is borrowed.
impl<T> std::ops::Deref for Meta<T> {
    type Target = T;

    fn deref(&self) -> (t: &T)
        ensures
            *t == self.0,
    {
        &self.0
    }
}

/// What a whole body gives once its one item is converted, with the
/// outcome `inner`, and the item has ended at `mid`: the input must be used
/// up. A token that is left is an error.
pub open spec fn body_ends<T>(
    tokens: Seq<Token>,
    inner: Result<T, Diagnostic>,
    mid: int,
    r: Result<Meta<T>, Diagnostic>,
) -> bool {
    match inner {
        Err(e) => r == Err::<Meta<T>, Diagnostic>(e),
        Ok(v) => if mid == tokens.len() {
            r == Ok::<Meta<T>, Diagnostic>(Meta(v))
        } else {
            r matches Err(e) && 0 <= mid < tokens.len() && e@ == diag(
                tokens[mid].span,
                "unexpected token"@,
            )
        },
    }
}

/// What reading the whole body `tokens` as a `T` yields. An empty body is
/// the empty root list, whose brackets have the span `call_site`; any other
/// body is one item, which is converted.
pub open spec fn body_reads<T: FromMeta>(
    tokens: Seq<Token>,
    call_site: Span,
    r: Result<Meta<T>, Diagnostic>,
) -> bool {
    if tokens.len() == 0 {
        T::converts(
            ItemView::List(ListView { name: None, paren: call_site, children: Seq::empty() }),
            unwrapped(r),
        )
    } else {
        match item_spec(tokens, 0, call_site) {
            Ok((v, next)) => exists|inner: Result<T, Diagnostic>|
                T::converts(v, inner) && #[trigger] body_ends(tokens, inner, next, r),
            Err(d) => r matches Err(e) && e@ == d,
        }
    }
}

/// Ends a whole body once its one item is converted, with the outcome
/// `inner`, and read up to the cursor: a token that is left is an error at
/// that token.
pub fn finish_body<T>(cursor: &Cursor, inner: Result<T, Diagnostic>) -> (r: Result<
    Meta<T>,
    Diagnostic,
>)
    requires
        cursor.wf(),
    ensures
        body_ends(cursor.tokens@, inner, cursor.pos as int, r),
{
    match inner {
        Err(e) => Err(e),
        Ok(v) => if cursor.is_exhausted() {
            Ok(Meta(v))
        } else {
            Err(Diagnostic::new(cursor.span(), "unexpected token"))
        },
    }
}

impl<T: FromMeta> Meta<T> {
    /// Reads a whole attribute body and converts it. `call_site` is the span
    /// of diagnostics that no token accounts for.
    pub fn parse(tokens: &Vec<Token>, call_site: Span) -> (r: Result<Meta<T>, Diagnostic>)
        ensures
            body_reads(tokens@, call_site, r),
    {
        let mut cur = Cursor::new(tokens, call_site);
        if cur.is_exhausted() {
            let root = MetaValue::empty(call_site);
            match T::from_meta(&root) {
                Ok(t) => Ok(Meta(t)),
                Err(e) => Err(e),
            }
        } else {
            match MetaValue::parse(&mut cur) {
                Err(e) => Err(e),
                Ok(meta) => {
                    let inner = T::from_meta(&meta);
                    let r = finish_body(&cur, inner);
                    assert(body_ends(tokens@, inner, cur.pos as int, r));
                    r
                },
            }
        }
    }
}

impl FromMeta for MetaValue {
    /// An item converts to itself.
    open spec fn converts(v: ItemView, r: Result<Self, Diagnostic>) -> bool {
        r matches Ok(m) && m@ == v
    }

    fn from_meta(a: &MetaValue) -> (r: Result<MetaValue, Diagnostic>) {
        Ok(a.clone())
    }
}

/// The string that the item `v` converts to: `v` must be a literal, and the
/// literal a string. Any other literal is an error at the literal.
pub open spec fn item_string_spec(v: ItemView) -> Result<Seq<char>, DiagnosticView> {
    match v {
        ItemView::Lit(l) => match l.string {
            Some(s) => Ok(s),
            None => Err(diag(l.span, "expected str literal"@)),
        },
        ItemView::Path(p) => Err(diag(p.span, "expected a literal"@)),
        ItemView::List(l) => Err(diag(list_name_span(l), "expected a literal"@)),
        ItemView::NameValue(nv) => Err(diag(nv.name.span, "expected a literal"@)),
    }
}

impl FromMeta for String {
    open spec fn converts(v: ItemView, r: Result<Self, Diagnostic>) -> bool {
        string_result_is(r, item_string_spec(v))
    }

    fn from_meta(a: &MetaValue) -> (r: Result<String, Diagnostic>) {
        match a.literal() {
            Ok(lit) => match &lit.decoded.string {
                Some(s) => Ok(s.clone()),
                None => Err(Diagnostic::new(lit.span, "expected str literal")),
            },
            Err(e) => Err(e),
        }
    }
}

impl<T: FromMeta> FromMeta for Option<T> {
    /// The conversion of the inner type, its value wrapped in `Some`.
    open spec fn converts(v: ItemView, r: Result<Self, Diagnostic>) -> bool {
        match r {
            Ok(Some(t)) => T::converts(v, Ok(t)),
            Ok(None) => false,
            Err(e) => T::converts(v, Err(e)),
        }
    }

    fn from_meta(a: &MetaValue) -> (r: Result<Option<T>, Diagnostic>) {
        match T::from_meta(a) {
            Ok(t) => Ok(Some(t)),
            Err(e) => Err(e),
        }
    }
}

/// An item ends behind where it starts, within the input. So no input
/// stalls the reader of items.
pub proof fn lemma_item_advances(tokens: Seq<Token>, pos: int, end: Span)
    ensures
        item_spec(tokens, pos, end) matches Ok((_, next)) ==> 0 <= pos < next <= tokens.len(),
    decreases tokens.len() - pos, 0nat,
{
    lemma_path_advances(tokens, pos, end);
    match path_spec(tokens, pos, end) {
        Ok((_, rest)) => {
            if kind_at(tokens, rest, TokenKind::Open(Delim::Paren)) {
                lemma_list_advances(tokens, rest + 1, end, Seq::empty());
            }
        },
        Err(_) => {},
    }
}

/// A list ends at or behind where it starts, within the input. So no input
/// stalls the reader of lists.
pub proof fn lemma_list_advances(tokens: Seq<Token>, pos: int, end: Span, acc: Seq<ItemView>)
    requires
        0 <= pos <= tokens.len(),
    ensures
        list_spec(tokens, pos, end, acc) matches Ok((_, next)) ==> pos <= next <= tokens.len(),
    decreases tokens.len() - pos, 1nat,
{
    if !at_end(tokens, pos) {
        lemma_item_advances(tokens, pos, end);
        match item_spec(tokens, pos, end) {
            Ok((item, rest)) => {
                if !at_end(tokens, rest) && kind_at(tokens, rest, TokenKind::Punct(',')) {
                    lemma_list_advances(tokens, rest + 1, end, acc.push(item));
                }
            },
            Err(_) => {},
        }
    }
}

} // verus!
