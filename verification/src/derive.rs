//! What deriving an assembler for a record decides: which items can have
//! one, which fields fall back to a default, and how a field that was not
//! given is resolved.

use vstd::prelude::*;
use vstd::string::*;
use crate::token::{Diagnostic, DiagnosticView, Span, Token, TokenKind, diag};
use crate::cursor::{Cursor, Path, PathView, TokenClass, at_end, kind_at, path_spec, span_at};
use crate::stream::Name;

verus! {

/// What stands behind the path of an attribute.
pub enum AttrArgs {
    /// Nothing.
    Missing,
    /// `=`, with its span, and whatever follows it.
    Equals(Span),
    /// A first token, with its span, that is neither `=` nor a bracket.
    Other(Span),
    /// One group in brackets of any kind: the tokens between the brackets,
    /// and the span of the first token behind the group, if there is one.
    Group { tokens: Vec<Token>, trailing: Option<Span> },
}

/// An attribute on a field: its path, what stands behind the path, and the
/// span of the whole.
pub struct Attribute {
    pub path: Path,
    pub args: AttrArgs,
    pub span: Span,
}

/// A named field of a record.
pub struct Field {
    pub ident: String,
    pub attrs: Vec<Attribute>,
}

/// The fields of a record. Of fields without names only the span is kept.
pub enum Fields {
    Named(Vec<Field>),
    Unnamed(Span),
    Unit(Span),
}

/// The item that an assembler is asked for. Of an enum and of a union only
/// the span of the keyword is kept.
pub enum Data {
    Struct(Fields),
    Enum(Span),
    Union(Span),
}

pub struct DeriveInput {
    pub ident: String,
    pub data: Data,
}

/// A field as the assembler treats it.
#[derive(Debug, PartialEq, Eq)]
pub struct NamedField {
    /// A field that is not given gets its type's default value.
    pub use_default: bool,
    pub ident: String,
}

/// The assembler that was derived: the record's name and its fields in
/// order.
#[derive(Debug, PartialEq, Eq)]
pub struct Derived {
    pub record_name: String,
    pub fields: Vec<NamedField>,
}

/// The segments from `i` on, each but the first of the path with ` :: `
/// before it.
pub open spec fn segments_text(segments: Seq<Seq<char>>, i: int) -> Seq<char>
    decreases segments.len() - i,
{
    if 0 <= i < segments.len() {
        (if i == 0 {
            Seq::<char>::empty()
        } else {
            " :: "@
        }) + segments[i] + segments_text(segments, i + 1)
    } else {
        Seq::empty()
    }
}

/// The path as text: its segments with ` :: ` between them.
pub open spec fn path_text(p: PathView) -> Seq<char> {
    segments_text(p.segments, 0)
}

/// The path is the single identifier `word`.
pub open spec fn is_word(p: PathView, word: Seq<char>) -> bool {
    p.segments.len() == 1 && p.segments[0] == word
}

impl Path {
    /// The path as text.
    pub fn render(&self) -> (s: String)
        ensures
            s@ == path_text(self@),
    {
        let mut out = String::new();
        let n = self.segments.len();
        let mut i: usize = n;
        assert(out@ =~= segments_text(self@.segments, n as int));
        while i > 0
            invariant
                i <= n,
                n == self.segments.len(),
                n == self@.segments.len(),
                out@ == segments_text(self@.segments, i as int),
            decreases i,
        {
            i -= 1;
            let mut piece = if i == 0 {
                String::new()
            } else {
                String::from_str(" :: ")
            };
            piece.append(self.segments[i].as_str());
            piece.append(out.as_str());
            assert(self@.segments[i as int] == self.segments@[i as int]@);
            out = piece;
        }
        out
    }

    /// The path is the single identifier `word`.
    pub fn is_word(&self, word: &str) -> (r: bool)
        ensures
            r == is_word(self@, word@),
    {
        if self.segments.len() == 1 {
            let w = String::from_str(word);
            assert(self@.segments[0] == self.segments@[0]@);
            self.segments[0] == w
        } else {
            false
        }
    }
}

/// The paths from `pos` to the end of the scope, behind those of `acc`,
/// and the position where the scope ends: the paths are separated by commas,
/// with one more comma allowed behind the last.
pub open spec fn paths_spec(tokens: Seq<Token>, pos: int, end: Span, acc: Seq<PathView>) -> Result<
    (Seq<PathView>, int),
    DiagnosticView,
>
    decreases tokens.len() - pos,
{
    if at_end(tokens, pos) {
        Ok((acc, pos))
    } else {
        match path_spec(tokens, pos, end) {
            Ok((p, next)) => {
                if next <= pos || at_end(tokens, next) {
                    Ok((acc.push(p), next))
                } else if kind_at(tokens, next, TokenKind::Punct(',')) {
                    paths_spec(tokens, next + 1, end, acc.push(p))
                } else {
                    Err(diag(span_at(tokens, next, end), "expected `,`"@))
                }
            },
            Err(d) => Err(d),
        }
    }
}

/// The views of the paths of `paths`.
pub open spec fn path_views(paths: Seq<Path>) -> Seq<PathView> {
    paths.map_values(|p: Path| p@)
}

/// Reads the paths of a comma-separated list up to the end of the scope.
pub fn parse_paths(cur: &mut Cursor) -> (r: Result<Vec<Path>, Diagnostic>)
    requires
        old(cur).wf(),
    ensures
        final(cur).wf(),
        final(cur).same_input(old(cur)),
        match paths_spec(old(cur).tokens@, old(cur).pos as int, old(cur).end, Seq::empty()) {
            Ok((ps, next)) => r matches Ok(paths) && path_views(paths@) == ps && final(cur).pos
                == next,
            Err(d) => r matches Err(e) && e@ == d,
        },
{
    let ghost tokens = cur.tokens@;
    let ghost start = cur.pos as int;
    let ghost end = cur.end;
    let mut paths: Vec<Path> = Vec::new();
    assert(path_views(paths@) =~= Seq::empty());
    loop
        invariant
            cur.wf(),
            cur.same_input(old(cur)),
            cur.tokens@ == tokens,
            cur.end == end,
            start == old(cur).pos,
            paths_spec(tokens, start, end, Seq::empty()) == paths_spec(
                tokens,
                cur.pos as int,
                end,
                path_views(paths@),
            ),
        decreases tokens.len() - cur.pos,
    {
        if cur.is_empty() {
            return Ok(paths);
        }
        let ghost before = path_views(paths@);
        match cur.advance_path() {
            Err(e) => {
                return Err(e);
            },
            Ok(path) => {
                paths.push(path);
                assert(path_views(paths@) =~= before.push(path@));
                if cur.is_empty() {
                    return Ok(paths);
                }
                match cur.advance_token(TokenClass::Comma) {
                    Err(e) => {
                        return Err(e);
                    },
                    Ok(_) => {},
                }
            },
        }
    }
}

/// Whether the flags from `i` on ask for the default, given that those
/// before did if `acc`: `default` asks for it, any other path is an error
/// at that path, which the message names.
pub open spec fn flags_spec(paths: Seq<PathView>, i: int, acc: bool) -> Result<
    bool,
    DiagnosticView,
>
    decreases paths.len() - i,
{
    if 0 <= i < paths.len() {
        if is_word(paths[i], "default"@) {
            flags_spec(paths, i + 1, true)
        } else {
            Err(diag(paths[i].span, "unexpected: "@ + path_text(paths[i])))
        }
    } else {
        Ok(acc)
    }
}

/// Whether a `macrotk` attribute asks for the default. Its arguments must
/// be one group in brackets, with nothing behind it: no arguments at all are
/// an error at the attribute, `=` and any other token where the group should
/// stand or behind it are errors at that token. The group is read as a list
/// of paths first, to its last token: an error in their syntax comes before
/// an error in what they name.
pub open spec fn attr_spec(attr: Attribute) -> Result<bool, DiagnosticView> {
    match attr.args {
        AttrArgs::Missing => Err(
            diag(attr.span, "expected attribute arguments in parentheses: #[macrotk(...)]"@),
        ),
        AttrArgs::Equals(span) => Err(diag(span, "expected parentheses: #[macrotk(...)]"@)),
        AttrArgs::Other(span) => Err(diag(span, "unexpected token in attribute arguments"@)),
        AttrArgs::Group { tokens, trailing } => match trailing {
            Some(span) => Err(diag(span, "unexpected token in attribute arguments"@)),
            None => match paths_spec(tokens@, 0, attr.span, Seq::empty()) {
                Ok((ps, next)) => if next == tokens@.len() {
                    flags_spec(ps, 0, false)
                } else {
                    Err(diag(span_at(tokens@, next, attr.span), "unexpected token"@))
                },
                Err(d) => Err(d),
            },
        },
    }
}

/// Reads one `macrotk` attribute.
pub fn read_attribute(attr: &Attribute) -> (r: Result<bool, Diagnostic>)
    ensures
        match attr_spec(*attr) {
            Ok(b) => r == Ok::<bool, Diagnostic>(b),
            Err(d) => r matches Err(e) && e@ == d,
        },
{
    match &attr.args {
        AttrArgs::Missing => Err(
            Diagnostic::new(
                attr.span,
                "expected attribute arguments in parentheses: #[macrotk(...)]",
            ),
        ),
        AttrArgs::Equals(span) => Err(
            Diagnostic::new(*span, "expected parentheses: #[macrotk(...)]"),
        ),
        AttrArgs::Other(span) => Err(
            Diagnostic::new(*span, "unexpected token in attribute arguments"),
        ),
        AttrArgs::Group { tokens, trailing } => match trailing {
            Some(span) => Err(Diagnostic::new(*span, "unexpected token in attribute arguments")),
            None => {
                let mut cur = Cursor::new(tokens, attr.span);
                match parse_paths(&mut cur) {
                    Err(e) => Err(e),
                    Ok(paths) => if cur.is_exhausted() {
                        check_flags(&paths)
                    } else {
                        Err(Diagnostic::new(cur.span(), "unexpected token"))
                    },
                }
            },
        },
    }
}

/// Whether the attributes from `i` on ask for the default, given that those
/// before did if `acc`. Only attributes named `macrotk` count.
pub open spec fn use_default_spec(attrs: Seq<Attribute>, i: int, acc: bool) -> Result<
    bool,
    DiagnosticView,
>
    decreases attrs.len() - i,
{
    if 0 <= i < attrs.len() {
        if is_word(attrs[i].path@, "macrotk"@) {
            match attr_spec(attrs[i]) {
                Ok(b) => use_default_spec(attrs, i + 1, acc || b),
                Err(d) => Err(d),
            }
        } else {
            use_default_spec(attrs, i + 1, acc)
        }
    } else {
        Ok(acc)
    }
}

/// Checks the flags of one attribute, once they are read as paths.
pub fn check_flags(paths: &Vec<Path>) -> (r: Result<bool, Diagnostic>)
    ensures
        match flags_spec(path_views(paths@), 0, false) {
            Ok(b) => r == Ok::<bool, Diagnostic>(b),
            Err(d) => r matches Err(e) && e@ == d,
        },
{
    let mut use_default = false;
    let mut i: usize = 0;
    while i < paths.len()
        invariant
            i <= paths.len(),
            flags_spec(path_views(paths@), 0, false) == flags_spec(
                path_views(paths@),
                i as int,
                use_default,
            ),
        decreases paths.len() - i,
    {
        assert(path_views(paths@)[i as int] == paths@[i as int]@);
        if paths[i].is_word("default") {
            use_default = true;
        } else {
            let mut message = String::from_str("unexpected: ");
            message.append(paths[i].render().as_str());
            return Err(Diagnostic { span: paths[i].span, message });
        }
        i += 1;
    }
    Ok(use_default)
}

impl NamedField {
    /// Decides how a field is treated: it falls back to its default where a
    /// `macrotk` attribute on it says `default`. Anything else in such an
    /// attribute is an error.
    pub fn new(f: &Field) -> (r: Result<NamedField, Diagnostic>)
        ensures
            match use_default_spec(f.attrs@, 0, false) {
                Ok(b) => r matches Ok(nf) && nf.use_default == b && nf.ident@ == f.ident@,
                Err(d) => r matches Err(e) && e@ == d,
            },
    {
        let mut use_default = false;
        let mut i: usize = 0;
        while i < f.attrs.len()
            invariant
                i <= f.attrs.len(),
                use_default_spec(f.attrs@, 0, false) == use_default_spec(
                    f.attrs@,
                    i as int,
                    use_default,
                ),
            decreases f.attrs.len() - i,
        {
            let attr = &f.attrs[i];
            if attr.path.is_word("macrotk") {
                match read_attribute(attr) {
                    Err(e) => {
                        return Err(e);
                    },
                    Ok(b) => {
                        use_default = use_default || b;
                    },
                }
            }
            i += 1;
        }
        Ok(NamedField { use_default, ident: f.ident.clone() })
    }
}

/// The fields from `i` on as the assembler treats them, behind those of
/// `acc`; the first field that is in error decides.
pub open spec fn fields_spec(fields: Seq<Field>, i: int, acc: Seq<(bool, Seq<char>)>) -> Result<
    Seq<(bool, Seq<char>)>,
    DiagnosticView,
>
    decreases fields.len() - i,
{
    if 0 <= i < fields.len() {
        match use_default_spec(fields[i].attrs@, 0, false) {
            Ok(b) => fields_spec(fields, i + 1, acc.push((b, fields[i].ident@))),
            Err(d) => Err(d),
        }
    } else {
        Ok(acc)
    }
}

/// What deriving for `input` yields: the fields of a record with named
/// fields; an error at the keyword of an enum or a union, and at fields
/// without names.
pub open spec fn derive_spec(input: DeriveInput) -> Result<Seq<(bool, Seq<char>)>, DiagnosticView> {
    match input.data {
        Data::Struct(Fields::Named(fields)) => fields_spec(fields@, 0, Seq::empty()),
        Data::Struct(Fields::Unnamed(span)) => Err(
            diag(span, "struct can only have named fields"@),
        ),
        Data::Struct(Fields::Unit(span)) => Err(diag(span, "struct can only have named fields"@)),
        Data::Enum(span) => Err(diag(span, "only structs are supported"@)),
        Data::Union(span) => Err(diag(span, "only structs are supported"@)),
    }
}

/// The fields of `fields` as pairs of policy and name.
pub open spec fn field_views(fields: Seq<NamedField>) -> Seq<(bool, Seq<char>)> {
    fields.map_values(|f: NamedField| (f.use_default, f.ident@))
}

/// Derives the assembler of a record: only a struct with named fields has
/// one.
pub fn derive_from_meta(input: &DeriveInput) -> (r: Result<Derived, Diagnostic>)
    ensures
        match derive_spec(*input) {
            Ok(fs) => r matches Ok(d) && d.record_name@ == input.ident@ && field_views(d.fields@)
                == fs,
            Err(d) => r matches Err(e) && e@ == d,
        },
{
    match &input.data {
        Data::Enum(span) => Err(Diagnostic::new(*span, "only structs are supported")),
        Data::Union(span) => Err(Diagnostic::new(*span, "only structs are supported")),
        Data::Struct(Fields::Unnamed(span)) => Err(
            Diagnostic::new(*span, "struct can only have named fields"),
        ),
        Data::Struct(Fields::Unit(span)) => Err(
            Diagnostic::new(*span, "struct can only have named fields"),
        ),
        Data::Struct(Fields::Named(fields)) => {
            let mut out: Vec<NamedField> = Vec::new();
            let mut i: usize = 0;
            assert(field_views(out@) =~= Seq::empty());
            while i < fields.len()
                invariant
                    i <= fields.len(),
                    derive_spec(*input) == fields_spec(fields@, 0, Seq::empty()),
                    fields_spec(fields@, 0, Seq::empty()) == fields_spec(
                        fields@,
                        i as int,
                        field_views(out@),
                    ),
                decreases fields.len() - i,
            {
                let ghost before = field_views(out@);
                match NamedField::new(&fields[i]) {
                    Err(e) => {
                        return Err(e);
                    },
                    Ok(nf) => {
                        out.push(nf);
                        assert(field_views(out@) =~= before.push(
                            (nf.use_default, fields@[i as int].ident@),
                        ));
                    },
                }
                i += 1;
            }
            Ok(Derived { record_name: input.ident.clone(), fields: out })
        },
    }
}

/// The error for a required field that was not given.
pub open spec fn missing(field: Seq<char>, call_site: Span) -> DiagnosticView {
    diag(call_site, "missing value for "@ + field)
}

/// Resolves a required field from what the lookup by its name gave: the
/// value that was found, the error of its conversion, or, where nothing was
/// found, the error at `call_site` that names the field.
pub fn required<T>(found: Option<Result<T, Diagnostic>>, field: &str, call_site: Span) -> (r:
    Result<T, Diagnostic>)
    ensures
        match found {
            Some(res) => r == res,
            None => r matches Err(e) && e@ == missing(field@, call_site),
        },
{
    match found {
        Some(res) => res,
        None => {
            let mut message = String::from_str("missing value for ");
            message.append(field);
            Err(Diagnostic { span: call_site, message })
        },
    }
}

/// Resolves a defaulted field from what the lookup by its name gave: the
/// value that was found, the error of its conversion, or, where nothing was
/// found, `default`.
pub fn defaulted<T>(found: Option<Result<T, Diagnostic>>, default: T) -> (r: Result<T, Diagnostic>)
    ensures
        match found {
            Some(res) => r == res,
            None => r == Ok::<T, Diagnostic>(default),
        },
{
    match found {
        Some(res) => res,
        None => Ok(default),
    }
}

/// The error for a name that no field of the record has.
pub fn unexpected_key(name: &Name) -> (d: Diagnostic)
    ensures
        d@ == diag(name@.span, "unexpected key"@),
{
    Diagnostic::new(name.span, "unexpected key")
}

/// The error for the name of a field that was given before.
pub fn duplicate_key(name: &Name) -> (d: Diagnostic)
    ensures
        d@ == diag(name@.span, "duplicate key"@),
{
    Diagnostic::new(name.span, "duplicate key")
}

} // verus!
