//! Assembling a record from a stream of pairs: each field has a slot, a
//! pair fills the slot of the field it names, and a slot that stays empty is
//! resolved by the field's policy.
//!
//! A name that occurs twice is an error at its second occurrence: no value
//! is silently overwritten.

use vstd::prelude::*;
use vstd::string::*;
use crate::token::{Delim, Diagnostic, DiagnosticView, Span, Token, TokenKind, diag};
use crate::cursor::{
    Cursor, LitView, PathView, TokenClass, at_end, is_literal, is_path_start, kind_at, lit_of,
    path_rest, span_at, stalled, token_text,
};
use crate::derive::{duplicate_key, unexpected_key};
use crate::literal::{bool_spec, int_spec, string_spec};
use crate::pairs::written_pairs;
use crate::stream::{
    FromMetaValue, MetaStream, Name, NameView, bool_read, int_read, name_of, name_spec,
    string_read,
};

verus! {

/// The type of a field.
pub enum FieldType {
    Str,
    Bool,
    Int,
    /// A nested record, written in braces.
    Record(Vec<FieldSpec>),
}

/// A field of a record: its name, its type, and whether it falls back to
/// the default of its type where it is not given. A field that does not is
/// required.
pub struct FieldSpec {
    pub name: String,
    pub ty: FieldType,
    pub use_default: bool,
}

/// A value of a field. A record holds the values of its fields in the order
/// in which they are declared.
#[derive(Debug, PartialEq, Eq)]
pub enum Value {
    Str(String),
    Bool(bool),
    Int(i64),
    Record(Vec<Value>),
}

pub enum ValueView {
    Str(Seq<char>),
    Bool(bool),
    Int(i64),
    Record(Seq<ValueView>),
}

/// The view of a value.
pub open spec fn value_view(v: Value) -> ValueView
    decreases v, 0nat,
{
    match v {
        Value::Str(s) => ValueView::Str(s@),
        Value::Bool(b) => ValueView::Bool(b),
        Value::Int(n) => ValueView::Int(n),
        Value::Record(vs) => ValueView::Record(values_view(vs, vs.len() as nat)),
    }
}

/// The views of the first `n` values of `list`, in order.
pub open spec fn values_view(list: Vec<Value>, n: nat) -> Seq<ValueView>
    decreases list, n,
{
    if n == 0 || n > list.len() {
        Seq::empty()
    } else {
        values_view(list, (n - 1) as nat).push(value_view(list[n - 1]))
    }
}

impl View for Value {
    type V = ValueView;

    open spec fn view(&self) -> ValueView {
        value_view(*self)
    }
}

/// `values_view` holds the view of each value, at the value's index.
pub proof fn lemma_values_view(list: Vec<Value>, n: nat)
    requires
        n <= list.len(),
    ensures
        values_view(list, n).len() == n,
        forall|i: int| 0 <= i < n ==> (#[trigger] values_view(list, n)[i]) == list[i]@,
    decreases n,
{
    if n > 0 {
        lemma_values_view(list, (n - 1) as nat);
    }
}

impl Clone for Value {
    fn clone(&self) -> (r: Value)
        ensures
            r@ == self@,
        decreases *self,
    {
        match self {
            Value::Str(s) => Value::Str(s.clone()),
            Value::Bool(b) => Value::Bool(*b),
            Value::Int(n) => Value::Int(*n),
            Value::Record(vs) => {
                let mut out: Vec<Value> = Vec::new();
                let mut i: usize = 0;
                while i < vs.len()
                    invariant
                        i <= vs.len(),
                        out@.len() == i,
                        forall|j: int| 0 <= j < i ==> out@[j]@ == vs@[j]@,
                        *self == Value::Record(*vs),
                    decreases vs.len() - i,
                {
                    let child = &vs[i];
                    proof {
                        assert(self->Record_0 == *vs);
                        assert(decreases_to!(*self => self->Record_0[i as int]));
                    }
                    out.push(child.clone());
                    i += 1;
                }
                proof {
                    lemma_values_view(out, out.len() as nat);
                    lemma_values_view(*vs, vs.len() as nat);
                    assert(values_view(out, out.len() as nat) =~= values_view(
                        *vs,
                        vs.len() as nat,
                    ));
                }
                Value::Record(out)
            },
        }
    }
}

/// The default of a type: the empty string, `false`, zero, and the record
/// whose fields all have their defaults.
pub open spec fn default_value(ty: FieldType) -> ValueView
    decreases ty, 0nat,
{
    match ty {
        FieldType::Str => ValueView::Str(Seq::empty()),
        FieldType::Bool => ValueView::Bool(false),
        FieldType::Int => ValueView::Int(0),
        FieldType::Record(fields) => ValueView::Record(
            default_values(fields, fields.len() as nat),
        ),
    }
}

/// The defaults of the first `n` fields of `fields`, in order.
pub open spec fn default_values(fields: Vec<FieldSpec>, n: nat) -> Seq<ValueView>
    decreases fields, n,
{
    if n == 0 || n > fields.len() {
        Seq::empty()
    } else {
        default_values(fields, (n - 1) as nat).push(default_value(fields[n - 1].ty))
    }
}

impl FieldType {
    /// The default of the type.
    pub fn default_of(&self) -> (v: Value)
        ensures
            v@ == default_value(*self),
        decreases *self,
    {
        match self {
            FieldType::Str => Value::Str(String::new()),
            FieldType::Bool => Value::Bool(false),
            FieldType::Int => Value::Int(0),
            FieldType::Record(fields) => {
                let mut out: Vec<Value> = Vec::new();
                let mut i: usize = 0;
                while i < fields.len()
                    invariant
                        i <= fields.len(),
                        out@.len() == i,
                        values_view(out, i as nat) == default_values(*fields, i as nat),
                        *self == FieldType::Record(*fields),
                    decreases fields.len() - i,
                {
                    let field = &fields[i];
                    proof {
                        assert(self->Record_0 == *fields);
                        assert(decreases_to!(*self => self->Record_0[i as int].ty));
                    }
                    let ghost before = out;
                    out.push(field.ty.default_of());
                    proof {
                        lemma_values_view(before, i as nat);
                        lemma_values_view(out, (i + 1) as nat);
                        assert(values_view(out, (i + 1) as nat) =~= values_view(before, i as nat).push(
                            default_value(field.ty),
                        ));
                    }
                    i += 1;
                }
                Value::Record(out)
            },
        }
    }
}

/// The first field from `i` on that is named `name`.
pub open spec fn field_index(schema: Seq<FieldSpec>, name: Seq<char>, i: int) -> Option<int>
    decreases schema.len() - i,
{
    if 0 <= i < schema.len() {
        if schema[i].name@ == name {
            Some(i)
        } else {
            field_index(schema, name, i + 1)
        }
    } else {
        None
    }
}

/// Resolves the slots from `i` on, behind the values of `acc`: a filled
/// slot gives its value, an empty one the default of a defaulted field; the
/// first empty slot of a required field is an error at `end` that names the
/// field.
pub open spec fn resolve_spec(
    schema: Seq<FieldSpec>,
    slots: Seq<Option<ValueView>>,
    end: Span,
    i: int,
    acc: Seq<ValueView>,
) -> Result<Seq<ValueView>, DiagnosticView>
    decreases schema.len() - i,
{
    if 0 <= i < schema.len() {
        match slots[i] {
            Some(v) => resolve_spec(schema, slots, end, i + 1, acc.push(v)),
            None => if schema[i].use_default {
                resolve_spec(schema, slots, end, i + 1, acc.push(default_value(schema[i].ty)))
            } else {
                Err(diag(end, "missing value for "@ + schema[i].name@))
            },
        }
    } else {
        Ok(acc)
    }
}

/// The slots resolved, with the position `pos` where the scan ended.
pub open spec fn resolved_at(
    schema: Seq<FieldSpec>,
    slots: Seq<Option<ValueView>>,
    end: Span,
    pos: int,
) -> Result<(Seq<ValueView>, int), DiagnosticView> {
    match resolve_spec(schema, slots, end, 0, Seq::empty()) {
        Ok(vals) => Ok((vals, pos)),
        Err(d) => Err(d),
    }
}

/// The value of the type `ty` that stands at `pos`, and the position behind
/// it: a literal of that type, or a record in braces.
pub open spec fn value_spec(tokens: Seq<Token>, pos: int, end: Span, ty: FieldType) -> Result<
    (ValueView, int),
    DiagnosticView,
>
    decreases tokens.len() - pos, 0nat,
{
    match ty {
        FieldType::Str => match string_read(tokens, pos, end) {
            Ok((s, n)) => Ok((ValueView::Str(s), n)),
            Err(d) => Err(d),
        },
        FieldType::Bool => match bool_read(tokens, pos, end) {
            Ok((b, n)) => Ok((ValueView::Bool(b), n)),
            Err(d) => Err(d),
        },
        FieldType::Int => match int_read(tokens, pos, end) {
            Ok((k, n)) => Ok((ValueView::Int(k), n)),
            Err(d) => Err(d),
        },
        FieldType::Record(fields) => {
            if kind_at(tokens, pos, TokenKind::Open(Delim::Brace)) {
                match scan_spec(tokens, pos + 1, end, fields@, empty_slots(fields@.len())) {
                    Ok((vals, mid)) => if kind_at(tokens, mid, TokenKind::Close(Delim::Brace)) {
                        Ok((ValueView::Record(vals), mid + 1))
                    } else {
                        Err(diag(span_at(tokens, mid, end), "expected `}`"@))
                    },
                    Err(d) => Err(d),
                }
            } else {
                Err(diag(span_at(tokens, pos, end), "expected `{`"@))
            }
        },
    }
}

/// `n` slots, all empty.
pub open spec fn empty_slots(n: nat) -> Seq<Option<ValueView>> {
    Seq::new(n, |i: int| None)
}

/// The record that the pairs from `pos` to the end of the scope give, with
/// the slots `slots` filled before, and the position where the scope ends.
///
/// A name that no field has is an error at the name, and so is the name of
/// a field whose slot is filled. Between two pairs a comma must stand.
pub open spec fn scan_spec(
    tokens: Seq<Token>,
    pos: int,
    end: Span,
    schema: Seq<FieldSpec>,
    slots: Seq<Option<ValueView>>,
) -> Result<(Seq<ValueView>, int), DiagnosticView>
    decreases tokens.len() - pos, 1nat,
{
    match name_spec(tokens, pos, end) {
        Err(d) => Err(d),
        Ok((None, _)) => resolved_at(schema, slots, end, pos),
        Ok((Some(name), rest)) => match field_index(schema, name.text, 0) {
            None => Err(diag(name.span, "unexpected key"@)),
            Some(k) => {
                if slots[k] is Some {
                    Err(diag(name.span, "duplicate key"@))
                } else if !(pos <= rest <= tokens.len()) {
                    Err(stalled(end))
                } else {
                    match value_spec(tokens, rest, end, schema[k].ty) {
                        Err(d) => Err(d),
                        Ok((v, mid)) => {
                            if at_end(tokens, mid) {
                                resolved_at(schema, slots.update(k, Some(v)), end, mid)
                            } else if mid <= pos {
                                Err(stalled(end))
                            } else if kind_at(tokens, mid, TokenKind::Punct(',')) {
                                scan_spec(tokens, mid + 1, end, schema, slots.update(k, Some(v)))
                            } else {
                                Err(diag(span_at(tokens, mid, end), "expected `,`"@))
                            }
                        },
                    }
                }
            },
        },
    }
}

/// The view of a slot.
pub open spec fn slot_view(s: Option<Value>) -> Option<ValueView> {
    match s {
        Some(v) => Some(v@),
        None => None,
    }
}

/// The views of the slots.
pub open spec fn slots_view(slots: Seq<Option<Value>>) -> Seq<Option<ValueView>> {
    slots.map_values(|s: Option<Value>| slot_view(s))
}

/// `r` holds the values `spec`, or is the error `spec`.
pub open spec fn record_result_is(
    r: Result<Vec<Value>, Diagnostic>,
    spec: Result<(Seq<ValueView>, int), DiagnosticView>,
) -> bool {
    match spec {
        Ok((vals, _)) => r matches Ok(list) && values_view(list, list.len() as nat) == vals,
        Err(d) => r matches Err(e) && e@ == d,
    }
}

/// `r` is the value `spec`, or the error `spec`.
pub open spec fn value_result_is(
    r: Result<Value, Diagnostic>,
    spec: Result<(ValueView, int), DiagnosticView>,
) -> bool {
    match spec {
        Ok((v, _)) => r matches Ok(val) && val@ == v,
        Err(d) => r matches Err(e) && e@ == d,
    }
}

/// Finds the field that a name means: the first that is named so.
pub fn find_field(schema: &Vec<FieldSpec>, name: &Name) -> (r: Option<usize>)
    ensures
        match field_index(schema@, name@.text, 0) {
            Some(k) => r == Some(k as usize) && 0 <= k < schema@.len(),
            None => r is None,
        },
{
    let mut i: usize = 0;
    while i < schema.len()
        invariant
            i <= schema.len(),
            field_index(schema@, name@.text, 0) == field_index(schema@, name@.text, i as int),
        decreases schema.len() - i,
    {
        if schema[i].name == name.name {
            return Some(i);
        }
        i += 1;
    }
    None
}

/// Resolves the slots once the scan is over: every field gets the value in
/// its slot or its default, or the first required field without a value is
/// reported at `end`.
pub fn resolve(schema: &Vec<FieldSpec>, slots: &Vec<Option<Value>>, end: Span) -> (r: Result<
    Vec<Value>,
    Diagnostic,
>)
    requires
        slots@.len() == schema@.len(),
    ensures
        match resolve_spec(schema@, slots_view(slots@), end, 0, Seq::empty()) {
            Ok(vals) => r matches Ok(list) && values_view(list, list.len() as nat) == vals,
            Err(d) => r matches Err(e) && e@ == d,
        },
{
    let mut out: Vec<Value> = Vec::new();
    let mut i: usize = 0;
    while i < schema.len()
        invariant
            i <= schema.len(),
            slots@.len() == schema@.len(),
            resolve_spec(schema@, slots_view(slots@), end, 0, Seq::empty()) == resolve_spec(
                schema@,
                slots_view(slots@),
                end,
                i as int,
                values_view(out, out.len() as nat),
            ),
        decreases schema.len() - i,
    {
        let ghost before = out;
        assert(slots_view(slots@)[i as int] == slot_view(slots@[i as int]));
        let value = match &slots[i] {
            Some(v) => v.clone(),
            None => {
                if schema[i].use_default {
                    schema[i].ty.default_of()
                } else {
                    let mut message = String::from_str("missing value for ");
                    message.append(schema[i].name.as_str());
                    return Err(Diagnostic { span: end, message });
                }
            },
        };
        out.push(value);
        proof {
            lemma_values_view(before, before.len() as nat);
            lemma_values_view(out, out.len() as nat);
            assert(values_view(out, out.len() as nat) =~= values_view(
                before,
                before.len() as nat,
            ).push(value@));
        }
        i += 1;
    }
    Ok(out)
}

/// Reads one value of the type `ty` at the cursor.
pub fn read_value(cur: &mut Cursor, ty: &FieldType) -> (r: Result<Value, Diagnostic>)
    requires
        old(cur).wf(),
    ensures
        final(cur).wf(),
        final(cur).same_input(old(cur)),
        value_result_is(r, value_spec(old(cur).tokens@, old(cur).pos as int, old(cur).end, *ty)),
        value_spec(old(cur).tokens@, old(cur).pos as int, old(cur).end, *ty) matches Ok((_, next))
            ==> final(cur).pos == next && old(cur).pos < next,
    decreases old(cur).tokens@.len() - old(cur).pos, 0nat,
{
    match ty {
        FieldType::Str => match String::from_meta_value(cur) {
            Ok(s) => Ok(Value::Str(s)),
            Err(e) => Err(e),
        },
        FieldType::Bool => match bool::from_meta_value(cur) {
            Ok(b) => Ok(Value::Bool(b)),
            Err(e) => Err(e),
        },
        FieldType::Int => match i64::from_meta_value(cur) {
            Ok(n) => Ok(Value::Int(n)),
            Err(e) => Err(e),
        },
        FieldType::Record(fields) => {
            match cur.advance_token(TokenClass::Open(Delim::Brace)) {
                Err(e) => Err(e),
                Ok(_) => {
                    let mut stream = MetaStream {
                        cursor: Cursor { tokens: cur.tokens, pos: cur.pos, end: cur.end },
                    };
                    let inner = assemble(&mut stream, fields);
                    cur.pos = stream.cursor.pos;
                    match inner {
                        Err(e) => Err(e),
                        Ok(vals) => match cur.advance_token(TokenClass::Close(Delim::Brace)) {
                            Err(e) => Err(e),
                            Ok(_) => Ok(Value::Record(vals)),
                        },
                    }
                },
            }
        },
    }
}

/// Assembles the record that `schema` declares from the pairs at the
/// stream, up to the end of the scope. The values come in the order of the
/// fields.
pub fn assemble(stream: &mut MetaStream, schema: &Vec<FieldSpec>) -> (r: Result<
    Vec<Value>,
    Diagnostic,
>)
    requires
        old(stream).wf(),
    ensures
        final(stream).wf(),
        final(stream).cursor.same_input(&old(stream).cursor),
        record_result_is(
            r,
            scan_spec(
                old(stream).cursor.tokens@,
                old(stream).cursor.pos as int,
                old(stream).cursor.end,
                schema@,
                empty_slots(schema@.len()),
            ),
        ),
        scan_spec(
            old(stream).cursor.tokens@,
            old(stream).cursor.pos as int,
            old(stream).cursor.end,
            schema@,
            empty_slots(schema@.len()),
        ) matches Ok((_, next)) ==> final(stream).cursor.pos == next && old(stream).cursor.pos
            <= next,
    decreases old(stream).cursor.tokens@.len() - old(stream).cursor.pos, 1nat,
{
    let ghost tokens = stream.cursor.tokens@;
    let ghost start = stream.cursor.pos as int;
    let end = stream.cursor.end;
    let mut slots: Vec<Option<Value>> = Vec::new();
    let mut j: usize = 0;
    while j < schema.len()
        invariant
            j <= schema.len(),
            slots@.len() == j,
            forall|i: int| 0 <= i < j ==> slots@[i] is None,
        decreases schema.len() - j,
    {
        slots.push(None);
        j += 1;
    }
    assert(slots_view(slots@) =~= empty_slots(schema@.len()));
    loop
        invariant
            stream.wf(),
            stream.cursor.same_input(&old(stream).cursor),
            stream.cursor.tokens@ == tokens,
            stream.cursor.end == end,
            start == old(stream).cursor.pos,
            start <= stream.cursor.pos,
            slots@.len() == schema@.len(),
            scan_spec(tokens, start, end, schema@, empty_slots(schema@.len())) == scan_spec(
                tokens,
                stream.cursor.pos as int,
                end,
                schema@,
                slots_view(slots@),
            ),
        decreases tokens.len() - stream.cursor.pos,
    {
        let ghost pos = stream.cursor.pos as int;
        proof {
            crate::cursor::lemma_path_advances(tokens, pos, end);
        }
        match stream.next_name() {
            Err(e) => {
                return Err(e);
            },
            Ok(None) => {
                return resolve(schema, &slots, end);
            },
            Ok(Some(name)) => match find_field(schema, &name) {
                None => {
                    return Err(unexpected_key(&name));
                },
                Some(k) => {
                    assert(slots_view(slots@)[k as int] == slot_view(slots@[k as int]));
                    if slots[k].is_some() {
                        return Err(duplicate_key(&name));
                    }
                    match read_value(&mut stream.cursor, &schema[k].ty) {
                        Err(e) => {
                            return Err(e);
                        },
                        Ok(v) => {
                            let ghost before = slots_view(slots@);
                            let ghost vv = v@;
                            slots.set(k, Some(v));
                            assert(slots_view(slots@) =~= before.update(k as int, Some(vv)));
                            if stream.cursor.is_empty() {
                                return resolve(schema, &slots, end);
                            }
                            match stream.cursor.advance_token(TokenClass::Comma) {
                                Err(e) => {
                                    return Err(e);
                                },
                                Ok(_) => {},
                            }
                        },
                    }
                },
            },
        }
    }
}

/// A value ends behind where it starts, within the input. So no input
/// stalls the reader of values.
pub proof fn lemma_value_advances(tokens: Seq<Token>, pos: int, end: Span, ty: FieldType)
    ensures
        value_spec(tokens, pos, end, ty) matches Ok((_, next)) ==> 0 <= pos < next <= tokens.len(),
    decreases tokens.len() - pos, 0nat,
{
    match ty {
        FieldType::Record(fields) => {
            if kind_at(tokens, pos, TokenKind::Open(Delim::Brace)) {
                lemma_scan_advances(tokens, pos + 1, end, fields@, empty_slots(fields@.len()));
            }
        },
        _ => {},
    }
}

/// A scan ends at or behind where it starts, within the input. So no input
/// stalls the assembler.
pub proof fn lemma_scan_advances(
    tokens: Seq<Token>,
    pos: int,
    end: Span,
    schema: Seq<FieldSpec>,
    slots: Seq<Option<ValueView>>,
)
    requires
        0 <= pos <= tokens.len(),
    ensures
        scan_spec(tokens, pos, end, schema, slots) matches Ok((_, next)) ==> pos <= next
            <= tokens.len(),
    decreases tokens.len() - pos, 1nat,
{
    crate::cursor::lemma_path_advances(tokens, pos, end);
    match name_spec(tokens, pos, end) {
        Ok((Some(name), rest)) => match field_index(schema, name.text, 0) {
            Some(k) => {
                lemma_value_advances(tokens, rest, end, schema[k].ty);
                match value_spec(tokens, rest, end, schema[k].ty) {
                    Ok((v, mid)) => {
                        if !at_end(tokens, mid) && kind_at(tokens, mid, TokenKind::Punct(',')) {
                            lemma_scan_advances(
                                tokens,
                                mid + 1,
                                end,
                                schema,
                                slots.update(k, Some(v)),
                            );
                        }
                    },
                    Err(_) => {},
                }
            },
            None => {},
        },
        _ => {},
    }
}

/// No two fields of `schema` have one name.
pub open spec fn distinct_names(schema: Seq<FieldSpec>) -> bool {
    forall|i: int, j: int|
        0 <= i < j < schema.len() ==> (#[trigger] schema[i]).name@ != (#[trigger] schema[j]).name@
}

/// What the literal `lit` is worth as a value of the type `ty`.
pub open spec fn literal_value(ty: FieldType, lit: LitView) -> Result<ValueView, DiagnosticView> {
    match ty {
        FieldType::Str => match string_spec(lit) {
            Ok(s) => Ok(ValueView::Str(s)),
            Err(d) => Err(d),
        },
        FieldType::Bool => match bool_spec(lit) {
            Ok(b) => Ok(ValueView::Bool(b)),
            Err(d) => Err(d),
        },
        FieldType::Int => match int_spec(lit) {
            Ok(n) => Ok(ValueView::Int(n)),
            Err(d) => Err(d),
        },
        FieldType::Record(_) => Err(diag(lit.span, "expected `{`"@)),
    }
}

/// `tokens` gives every field of `schema` once, in the order of the
/// fields: the field's name, `=`, and a literal that is worth a value of
/// the field's type.
pub open spec fn written_record(tokens: Seq<Token>, schema: Seq<FieldSpec>, trailing: bool) -> bool {
    &&& written_pairs(tokens, schema.len(), trailing)
    &&& forall|i: int|
        0 <= i < schema.len() ==> token_text(tokens[4 * i]) == (#[trigger] schema[i]).name@
            && literal_value(schema[i].ty, lit_of(tokens[4 * i + 2])) is Ok
}

/// The value that `tokens` gives the field `i`.
pub open spec fn written_value(tokens: Seq<Token>, schema: Seq<FieldSpec>, i: int) -> ValueView {
    literal_value(schema[i].ty, lit_of(tokens[4 * i + 2]))->Ok_0
}

/// The values that `tokens` gives the first `k` fields.
pub open spec fn written_values(tokens: Seq<Token>, schema: Seq<FieldSpec>, k: nat) -> Seq<
    ValueView,
> {
    Seq::new(k, |i: int| written_value(tokens, schema, i))
}

/// The slots when the first `k` fields are given and the others are not.
pub open spec fn filled_slots(tokens: Seq<Token>, schema: Seq<FieldSpec>, k: nat) -> Seq<
    Option<ValueView>,
> {
    Seq::new(
        schema.len(),
        |i: int|
            if i < k {
                Some(written_value(tokens, schema, i))
            } else {
                None
            },
    )
}

/// Among distinct names, a name is found at its own field.
pub proof fn lemma_field_found(schema: Seq<FieldSpec>, k: int, i: int)
    requires
        distinct_names(schema),
        0 <= i <= k < schema.len(),
    ensures
        field_index(schema, schema[k].name@, i) == Some(k),
    decreases k - i,
{
    if i < k {
        assert(schema[i].name@ != schema[k].name@);
        lemma_field_found(schema, k, i + 1);
    }
}

/// Slots that are all filled resolve to what they hold.
pub proof fn lemma_resolve_filled(
    tokens: Seq<Token>,
    schema: Seq<FieldSpec>,
    end: Span,
    i: nat,
)
    requires
        i <= schema.len(),
    ensures
        resolve_spec(
            schema,
            filled_slots(tokens, schema, schema.len()),
            end,
            i as int,
            written_values(tokens, schema, i),
        ) == Ok::<Seq<ValueView>, DiagnosticView>(written_values(tokens, schema, schema.len())),
    decreases schema.len() - i,
{
    if i < schema.len() {
        assert(written_values(tokens, schema, i).push(written_value(tokens, schema, i as int))
            =~= written_values(tokens, schema, (i + 1) as nat));
        lemma_resolve_filled(tokens, schema, end, (i + 1) as nat);
    }
}

/// From the pair `k` on, with the fields before it given, the scan yields
/// all the values as written and ends where the input ends.
pub proof fn lemma_written_record_from(
    tokens: Seq<Token>,
    schema: Seq<FieldSpec>,
    trailing: bool,
    end: Span,
    k: nat,
)
    requires
        written_record(tokens, schema, trailing),
        distinct_names(schema),
        k <= schema.len(),
        k < schema.len() || trailing || schema.len() == 0,
    ensures
        scan_spec(tokens, (4 * k) as int, end, schema, filled_slots(tokens, schema, k)) == Ok::<
            (Seq<ValueView>, int),
            DiagnosticView,
        >((written_values(tokens, schema, schema.len()), tokens.len() as int)),
    decreases schema.len() - k,
{
    let n = schema.len();
    let pos = (4 * k) as int;
    if k == n {
        assert(at_end(tokens, pos));
        lemma_resolve_filled(tokens, schema, end, 0);
        assert(written_values(tokens, schema, 0) =~= Seq::empty());
    } else {
        let i = k as int;
        assert(is_path_start(tokens[4 * i]));
        assert(tokens[4 * i + 1].kind == TokenKind::Punct('='));
        assert(is_literal(tokens[4 * i + 2]));
        assert(token_text(tokens[4 * i]) == schema[i].name@);
        let first = PathView { segments: seq![token_text(tokens[pos])], span: tokens[pos].span };
        assert(path_rest(tokens, pos + 1, end, first) == Ok::<(PathView, int), DiagnosticView>(
            (first, pos + 1),
        ));
        assert(name_spec(tokens, pos, end) == Ok::<(Option<NameView>, int), DiagnosticView>(
            (Some(name_of(first)), pos + 2),
        ));
        lemma_field_found(schema, i, 0);
        let v = written_value(tokens, schema, i);
        assert(value_spec(tokens, pos + 2, end, schema[i].ty) == Ok::<
            (ValueView, int),
            DiagnosticView,
        >((v, pos + 3)));
        let before = filled_slots(tokens, schema, k);
        assert(before[i] is None);
        assert(before.update(i, Some(v)) =~= filled_slots(tokens, schema, (k + 1) as nat));
        if pos + 3 < tokens.len() {
            assert(tokens[4 * i + 3].kind == TokenKind::Punct(','));
            lemma_written_record_from(tokens, schema, trailing, end, (k + 1) as nat);
        } else {
            assert(k + 1 == n);
            lemma_resolve_filled(tokens, schema, end, 0);
            assert(written_values(tokens, schema, 0) =~= Seq::empty());
        }
    }
}

/// Round trip: a record that is written field by field, each value as a
/// literal of the field's type, assembles to exactly the values that the
/// literals are worth, in the order of the fields, with or without a comma
/// behind the last pair.
pub proof fn lemma_record_round_trip(
    tokens: Seq<Token>,
    schema: Seq<FieldSpec>,
    trailing: bool,
    end: Span,
)
    requires
        written_record(tokens, schema, trailing),
        distinct_names(schema),
    ensures
        scan_spec(tokens, 0, end, schema, empty_slots(schema.len())) == Ok::<
            (Seq<ValueView>, int),
            DiagnosticView,
        >((written_values(tokens, schema, schema.len()), tokens.len() as int)),
        written_values(tokens, schema, schema.len()).len() == schema.len(),
        forall|i: int|
            0 <= i < schema.len() ==> literal_value(schema[i].ty, lit_of(tokens[4 * i + 2]))
                == Ok::<ValueView, DiagnosticView>(
                #[trigger] written_values(tokens, schema, schema.len())[i],
            ),
{
    assert(filled_slots(tokens, schema, 0) =~= empty_slots(schema.len()));
    lemma_written_record_from(tokens, schema, trailing, end, 0);
}

} // verus!
