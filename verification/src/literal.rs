//! What a literal stands for: the text of a string literal without its
//! quotes and escapes, the number of an integer literal, the truth value of
//! `true` and `false`.
//!
//! What a text denotes is asked of syn, which reads it as the lexer at hand
//! does. So nothing is claimed of the answer but what the checks made here
//! decide before the call; every conversion is exact over the answer that
//! the literal keeps.

use vstd::prelude::*;
use vstd::string::*;
use crate::token::{Decoded, DecodedView, Diagnostic, DiagnosticView, Integer, Span, diag};
use crate::cursor::{Lit, LitView};

verus! {

/// An ASCII digit.
pub open spec fn is_digit(c: char) -> bool {
    48 <= c as u32 <= 57
}

/// An ASCII letter, an ASCII digit or `_`.
pub open spec fn is_word_char(c: char) -> bool {
    is_digit(c) || 65 <= c as u32 <= 90 || 97 <= c as u32 <= 122 || c == '_'
}

/// The text starts as a string literal does: with `"`, or with the `r` of
/// a raw string.
pub open spec fn string_safe(s: Seq<char>) -> bool {
    s.len() > 0 && (s[0] == '"' || s[0] == 'r')
}

/// The text starts with a digit and holds only ASCII letters, ASCII digits
/// and `_`: the shape of an integer literal with its suffix.
pub open spec fn int_safe(s: Seq<char>) -> bool {
    &&& s.len() > 0
    &&& is_digit(s[0])
    &&& forall|i: int| 0 <= i < s.len() ==> is_word_char(#[trigger] s[i])
}

/// `d` can be what the text `text` was found to denote: a text that does
/// not start as a string literal denotes no string, and a text that has not
/// the shape of an integer literal denotes no number.
pub open spec fn decoded_from(text: Seq<char>, d: DecodedView) -> bool {
    &&& !string_safe(text) ==> d.string is None
    &&& !int_safe(text) ==> d.integer == Integer::NotInteger
}

/// Calls `syn::parse_str::<syn::LitStr>` and, on what it parsed,
/// `syn::LitStr::value`. Nothing is claimed of the result: syn has the text
/// lexed by proc-macro2, which inside a procedural macro hands it on to the
/// compiler's lexer, so the answer may depend on the process.
///
/// The text must start with `"` or `r`. Then its first token, where it is
/// a literal, is a plain or a raw string literal, which syn knows how to
/// read; a text that is not lexed, a first token that is no literal, and
/// tokens behind the literal are errors that come back as `None`. On a
/// literal of a form that syn does not know, such as `c"hi"`, the call
/// would panic.
#[verifier::external_body]
pub(crate) fn decode_string_literal(text: &str) -> (r: Option<String>)
    requires
        string_safe(text@),
{
    match syn::parse_str::<syn::LitStr>(text) {
        Ok(lit) => Some(lit.value()),
        Err(_) => None,
    }
}

/// Calls `syn::parse_str::<syn::LitInt>` and, on what it parsed,
/// `syn::LitInt::base10_parse::<i128>`. Nothing is claimed of the result but
/// which outside error gives which answer: a text that does not parse as an
/// integer literal is no integer, and digits that do not fit are too large.
/// The answer may depend on the process, as for strings.
///
/// The text must start with a digit and hold only ASCII letters, ASCII
/// digits and `_`. Then it is lexed as one number with its suffix or not at
/// all, and syn reads every number of that shape as an integer or as a
/// float; on a literal of a form that it does not know the call would
/// panic.
#[verifier::external_body]
pub(crate) fn decode_int_literal(text: &str) -> (r: Integer)
    requires
        int_safe(text@),
{
    match syn::parse_str::<syn::LitInt>(text) {
        Ok(lit) => match lit.base10_parse::<i128>() {
            Ok(n) => Integer::Is(n),
            Err(_) => Integer::TooLarge,
        },
        Err(_) => Integer::NotInteger,
    }
}

/// `c` is an ASCII letter, an ASCII digit or `_`.
pub fn word_char(c: char) -> (r: bool)
    ensures
        r == is_word_char(c),
{
    let n = c as u32;
    (48 <= n && n <= 57) || (65 <= n && n <= 90) || (97 <= n && n <= 122) || c == '_'
}

/// Tests whether the text starts as a string literal does.
pub fn is_string_safe(text: &str) -> (r: bool)
    ensures
        r == string_safe(text@),
{
    if text.unicode_len() == 0 {
        false
    } else {
        let c = text.get_char(0);
        c == '"' || c == 'r'
    }
}

/// Tests whether the text has the shape of an integer literal.
pub fn is_int_safe(text: &str) -> (r: bool)
    ensures
        r == int_safe(text@),
{
    let n = text.unicode_len();
    if n == 0 {
        return false;
    }
    let first = text.get_char(0) as u32;
    if !(48 <= first && first <= 57) {
        return false;
    }
    let mut i: usize = 0;
    while i < n
        invariant
            i <= n,
            n == text@.len(),
            forall|j: int| 0 <= j < i ==> is_word_char(#[trigger] text@[j]),
        decreases n - i,
    {
        if !word_char(text.get_char(i)) {
            return false;
        }
        i += 1;
    }
    true
}

/// Finds out what the text of a literal denotes. syn is asked only about a
/// text of the fitting shape; any other text denotes nothing of that kind.
pub fn decode(text: &str) -> (d: Decoded)
    ensures
        decoded_from(text@, d@),
{
    let string = if is_string_safe(text) {
        decode_string_literal(text)
    } else {
        None
    };
    let integer = if is_int_safe(text) {
        decode_int_literal(text)
    } else {
        Integer::NotInteger
    };
    Decoded { string, integer }
}

/// The number negated. What is too large becomes too small.
pub open spec fn negated(i: Integer) -> Integer {
    match i {
        Integer::Is(v) => if v == i128::MIN {
            Integer::TooLarge
        } else {
            Integer::Is((0 - v) as i128)
        },
        Integer::TooLarge => Integer::TooSmall,
        Integer::TooSmall => Integer::TooLarge,
        Integer::NotInteger => Integer::NotInteger,
    }
}

/// The number negated.
pub fn negate(i: Integer) -> (r: Integer)
    ensures
        r == negated(i),
{
    match i {
        Integer::Is(v) => if v == i128::MIN {
            Integer::TooLarge
        } else {
            Integer::Is(0 - v)
        },
        Integer::TooLarge => Integer::TooSmall,
        Integer::TooSmall => Integer::TooLarge,
        Integer::NotInteger => Integer::NotInteger,
    }
}

/// The string that the literal `l` converts to: what it denotes as a
/// string literal, or an error at the literal.
pub open spec fn string_spec(l: LitView) -> Result<Seq<char>, DiagnosticView> {
    match l.string {
        Some(s) => Ok(s),
        None => Err(diag(l.span, "expected string literal"@)),
    }
}

/// The integer that the literal `l` converts to: the number it denotes,
/// where it fits in 64 bits with a sign. A literal that is no integer, and
/// a number that does not fit, are errors at the literal.
pub open spec fn int_spec(l: LitView) -> Result<i64, DiagnosticView> {
    match l.integer {
        Integer::Is(v) => if v > i64::MAX {
            Err(diag(l.span, "number too large to fit in target type"@))
        } else if v < i64::MIN {
            Err(diag(l.span, "number too small to fit in target type"@))
        } else {
            Ok(v as i64)
        },
        Integer::TooLarge => Err(diag(l.span, "number too large to fit in target type"@)),
        Integer::TooSmall => Err(diag(l.span, "number too small to fit in target type"@)),
        Integer::NotInteger => Err(diag(l.span, "expected integer literal"@)),
    }
}

/// The truth value that a literal converts to: `true` and `false` are the
/// boolean literals, any other literal is an error at its span.
pub open spec fn bool_spec(l: LitView) -> Result<bool, DiagnosticView> {
    if l.text == "true"@ {
        Ok(true)
    } else if l.text == "false"@ {
        Ok(false)
    } else {
        Err(diag(l.span, "expected boolean literal"@))
    }
}

/// `r` is the string `spec`, or the error `spec`.
pub open spec fn string_result_is(r: Result<String, Diagnostic>, spec: Result<Seq<char>, DiagnosticView>) -> bool {
    match spec {
        Ok(s) => r matches Ok(t) && t@ == s,
        Err(d) => r matches Err(e) && e@ == d,
    }
}

/// `r` is the value `spec`, or the error `spec`.
pub open spec fn plain_result_is<T>(r: Result<T, Diagnostic>, spec: Result<T, DiagnosticView>) -> bool {
    match spec {
        Ok(s) => r matches Ok(t) && t == s,
        Err(d) => r matches Err(e) && e@ == d,
    }
}

impl Lit {
    /// The literal with the source text `text`. What the text denotes is
    /// found out here.
    pub fn new(text: &str, span: Span) -> (l: Lit)
        ensures
            l@.text == text@,
            l@.span == span,
            decoded_from(text@, l.decoded@),
    {
        Lit { text: String::from_str(text), span, decoded: decode(text) }
    }

    /// The literal as a string.
    pub fn to_text(&self) -> (r: Result<String, Diagnostic>)
        ensures
            string_result_is(r, string_spec(self@)),
    {
        match &self.decoded.string {
            Some(s) => Ok(s.clone()),
            None => Err(Diagnostic::new(self.span, "expected string literal")),
        }
    }

    /// The literal as a 64-bit integer; one that does not fit is an error.
    pub fn to_i64(&self) -> (r: Result<i64, Diagnostic>)
        ensures
            plain_result_is(r, int_spec(self@)),
    {
        match self.decoded.integer {
            Integer::Is(v) => {
                if v > 9223372036854775807 {
                    Err(Diagnostic::new(self.span, "number too large to fit in target type"))
                } else if v < -9223372036854775808 {
                    Err(Diagnostic::new(self.span, "number too small to fit in target type"))
                } else {
                    Ok(v as i64)
                }
            },
            Integer::TooLarge => Err(
                Diagnostic::new(self.span, "number too large to fit in target type"),
            ),
            Integer::TooSmall => Err(
                Diagnostic::new(self.span, "number too small to fit in target type"),
            ),
            Integer::NotInteger => Err(Diagnostic::new(self.span, "expected integer literal")),
        }
    }

    /// The literal as a truth value.
    pub fn to_bool(&self) -> (r: Result<bool, Diagnostic>)
        ensures
            plain_result_is(r, bool_spec(self@)),
    {
        let t = String::from_str("true");
        let f = String::from_str("false");
        if self.text == t {
            Ok(true)
        } else if self.text == f {
            Ok(false)
        } else {
            Err(Diagnostic::new(self.span, "expected boolean literal"))
        }
    }
}

} // verus!
