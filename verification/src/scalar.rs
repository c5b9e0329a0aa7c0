//! Scalar settings values and the flag-overlay coercion rule.
//!
//! Overlay values arrive as strings and are coerced before storage: a value
//! parseable as a signed 64-bit integer is stored as an integer; failing
//! that, one readable as a JSON number is stored as a number (held as its
//! canonical decimal text); failing that, an exact `true`/`false` becomes a
//! boolean; anything else is stored as a string verbatim. Reading the file
//! back stringifies every stored scalar.

use crate::text::{
    i64_repr, i64_to_string, lemma_parse_of_repr, lemma_repr_not_bool, parse_i64, parse_i64_spec,
    str_eq,
};
use vstd::prelude::*;

verus! {

/// A scalar value of the settings document: integer, non-integer JSON number
/// (held as its canonical decimal text), boolean, or string.
pub enum ScalarValue {
    Int(i64),
    Num(String),
    Bool(bool),
    Str(String),
}

/// Specification-level shape of a scalar value.
pub ghost enum ScalarSpec {
    Int(int),
    Num(Seq<char>),
    Bool(bool),
    Str(Seq<char>),
}

impl View for ScalarValue {
    type V = ScalarSpec;

    open spec fn view(&self) -> ScalarSpec {
        match self {
            ScalarValue::Int(n) => ScalarSpec::Int(*n as int),
            ScalarValue::Num(t) => ScalarSpec::Num(t@),
            ScalarValue::Bool(b) => ScalarSpec::Bool(*b),
            ScalarValue::Str(s) => ScalarSpec::Str(s@),
        }
    }
}

impl ScalarValue {
    /// An explicit copy; `String` fields are cloned with their views intact.
    pub fn dup(&self) -> (r: ScalarValue)
        ensures
            r@ == self@,
    {
        match self {
            ScalarValue::Int(n) => ScalarValue::Int(*n),
            ScalarValue::Num(t) => ScalarValue::Num(t.clone()),
            ScalarValue::Bool(b) => ScalarValue::Bool(*b),
            ScalarValue::Str(s) => ScalarValue::Str(s.clone()),
        }
    }
}

/// The canonical JSON-number reading of a string: `Some` of the canonical
/// decimal text when the string is a JSON number, `None` otherwise.
/// Named, not defined: the grammar and the shortest-representation printing
/// belong to `serde_json`.
pub uninterp spec fn json_num_repr(s: Seq<char>) -> Option<Seq<char>>;

/// The whitespace characters the JSON reader skips around a document.
pub open spec fn is_json_ws(c: char) -> bool {
    c == ' ' || c == '\t' || c == '\n' || c == '\r'
}

/// Whether a string carries no whitespace at either edge. The numeric
/// reading is only consulted for such strings: a value padded with
/// whitespace does not count as numeric, and the facts below about the
/// returned token hold only then (the JSON reader itself would skip the
/// padding).
pub open spec fn no_edge_ws(s: Seq<char>) -> bool {
    s.len() == 0 || (!is_json_ws(s[0]) && !is_json_ws(s[s.len() - 1]))
}

/// Whether a string carries whitespace at its first or last character.
pub fn has_edge_whitespace(s: &str) -> (r: bool)
    ensures
        r == !no_edge_ws(s@),
{
    let len = s.unicode_len();
    if len == 0 {
        return false;
    }
    let first = s.get_char(0);
    let last = s.get_char(len - 1);
    first == ' ' || first == '\t' || first == '\n' || first == '\r' || last == ' ' || last
        == '\t' || last == '\n' || last == '\r'
}

/// Relies on `serde_json::from_str::<Number>` (the JSON number grammar) and
/// `Number`'s `Display` (exact digits for integer-backed numbers via `itoa`,
/// shortest round-tripping form for float-backed ones). For a string free
/// of edge whitespace — which the caller must ensure, since the JSON reader
/// would silently skip such padding — the token returned is a function of
/// `s` alone, re-reads to itself, is never one of the boolean literals, and
/// — when `s` itself is not a plain `i64` literal — never parses as an
/// `i64` (a float-backed token always carries a fraction dot or an exponent
/// mark; an integer-backed one only arises above the `i64` range, because a
/// JSON integer literal in range is also an `i64` literal).
#[verifier::external_body]
fn json_number_token(s: &str) -> (r: Option<String>)
    requires
        no_edge_ws(s@),
    ensures
        (r is Some) == (json_num_repr(s@) is Some),
        r matches Some(t) ==> {
            &&& json_num_repr(s@) == Some(t@)
            &&& json_num_repr(t@) == Some(t@)
            &&& no_edge_ws(t@)
            &&& (parse_i64_spec(s@) is None ==> parse_i64_spec(t@) is None)
            &&& t@ != "true"@
            &&& t@ != "false"@
        },
        s@ == "true"@ ==> r is None,
        s@ == "false"@ ==> r is None,
{
    match serde_json::from_str::<serde_json::Number>(s) {
        Ok(n) => Some(n.to_string()),
        Err(_) => None,
    }
}

/// The coercion rule of the flag overlay. The executable code tries the
/// integer reading, then the JSON-number reading, then the boolean literals;
/// this specification tests the boolean literals before the number reading,
/// which is the same function because `true` and `false` are not numbers.
/// Whitespace at either edge disqualifies the numeric reading, as it does
/// for the integer reading.
pub open spec fn coerce_spec(s: Seq<char>) -> ScalarSpec {
    if parse_i64_spec(s) is Some {
        ScalarSpec::Int(parse_i64_spec(s)->Some_0)
    } else if s == "true"@ {
        ScalarSpec::Bool(true)
    } else if s == "false"@ {
        ScalarSpec::Bool(false)
    } else if no_edge_ws(s) && json_num_repr(s) is Some {
        ScalarSpec::Num(json_num_repr(s)->Some_0)
    } else {
        ScalarSpec::Str(s)
    }
}

/// What holds of every value the coercion produces. These facts are what
/// makes the overlay round trip: the string form of such a value coerces
/// back to the value itself.
pub open spec fn coercion_stable(v: ScalarSpec) -> bool {
    match v {
        ScalarSpec::Int(n) => i64::MIN <= n <= i64::MAX,
        ScalarSpec::Num(t) => {
            &&& parse_i64_spec(t) is None
            &&& t != "true"@
            &&& t != "false"@
            &&& no_edge_ws(t)
            &&& json_num_repr(t) == Some(t)
        },
        ScalarSpec::Bool(_) => true,
        ScalarSpec::Str(s) => {
            &&& parse_i64_spec(s) is None
            &&& s != "true"@
            &&& s != "false"@
            &&& (no_edge_ws(s) ==> json_num_repr(s) is None)
        },
    }
}

/// Well-formedness of a stored scalar: a number's text must be canonical —
/// it re-reads as a JSON number to itself and is not a plain `i64` literal.
/// Both the parser and the coercion only produce such values, and the
/// encoder relies on it.
pub open spec fn wf_scalar(v: ScalarSpec) -> bool {
    match v {
        ScalarSpec::Num(t) => json_num_repr(t) == Some(t) && parse_i64_spec(t) is None,
        _ => true,
    }
}

/// Every value the coercion produces is well-formed.
pub proof fn lemma_stable_implies_wf(v: ScalarSpec)
    requires
        coercion_stable(v),
    ensures
        wf_scalar(v),
{
}

/// The string form a stored scalar takes when the overlay is read back:
/// integers in decimal, numbers as their canonical text, booleans as their
/// literals, strings verbatim.
pub open spec fn stringify_spec(v: ScalarSpec) -> Seq<char> {
    match v {
        ScalarSpec::Int(n) => i64_repr(n),
        ScalarSpec::Num(t) => t,
        ScalarSpec::Bool(b) => if b {
            "true"@
        } else {
            "false"@
        },
        ScalarSpec::Str(s) => s,
    }
}

/// Coerce one overlay value, as `applyOverlay` stores it.
pub fn coerce_flag_value(s: &str) -> (r: ScalarValue)
    ensures
        r@ == coerce_spec(s@),
        coercion_stable(r@),
{
    match parse_i64(s) {
        Some(n) => ScalarValue::Int(n),
        None => {
            let numeric = if has_edge_whitespace(s) {
                None
            } else {
                json_number_token(s)
            };
            match numeric {
                Some(t) => ScalarValue::Num(t),
                None => {
                    if str_eq(s, "true") {
                        ScalarValue::Bool(true)
                    } else if str_eq(s, "false") {
                        ScalarValue::Bool(false)
                    } else {
                        ScalarValue::Str(s.to_owned())
                    }
                },
            }
        },
    }
}

/// Stringify one stored scalar, as `readOverlay` reports it.
pub fn stringify_value(v: &ScalarValue) -> (r: String)
    ensures
        r@ == stringify_spec(v@),
{
    match v {
        ScalarValue::Int(n) => i64_to_string(*n),
        ScalarValue::Num(t) => t.clone(),
        ScalarValue::Bool(b) => if *b {
            "true".to_owned()
        } else {
            "false".to_owned()
        },
        ScalarValue::Str(s) => s.clone(),
    }
}

proof fn lemma_bool_literals_not_numeric()
    ensures
        parse_i64_spec("true"@) is None,
        parse_i64_spec("false"@) is None,
{
    reveal_strlit("true");
    reveal_strlit("false");
    assert(crate::text::sign_stripped("true"@) == "true"@);
    assert(crate::text::sign_stripped("false"@) == "false"@);
    assert(!crate::text::is_digit_char("true"@[0]));
    assert(!crate::text::is_digit_char("false"@[0]));
    assert(!crate::text::all_digits("true"@));
    assert(!crate::text::all_digits("false"@));
}

/// Round-trip law of the flag overlay: re-coercing the string form of any
/// value the coercion can produce yields that value unchanged. In
/// particular the coercion-detectable type is preserved: an integer reads
/// back as an integer, a boolean as a boolean.
pub proof fn lemma_coerce_stringify_round_trip(v: ScalarSpec)
    requires
        coercion_stable(v),
    ensures
        coerce_spec(stringify_spec(v)) == v,
{
    match v {
        ScalarSpec::Int(n) => {
            lemma_parse_of_repr(n);
        },
        ScalarSpec::Num(t) => {},
        ScalarSpec::Bool(b) => {
            lemma_bool_literals_not_numeric();
            reveal_strlit("true");
            reveal_strlit("false");
            assert("true"@ != "false"@);
        },
        ScalarSpec::Str(s) => {},
    }
}

/// The integer case never masquerades as another type: a decimal integer
/// representation always coerces back to the integer itself.
pub proof fn lemma_int_repr_coerces_to_int(n: int)
    requires
        i64::MIN <= n <= i64::MAX,
    ensures
        coerce_spec(i64_repr(n)) == ScalarSpec::Int(n),
{
    lemma_parse_of_repr(n);
    lemma_repr_not_bool(n);
}

} // verus!
