//! The JSON boundary of the settings store: reading file text into a
//! document and rendering a document back to pretty-printed text. Both
//! directions call `serde_json` behind trusted wrappers; everything around
//! them — skipping non-scalar values, recovering an unreadable file as the
//! empty document, surfacing it as an error on an explicit read — is
//! verified code.

use crate::document::{entries_map, entry_keys, entry_views, SettingsDoc};
use crate::scalar::{wf_scalar, ScalarSpec, ScalarValue};
use crate::SettingsError;
use vstd::prelude::*;

verus! {

/// What a settings file's text parses to: not JSON at all, JSON whose root
/// is not an object, or an object's entries in the order the reader reports
/// them (sorted by key), with `None` standing for a non-scalar value.
pub ghost enum ParsedText {
    Invalid,
    NotObject,
    Object(Seq<(Seq<char>, Option<ScalarSpec>)>),
}

/// The parse of a settings file's text. Named, not defined: the JSON
/// grammar belongs to `serde_json`.
pub uninterp spec fn parsed_text(text: Seq<char>) -> ParsedText;

/// The pretty-printed JSON object text of a settings mapping. Named, not
/// defined: the rendering (two-space indentation, keys in sorted order,
/// string escaping) belongs to `serde_json`.
pub uninterp spec fn json_text_of(m: Map<Seq<char>, ScalarSpec>) -> Seq<char>;

/// The executable mirror of `ParsedText`.
pub enum RawDocument {
    Invalid,
    NotObject,
    Object(Vec<(String, Option<ScalarValue>)>),
}

pub open spec fn opt_scalar_view(v: Option<ScalarValue>) -> Option<ScalarSpec> {
    match v {
        Some(x) => Some(x@),
        None => None,
    }
}

pub open spec fn raw_entries_view(s: Seq<(String, Option<ScalarValue>)>) -> Seq<
    (Seq<char>, Option<ScalarSpec>),
> {
    s.map_values(|p: (String, Option<ScalarValue>)| (p.0@, opt_scalar_view(p.1)))
}

pub open spec fn raw_keys(s: Seq<(String, Option<ScalarValue>)>) -> Seq<Seq<char>> {
    s.map_values(|p: (String, Option<ScalarValue>)| p.0@)
}

pub open spec fn raw_doc_view(r: RawDocument) -> ParsedText {
    match r {
        RawDocument::Invalid => ParsedText::Invalid,
        RawDocument::NotObject => ParsedText::NotObject,
        RawDocument::Object(es) => ParsedText::Object(raw_entries_view(es@)),
    }
}

/// Well-formedness of one parsed entry: a scalar value read from the file is
/// well-formed (number tokens are canonical).
pub open spec fn raw_entry_wf(p: (String, Option<ScalarValue>)) -> bool {
    match p.1 {
        Some(v) => wf_scalar(v@),
        None => true,
    }
}

/// Relies on `serde_json::from_str::<Value>` and on `Map` iteration (sorted
/// by key under the default `BTreeMap` backing, so the entry order is a
/// function of the text alone). A JSON object's keys are distinct. A number
/// that `as_i64` rejects is reported through `Number`'s `Display`, whose
/// output is canonical: it re-reads as a JSON number to itself and is never
/// an `i64` literal (a float-backed token carries a fraction dot or an
/// exponent mark, an integer-backed one only arises above the `i64` range)
/// nor a boolean literal.
#[verifier::external_body]
fn parse_json_object(text: &str) -> (r: RawDocument)
    ensures
        raw_doc_view(r) == parsed_text(text@),
        r matches RawDocument::Object(es) ==> raw_keys(es@).no_duplicates(),
        r matches RawDocument::Object(es) ==> forall|i: int|
            0 <= i < es@.len() ==> raw_entry_wf(#[trigger] es@[i]),
{
    let v: serde_json::Value = match serde_json::from_str(text) {
        Ok(v) => v,
        Err(_) => return RawDocument::Invalid,
    };
    let obj = match v {
        serde_json::Value::Object(o) => o,
        _ => return RawDocument::NotObject,
    };
    RawDocument::Object(obj.into_iter().map(|(k, val)| (k, match val {
        serde_json::Value::Number(n) if n.as_i64().is_some() => Some(ScalarValue::Int(n.as_i64().unwrap())),
        serde_json::Value::Number(n) => Some(ScalarValue::Num(n.to_string())),
        serde_json::Value::Bool(b) => Some(ScalarValue::Bool(b)),
        serde_json::Value::String(s) => Some(ScalarValue::Str(s)),
        _ => None,
    })).collect())
}

/// Relies on `serde_json::to_string_pretty` over `Value::Object`: under the
/// default sorted-map backing the text depends on the key-to-value mapping
/// alone, not on insertion order. Requires well-formed values so that every
/// stored number token re-reads as a JSON number.
#[verifier::external_body]
fn render_json_object(doc: &SettingsDoc) -> (r: String)
    requires
        doc.values_wf(),
    ensures
        r@ == json_text_of(doc.as_map()),
{
    let mut m = serde_json::Map::new();
    for (k, v) in doc.entries.iter() {
        m.insert(k.clone(), match v {
            ScalarValue::Int(n) => serde_json::Value::from(*n),
            ScalarValue::Num(t) => serde_json::from_str::<serde_json::Number>(t).map(
                serde_json::Value::Number,
            ).unwrap_or(serde_json::Value::Null),
            ScalarValue::Bool(b) => serde_json::Value::Bool(*b),
            ScalarValue::Str(s) => serde_json::Value::String(s.clone()),
        });
    }
    serde_json::to_string_pretty(&serde_json::Value::Object(m)).unwrap_or_default()
}

/// The scalar entries of an object, in order, skipping non-scalar values.
pub open spec fn scalar_entries(es: Seq<(Seq<char>, Option<ScalarSpec>)>) -> Seq<
    (Seq<char>, ScalarSpec),
>
    decreases es.len(),
{
    if es.len() == 0 {
        Seq::empty()
    } else {
        let rest = scalar_entries(es.drop_last());
        match es.last().1 {
            Some(v) => rest.push((es.last().0, v)),
            None => rest,
        }
    }
}

/// The mapping of an object's entries, skipping non-scalar values; a later
/// entry for the same key wins.
pub open spec fn object_map(es: Seq<(Seq<char>, Option<ScalarSpec>)>) -> Map<Seq<char>, ScalarSpec>
    decreases es.len(),
{
    if es.len() == 0 {
        Map::empty()
    } else {
        let m = object_map(es.drop_last());
        match es.last().1 {
            Some(v) => m.insert(es.last().0, v),
            None => m,
        }
    }
}

/// The document a file text denotes on the merge path: an absent value, text
/// that is not JSON, and a JSON root that is not an object all recover as
/// the empty document.
pub open spec fn stored_map(text: Option<Seq<char>>) -> Map<Seq<char>, ScalarSpec> {
    match text {
        None => Map::empty(),
        Some(t) => match parsed_text(t) {
            ParsedText::Object(es) => object_map(es),
            _ => Map::empty(),
        },
    }
}

/// The view of an optional borrowed file text.
pub open spec fn text_view(c: Option<&str>) -> Option<Seq<char>> {
    match c {
        Some(t) => Some(t@),
        None => None,
    }
}

/// Build a document from parsed object entries, skipping non-scalar values.
fn doc_from_entries(es: &Vec<(String, Option<ScalarValue>)>) -> (r: SettingsDoc)
    requires
        raw_keys(es@).no_duplicates(),
        forall|i: int| 0 <= i < es@.len() ==> raw_entry_wf(#[trigger] es@[i]),
    ensures
        r.as_map() == object_map(raw_entries_view(es@)),
        entry_views(r.entries@) == scalar_entries(raw_entries_view(es@)),
        r.keys_unique(),
        r.values_wf(),
{
    let mut out: Vec<(String, ScalarValue)> = Vec::new();
    let mut i: usize = 0;
    proof {
        assert(raw_entries_view(es@.subrange(0, 0)) =~= Seq::<
            (Seq<char>, Option<ScalarSpec>),
        >::empty());
        assert(entries_map(out@) =~= object_map(raw_entries_view(es@.subrange(0, 0))));
        assert(entry_views(out@) =~= scalar_entries(raw_entries_view(es@.subrange(0, 0))));
    }
    while i < es.len()
        invariant
            i <= es@.len(),
            raw_keys(es@).no_duplicates(),
            forall|m: int| 0 <= m < es@.len() ==> raw_entry_wf(#[trigger] es@[m]),
            entries_map(out@) == object_map(raw_entries_view(es@.subrange(0, i as int))),
            entry_views(out@) == scalar_entries(raw_entries_view(es@.subrange(0, i as int))),
            entry_keys(out@).no_duplicates(),
            forall|m: int|
                0 <= m < out@.len() ==> raw_keys(es@.subrange(0, i as int)).contains(
                    #[trigger] out@[m].0@,
                ),
            forall|m: int| 0 <= m < out@.len() ==> wf_scalar(#[trigger] out@[m].1@),
        decreases es@.len() - i,
    {
        let e = &es[i];
        let ghost prev = out@;
        let ghost sub_i = es@.subrange(0, i as int);
        let ghost sub_i1 = es@.subrange(0, i as int + 1);
        proof {
            assert(sub_i1.drop_last() =~= sub_i);
            assert(sub_i1.last() == es@[i as int]);
            assert(raw_entries_view(sub_i1).drop_last() =~= raw_entries_view(sub_i));
            assert(raw_entries_view(sub_i1).last() == (es@[i as int].0@, opt_scalar_view(
                es@[i as int].1,
            )));
        }
        match &e.1 {
            Some(v) => {
                proof {
                    assert(forall|m: int|
                        0 <= m < prev.len() ==> #[trigger] prev[m].0@ != e.0@) by {
                        assert forall|m: int| 0 <= m < prev.len() implies #[trigger] prev[m].0@
                            != e.0@ by {
                            assert(raw_keys(sub_i).contains(prev[m].0@));
                            let w = choose|w: int|
                                0 <= w < sub_i.len() && raw_keys(sub_i)[w] == prev[m].0@;
                            assert(raw_keys(es@)[w] == prev[m].0@);
                            assert(raw_keys(es@)[i as int] == e.0@);
                        }
                    }
                    assert(raw_entry_wf(es@[i as int]));
                }
                out.push((e.0.clone(), v.dup()));
                proof {
                    assert(out@.drop_last() =~= prev);
                    assert(entries_map(out@) == entries_map(prev).insert(e.0@, v@));
                    assert(entries_map(out@) =~= object_map(raw_entries_view(sub_i1)));
                    assert(entry_views(out@) =~= entry_views(prev).push((e.0@, v@)));
                    assert(entry_views(out@) =~= scalar_entries(raw_entries_view(sub_i1)));
                    assert(entry_keys(out@).drop_last() =~= entry_keys(prev));
                    assert(forall|m: int|
                        0 <= m < entry_keys(prev).len() ==> #[trigger] entry_keys(prev)[m]
                            != e.0@);
                    assert(entry_keys(out@) =~= entry_keys(prev).push(e.0@));
                    crate::document::lemma_keys_push_no_dup(entry_keys(prev), e.0@);
                    assert forall|m: int| 0 <= m < out@.len() implies raw_keys(sub_i1).contains(
                        #[trigger] out@[m].0@,
                    ) by {
                        if m < out@.len() - 1 {
                            assert(raw_keys(sub_i).contains(out@[m].0@));
                            let w = choose|w: int|
                                0 <= w < sub_i.len() && raw_keys(sub_i)[w] == out@[m].0@;
                            assert(raw_keys(sub_i1)[w] == out@[m].0@);
                        } else {
                            assert(raw_keys(sub_i1)[i as int] == out@[m].0@);
                        }
                    }
                }
            },
            None => {
                proof {
                    assert(entries_map(out@) =~= object_map(raw_entries_view(sub_i1)));
                    assert(entry_views(out@) =~= scalar_entries(raw_entries_view(sub_i1)));
                    assert forall|m: int| 0 <= m < out@.len() implies raw_keys(sub_i1).contains(
                        #[trigger] out@[m].0@,
                    ) by {
                        assert(raw_keys(sub_i).contains(out@[m].0@));
                        let w = choose|w: int|
                            0 <= w < sub_i.len() && raw_keys(sub_i)[w] == out@[m].0@;
                        assert(raw_keys(sub_i1)[w] == out@[m].0@);
                    }
                }
            },
        }
        i += 1;
    }
    proof {
        assert(es@.subrange(0, es@.len() as int) =~= es@);
    }
    SettingsDoc { entries: out }
}

/// Read a settings document for the merge path. An absent file, text that is
/// not JSON, and a JSON root that is not an object all yield the empty
/// document: merging never fails on an unreadable existing file.
pub fn parse_settings_text(current: Option<&str>) -> (r: SettingsDoc)
    ensures
        r.as_map() == stored_map(text_view(current)),
        r.keys_unique(),
        r.values_wf(),
{
    match current {
        None => SettingsDoc::empty(),
        Some(text) => match parse_json_object(text) {
            RawDocument::Object(es) => doc_from_entries(&es),
            RawDocument::Invalid => SettingsDoc::empty(),
            RawDocument::NotObject => SettingsDoc::empty(),
        },
    }
}

/// Read a settings document on an explicit read request: here — and only
/// here — text that is not JSON surfaces as `Malformed` instead of being
/// recovered as empty. A JSON root that is not an object carries no
/// readable keys and reads as the empty document.
pub fn read_settings_text(text: &str) -> (r: Result<SettingsDoc, SettingsError>)
    ensures
        match r {
            Ok(d) => {
                &&& !(parsed_text(text@) is Invalid)
                &&& d.as_map() == stored_map(Some(text@))
                &&& (parsed_text(text@) matches ParsedText::Object(es) ==> entry_views(d.entries@)
                    == scalar_entries(es))
                &&& (parsed_text(text@) is NotObject ==> d.entries@.len() == 0)
                &&& d.keys_unique()
                &&& d.values_wf()
            },
            Err(e) => parsed_text(text@) is Invalid && e == SettingsError::Malformed,
        },
{
    match parse_json_object(text) {
        RawDocument::Object(es) => Ok(doc_from_entries(&es)),
        RawDocument::Invalid => Err(SettingsError::Malformed),
        RawDocument::NotObject => Ok(SettingsDoc::empty()),
    }
}

/// Render a document as the settings file's text.
pub fn render_settings_text(doc: &SettingsDoc) -> (r: String)
    requires
        doc.values_wf(),
    ensures
        r@ == json_text_of(doc.as_map()),
{
    render_json_object(doc)
}

} // verus!
