//! JSON text of flat objects whose members are all strings.

use vstd::prelude::*;

verus! {

/// A character that a JSON string holds as it is, without an escape:
/// neither a control character, nor `"`, nor `\`.
pub open spec fn is_plain_char(c: char) -> bool {
    &&& (c as u32) >= 0x20
    &&& c != '"'
    &&& c != '\\'
}

/// Every character of `s` is plain.
pub open spec fn is_plain_text(s: Seq<char>) -> bool {
    forall|i: int| 0 <= i < s.len() ==> is_plain_char(#[trigger] s[i])
}

/// Every key and every value of `fields` is plain text.
pub open spec fn all_plain(fields: Seq<(Seq<char>, Seq<char>)>) -> bool {
    forall|i: int| 0 <= i < fields.len() ==> is_plain_text(#[trigger] fields[i].0) && is_plain_text(fields[i].1)
}

/// Lexicographic order of texts by code point, which is the byte order of
/// their UTF-8 encodings.
pub open spec fn text_less(a: Seq<char>, b: Seq<char>) -> bool
    decreases a.len(),
{
    if a.len() == 0 {
        b.len() > 0
    } else if b.len() == 0 {
        false
    } else if a[0] != b[0] {
        (a[0] as u32) < (b[0] as u32)
    } else {
        text_less(a.drop_first(), b.drop_first())
    }
}

/// The keys of `fields` are strictly ascending (hence also distinct).
pub open spec fn keys_ascending(fields: Seq<(Seq<char>, Seq<char>)>) -> bool {
    forall|i: int, j: int| 0 <= i < j < fields.len() ==> text_less(#[trigger] fields[i].0, #[trigger] fields[j].0)
}

/// `"s"` for a plain text `s`.
pub open spec fn quoted(s: Seq<char>) -> Seq<char> {
    seq!['"'] + s + seq!['"']
}

/// `"key":"value"`.
pub open spec fn member_text(field: (Seq<char>, Seq<char>)) -> Seq<char> {
    quoted(field.0) + seq![':'] + quoted(field.1)
}

/// The members of `fields`, in order, separated by commas.
pub open spec fn members_text(fields: Seq<(Seq<char>, Seq<char>)>) -> Seq<char>
    decreases fields.len(),
{
    if fields.len() == 0 {
        seq![]
    } else if fields.len() == 1 {
        member_text(fields[0])
    } else {
        members_text(fields.drop_last()) + seq![','] + member_text(fields.last())
    }
}

/// Compact JSON text of an object whose plain members are given in key order.
pub open spec fn plain_object_text(fields: Seq<(Seq<char>, Seq<char>)>) -> Seq<char> {
    seq!['{'] + members_text(fields) + seq!['}']
}

/// The compact JSON text that `serde_json` writes for an object built from
/// `fields`, each value a JSON string.
pub uninterp spec fn json_object_text(fields: Seq<(Seq<char>, Seq<char>)>) -> Seq<char>;

/// Builds a `serde_json::Map` from `fields` (each value a `Value::String`)
/// and writes `Value::Object` of it with `to_string`. The contract claims that
/// the text depends on `fields` alone, and that when every key and value is
/// plain and the keys ascend, it is `{"k1":"v1",...}` in that key order:
/// `serde_json` writes objects compactly, in the ascending key order of its
/// map (or in insertion order, which is then the same), and escapes only
/// control characters, `"` and `\`. What it writes for other inputs
/// (escapes, duplicate keys) is left to the name.
#[verifier::external_body]
pub(crate) fn string_object_json(fields: &Vec<(String, String)>) -> (text: String)
    ensures
        text@ == json_object_text(fields.deep_view()),
        all_plain(fields.deep_view()) && keys_ascending(fields.deep_view()) ==> text@
            == plain_object_text(fields.deep_view()),
{
    let object: serde_json::Map<String, serde_json::Value> = fields
        .iter()
        .map(|(k, v)| (k.clone(), serde_json::Value::String(v.clone())))
        .collect();
    serde_json::Value::Object(object).to_string()
}

} // verus!
