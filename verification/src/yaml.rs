//! YAML documents as the migration reads and rewrites them.
//!
//! Parsing and emitting YAML is serde_yaml's. A parsed document is held
//! here by its top-level shape; a mapping stays a `serde_yaml::Mapping`,
//! whose entries the library sees as plain values ([`YamlNode`]), whole:
//! every key and value, in order.

use vstd::prelude::*;
use serde_yaml::Value;

verus! {

#[verifier::external_type_specification]
#[verifier::external_body]
pub struct ExYamlMapping(serde_yaml::Mapping);

/// A YAML value as plain values, one variant for each of serde_yaml's
/// `Value` variants: a number is held as serde_yaml holds it (a
/// non-negative integer, a negative one, or a float by its bits), a tagged
/// value by its tag and the value tagged.
pub enum YamlNode {
    Null,
    Bool(bool),
    PosInt(u64),
    NegInt(i64),
    Float(u64),
    String(Seq<char>),
    Sequence(Seq<YamlNode>),
    Mapping(Seq<(YamlNode, YamlNode)>),
    Tagged(Seq<char>, Box<YamlNode>),
}

/// One entry of a mapping: its key and its value.
pub type EntryView = (YamlNode, YamlNode);

/// The entries of a mapping, in its order, as plain values.
pub uninterp spec fn yaml_entries(m: serde_yaml::Mapping) -> Seq<(YamlNode, YamlNode)>;

/// The text of a key that is a string.
pub open spec fn key_text(n: YamlNode) -> Option<Seq<char>> {
    match n {
        YamlNode::String(s) => Some(s),
        _ => None,
    }
}

/// serde_yaml's `Number::as_u64` of a value that is a number.
pub open spec fn number_u64(n: YamlNode) -> Option<u64> {
    match n {
        YamlNode::PosInt(v) => Some(v),
        _ => None,
    }
}

/// What the library reads of the entries: each key's text when it is a
/// string, and each value's number when it is a non-negative integer.
pub open spec fn entries_read(es: Seq<EntryView>) -> Seq<(Option<Seq<char>>, Option<u64>)> {
    es.map_values(|e: EntryView| (key_text(e.0), number_u64(e.1)))
}

/// One item of a top-level sequence.
pub enum YamlItem {
    Mapping(serde_yaml::Mapping),
    Other,
}

/// A parsed document: a mapping, a sequence, or anything else.
pub enum YamlValue {
    Mapping(serde_yaml::Mapping),
    Sequence(Vec<YamlItem>),
    Other,
}

/// The shape of a parsed document, as plain values.
pub enum YamlShape {
    Mapping(Seq<EntryView>),
    Sequence(Seq<Option<Seq<EntryView>>>),
    Other,
}

/// The entries of an item that is a mapping.
pub open spec fn item_view(i: YamlItem) -> Option<Seq<EntryView>> {
    match i {
        YamlItem::Mapping(m) => Some(yaml_entries(m)),
        YamlItem::Other => None,
    }
}

impl View for YamlValue {
    type V = YamlShape;

    open spec fn view(&self) -> YamlShape {
        match self {
            YamlValue::Mapping(m) => YamlShape::Mapping(yaml_entries(*m)),
            YamlValue::Sequence(items) => YamlShape::Sequence(items@.map_values(|i: YamlItem| item_view(i))),
            YamlValue::Other => YamlShape::Other,
        }
    }
}

/// What serde_yaml's `from_str` makes of a text, as a [`YamlShape`], or
/// the text of its error.
pub uninterp spec fn yaml_read(text: Seq<char>) -> Result<YamlShape, Seq<char>>;

/// serde_yaml `from_str` into a `Value`, told apart into a mapping, a
/// sequence (whose items are told apart into mappings and others) or
/// anything else; an error is displayed. The result is named by
/// [`yaml_read`].
#[verifier::external_body]
pub(crate) fn parse_yaml(text: &str) -> (r: Result<YamlValue, String>)
    ensures
        r is Ok ==> yaml_read(text@) == Ok::<YamlShape, Seq<char>>(r->Ok_0@),
        r is Err ==> yaml_read(text@) == Err::<YamlShape, Seq<char>>(r->Err_0@),
{
    match serde_yaml::from_str::<Value>(text) {
        Err(e) => Err(e.to_string()),
        Ok(Value::Mapping(m)) => Ok(YamlValue::Mapping(m)),
        Ok(Value::Sequence(items)) => Ok(YamlValue::Sequence(
            items.into_iter().map(|v| match v { Value::Mapping(m) => YamlItem::Mapping(m), _ => YamlItem::Other }).collect(),
        )),
        Ok(_) => Ok(YamlValue::Other),
    }
}

/// The plain views of a list of entries as read.
pub open spec fn entry_views(v: Seq<(Option<String>, Option<u64>)>) -> Seq<(Option<Seq<char>>, Option<u64>)> {
    v.map_values(|e: (Option<String>, Option<u64>)| (
        match e.0 {
            Some(s) => Some(s@),
            None => None,
        },
        e.1,
    ))
}

/// The entries of a mapping (serde_yaml `Mapping::iter`), each handed out
/// as plain values: a string key's text, and a number value's
/// `Number::as_u64`.
#[verifier::external_body]
pub(crate) fn mapping_entries(m: &serde_yaml::Mapping) -> (r: Vec<(Option<String>, Option<u64>)>)
    ensures
        entry_views(r@) == entries_read(yaml_entries(*m)),
{
    m.iter().map(|(k, v)| (
        match k { Value::String(s) => Some(s.clone()), _ => None },
        match v { Value::Number(n) => n.as_u64(), _ => None },
    )).collect()
}

/// serde_yaml `Mapping::new`: an empty mapping.
#[verifier::external_body]
pub(crate) fn mapping_new() -> (m: serde_yaml::Mapping)
    ensures
        yaml_entries(m) == Seq::<EntryView>::empty(),
{
    serde_yaml::Mapping::new()
}

/// Whether some entry's key is the string `key`.
pub open spec fn has_key(entries: Seq<EntryView>, key: Seq<char>) -> bool {
    exists|i: int| 0 <= i < entries.len() && #[trigger] entries[i].0 == YamlNode::String(key)
}

/// serde_yaml `Mapping::insert` of the string key `key` with the number
/// `n`. A key that is not in the mapping yet is added at its end (the
/// mapping keeps insertion order); what replacing an existing key does is
/// left unsaid.
#[verifier::external_body]
pub(crate) fn mapping_insert_number(m: &mut serde_yaml::Mapping, key: String, n: u64)
    ensures
        !has_key(yaml_entries(*old(m)), key@) ==> yaml_entries(*final(m)) == yaml_entries(*old(m)).push(
            (YamlNode::String(key@), YamlNode::PosInt(n)),
        ),
{
    m.insert(serde_yaml::Value::String(key), serde_yaml::Value::Number(n.into()));
}

/// Whether every key of `a` is a string that is no key of `b`, so that
/// the two mappings share no key.
pub open spec fn disjoint_string_keys(a: Seq<EntryView>, b: Seq<EntryView>) -> bool {
    &&& forall|i: int| 0 <= i < a.len() ==> (#[trigger] a[i]).0 is String
    &&& forall|i: int, j: int| 0 <= i < a.len() && 0 <= j < b.len() ==> (#[trigger] a[i]).0 != (#[trigger] b[j]).0
}

/// serde_yaml `Mapping::extend` with the entries of `other`, in order.
/// When the two share no key, the entries of `other` follow those of `m`;
/// otherwise what happens is left unsaid.
#[verifier::external_body]
pub(crate) fn mapping_extend(m: &mut serde_yaml::Mapping, other: serde_yaml::Mapping)
    ensures
        disjoint_string_keys(yaml_entries(*old(m)), yaml_entries(other)) ==> yaml_entries(*final(m))
            == yaml_entries(*old(m)) + yaml_entries(other),
{
    m.extend(other);
}

/// A document to emit: a mapping, or a sequence of mappings.
pub enum YamlOut {
    Mapping(serde_yaml::Mapping),
    Sequence(Vec<serde_yaml::Mapping>),
}

/// What serde_yaml's `to_string` emits for a mapping with the entries
/// `es`, or the text of its error.
pub uninterp spec fn yaml_mapping_text(es: Seq<EntryView>) -> Result<Seq<char>, Seq<char>>;

/// What serde_yaml's `to_string` emits for a sequence of mappings with the
/// entries `items`, or the text of its error.
pub uninterp spec fn yaml_sequence_text(items: Seq<Seq<EntryView>>) -> Result<Seq<char>, Seq<char>>;

/// A text result as plain values.
pub open spec fn text_result(r: Result<String, String>) -> Result<Seq<char>, Seq<char>> {
    match r {
        Ok(s) => Ok(s@),
        Err(e) => Err(e@),
    }
}

/// serde_yaml `to_string` of the document as a `Value`; an error is
/// displayed. The result is named by [`yaml_mapping_text`] for a mapping
/// and by [`yaml_sequence_text`] for a sequence of mappings.
#[verifier::external_body]
pub(crate) fn emit_yaml(doc: YamlOut) -> (r: Result<String, String>)
    ensures
        doc matches YamlOut::Mapping(m) ==> yaml_mapping_text(yaml_entries(m)) == text_result(r),
        doc matches YamlOut::Sequence(ms) ==> yaml_sequence_text(
            ms@.map_values(|m: serde_yaml::Mapping| yaml_entries(m)),
        ) == text_result(r),
{
    let v = match doc {
        YamlOut::Mapping(m) => Value::Mapping(m),
        YamlOut::Sequence(ms) => Value::Sequence(ms.into_iter().map(Value::Mapping).collect()),
    };
    serde_yaml::to_string(&v).map_err(|e| e.to_string())
}

}
