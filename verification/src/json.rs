use vstd::prelude::*;

use crate::text::text_eq;

verus! {

/// A JSON document, as the library reads and builds it.
#[derive(Debug)]
pub enum Json {
    Null,
    Bool(bool),
    /// A number, kept as the text that denotes it.
    Number(String),
    Str(String),
    Array(Vec<Json>),
    Object(Vec<(String, Json)>),
}

/// The value stored under `key` in a list of object entries: the first entry with that key.
pub open spec fn entries_lookup(entries: Seq<(String, Json)>, key: Seq<char>) -> Option<Json>
    decreases entries.len(),
{
    if entries.len() == 0 {
        None
    } else if entries[0].0@ == key {
        Some(entries[0].1)
    } else {
        entries_lookup(entries.drop_first(), key)
    }
}

impl Json {
    /// The member `key` of an object; nothing for any other kind of value.
    pub open spec fn member(self, key: Seq<char>) -> Option<Json> {
        match self {
            Json::Object(entries) => entries_lookup(entries@, key),
            _ => None,
        }
    }

    /// The text of a string value.
    pub open spec fn text(self) -> Option<Seq<char>> {
        match self {
            Json::Str(s) => Some(s@),
            _ => None,
        }
    }

    pub fn get(&self, key: &String) -> (res: Option<&Json>)
        ensures
            res matches Some(r) ==> self.member(key@) == Some(*r),
            res is None ==> self.member(key@) is None,
    {
        match self {
            Json::Object(entries) => {
                let mut i: usize = 0;
                assert(entries@.skip(0) =~= entries@);
                while i < entries.len()
                    invariant
                        0 <= i <= entries.len(),
                        self.member(key@) == entries_lookup(entries@, key@),
                        entries_lookup(entries@, key@) == entries_lookup(entries@.skip(i as int), key@),
                    decreases entries.len() - i,
                {
                    assert(entries@.skip(i as int).drop_first() =~= entries@.skip(i + 1));
                    assert(entries@.skip(i as int)[0] == entries@[i as int]);
                    if entries[i].0 == *key {
                        let entry = &entries[i];
                        return Some(&entry.1);
                    }
                    i = i + 1;
                }
                assert(entries@.skip(i as int).len() == 0);
                None
            },
            _ => None,
        }
    }
}


/// What `serde_json::from_str::<serde_json::Value>` makes of a text: the document, or the
/// text of the error it reports.
pub uninterp spec fn json_parse(text: Seq<char>) -> Result<Json, Seq<char>>;

/// The compact text that serde_json writes for a document (`Value`'s `Display`).
pub uninterp spec fn json_text(doc: Json) -> Seq<char>;

/// serde_json's document type, carried through the conversions below.
#[verifier::external_type_specification]
#[verifier::external_body]
pub struct ExValue(serde_json::Value);

/// Converts a serde_json value into the library's document, variant by variant.
#[verifier::external_body]
fn json_from_value(v: serde_json::Value) -> Json {
    match v {
        serde_json::Value::Null => Json::Null,
        serde_json::Value::Bool(b) => Json::Bool(b),
        serde_json::Value::Number(n) => Json::Number(n.to_string()),
        serde_json::Value::String(s) => Json::Str(s),
        serde_json::Value::Array(a) => Json::Array(a.into_iter().map(json_from_value).collect()),
        serde_json::Value::Object(m) => Json::Object(m.into_iter().map(|(k, x)| (k, json_from_value(x))).collect()),
    }
}

/// Converts the library's document back into a serde_json value, variant by variant.
#[verifier::external_body]
fn json_into_value(doc: &Json) -> serde_json::Value {
    match doc {
        Json::Null => serde_json::Value::Null,
        Json::Bool(b) => serde_json::Value::Bool(*b),
        Json::Number(n) => n.parse::<serde_json::Number>().map(serde_json::Value::Number).unwrap_or(serde_json::Value::Null),
        Json::Str(s) => serde_json::Value::String(s.clone()),
        Json::Array(a) => serde_json::Value::Array(a.iter().map(json_into_value).collect()),
        Json::Object(m) => serde_json::Value::Object(m.iter().map(|(k, x)| (k.clone(), json_into_value(x))).collect()),
    }
}

/// Reads a JSON document with `serde_json::from_str::<serde_json::Value>`.
/// Trusted: the outcome is the one serde_json computes from the text alone; an error is
/// handed on as the text of serde_json's error.
#[verifier::external_body]
pub(crate) fn parse_json(text: &str) -> (res: Result<Json, String>)
    ensures
        res is Ok ==> json_parse(text@) == Ok::<Json, Seq<char>>(res->Ok_0),
        res is Err ==> json_parse(text@) == Err::<Json, Seq<char>>(res->Err_0@),
{
    match serde_json::from_str::<serde_json::Value>(text) {
        Ok(v) => Ok(json_from_value(v)),
        Err(e) => Err(e.to_string()),
    }
}

/// Writes a document as compact JSON text (serde_json's `Value` `Display`, as `to_string`).
/// Trusted: the text is the one serde_json writes for the document; its compact writer puts
/// no line break in it (a line break inside a string is escaped).
#[verifier::external_body]
pub(crate) fn json_to_text(doc: &Json) -> (res: String)
    ensures
        res@ == json_text(*doc),
        !res@.contains('\n'),
{
    json_into_value(doc).to_string()
}

impl Json {
    /// The text of a string value.
    pub fn as_str(&self) -> (res: Option<&String>)
        ensures
            res matches Some(s) ==> self.text() == Some(s@),
            res is None ==> self.text() is None,
    {
        match self {
            Json::Str(s) => Some(s),
            _ => None,
        }
    }
}

/// The text stored under `key`, where the value there is a string.
pub open spec fn str_member(doc: Json, key: Seq<char>) -> Option<Seq<char>> {
    match doc.member(key) {
        Some(v) => v.text(),
        None => None,
    }
}

/// The string member `key` of a document, as an owned text.
pub fn get_str(doc: &Json, key: &str) -> (res: Option<String>)
    ensures
        res matches Some(s) ==> str_member(*doc, key@) == Some(s@),
        res is None ==> str_member(*doc, key@) is None,
{
    let k = key.to_owned();
    match doc.get(&k) {
        Some(v) => match v.as_str() {
            Some(s) => Some(s.clone()),
            None => None,
        },
        None => None,
    }
}


/// Takes the member `key` out of a document (the first entry with that key).
pub fn take_member(doc: Json, key: &str) -> (res: Option<Json>)
    ensures
        res == doc.member(key@),
{
    let ghost d = doc;
    match doc {
        Json::Object(entries0) => {
            let mut entries = entries0;
            let ghost orig = entries@;
            assert(d.member(key@) == entries_lookup(orig, key@));
            let mut i: usize = 0;
            assert(entries@.skip(0) =~= entries@);
            while i < entries.len()
                invariant
                    0 <= i <= entries@.len(),
                    entries@ == orig,
                    d.member(key@) == entries_lookup(orig, key@),
                    d == doc,
                    entries_lookup(orig, key@) == entries_lookup(orig.skip(i as int), key@),
                decreases entries@.len() - i,
            {
                assert(orig.skip(i as int).drop_first() =~= orig.skip(i + 1));
                assert(orig.skip(i as int)[0] == orig[i as int]);
                if text_eq(entries[i].0.as_str(), key) {
                    assert(entries_lookup(orig.skip(i as int), key@) == Some(orig[i as int].1));
                    let pair = entries.remove(i);
                    assert(pair == orig[i as int]);
                    let (_k, v) = pair;
                    let res = Some(v);
                    return res;
                }
                i = i + 1;
            }
            assert(orig.skip(i as int).len() == 0);
            None
        },
        _ => None,
    }
}

/// A string value.
pub fn json_str(s: &str) -> (res: Json)
    ensures
        res is Str && res.text() == Some(s@),
{
    Json::Str(s.to_owned())
}

} // verus!
