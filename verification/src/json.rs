//! The library's own form of a parsed JSON document, with verified
//! accessors, and the trusted call into `serde_json` that produces it.
//!
//! Numbers keep their textual form: no part of this crate reads one as a
//! number, it only writes fixed ones into request envelopes.

use vstd::prelude::*;
use vstd::string::*;
use crate::errors::ApiError;
use crate::text;

verus! {

#[derive(Debug, PartialEq)]
pub enum Json {
    Null,
    Bool(bool),
    Num(String),
    Str(String),
    Arr(Vec<Json>),
    Obj(Vec<(String, Json)>),
}

/// The value under the first field named `key`.
pub open spec fn spec_fields_get(fields: Seq<(String, Json)>, key: Seq<char>) -> Option<Json>
    decreases fields.len(),
{
    if fields.len() == 0 {
        None
    } else if fields[0].0@ == key {
        Some(fields[0].1)
    } else {
        spec_fields_get(fields.drop_first(), key)
    }
}

/// Lookup lands on position `i` when its key first appears there.
pub proof fn lemma_fields_get_at(fields: Seq<(String, Json)>, key: Seq<char>, i: int)
    requires
        0 <= i < fields.len(),
        fields[i].0@ == key,
        forall|j: int| 0 <= j < i ==> fields[j].0@ != key,
    ensures
        spec_fields_get(fields, key) == Some(fields[i].1),
    decreases i,
{
    if i > 0 {
        assert(forall|j: int| 0 <= j < i - 1 ==> fields.drop_first()[j] == fields[j + 1]);
        lemma_fields_get_at(fields.drop_first(), key, i - 1);
    }
}

/// Lookup misses when the key appears nowhere.
pub proof fn lemma_fields_get_absent(fields: Seq<(String, Json)>, key: Seq<char>)
    requires
        forall|j: int| 0 <= j < fields.len() ==> fields[j].0@ != key,
    ensures
        spec_fields_get(fields, key) is None,
    decreases fields.len(),
{
    if fields.len() > 0 {
        assert(forall|j: int|
            0 <= j < fields.len() - 1 ==> fields.drop_first()[j] == fields[j + 1]);
        lemma_fields_get_absent(fields.drop_first(), key);
    }
}

impl Json {
    /// Object-field lookup; `None` on any other variant.
    pub open spec fn spec_get(self, key: Seq<char>) -> Option<Json> {
        match self {
            Json::Obj(fields) => spec_fields_get(fields@, key),
            _ => None,
        }
    }

    pub open spec fn spec_str(self) -> Option<Seq<char>> {
        match self {
            Json::Str(s) => Some(s@),
            _ => None,
        }
    }

    pub open spec fn spec_arr(self) -> Option<Seq<Json>> {
        match self {
            Json::Arr(items) => Some(items@),
            _ => None,
        }
    }

    /// Array element lookup; `None` on any other variant or out of range.
    pub open spec fn spec_idx(self, i: int) -> Option<Json> {
        match self {
            Json::Arr(items) => if 0 <= i < items@.len() {
                Some(items@[i])
            } else {
                None
            },
            _ => None,
        }
    }

    pub open spec fn spec_get_str(self, key: Seq<char>) -> Option<Seq<char>> {
        match self.spec_get(key) {
            Some(v) => v.spec_str(),
            None => None,
        }
    }

    pub fn get<'a>(&'a self, key: &str) -> (r: Option<&'a Json>)
        ensures
            (match r {
                Some(v) => (*self).spec_get(key@) == Some(*v),
                None => (*self).spec_get(key@) is None,
            }),
    {
        match self {
            Json::Obj(fields) => {
                let n = fields.len();
                proof {
                    assert(fields@.subrange(0, n as int) =~= fields@);
                }
                let mut i: usize = 0;
                while i < n
                    invariant
                        *self is Obj,
                        (*self)->Obj_0 == *fields,
                        n == fields@.len(),
                        i <= n,
                        spec_fields_get(fields@, key@) == spec_fields_get(
                            fields@.subrange(i as int, n as int),
                            key@,
                        ),
                    decreases n - i,
                {
                    let pair: &(String, Json) = &fields[i];
                    if text::str_eq(pair.0.as_str(), key) {
                        proof {
                            let sub = fields@.subrange(i as int, n as int);
                            assert(sub[0] == fields@[i as int]);
                            assert(spec_fields_get(sub, key@) == Some(sub[0].1));
                        }
                        return Some(&pair.1);
                    }
                    proof {
                        assert(fields@.subrange(i as int, n as int).drop_first() =~= fields@
                            .subrange(i + 1, n as int));
                    }
                    i += 1;
                }
                None
            },
            _ => None,
        }
    }

    pub fn as_str(&self) -> (r: Option<&String>)
        ensures
            (match r {
                Some(s) => (*self).spec_str() == Some(s@),
                None => (*self).spec_str() is None,
            }),
    {
        match self {
            Json::Str(s) => Some(s),
            _ => None,
        }
    }

    pub fn as_arr(&self) -> (r: Option<&Vec<Json>>)
        ensures
            (match r {
                Some(items) => (*self).spec_arr() == Some(items@),
                None => (*self).spec_arr() is None,
            }),
    {
        match self {
            Json::Arr(items) => Some(items),
            _ => None,
        }
    }

    pub fn idx(&self, i: usize) -> (r: Option<&Json>)
        ensures
            (match r {
                Some(v) => (*self).spec_idx(i as int) == Some(*v),
                None => (*self).spec_idx(i as int) is None,
            }),
    {
        match self {
            Json::Arr(items) => {
                if i < items.len() {
                    Some(&items[i])
                } else {
                    None
                }
            },
            _ => None,
        }
    }

    pub fn get_str<'a>(&'a self, key: &str) -> (r: Option<&'a String>)
        ensures
            (match r {
                Some(s) => (*self).spec_get_str(key@) == Some(s@),
                None => (*self).spec_get_str(key@) is None,
            }),
    {
        match self.get(key) {
            Some(v) => v.as_str(),
            None => None,
        }
    }
}

/// Field lookup lifted over an optional value.
pub open spec fn opt_get(o: Option<Json>, key: Seq<char>) -> Option<Json> {
    match o {
        Some(j) => j.spec_get(key),
        None => None,
    }
}

pub open spec fn opt_str(o: Option<Json>) -> Option<Seq<char>> {
    match o {
        Some(j) => j.spec_str(),
        None => None,
    }
}

pub open spec fn opt_arr(o: Option<Json>) -> Option<Seq<Json>> {
    match o {
        Some(j) => j.spec_arr(),
        None => None,
    }
}

pub open spec fn opt_idx(o: Option<Json>, i: int) -> Option<Json> {
    match o {
        Some(j) => j.spec_idx(i),
        None => None,
    }
}

/// Field lookup on an optional reference, for chained descents.
pub fn opt_get_ref<'a>(o: Option<&'a Json>, key: &str) -> (r: Option<&'a Json>)
    ensures
        (match o {
            Some(j) => (match r {
                Some(v) => (*j).spec_get(key@) == Some(*v),
                None => (*j).spec_get(key@) is None,
            }),
            None => r is None,
        }),
{
    match o {
        Some(j) => j.get(key),
        None => None,
    }
}

pub fn opt_idx_ref<'a>(o: Option<&'a Json>, i: usize) -> (r: Option<&'a Json>)
    ensures
        (match o {
            Some(j) => (match r {
                Some(v) => (*j).spec_idx(i as int) == Some(*v),
                None => (*j).spec_idx(i as int) is None,
            }),
            None => r is None,
        }),
{
    match o {
        Some(j) => j.idx(i),
        None => None,
    }
}

/// What `serde_json` parses a given text into, translated to `Json`;
/// `None` when the text is not well-formed JSON. Parsing depends on the
/// text alone.
pub uninterp spec fn json_of(text: Seq<char>) -> Option<Json>;

#[verifier::external_type_specification]
#[verifier::external_body]
pub struct ExValue(serde_json::Value);

/// Translates a `serde_json` tree into the library's form, one variant at
/// a time; numbers keep their textual rendering.
#[verifier::external_body]
fn from_value(v: &serde_json::Value) -> Json {
    match v {
        serde_json::Value::Null => Json::Null,
        serde_json::Value::Bool(b) => Json::Bool(*b),
        serde_json::Value::Number(n) => Json::Num(n.to_string()),
        serde_json::Value::String(s) => Json::Str(s.clone()),
        serde_json::Value::Array(items) => Json::Arr(items.iter().map(from_value).collect()),
        serde_json::Value::Object(fields) => Json::Obj(
            fields.iter().map(|(k, v)| (k.clone(), from_value(v))).collect(),
        ),
    }
}

/// Relies on `serde_json::from_str::<Value>`: parses the text as JSON, a
/// function of the text alone; `None` exactly on malformed input.
#[verifier::external_body]
pub fn parse_json(text: &str) -> (r: Option<Json>)
    ensures
        r == json_of(text@),
{
    serde_json::from_str::<serde_json::Value>(text).ok().map(|v| from_value(&v))
}

/// Decodes a response body into the library's document form; a body
/// that is not well-formed structured data is a decode error.
pub fn parse_document(body: &str) -> (r: Result<Json, ApiError>)
    ensures
        (match json_of(body@) {
            Some(j) => r matches Ok(x) && x == j,
            None => r matches Err(e) && e matches ApiError::Decode(_),
        }),
{
    match parse_json(body) {
        Some(j) => Ok(j),
        None => Err(ApiError::Decode(String::from_str("response body is not structured data"))),
    }
}

} // verus!
