//! Structured values: the JSON documents that tools take and return.
//!
//! [`Json`] holds a document as plain data, so that the protocol logic can be
//! read and verified. Numbers are carried as `serde_json::Number`, and the
//! text of a document is the one that `serde_json` writes.

use vstd::prelude::*;

verus! {

/// `serde_json::Number`: a JSON number, carried as it is.
#[verifier::external_type_specification]
#[verifier::external_body]
pub struct ExNumber(serde_json::Number);

/// `serde_json::Value`: what `serde_json` reads and writes.
#[verifier::external_type_specification]
#[verifier::external_body]
pub struct ExValue(serde_json::Value);

/// A JSON document. The entries of an object are kept in the order in which
/// they were written; where a key occurs twice, the later entry counts.
#[derive(Debug, PartialEq)]
pub enum Json {
    Null,
    Bool(bool),
    Number(serde_json::Number),
    Str(String),
    Array(Vec<Json>),
    Object(Vec<(String, Json)>),
}

/// The mathematical value of a [`Json`] document.
pub ghost enum JsonValue {
    Null,
    Bool(bool),
    Number(serde_json::Number),
    Str(Seq<char>),
    Array(Seq<JsonValue>),
    Object(Seq<(Seq<char>, JsonValue)>),
}

/// The number that `serde_json` makes of an unsigned integer.
pub uninterp spec fn number_of_u64(n: u64) -> serde_json::Number;

/// The unsigned integer that a number holds, if it holds one.
pub uninterp spec fn number_to_u64(n: serde_json::Number) -> Option<u64>;

/// The text that `serde_json` writes for a document.
pub uninterp spec fn json_text(v: JsonValue) -> Seq<char>;

/// The document that `serde_json` reads from a text; `None` where the text is
/// no JSON document.
pub uninterp spec fn json_parse(s: Seq<char>) -> Option<JsonValue>;

impl JsonValue {
    /// The index of the entry that counts for `key`: the last one with that key.
    pub open spec fn entry_index(
        entries: Seq<(Seq<char>, JsonValue)>,
        key: Seq<char>,
        i: int,
    ) -> bool {
        &&& 0 <= i < entries.len()
        &&& entries[i].0 == key
        &&& forall|j: int| i < j < entries.len() ==> entries[j].0 != key
    }

    /// The member of an object under `key`; `None` for a missing key and for
    /// anything that is not an object.
    pub open spec fn field(self, key: Seq<char>) -> Option<JsonValue> {
        match self {
            JsonValue::Object(entries) => {
                if exists|i: int| Self::entry_index(entries, key, i) {
                    Some(entries[choose|i: int| Self::entry_index(entries, key, i)].1)
                } else {
                    None
                }
            },
            _ => None,
        }
    }

    /// The characters of a string document.
    pub open spec fn as_str(self) -> Option<Seq<char>> {
        match self {
            JsonValue::Str(s) => Some(s),
            _ => None,
        }
    }

    /// The unsigned integer of a number document.
    pub open spec fn as_u64(self) -> Option<u64> {
        match self {
            JsonValue::Number(n) => number_to_u64(n),
            _ => None,
        }
    }
}

impl View for Json {
    type V = JsonValue;

    open spec fn view(&self) -> JsonValue
        decreases self,
    {
        match self {
            Json::Null => JsonValue::Null,
            Json::Bool(b) => JsonValue::Bool(*b),
            Json::Number(n) => JsonValue::Number(*n),
            Json::Str(s) => JsonValue::Str(s@),
            Json::Array(items) => JsonValue::Array(
                Seq::new(
                    items@.len(),
                    |i: int|
                        if 0 <= i < items@.len() {
                            items@[i].view()
                        } else {
                            JsonValue::Null
                        },
                ),
            ),
            Json::Object(entries) => JsonValue::Object(
                Seq::new(
                    entries@.len(),
                    |i: int|
                        (
                            entries@[i].0@,
                            if 0 <= i < entries@.len() {
                                entries@[i].1.view()
                            } else {
                                JsonValue::Null
                            },
                        ),
                ),
            ),
        }
    }
}

/// `Clone::clone` of `serde_json::Number`: the copy is the same number.
#[verifier::external_body]
fn number_clone(n: &serde_json::Number) -> (r: serde_json::Number)
    ensures
        r == *n,
{
    n.clone()
}

/// `From<u64>` of `serde_json::Number`: the number made of `n`, which holds
/// `n` as an unsigned integer.
#[verifier::external_body]
fn number_from_u64(n: u64) -> (r: serde_json::Number)
    ensures
        r == number_of_u64(n),
        number_to_u64(r) == Some(n),
{
    serde_json::Number::from(n)
}

/// `serde_json::Number::as_u64`: the unsigned integer that the number holds;
/// `None` for a negative or a fractional number.
#[verifier::external_body]
fn number_as_u64(n: &serde_json::Number) -> (r: Option<u64>)
    ensures
        r == number_to_u64(*n),
{
    n.as_u64()
}

/// Rebuilds a document as a `serde_json::Value`, variant by variant.
#[verifier::external_body]
fn to_value(v: &Json) -> serde_json::Value {
    match v {
        Json::Null => serde_json::Value::Null,
        Json::Bool(b) => serde_json::Value::Bool(*b),
        Json::Number(n) => serde_json::Value::Number(n.clone()),
        Json::Str(s) => serde_json::Value::String(s.clone()),
        Json::Array(items) => serde_json::Value::Array(items.iter().map(to_value).collect()),
        Json::Object(entries) => serde_json::Value::Object(
            entries.iter().map(|e| (e.0.clone(), to_value(&e.1))).collect(),
        ),
    }
}

/// `serde_json::to_string` on the document: its compact JSON text. Writing a
/// value whose keys are strings does not fail.
#[verifier::external_body]
fn write_text(v: &Json) -> (r: String)
    ensures
        r@ == json_text(v@),
{
    serde_json::to_string(&to_value(v)).unwrap_or_default()
}

/// Rebuilds a `serde_json::Value` as a document, variant by variant. The
/// entries of an object come in the order in which the value holds them.
#[verifier::external_body]
fn from_value(v: serde_json::Value) -> Json {
    match v {
        serde_json::Value::Null => Json::Null,
        serde_json::Value::Bool(b) => Json::Bool(b),
        serde_json::Value::Number(n) => Json::Number(n),
        serde_json::Value::String(s) => Json::Str(s),
        serde_json::Value::Array(items) => Json::Array(items.into_iter().map(from_value).collect()),
        serde_json::Value::Object(entries) => Json::Object(
            entries.into_iter().map(|e| (e.0, from_value(e.1))).collect(),
        ),
    }
}

/// `serde_json::from_str` for a `serde_json::Value`: the document that the
/// text is, or `None` where it is none.
#[verifier::external_body]
fn read_text(s: &str) -> (r: Option<Json>)
    ensures
        optional_json(r) == json_parse(s@),
{
    serde_json::from_str::<serde_json::Value>(s).ok().map(from_value)
}

/// The view of a document that may be absent.
pub open spec fn optional_json(v: Option<Json>) -> Option<JsonValue> {
    match v {
        Some(j) => Some(j@),
        None => None,
    }
}

impl Clone for Json {
    fn clone(&self) -> (r: Self)
        ensures
            r@ == self@,
        decreases self,
    {
        match self {
            Json::Null => Json::Null,
            Json::Bool(b) => Json::Bool(*b),
            Json::Number(n) => Json::Number(number_clone(n)),
            Json::Str(s) => Json::Str(s.clone()),
            Json::Array(items) => {
                let mut out: Vec<Json> = Vec::new();
                let mut i: usize = 0;
                while i < items.len()
                    invariant
                        i <= items.len(),
                        out.len() == i,
                        *self == Json::Array(*items),
                        forall|k: int| 0 <= k < i ==> out@[k]@ == items@[k]@,
                    decreases items.len() - i,
                {
                    assert(decreases_to!(self => self->Array_0));
                    assert(decreases_to!(*items => items@));
                    assert(decreases_to!(items@ => items@[i as int]));
                    out.push(items[i].clone());
                    i += 1;
                }
                let r = Json::Array(out);
                assert(r@->Array_0 =~= self@->Array_0);
                r
            },
            Json::Object(entries) => {
                let mut out: Vec<(String, Json)> = Vec::new();
                let mut i: usize = 0;
                while i < entries.len()
                    invariant
                        i <= entries.len(),
                        out.len() == i,
                        *self == Json::Object(*entries),
                        forall|k: int|
                            0 <= k < i ==> out@[k].0@ == entries@[k].0@ && out@[k].1@
                                == entries@[k].1@,
                    decreases entries.len() - i,
                {
                    assert(decreases_to!(self => self->Object_0));
                    assert(decreases_to!(*entries => entries@));
                    assert(decreases_to!(entries@ => entries@[i as int]));
                    assert(decreases_to!(entries@[i as int] => entries@[i as int].1));
                    out.push((entries[i].0.clone(), entries[i].1.clone()));
                    i += 1;
                }
                let r = Json::Object(out);
                assert(r@->Object_0 =~= self@->Object_0);
                r
            },
        }
    }
}

/// The views of a sequence of documents, in order.
pub open spec fn json_views(items: Seq<Json>) -> Seq<JsonValue> {
    Seq::new(items.len(), |i: int| items[i]@)
}

/// The views of the entries of an object, in order.
pub open spec fn entry_views(entries: Seq<(String, Json)>) -> Seq<(Seq<char>, JsonValue)> {
    Seq::new(entries.len(), |i: int| (entries[i].0@, entries[i].1@))
}

/// An entry of an object.
pub fn entry(key: &str, value: Json) -> (r: (String, Json))
    ensures
        r.0@ == key@,
        r.1 == value,
{
    (key.to_owned(), value)
}

impl Json {
    /// An object with the given entries.
    pub fn object(entries: Vec<(String, Json)>) -> (r: Json)
        ensures
            r@ == JsonValue::Object(entry_views(entries@)),
    {
        let r = Json::Object(entries);
        assert(r@->Object_0 =~= entry_views(entries@));
        r
    }

    /// An array with the given items.
    pub fn array(items: Vec<Json>) -> (r: Json)
        ensures
            r@ == JsonValue::Array(json_views(items@)),
    {
        let r = Json::Array(items);
        assert(r@->Array_0 =~= json_views(items@));
        r
    }

    /// A string document with the characters of `s`.
    pub fn text(s: &str) -> (r: Json)
        ensures
            r@ == JsonValue::Str(s@),
    {
        Json::Str(s.to_owned())
    }

    /// A number document that holds `n`.
    pub fn from_u64(n: u64) -> (r: Json)
        ensures
            r@ == JsonValue::Number(number_of_u64(n)),
            r@.as_u64() == Some(n),
    {
        Json::Number(number_from_u64(n))
    }

    /// An object with no entries.
    pub fn empty_object() -> (r: Json)
        ensures
            r@ == JsonValue::Object(Seq::empty()),
    {
        let r = Json::Object(Vec::new());
        assert(r@->Object_0 =~= Seq::empty());
        r
    }

    /// The member of an object under `key`.
    pub fn get(&self, key: &str) -> (r: Option<&Json>)
        ensures
            match r {
                Some(member) => self@.field(key@) == Some(member@),
                None => self@.field(key@) is None,
            },
    {
        match self {
            Json::Object(entries) => {
                let mut i: usize = entries.len();
                while i > 0
                    invariant
                        i <= entries.len(),
                        self@ is Object,
                        self@->Object_0.len() == entries.len(),
                        forall|k: int|
                            0 <= k < entries.len() ==> self@->Object_0[k] == (
                                entries@[k].0@,
                                entries@[k].1@,
                            ),
                        forall|j: int| i <= j < entries.len() ==> entries@[j].0@ != key@,
                    decreases i,
                {
                    i -= 1;
                    if crate::text::text_eq(entries[i].0.as_str(), key) {
                        assert(JsonValue::entry_index(self@->Object_0, key@, i as int));
                        let ghost w = choose|w: int|
                            JsonValue::entry_index(self@->Object_0, key@, w);
                        assert(w == i);
                        return Some(&entries[i].1);
                    }
                }
                assert(forall|w: int| !JsonValue::entry_index(self@->Object_0, key@, w));
                None
            },
            _ => None,
        }
    }

    /// The characters of a string document.
    pub fn as_str(&self) -> (r: Option<&str>)
        ensures
            match r {
                Some(s) => self@.as_str() == Some(s@),
                None => self@.as_str() is None,
            },
    {
        match self {
            Json::Str(s) => Some(s.as_str()),
            _ => None,
        }
    }

    /// The unsigned integer of a number document.
    pub fn as_u64(&self) -> (r: Option<u64>)
        ensures
            r == self@.as_u64(),
    {
        match self {
            Json::Number(n) => number_as_u64(n),
            _ => None,
        }
    }

    /// Whether the document is an object.
    pub fn is_object(&self) -> (r: bool)
        ensures
            r == (self@ is Object),
    {
        match self {
            Json::Object(_) => true,
            _ => false,
        }
    }

    /// The document that a JSON text is; `None` where the text is none.
    pub fn parse(s: &str) -> (r: Option<Json>)
        ensures
            optional_json(r) == json_parse(s@),
    {
        read_text(s)
    }

    /// The compact JSON text of the document.
    pub fn to_text(&self) -> (r: String)
        ensures
            r@ == json_text(self@),
    {
        write_text(self)
    }
}

} // verus!
