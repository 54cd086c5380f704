//! A JSON document as plain values: what the analyzers read of
//! `package.json`, of `npm view` output, of server replies and of tool
//! input schemas. Documents are parsed by `serde_json`, whose objects (no
//! `preserve_order` feature here) hand out their entries sorted by key;
//! the entries of an object keep the order in which the parser gave them.
use vstd::prelude::*;

verus! {

/// A JSON value. Numbers keep their text.
pub enum JsonValue {
    Null,
    Bool(bool),
    Number(String),
    Str(String),
    Array(Vec<JsonValue>),
    Object(Vec<(String, JsonValue)>),
}

#[verifier::external_type_specification]
#[verifier::external_body]
pub struct ExSerdeValue(serde_json::Value);

/// The document that `serde_json::from_str::<serde_json::Value>` parses
/// from `text`, as a `JsonValue`; `None` where it refuses the text.
pub uninterp spec fn json_parsed(text: Seq<char>) -> Option<JsonValue>;

/// Converts a parsed `serde_json::Value` one for one: numbers by their
/// text, objects in the order the parser hands out their entries.
#[verifier::external_body]
fn from_serde(v: &serde_json::Value) -> JsonValue {
    match v {
        serde_json::Value::Null => JsonValue::Null,
        serde_json::Value::Bool(b) => JsonValue::Bool(*b),
        serde_json::Value::Number(n) => JsonValue::Number(n.to_string()),
        serde_json::Value::String(t) => JsonValue::Str(t.clone()),
        serde_json::Value::Array(items) => JsonValue::Array(items.iter().map(from_serde).collect()),
        serde_json::Value::Object(m) => JsonValue::Object(
            m.iter().map(|(k, x)| (k.clone(), from_serde(x))).collect(),
        ),
    }
}

/// Calls `serde_json::from_str::<serde_json::Value>` on `text`. The result
/// is named by `json_parsed`; on a refusal, the parser's message (which is
/// not stated) is returned.
#[verifier::external_body]
pub(crate) fn parse_json(text: &str) -> (r: Result<JsonValue, String>)
    ensures
        match json_parsed(text@) {
            Some(v) => r == Ok::<JsonValue, String>(v),
            None => r is Err,
        },
{
    match serde_json::from_str::<serde_json::Value>(text) {
        Ok(v) => Ok(from_serde(&v)),
        Err(e) => Err(e.to_string()),
    }
}

/// The value stored under `key` among `entries`: the first entry with that key.
pub open spec fn lookup(entries: Seq<(String, JsonValue)>, key: Seq<char>) -> Option<JsonValue>
    decreases entries.len(),
{
    if entries.len() == 0 {
        None
    } else if entries[0].0@ == key {
        Some(entries[0].1)
    } else {
        lookup(entries.drop_first(), key)
    }
}

impl JsonValue {
    /// `Value::get` with a key: the member of an object, `None` otherwise.
    pub open spec fn member(self, key: Seq<char>) -> Option<JsonValue> {
        match self {
            JsonValue::Object(entries) => lookup(entries@, key),
            _ => None,
        }
    }

    /// `Value::as_str`.
    pub open spec fn text(self) -> Option<Seq<char>> {
        match self {
            JsonValue::Str(s) => Some(s@),
            _ => None,
        }
    }

    /// `Value::as_object`.
    pub open spec fn entries(self) -> Option<Seq<(String, JsonValue)>> {
        match self {
            JsonValue::Object(entries) => Some(entries@),
            _ => None,
        }
    }

    /// The member `key` of an object.
    pub fn get(&self, key: &str) -> (r: Option<&JsonValue>)
        ensures
            match r {
                Some(v) => self.member(key@) == Some(*v),
                None => self.member(key@) is None,
            },
    {
        match self {
            JsonValue::Object(entries) => lookup_entry(entries, key),
            _ => None,
        }
    }

    /// The text of a string value.
    pub fn as_str(&self) -> (r: Option<&str>)
        ensures
            match r {
                Some(s) => self.text() == Some(s@),
                None => self.text() is None,
            },
    {
        match self {
            JsonValue::Str(s) => Some(s.as_str()),
            _ => None,
        }
    }

    /// The entries of an object value.
    pub fn as_object(&self) -> (r: Option<&Vec<(String, JsonValue)>>)
        ensures
            match r {
                Some(e) => self.entries() == Some(e@),
                None => self.entries() is None,
            },
    {
        match self {
            JsonValue::Object(entries) => Some(entries),
            _ => None,
        }
    }

    /// Whether the value is an object.
    pub fn is_object(&self) -> (b: bool)
        ensures
            b == self is Object,
    {
        match self {
            JsonValue::Object(_) => true,
            _ => false,
        }
    }
}

/// The first entry of `entries` whose key is `key`.
pub fn lookup_entry<'a>(entries: &'a Vec<(String, JsonValue)>, key: &str) -> (r: Option<&'a JsonValue>)
    ensures
        match r {
            Some(v) => lookup(entries@, key@) == Some(*v),
            None => lookup(entries@, key@) is None,
        },
{
    let n = entries.len();
    let wanted: String = key.to_owned();
    let mut i: usize = 0;
    assert(entries@.skip(0) =~= entries@);
    while i < n
        invariant
            n == entries@.len(),
            wanted@ == key@,
            i <= n,
            lookup(entries@, key@) == lookup(entries@.skip(i as int), key@),
        decreases n - i,
    {
        let ghost rest = entries@.skip(i as int);
        proof {
            assert(rest.drop_first() =~= entries@.skip(i + 1));
            assert(rest[0] == entries@[i as int]);
        }
        if entries[i].0 == wanted {
            return Some(&entries[i].1);
        }
        i = i + 1;
    }
    None
}

/// Whether `entries` holds the key `key`.
pub fn has_key(entries: &Vec<(String, JsonValue)>, key: &str) -> (b: bool)
    ensures
        b == lookup(entries@, key@) is Some,
{
    lookup_entry(entries, key).is_some()
}

} // verus!
