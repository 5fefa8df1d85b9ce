//! A JSON document as the manifest logic reads it.
//!
//! An object keeps its members in the order in which the document's map
//! hands them out; a key names at most one member in a well-formed object,
//! and a lookup returns the first member with the key.

use vstd::prelude::*;

verus! {

/// A JSON value. Numbers are kept as their text.
#[derive(Debug)]
pub enum JsonValue {
    Null,
    Bool(bool),
    Number(String),
    String(String),
    Array(Vec<JsonValue>),
    Object(Vec<(String, JsonValue)>),
}

/// The value of the first member of `members` whose key is `key`.
pub open spec fn member_lookup(members: Seq<(String, JsonValue)>, key: Seq<char>) -> Option<JsonValue>
    decreases members.len(),
{
    if members.len() == 0 {
        None
    } else if members[0].0@ == key {
        Some(members[0].1)
    } else {
        member_lookup(members.drop_first(), key)
    }
}

/// `value.get(key)`: the member `key` of an object; nothing for other values.
pub open spec fn json_get(value: JsonValue, key: Seq<char>) -> Option<JsonValue> {
    match value {
        JsonValue::Object(members) => member_lookup(members@, key),
        _ => None,
    }
}

/// `value.as_str()`: the text of a string value.
pub open spec fn json_str(value: JsonValue) -> Option<Seq<char>> {
    match value {
        JsonValue::String(s) => Some(s@),
        _ => None,
    }
}

/// The text of a string value, or the empty text for any other value.
pub open spec fn str_or_empty(value: Option<JsonValue>) -> Seq<char> {
    match value {
        Some(JsonValue::String(s)) => s@,
        _ => Seq::empty(),
    }
}

impl JsonValue {
    /// The member `key` of an object; `None` for other values or a missing key.
    pub fn get(&self, key: &String) -> (r: Option<&JsonValue>)
        ensures
            match r {
                Some(v) => json_get(*self, key@) == Some(*v),
                None => json_get(*self, key@) is None,
            },
    {
        match self {
            JsonValue::Object(members) => {
                let mut i: usize = 0;
                assert(members@.skip(0) == members@);
                while i < members.len()
                    invariant
                        i <= members.len(),
                        json_get(*self, key@) == member_lookup(members@, key@),
                        member_lookup(members@, key@) == member_lookup(members@.skip(i as int), key@),
                    decreases members.len() - i,
                {
                    assert(members@.skip(i as int).drop_first() == members@.skip(i + 1));
                    if members[i].0 == *key {
                        return Some(&members[i].1);
                    }
                    i += 1;
                }
                None
            },
            _ => None,
        }
    }

    /// The text of a string value.
    pub fn as_str(&self) -> (r: Option<&String>)
        ensures
            match r {
                Some(s) => json_str(*self) == Some(s@),
                None => json_str(*self) is None,
            },
    {
        match self {
            JsonValue::String(s) => Some(s),
            _ => None,
        }
    }
}

} // verus!
