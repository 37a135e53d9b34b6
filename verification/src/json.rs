//! A JSON value as the audit reads it, with the lookups that the decoder
//! makes on an answer: a field of an object, the items of an array, an
//! unsigned number, a text.

use vstd::prelude::*;

verus! {

/// A JSON value. A number that is no unsigned 64-bit integer is held as
/// `Number`, without its value.
#[derive(Debug)]
pub enum Json {
    Null,
    Bool(bool),
    Unsigned(u64),
    Number,
    Text(String),
    Array(Vec<Json>),
    /// The members of an object, in the order in which they were given.
    Object(Vec<(String, Json)>),
}

/// The value of the first member at or after `from` whose name is `key`.
pub open spec fn member(members: Seq<(String, Json)>, key: Seq<char>, from: int) -> Option<Json>
    decreases members.len() - from,
{
    if from < 0 || from >= members.len() {
        None
    } else if members[from].0@ == key {
        Some(members[from].1)
    } else {
        member(members, key, from + 1)
    }
}

impl Json {
    /// The member `key` of an object; `None` for a value that is no object or
    /// has no such member.
    pub open spec fn field(self, key: Seq<char>) -> Option<Json> {
        match self {
            Json::Object(members) => member(members@, key, 0),
            _ => None,
        }
    }

    /// The items of an array; `None` for any other value.
    pub open spec fn items(self) -> Option<Seq<Json>> {
        match self {
            Json::Array(items) => Some(items@),
            _ => None,
        }
    }

    /// The value of an unsigned number; `None` for any other value.
    pub open spec fn unsigned(self) -> Option<u64> {
        match self {
            Json::Unsigned(value) => Some(value),
            _ => None,
        }
    }

    /// The characters of a text; `None` for any other value.
    pub open spec fn text(self) -> Option<Seq<char>> {
        match self {
            Json::Text(text) => Some(text@),
            _ => None,
        }
    }

    /// The member `key` of an object.
    pub fn get(&self, key: &str) -> (value: Option<&Json>)
        ensures
            match value {
                Some(found) => self.field(key@) == Some(*found),
                None => self.field(key@) is None,
            },
    {
        match self {
            Json::Object(members) => {
                let wanted = key.to_owned();
                let mut i: usize = 0;
                while i < members.len()
                    invariant
                        i <= members.len(),
                        wanted@ == key@,
                        *self == Json::Object(*members),
                        member(members@, key@, 0) == member(members@, key@, i as int),
                    decreases members.len() - i,
                {
                    if members[i].0 == wanted {
                        return Some(&members[i].1);
                    }
                    i = i + 1;
                }
                None
            },
            _ => None,
        }
    }

    /// The items of an array.
    pub fn as_array(&self) -> (items: Option<&Vec<Json>>)
        ensures
            match items {
                Some(found) => self.items() == Some(found@),
                None => self.items() is None,
            },
    {
        match self {
            Json::Array(items) => Some(items),
            _ => None,
        }
    }

    /// The value of an unsigned number.
    pub fn as_u64(&self) -> (value: Option<u64>)
        ensures
            value == self.unsigned(),
    {
        match self {
            Json::Unsigned(value) => Some(*value),
            _ => None,
        }
    }

    /// The characters of a text.
    pub fn as_str(&self) -> (text: Option<&str>)
        ensures
            match text {
                Some(found) => self.text() == Some(found@),
                None => self.text() is None,
            },
    {
        match self {
            Json::Text(text) => Some(text.as_str()),
            _ => None,
        }
    }
}

/// The member `key` of a value that may be absent.
pub open spec fn field_of(value: Option<Json>, key: Seq<char>) -> Option<Json> {
    match value {
        Some(json) => json.field(key),
        None => None,
    }
}

/// The items of a value that may be absent.
pub open spec fn items_of(value: Option<Json>) -> Option<Seq<Json>> {
    match value {
        Some(json) => json.items(),
        None => None,
    }
}

/// The unsigned number of a value that may be absent.
pub open spec fn unsigned_of(value: Option<Json>) -> Option<u64> {
    match value {
        Some(json) => json.unsigned(),
        None => None,
    }
}

/// The text of a value that may be absent.
pub open spec fn text_of(value: Option<Json>) -> Option<Seq<char>> {
    match value {
        Some(json) => json.text(),
        None => None,
    }
}

/// A lookup finds a member exactly when the object has one of that name, and
/// then gives the value of the first such member.
pub proof fn member_is_first(members: Seq<(String, Json)>, key: Seq<char>, from: int)
    requires
        0 <= from <= members.len(),
    ensures
        match member(members, key, from) {
            Some(value) => exists|i: int|
                {
                    &&& from <= i < members.len()
                    &&& (#[trigger] members[i]).0@ == key
                    &&& members[i].1 == value
                    &&& forall|j: int| from <= j < i ==> (#[trigger] members[j]).0@ != key
                },
            None => forall|j: int| from <= j < members.len() ==> (#[trigger] members[j]).0@ != key,
        },
    decreases members.len() - from,
{
    if from < members.len() {
        if members[from].0@ == key {
            assert(forall|j: int| from <= j < from ==> (#[trigger] members[j]).0@ != key);
        } else {
            member_is_first(members, key, from + 1);
            match member(members, key, from + 1) {
                Some(value) => {
                    let i = choose|i: int|
                        {
                            &&& from + 1 <= i < members.len()
                            &&& (#[trigger] members[i]).0@ == key
                            &&& members[i].1 == value
                            &&& forall|j: int| from + 1 <= j < i ==> (#[trigger] members[j]).0@ != key
                        };
                    assert forall|j: int| from <= j < i implies (#[trigger] members[j]).0@ != key by {}
                },
                None => {
                    assert forall|j: int| from <= j < members.len() implies (#[trigger] members[j]).0@
                        != key by {}
                },
            }
        }
    }
}

/// A lookup gives the value of the member at `at` when that member has the
/// name `key` and none from `from` up to it has.
pub proof fn member_found(members: Seq<(String, Json)>, key: Seq<char>, from: int, at: int)
    requires
        0 <= from <= at < members.len(),
        members[at].0@ == key,
        forall|j: int| from <= j < at ==> (#[trigger] members[j]).0@ != key,
    ensures
        member(members, key, from) == Some(members[at].1),
    decreases at - from,
{
    if from < at {
        member_found(members, key, from + 1, at);
    }
}

} // verus!
