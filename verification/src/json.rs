//! A JSON document as a plain value, and the lookups the catalog needs.

use vstd::prelude::*;

verus! {

/// A JSON value.
#[derive(Debug, PartialEq, Eq)]
pub enum Json {
    Null,
    Bool(bool),
    /// A number, kept as the text that denotes it.
    Number(String),
    String(String),
    Array(Vec<Json>),
    /// The members of an object, in the order in which the object yields them.
    Object(Vec<Member>),
}

/// Why a catalog document cannot be read.
#[derive(Clone, Copy, Debug, PartialEq, Eq, Structural)]
pub enum LoadError {
    /// The document holds no list of containers.
    NoContainers,
    /// An item of a row holds no object of tiles.
    TileNotAnObject,
}

/// One member of a JSON object.
#[derive(Debug, PartialEq, Eq)]
pub struct Member {
    pub key: String,
    pub value: Json,
}

/// The value of the first member at or after the index `from` whose key is
/// `key`.
pub open spec fn find_member(members: Seq<Member>, key: Seq<char>, from: int) -> Option<Json>
    decreases members.len() - from,
{
    if from < 0 || from >= members.len() {
        None
    } else if members[from].key@ == key {
        Some(members[from].value)
    } else {
        find_member(members, key, from + 1)
    }
}

/// The member `key` of the value `parent`, where there is such a value and
/// it is an object with such a member.
pub open spec fn at(parent: Option<Json>, key: Seq<char>) -> Option<Json> {
    match parent {
        Some(json) => json.member(key),
        None => None,
    }
}

/// The text of `json`, where there is such a value and it is a string.
pub open spec fn text_of(json: Option<Json>) -> Option<Seq<char>> {
    match json {
        Some(Json::String(text)) => Some(text@),
        _ => None,
    }
}

/// The value that `json` refers to, if any.
pub open spec fn referent(json: Option<&Json>) -> Option<Json> {
    match json {
        Some(value) => Some(*value),
        None => None,
    }
}

impl Json {
    /// The value of the first member with the key `key`, where this value is
    /// an object that has one.
    pub open spec fn member(self, key: Seq<char>) -> Option<Json> {
        match self {
            Json::Object(members) => find_member(members@, key, 0),
            _ => None,
        }
    }

    /// Looks up the member `key` of an object.
    pub fn get(&self, key: &str) -> (value: Option<&Json>)
        ensures
            referent(value) == self.member(key@),
    {
        match self {
            Json::Object(members) => {
                let wanted = String::from_str(key);
                let mut i: usize = 0;
                while i < members.len()
                    invariant
                        i <= members.len(),
                        wanted@ == key@,
                        self.member(key@) == find_member(members@, key@, 0),
                        find_member(members@, key@, 0) == find_member(members@, key@, i as int),
                    decreases members.len() - i,
                {
                    assert(members@[i as int].key@ == key@ ==> find_member(members@, key@, i as int)
                        == Some(members@[i as int].value));
                    assert(members@[i as int].key@ != key@ ==> find_member(members@, key@, i as int)
                        == find_member(members@, key@, i + 1));
                    if members[i].key == wanted {
                        return Some(&members[i].value);
                    }
                    i += 1;
                }
                None
            },
            _ => None,
        }
    }

    /// The items of an array.
    pub fn as_array(&self) -> (items: Option<&Vec<Json>>)
        ensures
            match items {
                Some(found) => *self == Json::Array(*found),
                None => !(self is Array),
            },
    {
        match self {
            Json::Array(items) => Some(items),
            _ => None,
        }
    }

    /// The members of an object.
    pub fn as_object(&self) -> (members: Option<&Vec<Member>>)
        ensures
            match members {
                Some(found) => *self == Json::Object(*found),
                None => !(self is Object),
            },
    {
        match self {
            Json::Object(members) => Some(members),
            _ => None,
        }
    }

    /// The text of a string.
    pub fn as_str(&self) -> (text: Option<&str>)
        ensures
            match text {
                Some(found) => text_of(Some(*self)) == Some(found@),
                None => text_of(Some(*self)) is None,
            },
    {
        match self {
            Json::String(text) => Some(text.as_str()),
            _ => None,
        }
    }
}

/// Looks up the member `key` of `parent`, if there is a parent.
pub fn child<'a>(parent: Option<&'a Json>, key: &str) -> (value: Option<&'a Json>)
    ensures
        referent(value) == at(referent(parent), key@),
{
    match parent {
        Some(json) => json.get(key),
        None => None,
    }
}

/// The text of `json`, if there is a value and it is a string.
pub fn text<'a>(json: Option<&'a Json>) -> (found: Option<&'a str>)
    ensures
        match found {
            Some(text) => text_of(referent(json)) == Some(text@),
            None => text_of(referent(json)) is None,
        },
{
    match json {
        Some(value) => value.as_str(),
        None => None,
    }
}

} // verus!
