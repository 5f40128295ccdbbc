//! JSON values as plain data.

use vstd::prelude::*;
use crate::utils::str_eq;

verus! {

/// A JSON value as plain data. The members of an object are kept in the
/// order of the document; a number is kept as it is written.
#[derive(Debug, PartialEq, Eq)]
pub enum JsonValue {
    Null,
    Bool(bool),
    Number(String),
    Text(String),
    Array(Vec<JsonValue>),
    Object(Vec<(String, JsonValue)>),
}

/// The mathematical value of a [`JsonValue`].
pub enum JsonValueView {
    Null,
    Bool(bool),
    Number(Seq<char>),
    Text(Seq<char>),
    Array(Seq<JsonValueView>),
    Object(Seq<(Seq<char>, JsonValueView)>),
}

/// The value of a JSON value: that of each part in turn.
pub open spec fn json_view(value: JsonValue) -> JsonValueView
    decreases value,
{
    match value {
        JsonValue::Null => JsonValueView::Null,
        JsonValue::Bool(b) => JsonValueView::Bool(b),
        JsonValue::Number(n) => JsonValueView::Number(n@),
        JsonValue::Text(t) => JsonValueView::Text(t@),
        JsonValue::Array(items) => JsonValueView::Array(
            Seq::new(
                items@.len(),
                |i: int|
                    if 0 <= i < items@.len() {
                        json_view(items@[i])
                    } else {
                        arbitrary()
                    },
            ),
        ),
        JsonValue::Object(members) => JsonValueView::Object(
            Seq::new(
                members@.len(),
                |i: int|
                    if 0 <= i < members@.len() {
                        (members@[i].0@, json_view(members@[i].1))
                    } else {
                        arbitrary()
                    },
            ),
        ),
    }
}

impl View for JsonValue {
    type V = JsonValueView;

    open spec fn view(&self) -> JsonValueView {
        json_view(*self)
    }
}

/// The mathematical values of a list of JSON values.
pub open spec fn values_view(values: Seq<JsonValue>) -> Seq<JsonValueView> {
    Seq::new(values.len(), |i: int| values[i]@)
}

/// The mathematical values of the members of an object.
pub open spec fn members_view(members: Seq<(String, JsonValue)>) -> Seq<(Seq<char>, JsonValueView)> {
    Seq::new(members.len(), |i: int| (members[i].0@, members[i].1@))
}

/// The value of the first member named `key`.
pub open spec fn member(members: Seq<(Seq<char>, JsonValueView)>, key: Seq<char>) -> Option<
    JsonValueView,
>
    decreases members.len(),
{
    if members.len() == 0 {
        None
    } else if members[0].0 == key {
        Some(members[0].1)
    } else {
        member(members.drop_first(), key)
    }
}

impl JsonValueView {
    /// The value of the property `key`: that of the first member of that
    /// name where the value is an object that has one; nothing otherwise.
    pub open spec fn get(self, key: Seq<char>) -> Option<JsonValueView> {
        match self {
            JsonValueView::Object(members) => member(members, key),
            _ => None,
        }
    }

    /// The text of the value, where it is a string.
    pub open spec fn as_string(self) -> Option<Seq<char>> {
        match self {
            JsonValueView::Text(text) => Some(text),
            _ => None,
        }
    }

    /// The items of the value, where it is an array.
    pub open spec fn as_array(self) -> Option<Seq<JsonValueView>> {
        match self {
            JsonValueView::Array(items) => Some(items),
            _ => None,
        }
    }
}

/// Where the first member named `key` stands at `i`, its value is the one
/// that is read.
proof fn lemma_member_at(members: Seq<(Seq<char>, JsonValueView)>, key: Seq<char>, i: int)
    requires
        0 <= i < members.len(),
        members[i].0 == key,
        forall|j: int| 0 <= j < i ==> (#[trigger] members[j]).0 != key,
    ensures
        member(members, key) == Some(members[i].1),
    decreases i,
{
    if i > 0 {
        let rest = members.drop_first();
        assert(members[0].0 != key);
        assert forall|j: int| 0 <= j < i - 1 implies (#[trigger] rest[j]).0 != key by {
            assert(rest[j] == members[j + 1]);
        }
        lemma_member_at(rest, key, i - 1);
    }
}

/// Where no member is named `key`, nothing is read.
proof fn lemma_member_absent(members: Seq<(Seq<char>, JsonValueView)>, key: Seq<char>)
    requires
        forall|j: int| 0 <= j < members.len() ==> (#[trigger] members[j]).0 != key,
    ensures
        member(members, key) is None,
    decreases members.len(),
{
    if members.len() > 0 {
        let rest = members.drop_first();
        assert(members[0].0 != key);
        assert forall|j: int| 0 <= j < rest.len() implies (#[trigger] rest[j]).0 != key by {
            assert(rest[j] == members[j + 1]);
        }
        lemma_member_absent(rest, key);
    }
}

impl JsonValue {
    /// The value of the property `key`.
    pub fn get(&self, key: &str) -> (value: Option<&JsonValue>)
        ensures
            match value {
                Some(found) => self@.get(key@) == Some(found@),
                None => self@.get(key@) is None,
            },
    {
        match self {
            JsonValue::Object(members) => {
                let ghost views = members_view(members@);
                assert(self@ matches JsonValueView::Object(m) && m =~= views);
                let mut i: usize = 0;
                while i < members.len()
                    invariant
                        i <= members.len(),
                        views == members_view(members@),
                        self@.get(key@) == member(views, key@),
                        forall|j: int| 0 <= j < i ==> (#[trigger] views[j]).0 != key@,
                    decreases members.len() - i,
                {
                    if str_eq(members[i].0.as_str(), key) {
                        proof {
                            lemma_member_at(views, key@, i as int);
                        }
                        return Some(&members[i].1);
                    }
                    i += 1;
                }
                proof {
                    lemma_member_absent(views, key@);
                }
                None
            },
            _ => None,
        }
    }

    /// The text of the value, where it is a string.
    pub fn as_string(&self) -> (text: Option<&str>)
        ensures
            match text {
                Some(found) => self@.as_string() == Some(found@),
                None => self@.as_string() is None,
            },
    {
        match self {
            JsonValue::Text(text) => Some(text.as_str()),
            _ => None,
        }
    }

    /// The items of the value, where it is an array.
    pub fn as_array(&self) -> (items: Option<&Vec<JsonValue>>)
        ensures
            match items {
                Some(found) => self@.as_array() == Some(values_view(found@)),
                None => self@.as_array() is None,
            },
    {
        match self {
            JsonValue::Array(items) => {
                assert(self@ matches JsonValueView::Array(views) && views =~= values_view(
                    items@,
                ));
                Some(items)
            },
            _ => None,
        }
    }
}

} // verus!
