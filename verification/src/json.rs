//! A JSON document as a tree of plain values, with the lookups that the
//! document store's replies are read by.

use vstd::prelude::*;
use vstd::string::*;
use crate::text::same_text;

verus! {

/// A JSON document.
#[derive(Debug)]
pub enum Json {
    Null,
    Bool(bool),
    /// A number, kept as it is written.
    Number(String),
    Text(String),
    List(Vec<Json>),
    /// Members in the order written.
    Object(Vec<JsonMember>),
}

/// A named member of a JSON object.
#[derive(Debug)]
pub struct JsonMember {
    pub name: String,
    pub value: Json,
}

/// The mathematical content of a `Json`.
pub enum JsonValue {
    Null,
    Bool(bool),
    Number(Seq<char>),
    Text(Seq<char>),
    List(Seq<JsonValue>),
    Object(Seq<MemberValue>),
}

/// The mathematical content of a `JsonMember`.
pub struct MemberValue {
    pub name: Seq<char>,
    pub value: JsonValue,
}

impl View for Json {
    type V = JsonValue;

    open spec fn view(&self) -> JsonValue
        decreases self,
    {
        match self {
            Json::Null => JsonValue::Null,
            Json::Bool(b) => JsonValue::Bool(*b),
            Json::Number(n) => JsonValue::Number(n@),
            Json::Text(s) => JsonValue::Text(s@),
            Json::List(items) => JsonValue::List(
                Seq::new(
                    items@.len(),
                    |i: int|
                        if 0 <= i < items@.len() {
                            items@[i].view()
                        } else {
                            JsonValue::Null
                        },
                ),
            ),
            Json::Object(members) => JsonValue::Object(
                Seq::new(
                    members@.len(),
                    |i: int|
                        if 0 <= i < members@.len() {
                            MemberValue {
                                name: members@[i].name@,
                                value: members@[i].value.view(),
                            }
                        } else {
                            MemberValue { name: Seq::empty(), value: JsonValue::Null }
                        },
                ),
            ),
        }
    }
}

/// The value of the last member named `key`; `Null` where there is none.
pub open spec fn find_member(members: Seq<MemberValue>, key: Seq<char>) -> JsonValue
    decreases members.len(),
{
    if members.len() == 0 {
        JsonValue::Null
    } else if members.last().name == key {
        members.last().value
    } else {
        find_member(members.drop_last(), key)
    }
}

impl JsonValue {
    /// The member named `key` of an object; `Null` for a missing member or for
    /// anything that is no object.
    pub open spec fn member(self, key: Seq<char>) -> JsonValue {
        match self {
            JsonValue::Object(members) => find_member(members, key),
            _ => JsonValue::Null,
        }
    }

    /// The item at `index` of a list; `Null` past its end or for anything
    /// that is no list.
    pub open spec fn element(self, index: int) -> JsonValue {
        match self {
            JsonValue::List(items) => if 0 <= index < items.len() {
                items[index]
            } else {
                JsonValue::Null
            },
            _ => JsonValue::Null,
        }
    }

    /// The characters of a text; nothing for any other value.
    pub open spec fn text(self) -> Option<Seq<char>> {
        match self {
            JsonValue::Text(s) => Some(s),
            _ => None,
        }
    }

    /// The items of a list; nothing for any other value.
    pub open spec fn items(self) -> Option<Seq<JsonValue>> {
        match self {
            JsonValue::List(items) => Some(items),
            _ => None,
        }
    }
}

/// The value behind an optional reference; `Null` where there is none.
pub open spec fn value_of(j: Option<&Json>) -> JsonValue {
    match j {
        Some(v) => v@,
        None => JsonValue::Null,
    }
}

/// The views of a run of documents.
pub open spec fn values_of(items: Seq<Json>) -> Seq<JsonValue> {
    Seq::new(items.len(), |i: int| items[i]@)
}

/// The views of a run of named members.
pub open spec fn members_of(members: Seq<JsonMember>) -> Seq<MemberValue> {
    Seq::new(members.len(), |i: int| MemberValue { name: members[i].name@, value: members[i].value@ })
}

impl Json {
    /// A text value.
    pub fn text(s: &str) -> (j: Json)
        ensures
            j@ == JsonValue::Text(s@),
    {
        Json::Text(String::from_str(s))
    }

    /// A list of the given items.
    pub fn list(items: Vec<Json>) -> (j: Json)
        ensures
            j@ == JsonValue::List(values_of(items@)),
    {
        let ghost expected = values_of(items@);
        let j = Json::List(items);
        assert(j@->List_0 =~= expected);
        j
    }

    /// An object of the given members.
    pub fn object(members: Vec<JsonMember>) -> (j: Json)
        ensures
            j@ == JsonValue::Object(members_of(members@)),
    {
        let ghost expected = members_of(members@);
        let j = Json::Object(members);
        assert(j@ is Object);
        assert(j@->Object_0.len() == expected.len());
        assert forall|i: int| 0 <= i < expected.len() implies j@->Object_0[i] == expected[i] by {
            assert(j@->Object_0[i].name == expected[i].name);
            assert(j@->Object_0[i].value == expected[i].value);
        }
        assert(j@->Object_0 =~= expected);
        j
    }

    /// An object with a single member.
    pub fn object_with(key: &str, value: Json) -> (j: Json)
        ensures
            j@ == JsonValue::Object(seq![MemberValue { name: key@, value: value@ }]),
    {
        let mut members: Vec<JsonMember> = Vec::new();
        members.push(JsonMember { name: String::from_str(key), value });
        assert(members_of(members@) =~= seq![MemberValue { name: key@, value: value@ }]);
        Json::object(members)
    }

    /// Looks up a member by name.
    pub fn field<'a>(&'a self, key: &str) -> (r: Option<&'a Json>)
        ensures
            value_of(r) == self@.member(key@),
    {
        match self {
            Json::Object(members) => {
                let ghost all = members_of(members@);
                assert(self@->Object_0 =~= all);
                assert(all.take(members@.len() as int) =~= all);
                let mut i: usize = members.len();
                while i > 0
                    invariant
                        i <= members@.len(),
                        all == members_of(members@),
                        self@.member(key@) == find_member(all, key@),
                        find_member(all, key@) == find_member(all.take(i as int), key@),
                    decreases i,
                {
                    i -= 1;
                    proof {
                        assert(all.take(i + 1).drop_last() =~= all.take(i as int));
                        assert(all.take(i + 1).last() == all[i as int]);
                    }
                    if same_text(members[i].name.as_str(), key) {
                        return Some(&members[i].value);
                    }
                }
                None
            },
            _ => None,
        }
    }

    /// Looks up a list item by position.
    pub fn item<'a>(&'a self, index: usize) -> (r: Option<&'a Json>)
        ensures
            value_of(r) == self@.element(index as int),
    {
        match self {
            Json::List(items) => {
                if index < items.len() {
                    Some(&items[index])
                } else {
                    None
                }
            },
            _ => None,
        }
    }

    /// The text that this value is, if it is one.
    pub fn as_text<'a>(&'a self) -> (r: Option<&'a str>)
        ensures
            match r {
                Some(s) => self@.text() == Some(s@),
                None => self@.text() is None,
            },
    {
        match self {
            Json::Text(s) => Some(s.as_str()),
            _ => None,
        }
    }

    /// The items of this value, if it is a list.
    pub fn as_list<'a>(&'a self) -> (r: Option<&'a Vec<Json>>)
        ensures
            match r {
                Some(items) => self@.items() == Some(values_of(items@)),
                None => self@.items() is None,
            },
    {
        match self {
            Json::List(items) => {
                assert(self@->List_0 =~= values_of(items@));
                Some(items)
            },
            _ => None,
        }
    }
}

/// The member named `key` of a value that may be missing.
pub fn child<'a>(j: Option<&'a Json>, key: &str) -> (r: Option<&'a Json>)
    ensures
        value_of(r) == value_of(j).member(key@),
{
    match j {
        Some(v) => v.field(key),
        None => None,
    }
}

/// The first item of a value that may be missing.
pub fn first_item<'a>(j: Option<&'a Json>) -> (r: Option<&'a Json>)
    ensures
        value_of(r) == value_of(j).element(0),
{
    match j {
        Some(v) => v.item(0),
        None => None,
    }
}

/// The text of a value that may be missing.
pub fn text_of<'a>(j: Option<&'a Json>) -> (r: Option<&'a str>)
    ensures
        match r {
            Some(s) => value_of(j).text() == Some(s@),
            None => value_of(j).text() is None,
        },
{
    match j {
        Some(v) => v.as_text(),
        None => None,
    }
}

/// In a run of members whose names after position `i` all differ from the
/// name at `i`, looking that name up gives the value at `i`.
pub proof fn lemma_find_member(members: Seq<MemberValue>, i: int)
    requires
        0 <= i < members.len(),
        forall|j: int| i < j < members.len() ==> (#[trigger] members[j]).name != members[i].name,
    ensures
        find_member(members, members[i].name) == members[i].value,
    decreases members.len(),
{
    if i < members.len() - 1 {
        let rest = members.drop_last();
        assert(members.last().name != members[i].name);
        assert(rest[i] == members[i]);
        lemma_find_member(rest, i);
    }
}

} // verus!
