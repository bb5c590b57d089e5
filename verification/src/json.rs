//! Generic JSON trees, their mathematical value, and lookup by member name.

use vstd::prelude::*;
use crate::text::str_eq;

verus! {

/// A JSON number: an integer that a JSON reader keeps exactly, or the decimal
/// text of a number written with a fraction or an exponent.
#[derive(Debug)]
pub enum JsonNumber {
    PosInt(u64),
    NegInt(i64),
    Float(String),
}

/// A generic JSON tree. The members of an object keep the order in which they
/// were written.
#[derive(Debug)]
pub enum Json {
    Null,
    Bool(bool),
    Number(JsonNumber),
    String(String),
    Array(Vec<Json>),
    Object(Vec<JsonMember>),
}

/// One member of a JSON object.
#[derive(Debug)]
pub struct JsonMember {
    pub name: String,
    pub value: Json,
}

/// The mathematical value of a JSON tree. An integer is known by its value,
/// whichever way it was stored.
pub enum JsonModel {
    Null,
    Bool(bool),
    Int(int),
    Float(Seq<char>),
    String(Seq<char>),
    Array(Seq<JsonModel>),
    Object(Seq<(Seq<char>, JsonModel)>),
}

impl View for JsonNumber {
    type V = JsonModel;

    open spec fn view(&self) -> JsonModel {
        match self {
            JsonNumber::PosInt(n) => JsonModel::Int(*n as int),
            JsonNumber::NegInt(n) => JsonModel::Int(*n as int),
            JsonNumber::Float(text) => JsonModel::Float(text@),
        }
    }
}

impl View for Json {
    type V = JsonModel;

    open spec fn view(&self) -> JsonModel {
        self.model()
    }
}

impl Json {
    /// The value of this tree.
    pub open spec fn model(&self) -> JsonModel
        decreases self,
    {
        match self {
            Json::Null => JsonModel::Null,
            Json::Bool(b) => JsonModel::Bool(*b),
            Json::Number(n) => n@,
            Json::String(s) => JsonModel::String(s@),
            Json::Array(items) => JsonModel::Array(
                Seq::new(
                    items@.len(),
                    |i: int|
                        if 0 <= i < items@.len() {
                            items@[i].model()
                        } else {
                            JsonModel::Null
                        },
                ),
            ),
            Json::Object(members) => JsonModel::Object(
                Seq::new(
                    members@.len(),
                    |i: int|
                        if 0 <= i < members@.len() {
                            (members@[i].name@, members@[i].value.model())
                        } else {
                            (Seq::<char>::empty(), JsonModel::Null)
                        },
                ),
            ),
        }
    }
}

/// The values of a run of trees, one for one.
pub open spec fn items_view(items: Seq<Json>) -> Seq<JsonModel> {
    Seq::new(items.len(), |i: int| items[i]@)
}

/// The names and values of a run of object members, one for one.
pub open spec fn members_view(members: Seq<JsonMember>) -> Seq<(Seq<char>, JsonModel)> {
    Seq::new(members.len(), |i: int| (members[i].name@, members[i].value@))
}

/// The value of an array is the array of its items' values.
pub proof fn lemma_view_array(items: Vec<Json>)
    ensures
        Json::Array(items)@ == JsonModel::Array(items_view(items@)),
{
    assert(Json::Array(items)@->Array_0 =~= items_view(items@));
}

/// The value of an object is the run of its members' names and values.
pub proof fn lemma_view_object(members: Vec<JsonMember>)
    ensures
        Json::Object(members)@ == JsonModel::Object(members_view(members@)),
{
    assert(Json::Object(members)@->Object_0 =~= members_view(members@));
}

/// The place of the first member called `name` at or after `start`, if there
/// is one.
pub open spec fn find_from(members: Seq<(Seq<char>, JsonModel)>, name: Seq<char>, start: int)
    -> Option<int>
    decreases members.len() - start,
{
    if start < 0 || start >= members.len() {
        None
    } else if members[start].0 == name {
        Some(start)
    } else {
        find_from(members, name, start + 1)
    }
}

/// The place of the first member called `name`, if there is one.
pub open spec fn find(members: Seq<(Seq<char>, JsonModel)>, name: Seq<char>) -> Option<int> {
    find_from(members, name, 0)
}

impl JsonModel {
    /// The value of the first member called `name`, where this is an object
    /// that has one.
    pub open spec fn get(self, name: Seq<char>) -> Option<JsonModel> {
        match self {
            JsonModel::Object(members) => match find(members, name) {
                Some(i) => Some(members[i].1),
                None => None,
            },
            _ => None,
        }
    }

    /// Whether this is a string, a number, a boolean or null.
    pub open spec fn is_primitive(self) -> bool {
        self is String || self is Int || self is Float || self is Bool || self is Null
    }
}

/// Where `find_from` finds a member, it lies in the run and has the name.
pub proof fn lemma_find_from(members: Seq<(Seq<char>, JsonModel)>, name: Seq<char>, start: int)
    requires
        0 <= start,
    ensures
        match find_from(members, name, start) {
            Some(i) => start <= i < members.len() && members[i].0 == name,
            None => true,
        },
    decreases members.len() - start,
{
    if start < members.len() && members[start].0 != name {
        lemma_find_from(members, name, start + 1);
    }
}

/// Looks for the first member called `name` and gives its place.
pub fn find_member(members: &Vec<JsonMember>, name: &str) -> (r: Option<usize>)
    ensures
        match r {
            Some(i) => i < members@.len() && find(members_view(members@), name@) == Some(i as int),
            None => find(members_view(members@), name@) is None,
        },
{
    let mut i: usize = 0;
    while i < members.len()
        invariant
            i <= members@.len(),
            find(members_view(members@), name@) == find_from(
                members_view(members@),
                name@,
                i as int,
            ),
        decreases members@.len() - i,
    {
        if str_eq(members[i].name.as_str(), name) {
            return Some(i);
        }
        i += 1;
    }
    None
}

impl Clone for JsonNumber {
    fn clone(&self) -> (r: Self)
        ensures
            r == *self,
    {
        match self {
            JsonNumber::PosInt(n) => JsonNumber::PosInt(*n),
            JsonNumber::NegInt(n) => JsonNumber::NegInt(*n),
            JsonNumber::Float(text) => JsonNumber::Float(text.clone()),
        }
    }
}

/// Copies the items of an array.
pub(crate) fn clone_items(items: &Vec<Json>) -> (r: Vec<Json>)
    ensures
        items_view(r@) == items_view(items@),
        r@.len() == items@.len(),
    decreases items,
{
    let mut out: Vec<Json> = Vec::new();
    let mut i: usize = 0;
    while i < items.len()
        invariant
            i <= items@.len(),
            out@.len() == i,
            forall|j: int| 0 <= j < i ==> (#[trigger] out@[j])@ == items@[j]@,
        decreases items@.len() - i,
    {
        out.push(items[i].clone());
        i += 1;
    }
    assert(items_view(out@) =~= items_view(items@));
    out
}

/// Copies the members of an object.
pub(crate) fn clone_members(members: &Vec<JsonMember>) -> (r: Vec<JsonMember>)
    ensures
        members_view(r@) == members_view(members@),
        r@.len() == members@.len(),
    decreases members,
{
    let mut out: Vec<JsonMember> = Vec::new();
    let mut i: usize = 0;
    while i < members.len()
        invariant
            i <= members@.len(),
            out@.len() == i,
            forall|j: int|
                0 <= j < i ==> (#[trigger] out@[j]).name@ == members@[j].name@ && out@[j].value@
                    == members@[j].value@,
        decreases members@.len() - i,
    {
        out.push(JsonMember { name: members[i].name.clone(), value: members[i].value.clone() });
        i += 1;
    }
    assert(members_view(out@) =~= members_view(members@));
    out
}

impl Clone for Json {
    fn clone(&self) -> (r: Self)
        ensures
            r@ == self@,
        decreases self,
    {
        match self {
            Json::Null => Json::Null,
            Json::Bool(b) => Json::Bool(*b),
            Json::Number(n) => Json::Number(n.clone()),
            Json::String(s) => Json::String(s.clone()),
            Json::Array(items) => {
                let out = clone_items(items);
                proof {
                    lemma_view_array(out);
                    lemma_view_array(*items);
                }
                Json::Array(out)
            },
            Json::Object(members) => {
                let out = clone_members(members);
                proof {
                    lemma_view_object(out);
                    lemma_view_object(*members);
                }
                Json::Object(out)
            },
        }
    }
}

impl Clone for JsonMember {
    fn clone(&self) -> (r: Self)
        ensures
            r.name@ == self.name@,
            r.value@ == self.value@,
    {
        JsonMember { name: self.name.clone(), value: self.value.clone() }
    }
}

impl Json {
    /// The value of the first member called `name`, where this is an object
    /// that has one.
    pub fn get(&self, name: &str) -> (r: Option<&Json>)
        ensures
            match r {
                Some(t) => self@.get(name@) == Some(t@),
                None => self@.get(name@) is None,
            },
    {
        match self {
            Json::Object(members) => {
                proof {
                    lemma_view_object(*members);
                }
                match find_member(members, name) {
                    Some(i) => Some(&members[i].value),
                    None => None,
                }
            },
            _ => None,
        }
    }
}

} // verus!
