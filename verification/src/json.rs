//! JSON documents as trees of plain values.

use vstd::prelude::*;

verus! {

/// A JSON value. A number's value is not kept.
#[derive(Debug)]
pub enum Json {
    Null,
    Bool(bool),
    Number,
    Text(String),
    List(Vec<Json>),
    Object(Vec<(String, Json)>),
}

/// What a `Json` holds.
pub ghost enum JsonView {
    Null,
    Bool(bool),
    Number,
    Text(Seq<char>),
    List(Seq<JsonView>),
    Object(Seq<(Seq<char>, JsonView)>),
}

impl View for Json {
    type V = JsonView;

    open spec fn view(&self) -> JsonView
        decreases self,
    {
        match self {
            Json::Null => JsonView::Null,
            Json::Bool(b) => JsonView::Bool(*b),
            Json::Number => JsonView::Number,
            Json::Text(s) => JsonView::Text(s@),
            Json::List(items) => JsonView::List(
                Seq::new(
                    items.len() as nat,
                    |i: int|
                        if 0 <= i < items.len() {
                            items[i].view()
                        } else {
                            JsonView::Null
                        },
                ),
            ),
            Json::Object(members) => JsonView::Object(
                Seq::new(
                    members.len() as nat,
                    |i: int|
                        (
                            members[i].0@,
                            if 0 <= i < members.len() {
                                members[i].1.view()
                            } else {
                                JsonView::Null
                            },
                        ),
                ),
            ),
        }
    }
}

/// The first of `members` that is named `key`.
pub open spec fn first_named(members: Seq<(Seq<char>, JsonView)>, key: Seq<char>) -> Option<
    JsonView,
>
    decreases members.len(),
{
    if members.len() == 0 {
        None
    } else if members[0].0 == key {
        Some(members[0].1)
    } else {
        first_named(members.skip(1), key)
    }
}

impl JsonView {
    /// The member named `key` of an object; `None` where the value is no
    /// object or has no such member.
    pub open spec fn member(self, key: Seq<char>) -> Option<JsonView> {
        match self {
            JsonView::Object(members) => first_named(members, key),
            _ => None,
        }
    }

    /// The characters of a string; `None` for any other value.
    pub open spec fn text(self) -> Option<Seq<char>> {
        match self {
            JsonView::Text(chars) => Some(chars),
            _ => None,
        }
    }

    /// The items of an array; `None` for any other value.
    pub open spec fn items(self) -> Option<Seq<JsonView>> {
        match self {
            JsonView::List(items) => Some(items),
            _ => None,
        }
    }
}

impl Json {
    /// The member named `key` of an object.
    pub fn member(&self, key: &str) -> (r: Option<&Json>)
        ensures
            match r {
                Some(found) => self@.member(key@) == Some(found@),
                None => self@.member(key@) is None,
            },
    {
        match self {
            Json::Object(members) => {
                let ghost all = Seq::new(
                    members.len() as nat,
                    |k: int| (members[k].0@, members[k].1@),
                );
                assert(self@ is Object);
                assert(self@->Object_0.len() == members@.len());
                assert(self@->Object_0 =~= all);
                assert(all.skip(0) =~= all);
                let wanted = key.to_owned();
                let mut i: usize = 0;
                while i < members.len()
                    invariant
                        i <= members.len(),
                        wanted@ == key@,
                        all == Seq::new(
                            members.len() as nat,
                            |k: int| (members[k].0@, members[k].1@),
                        ),
                        self@.member(key@) == first_named(all.skip(i as int), key@),
                    decreases members.len() - i,
                {
                    let ghost rest = all.skip(i as int);
                    assert(rest[0] == all[i as int]);
                    assert(rest.skip(1) =~= all.skip(i + 1));
                    if members[i].0 == wanted {
                        return Some(&members[i].1);
                    }
                    i = i + 1;
                }
                None
            },
            _ => None,
        }
    }

    /// The characters of a string.
    pub fn text(&self) -> (r: Option<&String>)
        ensures
            match r {
                Some(chars) => self@.text() == Some(chars@),
                None => self@.text() is None,
            },
    {
        match self {
            Json::Text(chars) => Some(chars),
            _ => None,
        }
    }

    /// The items of an array.
    pub fn items(&self) -> (r: Option<&Vec<Json>>)
        ensures
            match r {
                Some(items) => self@.items() == Some(Seq::new(items.len() as nat, |i: int| items[i]@)),
                None => self@.items() is None,
            },
    {
        match self {
            Json::List(items) => {
                assert(self@->List_0 =~= Seq::new(items.len() as nat, |i: int| items[i]@));
                Some(items)
            },
            _ => None,
        }
    }

    /// Whether the value is `null`.
    pub fn is_null(&self) -> (r: bool)
        ensures
            r == (self@ is Null),
    {
        match self {
            Json::Null => true,
            _ => false,
        }
    }
}

/// `serde_json::Value`, the parser's own tree. Nothing is known of one but
/// what `content` names.
#[verifier::external_type_specification]
#[verifier::external_body]
pub struct ExValue(serde_json::Value);

/// `serde_json::Error`, of which nothing is read.
#[verifier::external_type_specification]
#[verifier::external_body]
pub struct ExError(serde_json::Error);

/// The document that `text` is read as; `None` where `text` is not one
/// well-formed JSON value.
pub uninterp spec fn document(text: Seq<char>) -> Option<JsonView>;

/// What a value of the parser holds.
pub uninterp spec fn content(value: serde_json::Value) -> JsonView;

/// `serde_json::from_str`, reading one `serde_json::Value`. The value holds
/// the document that `text` is read as; there is an error exactly where
/// `text` is read as none.
#[verifier::external_body]
fn read_value(text: &str) -> (r: Result<serde_json::Value, serde_json::Error>)
    ensures
        match r {
            Ok(value) => document(text@) == Some(content(value)),
            Err(_) => document(text@) is None,
        },
{
    serde_json::from_str::<serde_json::Value>(text)
}

/// A value of the parser, opened by one level: what it holds itself, and
/// the values that it holds as items or members.
enum Opened<'a> {
    Null,
    Bool(bool),
    Number,
    Text(&'a String),
    List(&'a Vec<serde_json::Value>),
    Object(Vec<(&'a String, &'a serde_json::Value)>),
}

impl Opened<'_> {
    /// What the opened value holds, over what its items and members hold.
    spec fn holds(self) -> JsonView {
        match self {
            Opened::Null => JsonView::Null,
            Opened::Bool(b) => JsonView::Bool(b),
            Opened::Number => JsonView::Number,
            Opened::Text(chars) => JsonView::Text(chars@),
            Opened::List(items) => JsonView::List(
                Seq::new(items.len() as nat, |i: int| content(items[i])),
            ),
            Opened::Object(members) => JsonView::Object(
                Seq::new(members.len() as nat, |i: int| (members[i].0@, content(*members[i].1))),
            ),
        }
    }
}

/// Tells the variants of `serde_json::Value` apart, one level deep: a
/// string, an array or an object hands out what it holds, an object through
/// `serde_json::Map::iter`, member by member in the order of that walk. A
/// number's value is dropped.
#[verifier::external_body]
fn open<'a>(value: &'a serde_json::Value) -> (r: Opened<'a>)
    ensures
        r.holds() == content(*value),
{
    match value {
        serde_json::Value::Null => Opened::Null,
        serde_json::Value::Bool(b) => Opened::Bool(*b),
        serde_json::Value::Number(_) => Opened::Number,
        serde_json::Value::String(s) => Opened::Text(s),
        serde_json::Value::Array(a) => Opened::List(a),
        serde_json::Value::Object(m) => Opened::Object(m.iter().collect()),
    }
}

/// The tree of plain values for a value of the parser.
fn json_of(value: &serde_json::Value) -> (json: Json)
    ensures
        json@ == content(*value),
    decreases content(*value),
{
    match open(value) {
        Opened::Null => Json::Null,
        Opened::Bool(b) => Json::Bool(b),
        Opened::Number => Json::Number,
        Opened::Text(chars) => Json::Text(chars.clone()),
        Opened::List(items) => {
            let ghost held = Seq::new(items.len() as nat, |i: int| content(items[i]));
            let mut list: Vec<Json> = Vec::new();
            let mut i: usize = 0;
            while i < items.len()
                invariant
                    i <= items.len(),
                    list.len() == i,
                    content(*value) == JsonView::List(held),
                    held == Seq::new(items.len() as nat, |i: int| content(items[i])),
                    forall|k: int| 0 <= k < i ==> (#[trigger] list[k])@ == held[k],
                decreases items.len() - i,
            {
                proof {
                    let whole = content(*value);
                    assert(decreases_to!(whole => whole->List_0));
                    assert(decreases_to!(whole->List_0 => whole->List_0[i as int]));
                    assert(held[i as int] == content(items[i as int]));
                }
                list.push(json_of(&items[i]));
                i = i + 1;
            }
            let json = Json::List(list);
            assert(json@->List_0 =~= held);
            json
        },
        Opened::Object(members) => {
            let ghost held = Seq::new(
                members.len() as nat,
                |i: int| (members[i].0@, content(*members[i].1)),
            );
            let mut list: Vec<(String, Json)> = Vec::new();
            let mut i: usize = 0;
            while i < members.len()
                invariant
                    i <= members.len(),
                    list.len() == i,
                    content(*value) == JsonView::Object(held),
                    held == Seq::new(
                        members.len() as nat,
                        |i: int| (members[i].0@, content(*members[i].1)),
                    ),
                    forall|k: int|
                        0 <= k < i ==> (#[trigger] list[k]).0@ == held[k].0 && list[k].1@
                            == held[k].1,
                decreases members.len() - i,
            {
                proof {
                    let whole = content(*value);
                    assert(decreases_to!(whole => whole->Object_0));
                    assert(decreases_to!(whole->Object_0 => whole->Object_0[i as int]));
                    assert(decreases_to!(whole->Object_0[i as int] => whole->Object_0[i as int].1));
                    assert(held[i as int] == (members[i as int].0@, content(*members[i as int].1)));
                }
                let name = members[i].0.clone();
                let held_by_member = json_of(members[i].1);
                list.push((name, held_by_member));
                i = i + 1;
            }
            let json = Json::Object(list);
            assert(json@->Object_0 =~= held);
            json
        },
    }
}

/// Reads `text` as one JSON document.
pub fn parse(text: &str) -> (r: Option<Json>)
    ensures
        match r {
            Some(json) => document(text@) == Some(json@),
            None => document(text@) is None,
        },
{
    match read_value(text) {
        Ok(value) => Some(json_of(&value)),
        Err(_) => None,
    }
}

} // verus!
