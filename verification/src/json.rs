//! JSON documents as plain values, read from text by `serde_json`.

use vstd::prelude::*;

verus! {

/// `serde_json::Value`, of which nothing is known here but what `value_data`
/// names.
#[verifier::external_type_specification]
#[verifier::external_body]
pub struct ExValue(serde_json::Value);

/// What a JSON document holds.
pub enum JsonData {
    Null,
    Bool(bool),
    /// A number; `Some` holds it when it is an integer that `i64` can hold.
    Number(Option<i64>),
    Text(Seq<char>),
    List(Seq<JsonData>),
    /// The members of an object, each a name and a value.
    Record(Seq<(Seq<char>, JsonData)>),
}

/// The value of the first of `members` that is called `name`.
pub open spec fn first_named(members: Seq<(Seq<char>, JsonData)>, name: Seq<char>) -> Option<
    JsonData,
>
    decreases members.len(),
{
    if members.len() == 0 {
        None
    } else if members[0].0 == name {
        Some(members[0].1)
    } else {
        first_named(members.drop_first(), name)
    }
}

impl JsonData {
    /// The member `name` of an object; `None` for what is no object or has no
    /// such member.
    pub open spec fn member(self, name: Seq<char>) -> Option<JsonData> {
        match self {
            JsonData::Record(members) => first_named(members, name),
            _ => None,
        }
    }
}

/// A JSON document.
#[derive(Debug, PartialEq, Eq)]
pub enum Json {
    Null,
    Bool(bool),
    /// A number; `Some` holds it when it is an integer that `i64` can hold.
    Number(Option<i64>),
    Text(String),
    List(Vec<Json>),
    /// The members of an object, each a name and a value.
    Record(Vec<(String, Json)>),
}

impl Json {
    /// What the document holds.
    pub open spec fn data(self) -> JsonData
        decreases self,
    {
        match self {
            Json::Null => JsonData::Null,
            Json::Bool(b) => JsonData::Bool(b),
            Json::Number(n) => JsonData::Number(n),
            Json::Text(s) => JsonData::Text(s@),
            Json::List(items) => JsonData::List(
                Seq::new(
                    items@.len(),
                    |i: int|
                        if 0 <= i < items@.len() {
                            items@[i].data()
                        } else {
                            JsonData::Null
                        },
                ),
            ),
            Json::Record(members) => JsonData::Record(
                Seq::new(
                    members@.len(),
                    |i: int|
                        if 0 <= i < members@.len() {
                            (members@[i].0@, members@[i].1.data())
                        } else {
                            (Seq::empty(), JsonData::Null)
                        },
                ),
            ),
        }
    }
}

impl View for Json {
    type V = JsonData;

    open spec fn view(&self) -> JsonData {
        self.data()
    }
}

/// What `serde_json` makes of `text`: the document that it reads, or its
/// complaint about a text that is no JSON document.
pub uninterp spec fn json_reading(text: Seq<char>) -> Result<JsonData, Seq<char>>;

/// What a `serde_json::Value` holds.
pub uninterp spec fn value_data(value: serde_json::Value) -> JsonData;

/// `serde_json::from_str`, asked for a `serde_json::Value`. The result depends
/// on the text alone: the value read, or the text of the error.
#[verifier::external_body]
fn read_value(text: &str) -> (r: Result<serde_json::Value, String>)
    ensures
        match r {
            Ok(value) => json_reading(text@) == Ok::<JsonData, Seq<char>>(value_data(value)),
            Err(fault) => json_reading(text@) == Err::<JsonData, Seq<char>>(fault@),
        },
{
    match serde_json::from_str::<serde_json::Value>(text) {
        Ok(value) => Ok(value),
        Err(e) => Err(e.to_string()),
    }
}

/// Takes a `serde_json::Value` apart, variant by variant, into a `Json` that
/// holds the same; a number goes through `serde_json::Number::as_i64`. The
/// result depends on the value alone. It is called with what `read_value`
/// gave, which `serde_json` keeps no deeper than 128 levels.
#[verifier::external_body]
fn lift(value: serde_json::Value) -> (doc: Json)
    ensures
        doc@ == value_data(value),
{
    match value {
        serde_json::Value::Null => Json::Null,
        serde_json::Value::Bool(b) => Json::Bool(b),
        serde_json::Value::Number(n) => Json::Number(n.as_i64()),
        serde_json::Value::String(s) => Json::Text(s),
        serde_json::Value::Array(items) => Json::List(items.into_iter().map(lift).collect()),
        serde_json::Value::Object(members) => Json::Record(
            members.into_iter().map(|(name, value)| (name, lift(value))).collect(),
        ),
    }
}

/// What `r` holds.
pub open spec fn reading_view(r: Result<Json, String>) -> Result<JsonData, Seq<char>> {
    match r {
        Ok(doc) => Ok(doc@),
        Err(fault) => Err(fault@),
    }
}

impl Json {
    /// Reads `text` as one JSON document.
    pub fn parse(text: &str) -> (r: Result<Json, String>)
        ensures
            reading_view(r) == json_reading(text@),
    {
        match read_value(text) {
            Ok(value) => Ok(lift(value)),
            Err(fault) => Err(fault),
        }
    }

    /// The member `name` of an object: of several with that name the first.
    pub fn member(&self, name: &str) -> (r: Option<&Json>)
        ensures
            match r {
                Some(value) => self@.member(name@) == Some(value@),
                None => self@.member(name@) is None,
            },
    {
        match self {
            Json::Record(members) => {
                let wanted = name.to_owned();
                let ghost all = self@->Record_0;
                let mut i: usize = 0;
                assert(all.skip(0) == all);
                while i < members.len()
                    invariant
                        i <= members.len(),
                        self@ == JsonData::Record(all),
                        all.len() == members.len(),
                        forall|j: int|
                            0 <= j < members.len() ==> #[trigger] all[j] == (
                                members[j].0@,
                                members[j].1@,
                            ),
                        wanted@ == name@,
                        first_named(all, name@) == first_named(all.skip(i as int), name@),
                    decreases members.len() - i,
                {
                    assert(all.skip(i as int).drop_first() == all.skip(i + 1));
                    assert(all.skip(i as int)[0] == all[i as int]);
                    if members[i].0 == wanted {
                        return Some(&members[i].1);
                    }
                    i = i + 1;
                }
                None
            },
            _ => None,
        }
    }
}

} // verus!
