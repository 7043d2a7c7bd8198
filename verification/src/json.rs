//! JSON documents as plain values, and the reading of a response body into one.

use vstd::prelude::*;

verus! {

/// A JSON number as it was read: an integer where the literal is one that fits in 64 bits,
/// signed or unsigned; else the binary64 number nearest to the literal, held by its bits.
#[derive(Clone, Copy, Debug, PartialEq, Eq)]
pub enum Number {
    Integer(i128),
    Binary64(u64),
}

/// A member of a JSON object.
#[derive(Debug, PartialEq, Eq)]
pub struct Member {
    pub name: String,
    pub value: JsonValue,
}

/// A JSON document.
#[derive(Debug, PartialEq, Eq)]
pub enum JsonValue {
    Null,
    Bool(bool),
    Number(Number),
    String(String),
    Array(Vec<JsonValue>),
    Object(Vec<Member>),
}

/// The mathematical content of a JSON document.
pub ghost enum Json {
    Null,
    Bool(bool),
    Number(Number),
    String(Seq<char>),
    Array(Seq<Json>),
    Object(Seq<(Seq<char>, Json)>),
}

/// The document that a value holds.
pub open spec fn document(value: JsonValue) -> Json
    decreases value,
{
    match value {
        JsonValue::Null => Json::Null,
        JsonValue::Bool(b) => Json::Bool(b),
        JsonValue::Number(n) => Json::Number(n),
        JsonValue::String(s) => Json::String(s@),
        JsonValue::Array(items) => Json::Array(
            Seq::new(
                items@.len(),
                |i: int|
                    if 0 <= i < items@.len() {
                        document(items@[i])
                    } else {
                        Json::Null
                    },
            ),
        ),
        JsonValue::Object(members) => Json::Object(
            Seq::new(
                members@.len(),
                |i: int|
                    if 0 <= i < members@.len() {
                        (members@[i].name@, document(members@[i].value))
                    } else {
                        (Seq::empty(), Json::Null)
                    },
            ),
        ),
    }
}

impl View for JsonValue {
    type V = Json;

    open spec fn view(&self) -> Json {
        document(*self)
    }
}

/// The value of the first member of `members` that is named `name`.
pub open spec fn member(members: Seq<(Seq<char>, Json)>, name: Seq<char>) -> Option<Json>
    decreases members.len(),
{
    if members.len() == 0 {
        None
    } else if members[0].0 == name {
        Some(members[0].1)
    } else {
        member(members.drop_first(), name)
    }
}

/// The members of an object, each as its name and the document that it holds.
pub open spec fn member_views(members: Seq<Member>) -> Seq<(Seq<char>, Json)> {
    Seq::new(members.len(), |i: int| (members[i].name@, members[i].value@))
}

/// The items of an array, each as the document that it holds.
pub open spec fn item_views(items: Seq<JsonValue>) -> Seq<Json> {
    Seq::new(items.len(), |i: int| items[i]@)
}

/// An object holds its members.
pub proof fn lemma_object_view(members: Vec<Member>)
    ensures
        JsonValue::Object(members)@ == Json::Object(member_views(members@)),
{
    reveal_with_fuel(document, 2);
    assert(JsonValue::Object(members)@->Object_0 =~= member_views(members@));
}

/// An array holds its items.
pub proof fn lemma_array_view(items: Vec<JsonValue>)
    ensures
        JsonValue::Array(items)@ == Json::Array(item_views(items@)),
{
    reveal_with_fuel(document, 2);
    assert(JsonValue::Array(items)@->Array_0 =~= item_views(items@));
}

/// The value of the first member of `members` that is named `name`.
pub fn find<'a>(members: &'a Vec<Member>, name: &String) -> (r: Option<&'a JsonValue>)
    ensures
        match r {
            Some(value) => member(member_views(members@), name@) == Some(value@),
            None => member(member_views(members@), name@) is None,
        },
{
    let ghost all = member_views(members@);
    let mut i: usize = 0;
    assert(all.skip(0) =~= all);
    while i < members.len()
        invariant
            i <= members.len(),
            all == member_views(members@),
            member(all, name@) == member(all.skip(i as int), name@),
        decreases members.len() - i,
    {
        if members[i].name == *name {
            return Some(&members[i].value);
        }
        proof {
            assert(all.skip(i as int).drop_first() =~= all.skip(i + 1));
        }
        i = i + 1;
    }
    None
}

/// A member put in among others does not change what is found under another name than its own.
pub proof fn lemma_member_of_other_name(
    members: Seq<(Seq<char>, Json)>,
    at: int,
    added: (Seq<char>, Json),
    name: Seq<char>,
)
    requires
        0 <= at <= members.len(),
        added.0 != name,
    ensures
        member(members.insert(at, added), name) == member(members, name),
    decreases members.len(),
{
    let longer = members.insert(at, added);
    if at == 0 {
        assert(longer.drop_first() =~= members);
    } else {
        assert(longer[0] == members[0]);
        if members[0].0 != name {
            assert(longer.drop_first() =~= members.drop_first().insert(at - 1, added));
            lemma_member_of_other_name(members.drop_first(), at - 1, added, name);
        }
    }
}

#[verifier::external_type_specification]
#[verifier::external_body]
pub struct ExSerdeValue(serde_json::Value);

/// The document that a `serde_json::Value` holds.
pub uninterp spec fn held_document(value: serde_json::Value) -> Json;

/// What `serde_json` makes of the bytes of a text: the document that it reads, or the message
/// with which it refuses them.
pub uninterp spec fn read_document(text: Seq<u8>) -> Result<Json, Seq<char>>;

/// `serde_json::from_slice`, asked for a `serde_json::Value`; an error is turned into its
/// message by `to_string`. The outcome is a function of the bytes alone; nothing is claimed
/// about which bytes are read as what.
#[verifier::external_body]
fn read_value(text: &[u8]) -> (r: Result<serde_json::Value, String>)
    ensures
        match r {
            Ok(value) => read_document(text@) == Ok::<Json, Seq<char>>(held_document(value)),
            Err(message) => read_document(text@) == Err::<Json, Seq<char>>(message@),
        },
{
    serde_json::from_slice::<serde_json::Value>(text).map_err(|error| error.to_string())
}

/// The variants of `serde_json::Value`, and `as_i128` and `as_f64` of `serde_json::Number`, to
/// carry a document over into a `JsonValue`. That value then holds what the `serde_json::Value`
/// held: the members of an object in the order in which `serde_json` keeps them, an integer as
/// `as_i128` gives it, any other number by the bits of what `as_f64` gives.
#[verifier::external_body]
fn carry_over(value: &serde_json::Value) -> (r: JsonValue)
    ensures
        r@ == held_document(*value),
{
    match value {
        serde_json::Value::Null => JsonValue::Null,
        serde_json::Value::Bool(b) => JsonValue::Bool(*b),
        serde_json::Value::Number(n) => JsonValue::Number(
            match n.as_i128() {
                Some(i) => Number::Integer(i),
                None => Number::Binary64(n.as_f64().unwrap_or_default().to_bits()),
            },
        ),
        serde_json::Value::String(s) => JsonValue::String(s.clone()),
        serde_json::Value::Array(items) => JsonValue::Array(items.iter().map(carry_over).collect()),
        serde_json::Value::Object(map) => JsonValue::Object(
            map.iter().map(|(k, v)| Member { name: k.clone(), value: carry_over(v) }).collect(),
        ),
    }
}

/// Reads a JSON document from the bytes of a text.
pub fn parse_json(text: &[u8]) -> (r: Result<JsonValue, String>)
    ensures
        match r {
            Ok(value) => read_document(text@) == Ok::<Json, Seq<char>>(value@),
            Err(message) => read_document(text@) == Err::<Json, Seq<char>>(message@),
        },
{
    match read_value(text) {
        Ok(value) => Ok(carry_over(&value)),
        Err(message) => Err(message),
    }
}

} // verus!
