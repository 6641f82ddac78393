//! JSON documents as plain values.

use crate::error::SchemaError;
use crate::text::same_text;
use vstd::prelude::*;

verus! {

/// A JSON document, as a mathematical value.
pub enum JsonValue {
    Null,
    Bool(bool),
    /// A number, kept as the text in which `serde_json::Number` displays
    /// it: `1e2` is held as `100.0`.
    Number(Seq<char>),
    Text(Seq<char>),
    Array(Seq<JsonValue>),
    /// The members of an object, in the order in which they are held.
    Object(Seq<(Seq<char>, JsonValue)>),
}

/// A JSON document.
#[derive(Debug, PartialEq, Eq)]
pub enum Json {
    Null,
    Bool(bool),
    /// A number, kept as the text in which `serde_json::Number` displays
    /// it: `1e2` is held as `100.0`.
    Number(String),
    Text(String),
    Array(Vec<Json>),
    /// The members of an object, in the order in which they are held.
    Object(Vec<(String, Json)>),
}

impl View for Json {
    type V = JsonValue;

    open spec fn view(&self) -> JsonValue
        decreases self,
    {
        match self {
            Json::Null => JsonValue::Null,
            Json::Bool(b) => JsonValue::Bool(*b),
            Json::Number(n) => JsonValue::Number(n@),
            Json::Text(s) => JsonValue::Text(s@),
            Json::Array(items) => JsonValue::Array(
                Seq::new(
                    items@.len(),
                    |i: int|
                        if 0 <= i < items@.len() {
                            items@[i].view()
                        } else {
                            JsonValue::Null
                        },
                ),
            ),
            Json::Object(members) => JsonValue::Object(
                Seq::new(
                    members@.len(),
                    |i: int|
                        if 0 <= i < members@.len() {
                            (members@[i].0@, members@[i].1.view())
                        } else {
                            (Seq::<char>::empty(), JsonValue::Null)
                        },
                ),
            ),
        }
    }
}

/// `serde_json::Value`, the document tree that serde_json parses into.
#[verifier::external_type_specification]
#[verifier::external_body]
pub struct ExValue(serde_json::Value);

/// What serde_json makes of a run of bytes: the document, if the bytes are
/// one JSON text, and else the message of its error.
pub uninterp spec fn json_document(bytes: Seq<u8>) -> Result<JsonValue, Seq<char>>;

/// The document that a `serde_json::Value` holds.
pub uninterp spec fn value_document(value: serde_json::Value) -> JsonValue;

/// Calls `serde_json::from_slice` for a `serde_json::Value`, and
/// `to_string` on the error if there is one.
///
/// The contract claims only that the outcome is a function of the bytes:
/// the same bytes are accepted or refused alike every time, and give the
/// same document or the same message.
#[verifier::external_body]
fn parse_value(bytes: &[u8]) -> (parsed: Result<serde_json::Value, String>)
    ensures
        match parsed {
            Ok(value) => json_document(bytes@) == Ok::<JsonValue, Seq<char>>(value_document(value)),
            Err(message) => json_document(bytes@) == Err::<JsonValue, Seq<char>>(message@),
        },
{
    match serde_json::from_slice::<serde_json::Value>(bytes) {
        Ok(value) => Ok(value),
        Err(error) => Err(error.to_string()),
    }
}

/// Moves the contents of a `serde_json::Value` into a `Json`, variant by
/// variant: a number as the text that `serde_json::Number` displays, the
/// members of an object in the order in which `serde_json::Map` hands them
/// out.
///
/// The contract claims that the result shows the document that the value
/// held.
#[verifier::external_body]
fn json_of_value(value: serde_json::Value) -> (json: Json)
    ensures
        json@ == value_document(value),
{
    match value {
        serde_json::Value::Null => Json::Null,
        serde_json::Value::Bool(b) => Json::Bool(b),
        serde_json::Value::Number(n) => Json::Number(n.to_string()),
        serde_json::Value::String(s) => Json::Text(s),
        serde_json::Value::Array(items) => Json::Array(items.into_iter().map(json_of_value).collect()),
        serde_json::Value::Object(members) => Json::Object(
            members.into_iter().map(|(key, value)| (key, json_of_value(value))).collect(),
        ),
    }
}

/// The members of an object, each as its name and the document under it.
pub open spec fn members_view(members: Seq<(String, Json)>) -> Seq<(Seq<char>, JsonValue)> {
    Seq::new(members.len(), |i: int| (members[i].0@, members[i].1@))
}

/// The items of an array, each as the document it is.
pub open spec fn items_view(items: Seq<Json>) -> Seq<JsonValue> {
    Seq::new(items.len(), |i: int| items[i]@)
}

impl JsonValue {
    /// The document under the first member of the given name, if there is
    /// such a member.
    pub open spec fn member(members: Seq<(Seq<char>, JsonValue)>, name: Seq<char>) -> Option<
        JsonValue,
    >
        decreases members.len(),
    {
        if members.len() == 0 {
            None
        } else if members[0].0 == name {
            Some(members[0].1)
        } else {
            JsonValue::member(members.drop_first(), name)
        }
    }

    /// The document under a member that has to be there.
    pub open spec fn required(members: Seq<(Seq<char>, JsonValue)>, name: Seq<char>) -> Result<
        JsonValue,
        SchemaError,
    > {
        match JsonValue::member(members, name) {
            Some(json) => Ok(json),
            None => Err(SchemaError::MissingField),
        }
    }

    /// The text of a document that has to be a string.
    pub open spec fn text(self) -> Result<Seq<char>, SchemaError> {
        match self {
            JsonValue::Text(text) => Ok(text),
            _ => Err(SchemaError::UnexpectedType),
        }
    }

    /// The items of a document that has to be an array.
    pub open spec fn items(self) -> Result<Seq<JsonValue>, SchemaError> {
        match self {
            JsonValue::Array(items) => Ok(items),
            _ => Err(SchemaError::UnexpectedType),
        }
    }

    /// The members of a document that has to be an object.
    pub open spec fn members(self) -> Result<Seq<(Seq<char>, JsonValue)>, SchemaError> {
        match self {
            JsonValue::Object(members) => Ok(members),
            _ => Err(SchemaError::UnexpectedType),
        }
    }

    /// The text under a member that has to be there and has to be a string.
    pub open spec fn required_text(members: Seq<(Seq<char>, JsonValue)>, name: Seq<char>) -> Result<
        Seq<char>,
        SchemaError,
    > {
        match JsonValue::required(members, name) {
            Ok(json) => json.text(),
            Err(error) => Err(error),
        }
    }
}

/// What `JsonValue::member` finds: the document under the member of the
/// given name that no member of that name comes before.
pub proof fn lemma_member_is_first_of_name(members: Seq<(Seq<char>, JsonValue)>, name: Seq<char>)
    ensures
        match JsonValue::member(members, name) {
            Some(json) => exists|i: int|
                {
                    &&& 0 <= i < members.len()
                    &&& #[trigger] members[i] == (name, json)
                    &&& forall|k: int| 0 <= k < i ==> (#[trigger] members[k]).0 != name
                },
            None => forall|i: int| 0 <= i < members.len() ==> (#[trigger] members[i]).0 != name,
        },
    decreases members.len(),
{
    if members.len() > 0 && members[0].0 != name {
        let rest = members.drop_first();
        lemma_member_is_first_of_name(rest, name);
        match JsonValue::member(rest, name) {
            Some(json) => {
                let i = choose|i: int|
                    {
                        &&& 0 <= i < rest.len()
                        &&& #[trigger] rest[i] == (name, json)
                        &&& forall|k: int| 0 <= k < i ==> (#[trigger] rest[k]).0 != name
                    };
                assert(members[i + 1] == rest[i]);
                assert forall|k: int| 0 <= k < i + 1 implies (#[trigger] members[k]).0
                    != name by {
                    if k > 0 {
                        assert(members[k] == rest[k - 1]);
                    }
                }
            },
            None => {
                assert forall|i: int| 0 <= i < members.len() implies (#[trigger] members[i]).0
                    != name by {
                    if i > 0 {
                        assert(members[i] == rest[i - 1]);
                    }
                }
            },
        }
    } else if members.len() > 0 {
        assert(members[0] == (name, members[0].1));
    }
}

impl Json {
    /// An object shows its members, in order.
    pub proof fn lemma_object_view(members: Vec<(String, Json)>)
        ensures
            Json::Object(members)@ == JsonValue::Object(members_view(members@)),
    {
        reveal_with_fuel(<Json as View>::view, 2);
        assert(Json::Object(members)@->Object_0 =~= members_view(members@));
    }

    /// An array shows its items, in order.
    pub proof fn lemma_array_view(items: Vec<Json>)
        ensures
            Json::Array(items)@ == JsonValue::Array(items_view(items@)),
    {
        assert(Json::Array(items)@->Array_0 =~= items_view(items@));
    }

    /// Reads a run of bytes as one JSON text. An error carries the parser's
    /// account of what is wrong and where.
    pub fn parse(bytes: &[u8]) -> (parsed: Result<Json, String>)
        ensures
            match parsed {
                Ok(json) => json_document(bytes@) == Ok::<JsonValue, Seq<char>>(json@),
                Err(message) => json_document(bytes@) == Err::<JsonValue, Seq<char>>(message@),
            },
    {
        match parse_value(bytes) {
            Ok(value) => Ok(json_of_value(value)),
            Err(message) => Err(message),
        }
    }

    /// Finds the first member of the given name among the members of an
    /// object.
    pub fn member<'a>(members: &'a Vec<(String, Json)>, name: &str) -> (found: Option<&'a Json>)
        ensures
            match found {
                Some(json) => JsonValue::member(members_view(members@), name@) == Some(json@),
                None => JsonValue::member(members_view(members@), name@) is None,
            },
    {
        let ghost all = members_view(members@);
        let mut i: usize = 0;
        proof {
            assert(all.skip(0) =~= all);
        }
        while i < members.len()
            invariant
                i <= members@.len(),
                all == members_view(members@),
                JsonValue::member(all, name@) == JsonValue::member(all.skip(i as int), name@),
            decreases members@.len() - i,
        {
            proof {
                assert(all.skip(i as int).drop_first() =~= all.skip(i + 1));
            }
            if same_text(members[i].0.as_str(), name) {
                return Some(&members[i].1);
            }
            i += 1;
        }
        None
    }

    /// Finds a member that has to be there.
    pub fn required<'a>(members: &'a Vec<(String, Json)>, name: &str) -> (found: Result<
        &'a Json,
        SchemaError,
    >)
        ensures
            match found {
                Ok(json) => JsonValue::required(members_view(members@), name@) == Ok::<
                    JsonValue,
                    SchemaError,
                >(json@),
                Err(error) => JsonValue::required(members_view(members@), name@) == Err::<
                    JsonValue,
                    SchemaError,
                >(error),
            },
    {
        match Json::member(members, name) {
            Some(json) => Ok(json),
            None => Err(SchemaError::MissingField),
        }
    }

    /// The text of a document that has to be a string.
    pub fn as_text(&self) -> (text: Result<&str, SchemaError>)
        ensures
            match text {
                Ok(text) => self@.text() == Ok::<Seq<char>, SchemaError>(text@),
                Err(error) => self@.text() == Err::<Seq<char>, SchemaError>(error),
            },
    {
        match self {
            Json::Text(text) => Ok(text.as_str()),
            _ => Err(SchemaError::UnexpectedType),
        }
    }

    /// The items of a document that has to be an array.
    pub fn as_items(&self) -> (items: Result<&Vec<Json>, SchemaError>)
        ensures
            match items {
                Ok(items) => self@.items() == Ok::<Seq<JsonValue>, SchemaError>(items_view(items@)),
                Err(error) => self@.items() == Err::<Seq<JsonValue>, SchemaError>(error),
            },
    {
        match self {
            Json::Array(items) => {
                proof {
                    Json::lemma_array_view(*items);
                }
                Ok(items)
            },
            _ => Err(SchemaError::UnexpectedType),
        }
    }

    /// The members of a document that has to be an object.
    pub fn as_members(&self) -> (members: Result<&Vec<(String, Json)>, SchemaError>)
        ensures
            match members {
                Ok(members) => self@.members() == Ok::<Seq<(Seq<char>, JsonValue)>, SchemaError>(
                    members_view(members@),
                ),
                Err(error) => self@.members() == Err::<Seq<(Seq<char>, JsonValue)>, SchemaError>(
                    error,
                ),
            },
    {
        match self {
            Json::Object(members) => {
                proof {
                    Json::lemma_object_view(*members);
                }
                Ok(members)
            },
            _ => Err(SchemaError::UnexpectedType),
        }
    }

    /// Finds a member that has to be there and has to be a string.
    pub fn required_text<'a>(members: &'a Vec<(String, Json)>, name: &str) -> (text: Result<
        &'a str,
        SchemaError,
    >)
        ensures
            match text {
                Ok(text) => JsonValue::required_text(members_view(members@), name@) == Ok::<
                    Seq<char>,
                    SchemaError,
                >(text@),
                Err(error) => JsonValue::required_text(members_view(members@), name@) == Err::<
                    Seq<char>,
                    SchemaError,
                >(error),
            },
    {
        Json::required(members, name)?.as_text()
    }
}

} // verus!
