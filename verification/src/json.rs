//! JSON values.

use vstd::prelude::*;

use crate::text::{owned, same_text};

verus! {

/// A JSON number.
#[derive(Debug, Clone, PartialEq, Eq)]
pub enum JsonNumber {
    /// An integer that is not negative.
    PosInt(u64),
    /// A negative integer.
    NegInt(i64),
    /// Any other number, as it is written.
    Float(String),
}

/// A JSON value.
#[derive(Debug, PartialEq, Eq)]
pub enum JsonValue {
    Null,
    Bool(bool),
    Number(JsonNumber),
    String(String),
    Array(Vec<JsonValue>),
    /// The members, in the order in which the object is walked.
    Object(Vec<JsonMember>),
}

/// A member of a JSON object.
#[derive(Debug, Clone, PartialEq, Eq)]
pub struct JsonMember {
    pub key: String,
    pub value: JsonValue,
}

/// The model of [`JsonNumber`].
pub enum NumberModel {
    PosInt(u64),
    NegInt(i64),
    Float(Seq<char>),
}

/// The model of [`JsonValue`].
pub enum JsonModel {
    Null,
    Bool(bool),
    Number(NumberModel),
    String(Seq<char>),
    Array(Seq<JsonModel>),
    Object(Seq<(Seq<char>, JsonModel)>),
}

impl View for JsonNumber {
    type V = NumberModel;

    open spec fn view(&self) -> NumberModel {
        match *self {
            JsonNumber::PosInt(n) => NumberModel::PosInt(n),
            JsonNumber::NegInt(n) => NumberModel::NegInt(n),
            JsonNumber::Float(text) => NumberModel::Float(text@),
        }
    }
}

impl JsonValue {
    /// The model of the value.
    pub open spec fn model(self) -> JsonModel
        decreases self,
    {
        match self {
            JsonValue::Null => JsonModel::Null,
            JsonValue::Bool(b) => JsonModel::Bool(b),
            JsonValue::Number(number) => JsonModel::Number(number@),
            JsonValue::String(text) => JsonModel::String(text@),
            JsonValue::Array(elements) => JsonModel::Array(
                Seq::new(
                    elements@.len(),
                    |i: int|
                        if 0 <= i < elements@.len() {
                            elements@[i].model()
                        } else {
                            JsonModel::Null
                        },
                ),
            ),
            JsonValue::Object(members) => JsonModel::Object(
                Seq::new(
                    members@.len(),
                    |i: int|
                        if 0 <= i < members@.len() {
                            (members@[i].key@, members@[i].value.model())
                        } else {
                            (Seq::empty(), JsonModel::Null)
                        },
                ),
            ),
        }
    }
}

/// The models of several values.
pub open spec fn json_models(values: Seq<JsonValue>) -> Seq<JsonModel> {
    Seq::new(values.len(), |i: int| values[i].model())
}

/// The models of several members.
pub open spec fn member_models(members: Seq<JsonMember>) -> Seq<(Seq<char>, JsonModel)> {
    Seq::new(members.len(), |i: int| (members[i].key@, members[i].value.model()))
}

/// Where the first member called `key` stands among `members`, or the number of members
/// where none is called so.
pub open spec fn position(members: Seq<(Seq<char>, JsonModel)>, key: Seq<char>) -> int
    decreases members.len(),
{
    if members.len() == 0 {
        0
    } else if members[0].0 == key {
        0
    } else {
        1 + position(members.drop_first(), key)
    }
}

/// Whether a member is called `key`.
pub open spec fn has_key(members: Seq<(Seq<char>, JsonModel)>, key: Seq<char>) -> bool {
    0 <= position(members, key) < members.len()
}

/// The value of the first member called `key`.
pub open spec fn lookup(members: Seq<(Seq<char>, JsonModel)>, key: Seq<char>) -> Option<JsonModel> {
    if has_key(members, key) {
        Some(members[position(members, key)].1)
    } else {
        None
    }
}

/// The value of the member called `key` of an object; nothing for any other value.
pub open spec fn field(value: JsonModel, key: Seq<char>) -> Option<JsonModel> {
    match value {
        JsonModel::Object(members) => lookup(members, key),
        _ => None,
    }
}

/// The text of a value that is a string.
pub open spec fn string_of(value: Option<JsonModel>) -> Option<Seq<char>> {
    match value {
        Some(JsonModel::String(text)) => Some(text),
        _ => None,
    }
}

/// The integer that a number stands for.
pub open spec fn integer_of(number: NumberModel) -> Option<int> {
    match number {
        NumberModel::PosInt(n) => Some(n as int),
        NumberModel::NegInt(n) => Some(n as int),
        NumberModel::Float(_) => None,
    }
}

/// The position of a member is that of its key, and no member before it has that key.
pub proof fn position_is_of_the_key(members: Seq<(Seq<char>, JsonModel)>, key: Seq<char>)
    ensures
        0 <= position(members, key) <= members.len(),
        has_key(members, key) ==> members[position(members, key)].0 == key,
        forall|i: int| 0 <= i < position(members, key) ==> (#[trigger] members[i]).0 != key,
    decreases members.len(),
{
    if members.len() > 0 && members[0].0 != key {
        let rest = members.drop_first();
        position_is_of_the_key(rest, key);
        assert(forall|i: int| 0 < i < members.len() ==> #[trigger] members[i] == rest[i - 1]);
    }
}

/// An object has a key exactly when one of its members is called so.
pub proof fn key_of_a_member(members: Seq<(Seq<char>, JsonModel)>, at: int)
    requires
        0 <= at < members.len(),
    ensures
        has_key(members, members[at].0),
{
    position_is_of_the_key(members, members[at].0);
}

/// The model of a value that may be absent.
pub open spec fn optional_model(value: Option<&JsonValue>) -> Option<JsonModel> {
    match value {
        Some(value) => Some(value.model()),
        None => None,
    }
}

/// The value of the first member called `key`.
pub fn find_member<'a>(members: &'a Vec<JsonMember>, key: &str) -> (found: Option<&'a JsonValue>)
    ensures
        optional_model(found) == lookup(member_models(members@), key@),
        found matches Some(value) ==> *value == members@[position(
            member_models(members@),
            key@,
        )].value,
{
    let ghost models = member_models(members@);
    let mut i: usize = 0;
    assert(models.skip(0) =~= models);
    while i < members.len()
        invariant
            i <= members@.len(),
            models == member_models(members@),
            position(models, key@) == i + position(models.skip(i as int), key@),
        decreases members@.len() - i,
    {
        assert(models.skip(i as int).drop_first() =~= models.skip(i + 1));
        if same_text(members[i].key.as_str(), key) {
            return Some(&members[i].value);
        }
        i += 1;
    }
    None
}

impl JsonValue {
    /// The value of the member called `key` of an object; nothing for any other value.
    pub fn get(&self, key: &str) -> (found: Option<&JsonValue>)
        ensures
            optional_model(found) == field(self.model(), key@),
    {
        match self {
            JsonValue::Object(members) => {
                assert(self.model()->Object_0 =~= member_models(members@));
                find_member(members, key)
            },
            _ => None,
        }
    }

    /// The text of a string.
    pub fn as_str(&self) -> (text: Option<&str>)
        ensures
            match text {
                Some(text) => string_of(Some(self.model())) == Some(text@),
                None => string_of(Some(self.model())) is None,
            },
    {
        match self {
            JsonValue::String(text) => Some(text.as_str()),
            _ => None,
        }
    }
}

impl Clone for JsonValue {
    fn clone(&self) -> (copy: JsonValue)
        ensures
            copy.model() == self.model(),
        decreases *self,
    {
        match self {
            JsonValue::Null => JsonValue::Null,
            JsonValue::Bool(b) => JsonValue::Bool(*b),
            JsonValue::Number(JsonNumber::PosInt(n)) => JsonValue::Number(JsonNumber::PosInt(*n)),
            JsonValue::Number(JsonNumber::NegInt(n)) => JsonValue::Number(JsonNumber::NegInt(*n)),
            JsonValue::Number(JsonNumber::Float(text)) => JsonValue::Number(
                JsonNumber::Float(owned(text.as_str())),
            ),
            JsonValue::String(text) => JsonValue::String(owned(text.as_str())),
            JsonValue::Array(elements) => {
                let mut copies: Vec<JsonValue> = Vec::new();
                let mut i: usize = 0;
                while i < elements.len()
                    invariant
                        i <= elements@.len(),
                        *self == JsonValue::Array(*elements),
                        copies@.len() == i,
                        forall|j: int|
                            0 <= j < i ==> (#[trigger] copies@[j]).model() == elements@[j].model(),
                    decreases elements@.len() - i,
                {
                    assert(decreases_to!(*self => self->Array_0));
                    assert(decreases_to!(self->Array_0 => elements@));
                    assert(decreases_to!(elements@ => elements@[i as int]));
                    copies.push(elements[i].clone());
                    i += 1;
                }
                let copy = JsonValue::Array(copies);
                assert(copy.model()->Array_0 =~= self.model()->Array_0);
                copy
            },
            JsonValue::Object(members) => {
                let mut copies: Vec<JsonMember> = Vec::new();
                let mut i: usize = 0;
                while i < members.len()
                    invariant
                        i <= members@.len(),
                        *self == JsonValue::Object(*members),
                        copies@.len() == i,
                        forall|j: int|
                            #![trigger copies@[j]]
                            0 <= j < i ==> copies@[j].key@ == members@[j].key@
                                && copies@[j].value.model() == members@[j].value.model(),
                    decreases members@.len() - i,
                {
                    assert(decreases_to!(*self => self->Object_0));
                    assert(decreases_to!(self->Object_0 => members@));
                    assert(decreases_to!(members@ => members@[i as int]));
                    assert(decreases_to!(members@[i as int] => members@[i as int].value));
                    copies.push(
                        JsonMember {
                            key: owned(members[i].key.as_str()),
                            value: members[i].value.clone(),
                        },
                    );
                    i += 1;
                }
                let copy = JsonValue::Object(copies);
                assert(copy.model()->Object_0 =~= self.model()->Object_0);
                copy
            },
        }
    }
}

/// The JSON value of the `serde_json` crate.
#[verifier::external_type_specification]
#[verifier::external_body]
pub struct ExValue(serde_json::Value);

/// What a JSON value of the `serde_json` crate holds.
pub uninterp spec fn json_contents(value: serde_json::Value) -> JsonModel;

/// The outermost level of a JSON value.
enum JsonNode {
    Null,
    Bool(bool),
    Number(JsonNumber),
    String(String),
    Array(Vec<serde_json::Value>),
    Object(Vec<(String, serde_json::Value)>),
}

/// What each of several values holds.
pub open spec fn elements_contents(values: Seq<serde_json::Value>) -> Seq<JsonModel> {
    Seq::new(values.len(), |i: int| json_contents(values[i]))
}

/// What each of several members holds.
pub open spec fn members_contents(members: Seq<(String, serde_json::Value)>) -> Seq<
    (Seq<char>, JsonModel),
> {
    Seq::new(members.len(), |i: int| (members[i].0@, json_contents(members[i].1)))
}

impl JsonNode {
    /// The model of the value that the node was taken from.
    spec fn model(self) -> JsonModel {
        match self {
            JsonNode::Null => JsonModel::Null,
            JsonNode::Bool(b) => JsonModel::Bool(b),
            JsonNode::Number(number) => JsonModel::Number(number@),
            JsonNode::String(text) => JsonModel::String(text@),
            JsonNode::Array(elements) => JsonModel::Array(elements_contents(elements@)),
            JsonNode::Object(members) => JsonModel::Object(members_contents(members@)),
        }
    }
}

/// Takes off the outermost level of a JSON value.
///
/// The variants of `serde_json::Value` are told apart and their fields moved, an object
/// in the order in which `serde_json::Map` is walked. A number is told apart by what
/// `serde_json::Number::as_u64` and `as_i64` return; one that is neither is given as it
/// is displayed. Claimed: the level and what the parts hold make up what the value
/// holds.
#[verifier::external_body]
fn json_node(value: serde_json::Value) -> (node: JsonNode)
    ensures
        node.model() == json_contents(value),
{
    match value {
        serde_json::Value::Null => JsonNode::Null,
        serde_json::Value::Bool(b) => JsonNode::Bool(b),
        serde_json::Value::Number(n) => JsonNode::Number(match (n.as_u64(), n.as_i64()) {
            (Some(u), _) => JsonNumber::PosInt(u),
            (None, Some(i)) => JsonNumber::NegInt(i),
            (None, None) => JsonNumber::Float(n.to_string()),
        }),
        serde_json::Value::String(text) => JsonNode::String(text),
        serde_json::Value::Array(elements) => JsonNode::Array(elements),
        serde_json::Value::Object(members) => JsonNode::Object(members.into_iter().collect()),
    }
}

/// A JSON value of the `serde_json` crate as the library's own type.
///
/// How deep a value may be nested is bounded by the stack of the machine.
pub fn own_json(value: serde_json::Value) -> (own: JsonValue)
    ensures
        own.model() == json_contents(value),
    decreases json_contents(value),
{
    let ghost whole = json_contents(value);
    match json_node(value) {
        JsonNode::Null => JsonValue::Null,
        JsonNode::Bool(b) => JsonValue::Bool(b),
        JsonNode::Number(number) => JsonValue::Number(number),
        JsonNode::String(text) => JsonValue::String(text),
        JsonNode::Array(elements) => {
            let mut own: Vec<JsonValue> = Vec::new();
            for element in items: elements
                invariant
                    items.seq() == elements@,
                    own@.len() == items.index(),
                    whole == JsonModel::Array(elements_contents(elements@)),
                    json_contents(value) == whole,
                    forall|i: int|
                        0 <= i < own@.len() ==> (#[trigger] own@[i]).model() == json_contents(
                            elements@[i],
                        ),
            {
                assert(decreases_to!(whole => whole->Array_0));
                assert(decreases_to!(whole->Array_0 => whole->Array_0[own@.len() as int]));
                own.push(own_json(element));
            }
            let array = JsonValue::Array(own);
            assert(array.model()->Array_0 =~= elements_contents(elements@));
            array
        },
        JsonNode::Object(members) => {
            let mut own: Vec<JsonMember> = Vec::new();
            for member in items: members
                invariant
                    items.seq() == members@,
                    own@.len() == items.index(),
                    whole == JsonModel::Object(members_contents(members@)),
                    json_contents(value) == whole,
                    forall|i: int|
                        #![trigger own@[i]]
                        0 <= i < own@.len() ==> own@[i].key@ == members@[i].0@
                            && own@[i].value.model() == json_contents(members@[i].1),
            {
                let ghost at = own@.len() as int;
                assert(decreases_to!(whole => whole->Object_0));
                assert(decreases_to!(whole->Object_0 => whole->Object_0[at]));
                assert(decreases_to!(whole->Object_0[at] => whole->Object_0[at].1));
                let (key, inner) = member;
                own.push(JsonMember { key, value: own_json(inner) });
            }
            let object = JsonValue::Object(own);
            assert(object.model()->Object_0 =~= members_contents(members@));
            object
        },
    }
}

/// The value that is looked up is that of the first member with the key, and there is none
/// where no member has it.
pub proof fn first_member_is_looked_up(
    members: Seq<(Seq<char>, JsonModel)>,
    key: Seq<char>,
    at: int,
)
    ensures
        0 <= at < members.len() && members[at].0 == key && (forall|i: int|
            0 <= i < at ==> (#[trigger] members[i]).0 != key) ==> lookup(members, key) == Some(
            members[at].1,
        ) && field(JsonModel::Object(members), key) == Some(members[at].1),
        (forall|i: int| 0 <= i < members.len() ==> (#[trigger] members[i]).0 != key) ==> lookup(
            members,
            key,
        ) is None && field(JsonModel::Object(members), key) is None,
{
    position_is_of_the_key(members, key);
    let found = position(members, key);
    if 0 <= at < members.len() && members[at].0 == key && (forall|i: int|
        0 <= i < at ==> (#[trigger] members[i]).0 != key) {
        if found < at {
            assert(members[found].0 != key);
        } else if at < found {
            assert(members[at].0 != key);
        }
    }
    if found < members.len() {
        assert(members[found].0 == key);
    }
}

/// Only objects have members, only strings have a text, and only integers stand for one.
pub proof fn values_are_told_apart(value: JsonModel, key: Seq<char>, n: u64, m: i64)
    ensures
        !(value is Object) ==> field(value, key) is None,
        string_of(Some(value)) == match value {
            JsonModel::String(text) => Some(text),
            _ => None,
        },
        string_of(None) is None,
        integer_of(NumberModel::PosInt(n)) == Some(n as int),
        integer_of(NumberModel::NegInt(m)) == Some(m as int),
        integer_of(NumberModel::Float(key)) is None,
{
}

/// A value is seen as it is, kind by kind, with its elements and members one for one.
pub proof fn values_are_seen_by_their_kind(
    b: bool,
    n: u64,
    m: i64,
    text: String,
    elements: Vec<JsonValue>,
    members: Vec<JsonMember>,
)
    ensures
        JsonValue::Null.model() is Null,
        JsonValue::Bool(b).model() == JsonModel::Bool(b),
        JsonValue::Number(JsonNumber::PosInt(n)).model() == JsonModel::Number(
            NumberModel::PosInt(n),
        ),
        JsonValue::Number(JsonNumber::NegInt(m)).model() == JsonModel::Number(
            NumberModel::NegInt(m),
        ),
        JsonValue::Number(JsonNumber::Float(text)).model() == JsonModel::Number(
            NumberModel::Float(text@),
        ),
        JsonValue::String(text).model() == JsonModel::String(text@),
        JsonValue::Array(elements).model() matches JsonModel::Array(own) && own.len()
            == elements@.len() && forall|i: int|
            0 <= i < own.len() ==> #[trigger] own[i] == elements@[i].model(),
        JsonValue::Object(members).model() matches JsonModel::Object(own) && own.len()
            == members@.len() && forall|i: int|
            0 <= i < own.len() ==> #[trigger] own[i] == (
                members@[i].key@,
                members@[i].value.model(),
            ),
{
}

/// Several values and several members are seen one for one.
pub proof fn values_are_seen_one_for_one(values: Seq<JsonValue>, members: Seq<JsonMember>)
    ensures
        json_models(values).len() == values.len(),
        forall|i: int|
            0 <= i < values.len() ==> #[trigger] json_models(values)[i] == values[i].model(),
        member_models(members).len() == members.len(),
        forall|i: int|
            0 <= i < members.len() ==> #[trigger] member_models(members)[i] == (
                members[i].key@,
                members[i].value.model(),
            ),
{
}

/// The contents of several outside values are seen one for one.
pub proof fn contents_are_seen_one_for_one(
    values: Seq<serde_json::Value>,
    members: Seq<(String, serde_json::Value)>,
)
    ensures
        elements_contents(values).len() == values.len(),
        forall|i: int|
            0 <= i < values.len() ==> #[trigger] elements_contents(values)[i] == json_contents(
                values[i],
            ),
        members_contents(members).len() == members.len(),
        forall|i: int|
            0 <= i < members.len() ==> #[trigger] members_contents(members)[i] == (
                members[i].0@,
                json_contents(members[i].1),
            ),
{
}

/// The outermost level of a value is seen as it is, with its parts one for one.
proof fn nodes_are_seen_by_their_kind(
    b: bool,
    number: JsonNumber,
    text: String,
    elements: Vec<serde_json::Value>,
    members: Vec<(String, serde_json::Value)>,
)
    ensures
        JsonNode::Null.model() is Null,
        JsonNode::Bool(b).model() == JsonModel::Bool(b),
        JsonNode::Number(number).model() == JsonModel::Number(number@),
        JsonNode::String(text).model() == JsonModel::String(text@),
        JsonNode::Array(elements).model() == JsonModel::Array(elements_contents(elements@)),
        JsonNode::Object(members).model() == JsonModel::Object(members_contents(members@)),
{
}

} // verus!
