//! JSON objects, built and printed by `serde_json`.

use vstd::prelude::*;

verus! {

/// A JSON value as far as requests use it. A value of any other kind is known
/// by the text that it prints as.
pub enum Json {
    Text(Seq<char>),
    Object(Map<Seq<char>, Json>),
    Other(Seq<char>),
}

/// `serde_json::Value`: a JSON value of any kind.
#[verifier::external_type_specification]
#[verifier::external_body]
pub struct ExValue(serde_json::Value);

/// `serde_json::Map`: the members of a JSON object.
#[verifier::external_type_specification]
#[verifier::external_body]
#[verifier::reject_recursive_types(K)]
#[verifier::reject_recursive_types(V)]
pub struct ExMap<K, V>(serde_json::Map<K, V>);

/// The members that a `serde_json::Map` holds.
pub uninterp spec fn members(
    object: serde_json::Map<String, serde_json::Value>,
) -> Map<Seq<char>, Json>;

/// The members of an empty object.
pub open spec fn no_members() -> Map<Seq<char>, Json> {
    Map::empty()
}

/// The text that an object with these members prints as.
pub uninterp spec fn json_text(members: Map<Seq<char>, Json>) -> Seq<char>;

/// What may be put into an object.
pub enum Member {
    Text(String),
    Object(serde_json::Map<String, serde_json::Value>),
}

impl View for Member {
    type V = Json;

    open spec fn view(&self) -> Json {
        match self {
            Member::Text(text) => Json::Text(text@),
            Member::Object(object) => Json::Object(members(*object)),
        }
    }
}

/// Fits on one line of a line-based protocol: no line feed, nor any other
/// control character below the space.
pub open spec fn is_one_line(text: Seq<char>) -> bool {
    forall|i: int| 0 <= i < text.len() ==> #[trigger] text[i] >= ' '
}

/// `serde_json::Map::new`: an object without members.
#[verifier::external_body]
pub(crate) fn new_object() -> (object: serde_json::Map<String, serde_json::Value>)
    ensures
        members(object) == no_members(),
{
    serde_json::Map::new()
}

/// `serde_json::Map::insert`: the member is added, in place of one that had the
/// same name; the other members stay.
#[verifier::external_body]
pub(crate) fn insert_member(
    object: &mut serde_json::Map<String, serde_json::Value>,
    name: &str,
    member: Member,
)
    ensures
        members(*final(object)) == members(*old(object)).insert(name@, member@),
{
    let value = match member {
        Member::Text(text) => serde_json::Value::String(text),
        Member::Object(members) => serde_json::Value::Object(members),
    };
    object.insert(name.to_string(), value);
}

/// `serde_json::Value`'s `to_string`: the compact text of an object. It is
/// determined by the members, which print in the order of their names, and
/// every control character below the space is escaped in it.
#[verifier::external_body]
pub(crate) fn object_text(object: serde_json::Map<String, serde_json::Value>) -> (text: String)
    ensures
        text@ == json_text(members(object)),
        is_one_line(text@),
{
    serde_json::Value::Object(object).to_string()
}

/// What fits on one line holds no line feed, no carriage return and no other
/// control character.
pub proof fn one_line_holds_no_control_character(text: Seq<char>)
    ensures
        is_one_line(text) <==> forall|i: int|
            0 <= i < text.len() ==> (#[trigger] text[i]) as int >= 32,
{
}

} // verus!
