//! The durable form of an entity: a JSON object `{"id": .., "attrs": {..}}`, as text.
use vstd::prelude::*;

use serde_json::Value;

use crate::entity::{attrs_of, Entity};
use crate::json::{
    as_object, as_str, attrs_clone, attrs_get, attrs_insert, attrs_new, entries, json_object,
    json_str, object_value, string_value,
};

verus! {

/// The JSON text that serde_json writes for a value.
pub uninterp spec fn json_text(v: Value) -> Seq<char>;

/// The value that serde_json reads from a text, `None` where the text is not JSON.
pub uninterp spec fn json_parse(s: Seq<char>) -> Option<Value>;

/// Why an entity could not be turned into text or back.
#[derive(Debug, Clone, Copy, PartialEq, Eq, Structural)]
pub enum CodecError {
    /// The envelope could not be written (kept for callers that report any
    /// codec failure; writing a `Value` does not fail).
    Encode,
    /// The text is not JSON.
    Malformed,
    /// The JSON is not an envelope: no object, no string `id`, or no object `attrs`.
    NotAnEntity,
}

/// Whether `v` is the envelope of an entity with this id and these attributes:
/// an object with exactly the keys `id` (a string) and `attrs` (an object).
pub open spec fn is_envelope(v: Value, id: Seq<char>, attrs: Map<Seq<char>, Value>) -> bool {
    &&& json_object(v) is Some
    &&& json_object(v)->0.dom() == set!["id"@, "attrs"@]
    &&& json_str(json_object(v)->0["id"@]) == Some(id)
    &&& json_object(json_object(v)->0["attrs"@]) == Some(attrs)
}

/// The id and attributes that an envelope holds, `None` where `v` is no envelope.
/// Keys other than `id` and `attrs` are ignored.
pub open spec fn envelope_contents(v: Value) -> Option<(Seq<char>, Map<Seq<char>, Value>)> {
    match json_object(v) {
        Some(env) => {
            if env.contains_key("id"@) && json_str(env["id"@]) is Some && env.contains_key(
                "attrs"@,
            ) && json_object(env["attrs"@]) is Some {
                Some((json_str(env["id"@])->0, json_object(env["attrs"@])->0))
            } else {
                None
            }
        },
        None => None,
    }
}

/// Wraps an entity into its envelope.
pub fn entity_to_value(entity: &Entity) -> (r: Value)
    ensures
        is_envelope(r, entity.id@, attrs_of(*entity)),
{
    proof {
        reveal_strlit("id");
        reveal_strlit("attrs");
        assert("id"@.len() == 2 && "attrs"@.len() == 5);
    }
    let mut map = attrs_new();
    attrs_insert(&mut map, "id".to_owned(), string_value(entity.id.clone()));
    attrs_insert(&mut map, "attrs".to_owned(), object_value(attrs_clone(&entity.attrs)));
    proof {
        assert(entries(map).dom() =~= set!["id"@, "attrs"@]);
    }
    object_value(map)
}

/// Reads an entity back from its envelope.
pub fn value_to_entity(value: Value) -> (r: Option<Entity>)
    ensures
        r is Some <==> envelope_contents(value) is Some,
        r matches Some(e) ==> envelope_contents(value) == Some((e.id@, attrs_of(e))),
{
    let obj = match as_object(&value) {
        Some(obj) => obj,
        None => return None,
    };
    let id = match attrs_get(obj, "id") {
        Some(v) => match as_str(v) {
            Some(s) => s.to_owned(),
            None => return None,
        },
        None => return None,
    };
    let attrs = match attrs_get(obj, "attrs") {
        Some(v) => match as_object(v) {
            Some(m) => attrs_clone(m),
            None => return None,
        },
        None => return None,
    };
    Some(Entity { id, attrs })
}

/// Relies on `serde_json::to_string`: the JSON text of the value. Writing a
/// `Value` does not fail: its maps have string keys, its numbers are finite,
/// and the output goes to memory.
#[verifier::external_body]
pub fn encode_value(value: &Value) -> (r: Result<String, serde_json::Error>)
    ensures
        r is Ok,
        r matches Ok(s) ==> s@ == json_text(*value),
{
    serde_json::to_string(value)
}

/// Relies on `serde_json::from_str`: the value that the text holds, an error where it is not JSON.
#[verifier::external_body]
pub fn decode_value(input: &str) -> (r: Result<Value, serde_json::Error>)
    ensures
        r is Ok <==> json_parse(input@) is Some,
        r matches Ok(v) ==> json_parse(input@) == Some(v),
{
    serde_json::from_str(input)
}

/// The text of an entity's envelope.
pub fn encode_entity(entity: &Entity) -> (r: Result<String, CodecError>)
    ensures
        r is Ok,
        r matches Ok(s) ==> exists|v: Value|
            #![trigger json_text(v)]
            is_envelope(v, entity.id@, attrs_of(*entity)) && s@ == json_text(v),
{
    let value = entity_to_value(entity);
    match encode_value(&value) {
        Ok(s) => Ok(s),
        Err(_) => Err(CodecError::Encode),
    }
}

/// The entity whose envelope a text holds.
pub fn decode_entity(text: &str) -> (r: Result<Entity, CodecError>)
    ensures
        json_parse(text@) is None <==> r == Err::<Entity, CodecError>(CodecError::Malformed),
        json_parse(text@) matches Some(v) ==> match r {
            Ok(e) => envelope_contents(v) == Some((e.id@, attrs_of(e))),
            Err(err) => err == CodecError::NotAnEntity && envelope_contents(v) is None,
        },
{
    match decode_value(text) {
        Ok(v) => match value_to_entity(v) {
            Some(e) => Ok(e),
            None => Err(CodecError::NotAnEntity),
        },
        Err(_) => Err(CodecError::Malformed),
    }
}

/// An envelope gives back exactly the id and attributes it was made of.
pub proof fn lemma_envelope_round_trip(v: Value, id: Seq<char>, attrs: Map<Seq<char>, Value>)
    requires
        is_envelope(v, id, attrs),
    ensures
        envelope_contents(v) == Some((id, attrs)),
{
    let env = json_object(v)->0;
    assert(env.dom().contains("id"@));
    assert(env.dom().contains("attrs"@));
}

} // verus!
