//! The ingestion boundary for events arriving as untyped JSON: field
//! extraction is delegated to `serde_json`, and the extracted plain
//! values go through the validating constructor, so that a malformed
//! payload is rejected here and never reaches the queue.

use vstd::prelude::*;
use crate::event::{Event, MalformedEventError, build_event, opt_view, spec_build_event};
use crate::model::EventModel;

verus! {

#[verifier::external_type_specification]
#[verifier::external_body]
pub struct ExValue(serde_json::Value);

/// The named top-level field of `v` as a string, if `v` is an object with
/// such a field and it is a string. A function of the value and key
/// alone.
pub uninterp spec fn str_of(v: serde_json::Value, key: Seq<char>) -> Option<Seq<char>>;

/// The named field of the object under `outer` in `v` as a string, if the
/// whole path is there and ends in a string. A function of the value and
/// keys alone.
pub uninterp spec fn nested_str_of(
    v: serde_json::Value,
    outer: Seq<char>,
    key: Seq<char>,
) -> Option<Seq<char>>;

/// The named field of the object under `outer` in `v` as an integer, if
/// the whole path is there and ends in a number representable as a u64. A
/// function of the value and keys alone.
pub uninterp spec fn nested_u64_of(
    v: serde_json::Value,
    outer: Seq<char>,
    key: Seq<char>,
) -> Option<u64>;

/// Relies on serde_json::Value::get and Value::as_str: the named
/// top-level field of `v` as a string. Both depend on the value and key
/// alone, so the result carries the name `str_of`.
#[verifier::external_body]
fn string_field(v: &serde_json::Value, key: &str) -> (r: Option<String>)
    ensures
        opt_view(r) == str_of(*v, key@),
{
    match v.get(key) {
        Some(f) => match f.as_str() {
            Some(s) => Some(s.to_owned()),
            None => None,
        },
        None => None,
    }
}

/// Relies on serde_json::Value::get (twice) and Value::as_str: the named
/// field under `outer` as a string. All depend on the value and keys
/// alone, so the result carries the name `nested_str_of`.
#[verifier::external_body]
fn nested_string_field(v: &serde_json::Value, outer: &str, key: &str) -> (r: Option<String>)
    ensures
        opt_view(r) == nested_str_of(*v, outer@, key@),
{
    match v.get(outer) {
        Some(d) => match d.get(key) {
            Some(f) => match f.as_str() {
                Some(s) => Some(s.to_owned()),
                None => None,
            },
            None => None,
        },
        None => None,
    }
}

/// Relies on serde_json::Value::get (twice) and Value::as_u64: the named
/// field under `outer` as an integer. All depend on the value and keys
/// alone, so the result carries the name `nested_u64_of`.
#[verifier::external_body]
fn nested_u64_field(v: &serde_json::Value, outer: &str, key: &str) -> (r: Option<u64>)
    ensures
        r == nested_u64_of(*v, outer@, key@),
{
    match v.get(outer) {
        Some(d) => match d.get(key) {
            Some(f) => f.as_u64(),
            None => None,
        },
        None => None,
    }
}

/// The view of a constructed event, or the error that rejected it.
pub open spec fn event_result_view(r: Result<Event, MalformedEventError>) -> Result<
    EventModel,
    MalformedEventError,
> {
    match r {
        Result::Ok(e) => Result::Ok(e@),
        Result::Err(err) => Result::Err(err),
    }
}

/// Builds an event from untyped JSON of the shape
/// `{"id": ..., "event_type": ..., "data": {...}}`. With the identifier
/// and tag present, the answer is exactly the validating constructor's
/// answer for the extracted fields; without them, the missing-field
/// error. A malformed payload is rejected, never enqueued.
pub fn event_from_json(v: &serde_json::Value) -> (r: Result<Event, MalformedEventError>)
    ensures
        (str_of(*v, "id"@) is Some && str_of(*v, "event_type"@) is Some) ==> event_result_view(r)
            == spec_build_event(
            str_of(*v, "id"@)->0,
            str_of(*v, "event_type"@)->0,
            nested_str_of(*v, "data"@, "game_id"@),
            nested_str_of(*v, "data"@, "player_id"@),
            nested_str_of(*v, "data"@, "name"@),
            nested_str_of(*v, "data"@, "description"@),
            nested_u64_of(*v, "data"@, "score"@),
        ),
        !(str_of(*v, "id"@) is Some && str_of(*v, "event_type"@) is Some) ==> r == Result::<
            Event,
            MalformedEventError,
        >::Err(MalformedEventError::MissingField),
{
    let id: String = match string_field(v, "id") {
        Some(s) => s,
        None => {
            return Err(MalformedEventError::MissingField);
        },
    };
    let tag: String = match string_field(v, "event_type") {
        Some(s) => s,
        None => {
            return Err(MalformedEventError::MissingField);
        },
    };
    build_event(
        id,
        tag.as_str(),
        nested_string_field(v, "data", "game_id"),
        nested_string_field(v, "data", "player_id"),
        nested_string_field(v, "data", "name"),
        nested_string_field(v, "data", "description"),
        nested_u64_field(v, "data", "score"),
    )
}

} // verus!
