//! The JSON envelope codec of the transport. The request and response
//! envelopes are opaque JSON values; encoding and decoding are delegated
//! to serde_json behind the named functions below, and the batch shape
//! (one array, same length and order as the requests) is checked here.

use vstd::prelude::*;
use crate::Error;

verus! {

/// The serde_json value type, carried through the transport unread.
#[verifier::external_type_specification]
#[verifier::external_body]
pub struct ExValue(serde_json::Value);

/// The JSON text that serde_json::to_vec produces for a value; it depends
/// on the value alone.
pub uninterp spec fn json_bytes(v: serde_json::Value) -> Seq<u8>;

/// What serde_json::from_slice makes of a byte sequence: the parsed value,
/// or nothing when the bytes are not one well-formed JSON text.
pub uninterp spec fn json_value(b: Seq<u8>) -> Option<serde_json::Value>;

/// The elements a JSON value holds when it is an array, in order; nothing
/// for every other kind of value.
pub uninterp spec fn json_items(v: serde_json::Value) -> Option<Seq<serde_json::Value>>;

/// Whether serde_json::to_vec succeeds on a value; like the text it
/// produces, this depends on the value alone.
pub uninterp spec fn json_encodable(v: serde_json::Value) -> bool;

/// Whether the parser reads a value's own JSON text back to the value:
/// serde_json's parser stops at a fixed recursion depth that its
/// serializer does not enforce, so a deeply enough nested value encodes to
/// a text that no longer parses. For every other value the round trip is
/// lossless.
pub uninterp spec fn json_readable(v: serde_json::Value) -> bool;

/// Relies on serde_json::to_vec: whether it succeeds, and the JSON text it
/// produces, are functions of the value alone, and parsing a produced
/// text yields the value back for every value within the parser's
/// recursion depth (`json_readable`).
#[verifier::external_body]
pub(crate) fn encode_json(v: &serde_json::Value) -> (r: Result<Vec<u8>, Error>)
    ensures
        r is Ok <==> json_encodable(*v),
        r is Ok ==> r->Ok_0@ == json_bytes(*v),
        r is Ok && json_readable(*v) ==> json_value(r->Ok_0@) == Some(*v),
        r is Err ==> r->Err_0 == Error::Serialization,
{
    match serde_json::to_vec(v) {
        Ok(b) => Ok(b),
        Err(_) => Err(Error::Serialization),
    }
}

/// Relies on serde_json::from_slice::<Value>: whether bytes parse, and to
/// which value, depends on the bytes alone; malformed input is reported as
/// an error, never accepted in part.
#[verifier::external_body]
pub(crate) fn decode_json(b: &[u8]) -> (r: Result<serde_json::Value, Error>)
    ensures
        r is Ok <==> json_value(b@) is Some,
        r is Ok ==> json_value(b@) == Some(r->Ok_0),
        r is Err ==> r->Err_0 == Error::Deserialization,
{
    match serde_json::from_slice::<serde_json::Value>(b) {
        Ok(v) => Ok(v),
        Err(_) => Err(Error::Deserialization),
    }
}

/// The array value holding the given elements, a function of them alone.
pub uninterp spec fn json_array(items: Seq<serde_json::Value>) -> serde_json::Value;

/// Relies on serde_json::Value::Array: constructing an array value is
/// deterministic in the elements, and the value holds exactly them, in
/// order.
#[verifier::external_body]
pub(crate) fn array_value(items: Vec<serde_json::Value>) -> (r: serde_json::Value)
    ensures
        r == json_array(items@),
        json_items(r) == Some(items@),
{
    serde_json::Value::Array(items)
}

/// Relies on serde_json::Value: only the array variant holds elements, and
/// taking them out yields them unchanged, in order.
#[verifier::external_body]
pub(crate) fn take_items(v: serde_json::Value) -> (r: Result<Vec<serde_json::Value>, Error>)
    ensures
        r is Ok <==> json_items(v) is Some,
        r is Ok ==> Some(r->Ok_0@) == json_items(v),
        r is Err ==> r->Err_0 == Error::Deserialization,
{
    match v {
        serde_json::Value::Array(items) => Ok(items),
        _ => Err(Error::Deserialization),
    }
}

/// Decodes a response body into a single response envelope: all or
/// nothing, with malformed JSON reported as `Deserialization`.
pub fn decode_response_body(body: &[u8]) -> (r: Result<serde_json::Value, Error>)
    ensures
        r is Ok <==> json_value(body@) is Some,
        r is Ok ==> json_value(body@) == Some(r->Ok_0),
        r is Err ==> r->Err_0 == Error::Deserialization,
{
    decode_json(body)
}

/// Whether a response body decodes to an array of exactly `n` envelopes.
pub open spec fn batch_body_ok(body: Seq<u8>, n: int) -> bool {
    &&& json_value(body) is Some
    &&& json_items(json_value(body)->Some_0) is Some
    &&& json_items(json_value(body)->Some_0)->Some_0.len() == n
}

/// The envelopes a batch response body holds, in the server's order.
pub open spec fn batch_body_items(body: Seq<u8>) -> Seq<serde_json::Value> {
    json_items(json_value(body)->Some_0)->Some_0
}

/// Decodes a batch response body against the number of requests sent: the
/// body must be one JSON array of exactly `n` envelopes, which are
/// returned in the server's order, never reordered or correlated by id. A
/// body of any other length or shape is refused whole as
/// `Deserialization`.
pub fn decode_batch_body(body: &[u8], n: usize) -> (r: Result<Vec<serde_json::Value>, Error>)
    ensures
        r is Ok <==> batch_body_ok(body@, n as int),
        r is Ok ==> r->Ok_0@ == batch_body_items(body@),
        r is Err ==> r->Err_0 == Error::Deserialization,
{
    let v = match decode_json(body) {
        Ok(v) => v,
        Err(e) => {
            return Err(e);
        },
    };
    let items = match take_items(v) {
        Ok(items) => items,
        Err(e) => {
            return Err(e);
        },
    };
    if items.len() != n {
        return Err(Error::Deserialization);
    }
    Ok(items)
}

/// Law: a response body that is the server's verbatim echo of an encoded
/// batch decodes back to exactly the requests that were sent, in their
/// original order; in particular a truncated or extended echo is refused.
/// The hypothesis that the echoed body parses back to the batch value is
/// what `prepare_batch` grants for batches within the parser's recursion
/// depth (`json_readable`).
pub proof fn lemma_batch_echo_round_trip(
    reqs: Seq<serde_json::Value>,
    batch: serde_json::Value,
    body: Seq<u8>,
)
    requires
        json_items(batch) == Some(reqs),
        json_value(body) == Some(batch),
    ensures
        batch_body_ok(body, reqs.len() as int),
        batch_body_items(body) == reqs,
        forall|m: int| m != reqs.len() ==> !batch_body_ok(body, m),
{
}

/// Law: a response body that is the server's verbatim echo of an encoded
/// request decodes back to a value equal to the original request. The
/// hypothesis that the body parses back to the request is what
/// `prepare_request` grants for requests within the parser's recursion
/// depth (`json_readable`).
pub proof fn lemma_echo_round_trip(req: serde_json::Value, body: Seq<u8>)
    requires
        body == json_bytes(req),
        json_value(body) == Some(req),
    ensures
        json_value(body)->Some_0 == req,
{
}

} // verus!
