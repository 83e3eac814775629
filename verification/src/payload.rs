use vstd::prelude::*;
use vstd::multiset::Multiset;
use vstd::utf8::*;
use vstd::string::StringSliceAdditionalSpecFns;
use vstd::slice::slice_to_vec;
use std::collections::HashMap;
use crate::codec::{
    url_safe_no_pad_encoding, url_safe_no_pad_decoding, encoding_fits, encoding_fits_usize,
    encode_url_safe_no_pad, decode_url_safe_no_pad, string_from_utf8,
};

verus! {

broadcast use {
    vstd::utf8::encode_utf8_valid_utf8,
    vstd::utf8::encode_utf8_decode_utf8,
    vstd::utf8::decode_utf8_encode_utf8,
};

#[verifier::external_type_specification]
#[verifier::external_body]
pub struct ExJsonValue(serde_json::Value);

#[verifier::external_type_specification]
#[verifier::external_body]
pub struct ExJsonError(serde_json::Error);

/// What `serde_json::from_str::<HashMap<String, Value>>` makes of `text`,
/// written back by `serde_json::to_string`: `None` when the text is refused
/// (it is not one JSON object within serde_json's nesting limit), and
/// otherwise the texts `"key":value` that the writer puts out for the members
/// of the object. They form a multiset since the writer's order is not fixed.
pub uninterp spec fn json_object_members(text: Seq<char>) -> Option<Multiset<Seq<char>>>;

/// What `serde_json::from_str::<Value>` makes of `text`: `None` when the text
/// is refused (it is not one JSON value within serde_json's nesting limit),
/// and otherwise the value.
pub uninterp spec fn json_value_of(text: Seq<char>) -> Option<serde_json::Value>;

/// The members joined by commas.
pub open spec fn joined_members(members: Seq<Seq<char>>) -> Seq<char>
    decreases members.len(),
{
    if members.len() == 0 {
        Seq::empty()
    } else if members.len() == 1 {
        members[0]
    } else {
        joined_members(members.drop_last()) + seq![','] + members.last()
    }
}

/// The text of an object with the given member texts, in the given order,
/// as serde_json's compact writer lays it out.
pub open spec fn object_text(members: Seq<Seq<char>>) -> Seq<char> {
    seq!['{'] + joined_members(members) + seq!['}']
}

/// Calls `serde_json::from_str::<HashMap<String, Value>>(text)` and writes the
/// map back with `serde_json::to_string`. Writing cannot fail here: it fails
/// only for a value whose `Serialize` fails or for a map whose keys are not
/// strings. The contract claims that parsing succeeds exactly when the named
/// members exist, and that the written text is those members, in some order,
/// between braces and separated by commas. Which order is left open: the keys
/// come out in the order in which the map, seeded per process, is walked.
/// Nothing is claimed of how the written text parses back: without its
/// `float_roundtrip` feature serde_json parses numbers with a rounding that
/// is not exact, so a written float can parse to a neighbouring value
/// (`{"x":1.0715660391465826e-75}` does).
#[verifier::external_body]
fn normalize_json_object(text: &str) -> (r: Result<String, serde_json::Error>)
    ensures
        r is Ok <==> json_object_members(text@) is Some,
        r matches Ok(written) ==> exists|members: Seq<Seq<char>>|
            #[trigger] object_text(members) == written@ && json_object_members(text@) == Some(
                members.to_multiset(),
            ),
{
    let object: HashMap<String, serde_json::Value> = serde_json::from_str(text)?;
    Ok(serde_json::to_string(&object).unwrap())
}

/// Calls `serde_json::from_str::<Value>(text)`. The contract claims that the
/// outcome is the named value of the text.
#[verifier::external_body]
pub(crate) fn parse_json_value(text: &str) -> (r: Result<serde_json::Value, serde_json::Error>)
    ensures
        r is Ok <==> json_value_of(text@) is Some,
        r matches Ok(value) ==> json_value_of(text@) == Some(value),
{
    serde_json::from_str(text)
}

/// The bytes published as the payload of a message whose content is the
/// JSON text `json`: the URL-safe, unpadded Base64 text of its UTF-8 bytes,
/// itself in UTF-8.
pub open spec fn payload_bytes(json: Seq<char>) -> Seq<u8> {
    encode_utf8(url_safe_no_pad_encoding(encode_utf8(json)))
}

/// Frames a JSON text as a message payload.
pub fn payload_from_json_text(json: &str) -> (payload: Vec<u8>)
    requires
        encoding_fits(json.spec_bytes().len()),
    ensures
        payload@ == payload_bytes(json@),
{
    let encoded = encode_url_safe_no_pad(json.as_bytes());
    slice_to_vec(encoded.as_str().as_bytes())
}

/// Why a request body could not be published.
#[derive(Debug, Clone, Copy, PartialEq, Eq, Structural)]
pub enum PublishError {
    /// The body is not UTF-8 text.
    NotUtf8,
    /// The body is not a JSON object.
    NotJsonObject,
    /// The JSON text is too long for its Base64 text to be addressed.
    TooLong,
}

/// Frames the text that serde_json wrote for a request body: the payload
/// of that text, or `TooLong` when its Base64 text would be too long to
/// address.
pub fn frame_json_text(written: &str) -> (r: Result<Vec<u8>, PublishError>)
    ensures
        r is Ok <==> encoding_fits(encode_utf8(written@).len()),
        r matches Ok(payload) ==> payload@ == payload_bytes(written@),
        r matches Err(e) ==> e == PublishError::TooLong,
{
    if !encoding_fits_usize(written.as_bytes().len()) {
        return Err(PublishError::TooLong);
    }
    Ok(payload_from_json_text(written))
}

/// Turns a request body, a JSON object, into the payload that is published:
/// the object as serde_json writes it back (its members in some order),
/// framed by `frame_json_text`.
pub fn prepare_payload(body: &[u8]) -> (r: Result<Vec<u8>, PublishError>)
    ensures
        r == Err::<Vec<u8>, PublishError>(PublishError::NotUtf8) <==> !valid_utf8(body@),
        r == Err::<Vec<u8>, PublishError>(PublishError::NotJsonObject) <==> valid_utf8(body@)
            && json_object_members(decode_utf8(body@)) is None,
        r matches Ok(payload) ==> valid_utf8(body@) && exists|members: Seq<Seq<char>>|
            json_object_members(decode_utf8(body@)) == Some(members.to_multiset())
                && payload@ == #[trigger] payload_bytes(object_text(members)),
        r == Err::<Vec<u8>, PublishError>(PublishError::TooLong) ==> valid_utf8(body@) && exists|
            members: Seq<Seq<char>>,
        |
            json_object_members(decode_utf8(body@)) == Some(members.to_multiset())
                && !encoding_fits(encode_utf8(#[trigger] object_text(members)).len()),
{
    let text = match string_from_utf8(slice_to_vec(body)) {
        Some(text) => text,
        None => return Err(PublishError::NotUtf8),
    };
    let written = match normalize_json_object(text.as_str()) {
        Ok(written) => written,
        Err(_) => return Err(PublishError::NotJsonObject),
    };
    let ghost members = choose|members: Seq<Seq<char>>|
        #[trigger] object_text(members) == written@ && json_object_members(text@) == Some(
            members.to_multiset(),
        );
    frame_json_text(written.as_str())
}

/// Why a message payload could not be read back as text.
#[derive(Debug, Clone, Copy, PartialEq, Eq, Structural)]
pub enum PayloadError {
    /// The payload is not UTF-8 text.
    NotUtf8,
    /// The payload text is not URL-safe Base64.
    NotBase64,
    /// The bytes that the Base64 text carries are not UTF-8 text.
    DecodedNotUtf8,
}

/// The text that a message payload carries, or why there is none.
pub open spec fn payload_text(masked: Seq<u8>) -> Result<Seq<char>, PayloadError> {
    if !valid_utf8(masked) {
        Err(PayloadError::NotUtf8)
    } else {
        match url_safe_no_pad_decoding(decode_utf8(masked)) {
            None => Err(PayloadError::NotBase64),
            Some(raw) => if valid_utf8(raw) {
                Ok(decode_utf8(raw))
            } else {
                Err(PayloadError::DecodedNotUtf8)
            },
        }
    }
}

/// Reads back the text that a message payload carries. A payload framed by
/// `payload_from_json_text` gives back the framed text.
pub fn decode_masked_payload(masked: &[u8]) -> (r: Result<String, PayloadError>)
    requires
        masked@.len() <= usize::MAX - 7,
    ensures
        r matches Ok(text) ==> payload_text(masked@) == Ok::<Seq<char>, PayloadError>(text@),
        r matches Err(e) ==> payload_text(masked@) == Err::<Seq<char>, PayloadError>(e),
        forall|json: Seq<char>|
            masked@ == #[trigger] payload_bytes(json) ==> (r matches Ok(text) && text@ == json),
{
    let text = match string_from_utf8(slice_to_vec(masked)) {
        Some(text) => text,
        None => return Err(PayloadError::NotUtf8),
    };
    assert(encode_utf8(text@) == masked@);
    let raw = match decode_url_safe_no_pad(text.as_str()) {
        Ok(raw) => raw,
        Err(_) => return Err(PayloadError::NotBase64),
    };
    match string_from_utf8(raw) {
        Some(payload) => Ok(payload),
        None => Err(PayloadError::DecodedNotUtf8),
    }
}

} // verus!
