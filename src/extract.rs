//! Typed handler inputs and outputs carried as JSON.

use vstd::prelude::*;
use vstd::string::*;
use crate::error::Error;
use crate::response::{Response, content_type_spec, json_type_spec};

verus! {

/// Relies on `serde_json::from_slice`: the value the bytes encode, or, by
/// the `Display` of serde_json's error, a description of why they do not
/// encode one of this shape.
#[verifier::external_body]
fn decode_json<T: serde::de::DeserializeOwned>(bytes: &[u8]) -> (r: Result<T, String>) {
    match serde_json::from_slice(bytes) {
        Ok(v) => Ok(v),
        Err(e) => Err(e.to_string()),
    }
}

/// Relies on `serde_json::to_string`; an encoding failure gives the empty
/// string, so that the conversion never fails.
#[verifier::external_body]
fn encode_json<T: serde::Serialize>(v: &T) -> (r: String) {
    serde_json::to_string(v).unwrap_or_default()
}

/// What a request body that does not decode becomes: `BAD_REQUEST` with
/// the decoder's description.
pub open spec fn decode_failure_message(description: Seq<char>) -> Seq<char> {
    "invalid JSON: "@ + description
}

/// A value carried as JSON: decoded from a request body, or encoded as a
/// response body.
pub struct Json<T>(pub T);

impl<T> Json<T> {
    /// The value.
    pub fn into_inner(self) -> (r: T)
        ensures
            r == self.0,
    {
        self.0
    }

    /// The failure for a body that does not decode, given the decoder's
    /// description: status 400, code `BAD_REQUEST`.
    pub fn decode_failure(description: &str) -> (r: Error)
        ensures
            r.status == 400,
            r.code@ == "BAD_REQUEST"@,
            r.message@ == decode_failure_message(description@),
            r.details is None,
    {
        let mut message = String::from_str("invalid JSON: ");
        message.append(description);
        Error::bad_request(message.as_str())
    }
}

impl<T> Json<T> {
    /// What a decoder's outcome becomes: the value, or `BAD_REQUEST` with the
    /// decoder's description.
    pub fn from_decoded(decoded: Result<T, String>) -> (r: Result<Json<T>, Error>)
        ensures
            match decoded {
                Ok(v) => r matches Ok(j) && j.0 == v,
                Err(d) => r matches Err(e) && e.status == 400 && e.code@ == "BAD_REQUEST"@
                    && e.message@ == decode_failure_message(d@) && e.details is None,
            },
    {
        match decoded {
            Ok(v) => Ok(Json(v)),
            Err(description) => Err(Json::<T>::decode_failure(description.as_str())),
        }
    }
}

impl<T: serde::de::DeserializeOwned> Json<T> {
    /// Decodes a request body. A body that is not well-formed JSON of this
    /// shape gives `BAD_REQUEST` with the decoder's description.
    pub fn from_bytes(bytes: &[u8]) -> (r: Result<Json<T>, Error>)
        ensures
            r matches Err(e) ==> e.status == 400 && e.code@ == "BAD_REQUEST"@ && e.details is None
                && exists|d: Seq<char>| e.message@ == decode_failure_message(d),
    {
        Json::from_decoded(decode_json::<T>(bytes))
    }
}

impl<T: serde::Serialize> Json<T> {
    /// The response: status 200, a JSON content type, the encoded value as
    /// the body.
    pub fn respond(self) -> (r: Response)
        ensures
            r.status == 200,
            r.headers_spec() == seq![(content_type_spec(), json_type_spec())],
    {
        let body = encode_json(&self.0);
        Response::json(200, body)
    }
}

} // verus!
