//! Typed failures and the JSON error envelope they become on the wire.

use vstd::prelude::*;
use vstd::string::*;
use crate::context::{fresh_trace_id, is_generated_id};
use crate::response::{IntoResponse, Response, content_type_spec, json_type_spec};

verus! {

#[verifier::external_type_specification]
#[verifier::external_body]
pub struct ExJsonValue(serde_json::Value);

/// Relies on the `Clone` that serde_json derives for `Value`: the copy is
/// the same value.
pub assume_specification[ <serde_json::Value as Clone>::clone ](v: &serde_json::Value) -> (r:
    serde_json::Value)
    ensures
        r == *v,
;

/// The lowercase hexadecimal digit of `n`, for `n` below 16.
pub open spec fn hex_digit(n: int) -> char {
    seq!['0', '1', '2', '3', '4', '5', '6', '7', '8', '9', 'a', 'b', 'c', 'd', 'e', 'f'][n]
}

/// How one character stands inside a JSON string literal: quote and
/// backslash behind a backslash, the five control characters that have a
/// short escape by it, the other control characters below 0x20 as
/// `\u00XX` in lowercase hexadecimal, and everything else as itself.
pub open spec fn json_escape(c: char) -> Seq<char> {
    if c == '"' {
        seq!['\\', '"']
    } else if c == '\\' {
        seq!['\\', '\\']
    } else if c == '\u{8}' {
        seq!['\\', 'b']
    } else if c == '\t' {
        seq!['\\', 't']
    } else if c == '\n' {
        seq!['\\', 'n']
    } else if c == '\u{c}' {
        seq!['\\', 'f']
    } else if c == '\r' {
        seq!['\\', 'r']
    } else if (c as u32) < 0x20 {
        seq![
            '\\',
            'u',
            '0',
            '0',
            hex_digit((c as u32) as int / 16),
            hex_digit((c as u32) as int % 16),
        ]
    } else {
        seq![c]
    }
}

/// The characters of `s`, each escaped.
pub open spec fn json_escaped(s: Seq<char>) -> Seq<char>
    decreases s.len(),
{
    if s.len() == 0 {
        seq![]
    } else {
        json_escaped(s.drop_last()) + json_escape(s.last())
    }
}

/// The JSON string literal holding `s`: escaped, between double quotes.
pub open spec fn json_str_of(s: Seq<char>) -> Seq<char> {
    seq!['"'] + json_escaped(s) + seq!['"']
}

/// Relies on `serde_json::to_string` on a `str`: writing into a buffer in
/// memory cannot fail, and it writes the string between quotes with the
/// escapes of its table `ESCAPE` and `\u00XX` in lowercase hexadecimal.
#[verifier::external_body]
fn json_string(s: &str) -> (r: String)
    ensures
        r@ == json_str_of(s@),
{
    serde_json::to_string(s).unwrap_or_default()
}

/// Relies on `serde_json::to_string` on a `Value`; an encoding failure gives
/// the empty string.
#[verifier::external_body]
fn json_value_text(v: &serde_json::Value) -> (r: String) {
    serde_json::to_string(v).unwrap_or_default()
}

/// The envelope's text, given the JSON text of each part. The details
/// member is left out when there are none.
pub open spec fn envelope_spec(
    code: Seq<char>,
    message: Seq<char>,
    details: Option<Seq<char>>,
    trace_id: Seq<char>,
) -> Seq<char> {
    let inner = "{\"code\":"@ + code + ",\"message\":"@ + message + match details {
        Some(d) => ",\"details\":"@ + d,
        None => Seq::empty(),
    } + "}"@;
    "{\"error\":"@ + inner + ",\"trace_id\":"@ + trace_id + "}"@
}

/// Frames the envelope from the JSON text of its parts.
pub fn frame_envelope(code: &str, message: &str, details: Option<&str>, trace_id: &str) -> (r:
    String)
    ensures
        r@ == envelope_spec(
            code@,
            message@,
            match details {
                Some(d) => Some(d@),
                None => None,
            },
            trace_id@,
        ),
{
    let mut out = String::from_str("{\"error\":");
    out.append("{\"code\":");
    out.append(code);
    out.append(",\"message\":");
    out.append(message);
    match details {
        Some(d) => {
            out.append(",\"details\":");
            out.append(d);
        },
        None => {},
    }
    out.append("}");
    out.append(",\"trace_id\":");
    out.append(trace_id);
    out.append("}");
    proof {
        assert(out@ =~= envelope_spec(
            code@,
            message@,
            match details {
                Some(d) => Some(d@),
                None => None,
            },
            trace_id@,
        ));
    }
    out
}

/// The `error` member of the envelope.
pub struct ErrorDetail {
    pub code: String,
    pub message: String,
    pub details: Option<serde_json::Value>,
}

/// The envelope: the error and the trace identifier of this conversion.
pub struct ErrorResponse {
    pub error: ErrorDetail,
    pub trace_id: String,
}

impl ErrorResponse {
    /// The envelope as JSON text. Details that fail to encode give an empty
    /// text, so that the conversion never fails.
    pub fn to_json(&self) -> (r: String)
        ensures
            self.error.details is None ==> r@ == envelope_spec(
                json_str_of(self.error.code@),
                json_str_of(self.error.message@),
                None,
                json_str_of(self.trace_id@),
            ),
            self.error.details is Some ==> r@.len() == 0 || exists|d: Seq<char>|
                d.len() > 0 && r@ == envelope_spec(
                    json_str_of(self.error.code@),
                    json_str_of(self.error.message@),
                    Some(d),
                    json_str_of(self.trace_id@),
                ),
    {
        let code = json_string(self.error.code.as_str());
        let message = json_string(self.error.message.as_str());
        let trace = json_string(self.trace_id.as_str());
        match &self.error.details {
            Some(v) => {
                let d = json_value_text(v);
                if d.as_str().unicode_len() == 0 {
                    return String::new();
                }
                frame_envelope(code.as_str(), message.as_str(), Some(d.as_str()), trace.as_str())
            },
            None => frame_envelope(code.as_str(), message.as_str(), None, trace.as_str()),
        }
    }
}

/// A typed failure: status code, machine-readable code, message for people,
/// and optional structured details.
pub struct Error {
    pub status: u16,
    pub code: String,
    pub message: String,
    pub details: Option<serde_json::Value>,
}

impl Error {
    /// A failure with the given status, code and message, and no details.
    pub fn new(status: u16, code: &str, message: &str) -> (r: Error)
        ensures
            r.status == status,
            r.code@ == code@,
            r.message@ == message@,
            r.details is None,
    {
        Error { status, code: code.to_owned(), message: message.to_owned(), details: None }
    }

    /// The same failure with structured details.
    pub fn with_details(self, details: serde_json::Value) -> (r: Error)
        ensures
            r.status == self.status,
            r.code == self.code,
            r.message == self.message,
            r.details == Some(details),
    {
        Error { details: Some(details), ..self }
    }

    /// `BAD_REQUEST`, status 400.
    pub fn bad_request(message: &str) -> (r: Error)
        ensures
            r.status == 400,
            r.code@ == "BAD_REQUEST"@,
            r.message@ == message@,
            r.details is None,
    {
        Error::new(400, "BAD_REQUEST", message)
    }

    /// `UNAUTHORIZED`, status 401.
    pub fn unauthorized(message: &str) -> (r: Error)
        ensures
            r.status == 401,
            r.code@ == "UNAUTHORIZED"@,
            r.message@ == message@,
            r.details is None,
    {
        Error::new(401, "UNAUTHORIZED", message)
    }

    /// `FORBIDDEN`, status 403.
    pub fn forbidden(message: &str) -> (r: Error)
        ensures
            r.status == 403,
            r.code@ == "FORBIDDEN"@,
            r.message@ == message@,
            r.details is None,
    {
        Error::new(403, "FORBIDDEN", message)
    }

    /// `NOT_FOUND`, status 404.
    pub fn not_found(message: &str) -> (r: Error)
        ensures
            r.status == 404,
            r.code@ == "NOT_FOUND"@,
            r.message@ == message@,
            r.details is None,
    {
        Error::new(404, "NOT_FOUND", message)
    }

    /// `CONFLICT`, status 409.
    pub fn conflict(message: &str) -> (r: Error)
        ensures
            r.status == 409,
            r.code@ == "CONFLICT"@,
            r.message@ == message@,
            r.details is None,
    {
        Error::new(409, "CONFLICT", message)
    }

    /// `VALIDATION_ERROR`, status 422.
    pub fn validation(message: &str) -> (r: Error)
        ensures
            r.status == 422,
            r.code@ == "VALIDATION_ERROR"@,
            r.message@ == message@,
            r.details is None,
    {
        Error::new(422, "VALIDATION_ERROR", message)
    }

    /// `RATE_LIMITED`, status 429.
    pub fn rate_limited(message: &str) -> (r: Error)
        ensures
            r.status == 429,
            r.code@ == "RATE_LIMITED"@,
            r.message@ == message@,
            r.details is None,
    {
        Error::new(429, "RATE_LIMITED", message)
    }

    /// `INTERNAL_ERROR`, status 500.
    pub fn internal(message: &str) -> (r: Error)
        ensures
            r.status == 500,
            r.code@ == "INTERNAL_ERROR"@,
            r.message@ == message@,
            r.details is None,
    {
        Error::new(500, "INTERNAL_ERROR", message)
    }

    /// The envelope for this failure under the given trace identifier.
    pub fn to_response(&self, trace_id: String) -> (r: ErrorResponse)
        ensures
            r.error.code == self.code,
            r.error.message == self.message,
            r.error.details == self.details,
            r.trace_id == trace_id,
    {
        let details = match &self.details {
            Some(v) => Some(v.clone()),
            None => None,
        };
        ErrorResponse {
            error: ErrorDetail { code: self.code.clone(), message: self.message.clone(), details },
            trace_id,
        }
    }

    /// "CODE: message", as the failure is shown to people.
    pub fn describe(&self) -> (r: String)
        ensures
            r@ == self.code@ + ": "@ + self.message@,
    {
        let mut out = self.code.clone();
        out.append(": ");
        out.append(self.message.as_str());
        out
    }

    /// The wire response: the failure's status, a JSON content type, and the
    /// envelope under a trace identifier generated for this conversion alone.
    pub fn respond(self) -> (r: Response)
        ensures
            is_error_response(self, r),
    {
        let trace_id = fresh_trace_id();
        let ghost t = trace_id@;
        let envelope = self.to_response(trace_id);
        let body = envelope.to_json();
        let r = Response::json(self.status, body);
        assert(is_generated_id(t) && envelope_body_ok(self, t, r.body@));
        r
    }
}

/// `body` is the envelope of `e` under the trace identifier `t`; details
/// that fail to encode give an empty body.
pub open spec fn envelope_body_ok(e: Error, t: Seq<char>, body: Seq<char>) -> bool {
    match e.details {
        None => body == envelope_spec(json_str_of(e.code@), json_str_of(e.message@), None, json_str_of(t)),
        Some(_) => body.len() == 0 || exists|d: Seq<char>|
            d.len() > 0 && body == envelope_spec(
                json_str_of(e.code@),
                json_str_of(e.message@),
                Some(d),
                json_str_of(t),
            ),
    }
}

/// `r` is the wire response of `e`: its status, a JSON content type, and
/// its envelope under a freshly generated trace identifier.
pub open spec fn is_error_response(e: Error, r: Response) -> bool {
    &&& r.status == e.status
    &&& r.headers_spec() == seq![(content_type_spec(), json_type_spec())]
    &&& exists|t: Seq<char>| is_generated_id(t) && #[trigger] envelope_body_ok(e, t, r.body@)
}

impl IntoResponse for Error {
    open spec fn converts_to(self, r: Response) -> bool {
        is_error_response(self, r)
    }

    fn into_response(self) -> (r: Response) {
        self.respond()
    }
}

} // verus!
