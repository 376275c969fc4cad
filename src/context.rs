//! Per-request metadata: the trace identifier and when the request began.

use vstd::prelude::*;

verus! {

/// A character of a generated trace identifier: a lowercase hexadecimal
/// digit or a hyphen.
pub open spec fn trace_id_char(c: char) -> bool {
    ('0' <= c && c <= '9') || ('a' <= c && c <= 'f') || c == '-'
}

/// The shape of a generated trace identifier: 36 characters, each a
/// lowercase hexadecimal digit or a hyphen.
pub open spec fn is_generated_id(s: Seq<char>) -> bool {
    s.len() == 36 && forall|i: int| 0 <= i < s.len() ==> trace_id_char(#[trigger] s[i])
}

/// Relies on uuid's `Uuid::new_v4` and its `Display`, which writes the
/// hyphenated form in lowercase: 36 characters, random on every call.
#[verifier::external_body]
pub(crate) fn fresh_trace_id() -> (r: String)
    ensures
        is_generated_id(r@),
{
    uuid::Uuid::new_v4().to_string()
}

/// Relies on `std::time::SystemTime::now`: milliseconds since the Unix
/// epoch, or 0 for a clock set before it.
#[verifier::external_body]
fn now_unix_millis() -> (r: u64) {
    match std::time::SystemTime::now().duration_since(std::time::UNIX_EPOCH) {
        Ok(d) => d.as_millis() as u64,
        Err(_) => 0,
    }
}

/// What one request carries through the middleware chain to its handler.
/// The trace identifier never changes: a replacement is a new context.
#[derive(Clone, Debug)]
pub struct RequestContext {
    pub trace_id: String,
    pub created_at_ms: u64,
}

impl RequestContext {
    /// A context with a freshly generated trace identifier.
    pub fn new() -> (r: RequestContext)
        ensures
            is_generated_id(r.trace_id@),
    {
        RequestContext { trace_id: fresh_trace_id(), created_at_ms: now_unix_millis() }
    }

    /// A context that adopts a trace identifier supplied from outside.
    pub fn with_trace_id(trace_id: String) -> (r: RequestContext)
        ensures
            r.trace_id@ == trace_id@,
    {
        RequestContext { trace_id, created_at_ms: now_unix_millis() }
    }

    /// The trace identifier.
    pub fn trace_id(&self) -> (r: &str)
        ensures
            r@ == self.trace_id@,
    {
        self.trace_id.as_str()
    }
}

} // verus!
