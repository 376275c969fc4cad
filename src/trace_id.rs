//! The middleware that carries a trace identifier across a request: adopted
//! from the caller's `x-trace-id` header when present, and always written
//! on the response.

use vstd::prelude::*;
use crate::context::{RequestContext, is_generated_id, trace_id_char};
use crate::response::{Response, header_value, without_header};

verus! {

/// The header that carries the trace identifier.
pub const TRACE_ID_HEADER: &'static str = "x-trace-id";

/// A character that a header value may hold: a tab, or anything from space
/// on except DEL. Characters outside ASCII are encoded as bytes from 0x80
/// up, which are allowed.
pub open spec fn header_char_ok(c: char) -> bool {
    c == '\t' || (c as u32 >= 32 && c as u32 != 127)
}

/// Text that a header value can hold.
pub open spec fn header_text_ok(s: Seq<char>) -> bool {
    forall|i: int| 0 <= i < s.len() ==> header_char_ok(#[trigger] s[i])
}

/// Relies on `http::HeaderValue::from_str`, which accepts exactly the text
/// whose every byte is a tab or at least 32 and not 127.
#[verifier::external_body]
fn header_value_accepted(s: &str) -> (r: bool)
    ensures
        r == header_text_ok(s@),
{
    http::HeaderValue::from_str(s).is_ok()
}

/// The trace identifier in effect for a request.
pub open spec fn effective_trace_id(incoming: Option<Seq<char>>, ctx_trace: Seq<char>) -> Seq<
    char,
> {
    match incoming {
        Some(id) => id,
        None => ctx_trace,
    }
}

/// The headers of a response once the trace identifier is written on it.
pub open spec fn stamped(hs: Seq<(Seq<char>, Seq<char>)>, id: Seq<char>) -> Seq<
    (Seq<char>, Seq<char>),
> {
    if header_text_ok(id) {
        without_header(hs, TRACE_ID_HEADER@).push((TRACE_ID_HEADER@, id))
    } else {
        hs
    }
}

/// The middleware; it holds no state.
pub struct TraceIdMiddleware;

impl TraceIdMiddleware {
    pub fn new() -> (r: TraceIdMiddleware) {
        TraceIdMiddleware
    }

    /// The request pass. Given the caller's `x-trace-id` value, if any, and
    /// the request's context: the trace identifier in effect, and the
    /// context that replaces the request's one when the caller supplied an
    /// identifier.
    pub fn on_request(&self, incoming: Option<&str>, ctx: &RequestContext) -> (r: (
        String,
        Option<RequestContext>,
    ))
        ensures
            r.0@ == effective_trace_id(
                match incoming {
                    Some(s) => Some(s@),
                    None => None,
                },
                ctx.trace_id@,
            ),
            match incoming {
                Some(s) => r.1 matches Some(c) && c.trace_id@ == s@,
                None => r.1 is None,
            },
    {
        match incoming {
            Some(id) => (id.to_owned(), Some(RequestContext::with_trace_id(id.to_owned()))),
            None => (ctx.trace_id.clone(), None),
        }
    }

    /// The response pass: writes the trace identifier in effect as the
    /// response's `x-trace-id` header, replacing any there, when the
    /// identifier can be a header value.
    pub fn on_response(&self, response: Response, trace_id: &str) -> (r: Response)
        ensures
            r.status == response.status,
            r.body == response.body,
            r.headers_spec() == stamped(response.headers_spec(), trace_id@),
    {
        let mut response = response;
        if header_value_accepted(trace_id) {
            response.set_header(TRACE_ID_HEADER, trace_id);
        }
        response
    }
}

impl Default for TraceIdMiddleware {
    fn default() -> (r: TraceIdMiddleware) {
        TraceIdMiddleware::new()
    }
}

proof fn lemma_without_header_absent(hs: Seq<(Seq<char>, Seq<char>)>, name: Seq<char>)
    ensures
        forall|i: int|
            0 <= i < without_header(hs, name).len() ==> (#[trigger] without_header(hs, name)[i]).0
                != name,
    decreases hs.len(),
{
    if hs.len() > 0 {
        let rest = without_header(hs.drop_last(), name);
        lemma_without_header_absent(hs.drop_last(), name);
        if hs.last().0 != name {
            assert forall|i: int| 0 <= i < rest.len() + 1 implies (#[trigger] rest.push(
                hs.last(),
            )[i]).0 != name by {
                if i < rest.len() {
                    assert(rest.push(hs.last())[i] == rest[i]);
                }
            }
        }
    }
}

proof fn lemma_header_value_last(hs: Seq<(Seq<char>, Seq<char>)>, name: Seq<char>, v: Seq<char>)
    requires
        forall|i: int| 0 <= i < hs.len() ==> (#[trigger] hs[i]).0 != name,
    ensures
        header_value(hs.push((name, v)), name) == Some(v),
    decreases hs.len(),
{
    if hs.len() > 0 {
        let t = hs.drop_first();
        lemma_header_value_last(t, name, v);
        assert(hs.push((name, v)).drop_first() =~= t.push((name, v)));
    }
}

/// A generated trace identifier can be a header value.
pub proof fn lemma_generated_id_is_header_text(id: Seq<char>)
    requires
        is_generated_id(id),
    ensures
        header_text_ok(id),
{
    assert forall|i: int| 0 <= i < id.len() implies header_char_ok(#[trigger] id[i]) by {
        assert(trace_id_char(id[i]));
    }
}

/// A response leaves the middleware carrying the trace identifier in
/// effect as its `x-trace-id` header: the caller's own when it sent one
/// that a header can hold, else the identifier generated for the request's
/// context.
pub proof fn lemma_trace_id_echoed(
    hs: Seq<(Seq<char>, Seq<char>)>,
    incoming: Option<Seq<char>>,
    ctx_trace: Seq<char>,
)
    requires
        incoming matches Some(id) ==> header_text_ok(id),
        incoming is None ==> is_generated_id(ctx_trace),
    ensures
        header_value(stamped(hs, effective_trace_id(incoming, ctx_trace)), TRACE_ID_HEADER@)
            == Some(effective_trace_id(incoming, ctx_trace)),
        incoming matches Some(id) ==> effective_trace_id(incoming, ctx_trace) == id,
        incoming is None ==> effective_trace_id(incoming, ctx_trace) == ctx_trace,
{
    let id = effective_trace_id(incoming, ctx_trace);
    if incoming is None {
        lemma_generated_id_is_header_text(ctx_trace);
    }
    lemma_without_header_absent(hs, TRACE_ID_HEADER@);
    lemma_header_value_last(without_header(hs, TRACE_ID_HEADER@), TRACE_ID_HEADER@, id);
}

} // verus!
