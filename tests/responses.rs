use rapina::context::RequestContext;
use rapina::error::{frame_envelope, Error};
use rapina::extract::Json;
use rapina::response::{IntoResponse, Response};
use rapina::trace_id::{TraceIdMiddleware, TRACE_ID_HEADER};
use serde_json::Value;

fn trace_of(body: &str) -> String {
    let v: Value = serde_json::from_str(body).unwrap();
    v["trace_id"].as_str().unwrap().to_string()
}

#[test]
fn text_conversions() {
    let r = "hi".into_response();
    assert_eq!(r.status, 200);
    assert_eq!(r.header("content-type"), Some("text/plain; charset=utf-8".to_string()));
    assert_eq!(r.body, "hi");
    let r = (201u16, "made".to_string()).into_response();
    assert_eq!(r.status, 201);
    assert_eq!(r.body, "made");
}

#[test]
fn result_conversion_picks_the_side() {
    let ok: Result<String, Error> = Ok("fine".to_string());
    assert_eq!(ok.into_response().status, 200);
    let err: Result<String, Error> = Err(Error::conflict("taken"));
    assert_eq!(err.into_response().status, 409);
}

#[test]
fn set_header_replaces() {
    let mut r = Response::text(200, "x".to_string());
    r.set_header("x-a", "1");
    r.set_header("x-a", "2");
    assert_eq!(r.headers.len(), 2);
    assert_eq!(r.header("x-a"), Some("2".to_string()));
}

#[test]
fn error_table() {
    let cases = [
        (Error::bad_request("m"), 400, "BAD_REQUEST"),
        (Error::unauthorized("m"), 401, "UNAUTHORIZED"),
        (Error::forbidden("m"), 403, "FORBIDDEN"),
        (Error::not_found("m"), 404, "NOT_FOUND"),
        (Error::conflict("m"), 409, "CONFLICT"),
        (Error::validation("m"), 422, "VALIDATION_ERROR"),
        (Error::rate_limited("m"), 429, "RATE_LIMITED"),
        (Error::internal("m"), 500, "INTERNAL_ERROR"),
    ];
    for (e, status, code) in cases {
        assert_eq!(e.status, status);
        assert_eq!(e.code, code);
        assert_eq!(e.message, "m");
        assert!(e.details.is_none());
    }
    assert_eq!(Error::new(418, "TEAPOT", "short").describe(), "TEAPOT: short");
}

#[test]
fn frame_is_exact() {
    assert_eq!(
        frame_envelope("\"C\"", "\"m\"", None, "\"t\""),
        "{\"error\":{\"code\":\"C\",\"message\":\"m\"},\"trace_id\":\"t\"}"
    );
    assert_eq!(
        frame_envelope("\"C\"", "\"m\"", Some("[1]"), "\"t\""),
        "{\"error\":{\"code\":\"C\",\"message\":\"m\",\"details\":[1]},\"trace_id\":\"t\"}"
    );
}

#[test]
fn envelope_wire_shape() {
    let e = Error::not_found("no \"user\"");
    let env = e.to_response("abc".to_string());
    assert_eq!(
        env.to_json(),
        "{\"error\":{\"code\":\"NOT_FOUND\",\"message\":\"no \\\"user\\\"\"},\"trace_id\":\"abc\"}"
    );
    let e = Error::validation("bad").with_details(Value::from(vec![1, 2]));
    assert_eq!(
        e.to_response("t".to_string()).to_json(),
        "{\"error\":{\"code\":\"VALIDATION_ERROR\",\"message\":\"bad\",\"details\":[1,2]},\"trace_id\":\"t\"}"
    );
}

#[test]
fn error_response_has_fresh_trace_id() {
    let r = Error::forbidden("nope").respond();
    assert_eq!(r.status, 403);
    assert_eq!(r.header("content-type"), Some("application/json".to_string()));
    let v: Value = serde_json::from_str(&r.body).unwrap();
    assert_eq!(v["error"]["code"], "FORBIDDEN");
    assert_eq!(v["error"]["message"], "nope");
    assert!(v["error"].get("details").is_none());
    assert_eq!(trace_of(&r.body).len(), 36);
}

#[test]
fn malformed_json_is_bad_request() {
    let mut traces = Vec::new();
    for _ in 0..2 {
        let e = match Json::<Value>::from_bytes(b"{\"id\": ") {
            Err(e) => e,
            Ok(_) => panic!("malformed body decoded"),
        };
        assert_eq!(e.status, 400);
        assert_eq!(e.code, "BAD_REQUEST");
        assert!(e.message.starts_with("invalid JSON: "));
        let r = e.respond();
        assert_eq!(r.status, 400);
        let v: Value = serde_json::from_str(&r.body).unwrap();
        assert_eq!(v["error"]["code"], "BAD_REQUEST");
        traces.push(trace_of(&r.body));
    }
    assert_ne!(traces[0], traces[1]);
}

#[test]
fn decode_failure_message() {
    let e = Json::<u32>::decode_failure("EOF");
    assert_eq!(e.status, 400);
    assert_eq!(e.message, "invalid JSON: EOF");
}

#[test]
fn json_round_trip() {
    let mut m = serde_json::Map::new();
    m.insert("id".to_string(), Value::from(1));
    m.insert("name".to_string(), Value::from("A"));
    m.insert("email".to_string(), Value::from("a@x"));
    let value = Value::Object(m);
    let r = Json(value.clone()).respond();
    assert_eq!(r.status, 200);
    assert_eq!(r.header("content-type"), Some("application/json".to_string()));
    let back = match Json::<Value>::from_bytes(r.body.as_bytes()) {
        Ok(j) => j.into_inner(),
        Err(_) => panic!("own encoding refused"),
    };
    assert_eq!(back, value);
}

#[test]
fn trace_header_is_echoed() {
    let mw = TraceIdMiddleware::new();
    let ctx = RequestContext::new();
    let (id, replaced) = mw.on_request(Some("abc123"), &ctx);
    assert_eq!(id, "abc123");
    assert_eq!(replaced.unwrap().trace_id(), "abc123");
    let r = mw.on_response(Response::text(200, "ok".to_string()), &id);
    assert_eq!(r.header(TRACE_ID_HEADER), Some("abc123".to_string()));
}

#[test]
fn trace_header_generated_when_absent() {
    let mw = TraceIdMiddleware::new();
    let a = RequestContext::new();
    let b = RequestContext::new();
    assert!(!a.trace_id.is_empty());
    assert_ne!(a.trace_id, b.trace_id);
    let (id, replaced) = mw.on_request(None, &a);
    assert!(replaced.is_none());
    assert_eq!(id, a.trace_id);
    let mut resp = Response::text(200, "ok".to_string());
    resp.set_header(TRACE_ID_HEADER, "stale");
    let r = mw.on_response(resp, &id);
    assert_eq!(r.header(TRACE_ID_HEADER), Some(a.trace_id.clone()));
    assert_eq!(r.headers.len(), 2);
}

#[test]
fn unwritable_trace_id_leaves_headers() {
    let mw = TraceIdMiddleware::new();
    let r = mw.on_response(Response::from_status(204), "bad\nid");
    assert!(r.headers.is_empty());
}

#[test]
fn generated_trace_id_is_lowercase_hex() {
    let ctx = RequestContext::new();
    assert_eq!(ctx.trace_id.len(), 36);
    assert!(ctx.trace_id.chars().all(|c| c.is_ascii_digit() || ('a'..='f').contains(&c) || c == '-'));
    let mw = TraceIdMiddleware::new();
    let (id, _) = mw.on_request(None, &ctx);
    let r = mw.on_response(Response::from_status(200), &id);
    assert_eq!(r.header(TRACE_ID_HEADER), Some(ctx.trace_id.clone()));
}

#[test]
fn control_characters_are_escaped() {
    let e = Error::bad_request("a\tb\u{1}\\");
    assert_eq!(
        e.to_response("t".to_string()).to_json(),
        "{\"error\":{\"code\":\"BAD_REQUEST\",\"message\":\"a\\tb\\u0001\\\\\"},\"trace_id\":\"t\"}"
    );
}

#[test]
fn decoded_outcomes() {
    match Json::<u32>::from_decoded(Ok(5)) {
        Ok(j) => assert_eq!(j.into_inner(), 5),
        Err(_) => panic!("value refused"),
    }
    match Json::<u32>::from_decoded(Err("trailing comma".to_string())) {
        Err(e) => {
            assert_eq!(e.status, 400);
            assert_eq!(e.code, "BAD_REQUEST");
            assert_eq!(e.message, "invalid JSON: trailing comma");
            assert!(e.details.is_none());
        }
        Ok(_) => panic!("failure dropped"),
    }
}
