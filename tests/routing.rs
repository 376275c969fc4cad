use rapina::pattern::{extract_path_params, split, PatternError, RoutePattern};
use rapina::router::{Method, Router};

#[test]
fn split_keeps_empty_pieces() {
    assert_eq!(split("/users/1", '/'), vec!["".to_string(), "users".to_string(), "1".to_string()]);
    assert_eq!(split("", '/'), vec!["".to_string()]);
    assert_eq!(split("/a/", '/'), vec!["".to_string(), "a".to_string(), "".to_string()]);
}

#[test]
fn match_binds_captures_in_order() {
    let p = extract_path_params("/users/:id/posts/:post", "/users/42/posts/abc").unwrap();
    assert_eq!(p.len(), 2);
    assert_eq!(p.get("id"), Some("42".to_string()));
    assert_eq!(p.get("post"), Some("abc".to_string()));
    assert_eq!(p.get("other"), None);
}

#[test]
fn match_literal_only() {
    let p = extract_path_params("/health", "/health").unwrap();
    assert_eq!(p.len(), 0);
    assert!(extract_path_params("/health", "/Health").is_none());
}

#[test]
fn match_rejects_other_segment_counts() {
    assert!(extract_path_params("/users/:id", "/users").is_none());
    assert!(extract_path_params("/users/:id", "/users/1/extra").is_none());
    assert!(extract_path_params("/users/:id", "/users/1/").is_none());
}

#[test]
fn match_rejects_empty_capture_value() {
    assert!(extract_path_params("/users/:id", "/users/").is_none());
}

#[test]
fn match_rejects_literal_mismatch() {
    assert!(extract_path_params("/users/:id", "/posts/1").is_none());
}

#[test]
fn repeated_name_keeps_later_value() {
    let p = extract_path_params("/:a/:a", "/x/y").unwrap();
    assert_eq!(p.get("a"), Some("y".to_string()));
}

#[test]
fn compile_accepts_and_matches() {
    let pattern = match RoutePattern::compile("/users/:id") {
        Ok(p) => p,
        Err(_) => panic!("valid template refused"),
    };
    let p = pattern.matches("/users/7").unwrap();
    assert_eq!(p.get("id"), Some("7".to_string()));
    assert!(pattern.matches("/users").is_none());
}

#[test]
fn compile_refuses_empty_capture_name() {
    match RoutePattern::compile("/users/:") {
        Err(PatternError::InvalidPattern(seg)) => assert_eq!(seg, ":"),
        Ok(_) => panic!("empty capture name accepted"),
    }
}

#[test]
fn compile_refuses_repeated_capture_name() {
    match RoutePattern::compile("/:id/x/:id") {
        Err(PatternError::InvalidPattern(seg)) => assert_eq!(seg, ":id"),
        Ok(_) => panic!("repeated capture name accepted"),
    }
}

#[test]
fn registration_order_beats_specificity() {
    let router: Router<&str> = Router::new()
        .get("/users/:id", "param")
        .unwrap()
        .get("/users/active", "literal")
        .unwrap();
    let (i, params) = router.find(Method::Get, "/users/active").unwrap();
    assert_eq!(i, 0);
    assert_eq!(*router.handler(i), "param");
    assert_eq!(params.get("id"), Some("active".to_string()));
}

#[test]
fn method_is_compared_first() {
    let router: Router<u32> = Router::new().get("/items", 1).unwrap().post("/items", 2).unwrap();
    let (i, _) = router.find(Method::Post, "/items").unwrap();
    assert_eq!(*router.handler(i), 2);
    assert!(router.find(Method::Delete, "/items").is_none());
}

#[test]
fn unmatched_request_is_plain_not_found() {
    let router: Router<u32> = Router::new().get("/items", 1).unwrap();
    for (m, path) in [(Method::Get, "/nothing"), (Method::Post, "/items"), (Method::Get, "")] {
        match router.dispatch(m, path) {
            Err(resp) => {
                assert_eq!(resp.status, 404);
                assert!(resp.body.is_empty());
                assert!(resp.headers.is_empty());
            }
            Ok(_) => panic!("unexpected match"),
        }
    }
    let empty: Router<u32> = Router::new();
    assert!(empty.dispatch(Method::Get, "/").is_err());
}

#[test]
fn method_names_round_trip() {
    for m in [Method::Get, Method::Post, Method::Put, Method::Delete, Method::Patch, Method::Head, Method::Options, Method::Connect, Method::Trace] {
        assert_eq!(Method::from_name(m.as_str()), Some(m));
    }
    assert_eq!(Method::from_name("get"), None);
    assert_eq!(Method::from_name("BREW"), None);
}

#[test]
fn registration_refuses_bad_templates() {
    let mut router: Router<u32> = Router::new();
    assert!(router.register(Method::Get, "/users/:id", 1).is_ok());
    match router.register(Method::Get, "/users/:", 2) {
        Err(PatternError::InvalidPattern(seg)) => assert_eq!(seg, ":"),
        Ok(()) => panic!("empty capture name registered"),
    }
    assert!(router.register(Method::Post, "/a/:x/b/:x", 3).is_err());
    assert_eq!(router.len(), 1);
    assert_eq!(*router.handler(0), 1);
    assert!(router.find(Method::Get, "/users/").is_none());
    let built = Router::new().get("/a/:x/b/:x", 0u32);
    assert!(built.is_err());
}
