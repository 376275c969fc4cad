use rapina::doctor::{
    check_error_documentation, check_openapi_metadata, check_response_schemas, has_prefix,
    DiagnosticResult, OperationSummary, PathOperations, RouteSummary,
};
use rapina::middleware::{ChainCursor, Outcome, Stage};
use rapina::router::Method;

fn run(len: usize, answers: &[bool]) -> Vec<Stage> {
    let mut c = ChainCursor::start(len);
    let mut seen = Vec::new();
    while !c.is_done() {
        seen.push(c.stage);
        let o = match c.stage {
            Stage::Before(i) if answers[i] => Outcome::Respond,
            _ => Outcome::Continue,
        };
        c = c.advance(o);
    }
    seen
}

#[test]
fn chain_runs_in_and_out() {
    assert_eq!(
        run(2, &[false, false]),
        vec![Stage::Before(0), Stage::Before(1), Stage::Handler, Stage::After(1), Stage::After(0)]
    );
}

#[test]
fn chain_outer_short_circuit_skips_rest() {
    assert_eq!(run(2, &[true, false]), vec![Stage::Before(0)]);
}

#[test]
fn chain_inner_short_circuit() {
    assert_eq!(run(3, &[false, true, false]), vec![Stage::Before(0), Stage::Before(1), Stage::After(0)]);
}

#[test]
fn empty_chain_is_handler_only() {
    assert_eq!(run(0, &[]), vec![Stage::Handler]);
}

fn route(method: &str, path: &str, schema: bool, errors: usize) -> RouteSummary {
    RouteSummary {
        method: method.to_string(),
        path: path.to_string(),
        has_response_schema: schema,
        error_response_count: errors,
    }
}

#[test]
fn prefix_check() {
    assert!(has_prefix("/__rapina/routes", "/__rapina"));
    assert!(!has_prefix("/__rap", "/__rapina"));
    assert!(has_prefix("abc", ""));
}

#[test]
fn schema_and_error_checks() {
    let routes = Some(vec![
        route("GET", "/users", false, 0),
        route("POST", "/users", true, 2),
        route("GET", "/__rapina/routes", false, 0),
    ]);
    let mut result = DiagnosticResult::new();
    check_response_schemas(&routes, &mut result);
    check_error_documentation(&routes, &mut result);
    assert_eq!(
        result.warnings,
        vec!["Missing response schema: GET /users".to_string(), "No documented errors: GET /users".to_string()]
    );
    assert!(result.passed.is_empty());

    let good = Some(vec![route("GET", "/a", true, 1)]);
    let mut result = DiagnosticResult::new();
    check_response_schemas(&good, &mut result);
    check_error_documentation(&good, &mut result);
    check_response_schemas(&None, &mut result);
    assert_eq!(
        result.passed,
        vec!["All routes have response schemas".to_string(), "All routes have documented errors".to_string()]
    );
    assert!(result.warnings.is_empty());
}

#[test]
fn openapi_checks() {
    let mut result = DiagnosticResult::new();
    check_openapi_metadata(&Err("down".to_string()), &mut result);
    assert_eq!(result.warnings, vec!["OpenAPI endpoint: not enabled (add .openapi() to enable)".to_string()]);

    let paths = vec![
        PathOperations {
            path: "/users".to_string(),
            operations: vec![
                OperationSummary { method: Method::Get, has_summary: false, has_description: false },
                OperationSummary { method: Method::Post, has_summary: true, has_description: false },
            ],
        },
        PathOperations {
            path: "/__rapina/openapi.json".to_string(),
            operations: vec![OperationSummary { method: Method::Get, has_summary: false, has_description: false }],
        },
    ];
    let mut result = DiagnosticResult::new();
    check_openapi_metadata(&Ok(Some(paths)), &mut result);
    assert_eq!(result.warnings, vec!["Missing documentation: GET /users".to_string()]);

    let mut result = DiagnosticResult::new();
    check_openapi_metadata(&Ok(Some(Vec::new())), &mut result);
    check_openapi_metadata(&Ok(None), &mut result);
    assert_eq!(result.passed, vec!["All operations have descriptions".to_string()]);
    assert!(result.errors.is_empty());
}
