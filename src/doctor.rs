//! Health checks over an application's route listing and its OpenAPI
//! document: which routes lack a response schema, which document no error,
//! which operations have no description.

use vstd::prelude::*;
use vstd::string::*;
use crate::router::{Method, method_name};

verus! {

/// What the route listing says of one route.
pub struct RouteSummary {
    pub method: String,
    pub path: String,
    pub has_response_schema: bool,
    pub error_response_count: usize,
}

/// What the OpenAPI document says of one operation.
pub struct OperationSummary {
    pub method: Method,
    pub has_summary: bool,
    pub has_description: bool,
}

/// The operations of one path of the OpenAPI document, in the order get,
/// post, put, delete.
pub struct PathOperations {
    pub path: String,
    pub operations: Vec<OperationSummary>,
}

/// The findings: warnings, errors, and checks that passed.
pub struct DiagnosticResult {
    pub warnings: Vec<String>,
    pub errors: Vec<String>,
    pub passed: Vec<String>,
}

/// Texts as sequences of characters.
pub open spec fn texts(v: Seq<String>) -> Seq<Seq<char>> {
    v.map_values(|s: String| s@)
}

/// Paths under this prefix belong to the framework and are not checked.
pub open spec fn internal_prefix() -> Seq<char> {
    "/__rapina"@
}

/// `s` starts with `p`.
pub open spec fn starts_with(s: Seq<char>, p: Seq<char>) -> bool {
    p.len() <= s.len() && s.subrange(0, p.len() as int) == p
}

/// How a route or operation is named in a finding: method, a space, path.
pub open spec fn label(method: Seq<char>, path: Seq<char>) -> Seq<char> {
    method + " "@ + path
}

/// The routes, outside the framework's own, that have no response schema.
pub open spec fn missing_schemas(rs: Seq<RouteSummary>) -> Seq<Seq<char>>
    decreases rs.len(),
{
    if rs.len() == 0 {
        seq![]
    } else {
        let rest = missing_schemas(rs.drop_last());
        let r = rs.last();
        if !r.has_response_schema && !starts_with(r.path@, internal_prefix()) {
            rest.push(label(r.method@, r.path@))
        } else {
            rest
        }
    }
}

/// The routes, outside the framework's own, that document no error.
pub open spec fn missing_errors(rs: Seq<RouteSummary>) -> Seq<Seq<char>>
    decreases rs.len(),
{
    if rs.len() == 0 {
        seq![]
    } else {
        let rest = missing_errors(rs.drop_last());
        let r = rs.last();
        if r.error_response_count == 0 && !starts_with(r.path@, internal_prefix()) {
            rest.push(label(r.method@, r.path@))
        } else {
            rest
        }
    }
}

/// The operations of one path that have neither summary nor description.
pub open spec fn undescribed_ops(path: Seq<char>, ops: Seq<OperationSummary>) -> Seq<Seq<char>>
    decreases ops.len(),
{
    if ops.len() == 0 {
        seq![]
    } else {
        let rest = undescribed_ops(path, ops.drop_last());
        let o = ops.last();
        if !o.has_summary && !o.has_description {
            rest.push(label(method_name(o.method), path))
        } else {
            rest
        }
    }
}

/// The operations, outside the framework's own paths, that have neither
/// summary nor description, path by path.
pub open spec fn undescribed(paths: Seq<PathOperations>) -> Seq<Seq<char>>
    decreases paths.len(),
{
    if paths.len() == 0 {
        seq![]
    } else {
        let rest = undescribed(paths.drop_last());
        let p = paths.last();
        if starts_with(p.path@, internal_prefix()) {
            rest
        } else {
            rest + undescribed_ops(p.path@, p.operations@)
        }
    }
}

/// Each finding under a prefix.
pub open spec fn prefixed(prefix: Seq<char>, items: Seq<Seq<char>>) -> Seq<Seq<char>> {
    items.map_values(|s: Seq<char>| prefix + s)
}

/// Whether `s` starts with `p`.
pub fn has_prefix(s: &str, p: &str) -> (r: bool)
    ensures
        r == starts_with(s@, p@),
{
    let n = p.unicode_len();
    if n > s.unicode_len() {
        return false;
    }
    let mut i: usize = 0;
    while i < n
        invariant
            n == p@.len(),
            n <= s@.len(),
            i <= n,
            forall|k: int| 0 <= k < i ==> s@[k] == p@[k],
        decreases n - i,
    {
        if s.get_char(i) != p.get_char(i) {
            assert(s@.subrange(0, n as int)[i as int] != p@[i as int]);
            return false;
        }
        i = i + 1;
    }
    assert(s@.subrange(0, n as int) =~= p@);
    true
}

fn make_label(method: &str, path: &str) -> (r: String)
    ensures
        r@ == label(method@, path@),
{
    let mut out = method.to_owned();
    out.append(" ");
    out.append(path);
    out
}

impl DiagnosticResult {
    /// No findings.
    pub fn new() -> (r: DiagnosticResult)
        ensures
            r.warnings@.len() == 0,
            r.errors@.len() == 0,
            r.passed@.len() == 0,
    {
        DiagnosticResult { warnings: Vec::new(), errors: Vec::new(), passed: Vec::new() }
    }

    /// Records a check: passed when nothing is missing, else one warning per
    /// missing item under the prefix.
    fn report(&mut self, missing: Vec<String>, pass: &str, prefix: &str)
        ensures
            final(self).errors == old(self).errors,
            texts(missing@).len() == 0 ==> texts(final(self).passed@) == texts(
                old(self).passed@,
            ).push(pass@) && final(self).warnings == old(self).warnings,
            texts(missing@).len() > 0 ==> texts(final(self).warnings@) == texts(
                old(self).warnings@,
            ) + prefixed(prefix@, texts(missing@)) && final(self).passed == old(self).passed,
    {
        if missing.len() == 0 {
            let ghost before = texts(self.passed@);
            self.passed.push(pass.to_owned());
            assert(texts(self.passed@) =~= before.push(pass@));
        } else {
            let ghost before = texts(self.warnings@);
            let mut i: usize = 0;
            while i < missing.len()
                invariant
                    i <= missing@.len(),
                    texts(self.warnings@) == before + prefixed(
                        prefix@,
                        texts(missing@).subrange(0, i as int),
                    ),
                    self.errors == old(self).errors,
                    self.passed == old(self).passed,
                decreases missing@.len() - i,
            {
                let mut line = prefix.to_owned();
                line.append(missing[i].as_str());
                let ghost w = texts(self.warnings@);
                self.warnings.push(line);
                assert(texts(self.warnings@) =~= w.push(line@));
                assert(prefixed(prefix@, texts(missing@).subrange(0, i + 1)) =~= prefixed(
                    prefix@,
                    texts(missing@).subrange(0, i as int),
                ).push(prefix@ + missing@[i as int]@));
                i = i + 1;
            }
            assert(texts(missing@).subrange(0, missing@.len() as int) =~= texts(missing@));
        }
    }
}

fn routes_missing_schema(routes: &Vec<RouteSummary>) -> (r: Vec<String>)
    ensures
        texts(r@) == missing_schemas(routes@),
{
    let mut missing: Vec<String> = Vec::new();
    let mut i: usize = 0;
    assert(texts(missing@) =~= missing_schemas(routes@.subrange(0, 0)));
    while i < routes.len()
        invariant
            i <= routes@.len(),
            texts(missing@) == missing_schemas(routes@.subrange(0, i as int)),
        decreases routes@.len() - i,
    {
        let route = &routes[i];
        let ghost sub = routes@.subrange(0, i + 1);
        assert(sub.drop_last() =~= routes@.subrange(0, i as int));
        let internal = has_prefix(route.path.as_str(), "/__rapina");
        if !route.has_response_schema && !internal {
            let ghost m = texts(missing@);
            missing.push(make_label(route.method.as_str(), route.path.as_str()));
            assert(texts(missing@) =~= m.push(label(route.method@, route.path@)));
        }
        i = i + 1;
    }
    assert(routes@.subrange(0, routes@.len() as int) =~= routes@);
    missing
}

fn routes_missing_errors(routes: &Vec<RouteSummary>) -> (r: Vec<String>)
    ensures
        texts(r@) == missing_errors(routes@),
{
    let mut missing: Vec<String> = Vec::new();
    let mut i: usize = 0;
    assert(texts(missing@) =~= missing_errors(routes@.subrange(0, 0)));
    while i < routes.len()
        invariant
            i <= routes@.len(),
            texts(missing@) == missing_errors(routes@.subrange(0, i as int)),
        decreases routes@.len() - i,
    {
        let route = &routes[i];
        let ghost sub = routes@.subrange(0, i + 1);
        assert(sub.drop_last() =~= routes@.subrange(0, i as int));
        let internal = has_prefix(route.path.as_str(), "/__rapina");
        if route.error_response_count == 0 && !internal {
            let ghost m = texts(missing@);
            missing.push(make_label(route.method.as_str(), route.path.as_str()));
            assert(texts(missing@) =~= m.push(label(route.method@, route.path@)));
        }
        i = i + 1;
    }
    assert(routes@.subrange(0, routes@.len() as int) =~= routes@);
    missing
}

fn paths_undescribed(paths: &Vec<PathOperations>) -> (r: Vec<String>)
    ensures
        texts(r@) == undescribed(paths@),
{
    let mut missing: Vec<String> = Vec::new();
    let mut i: usize = 0;
    assert(texts(missing@) =~= undescribed(paths@.subrange(0, 0)));
    while i < paths.len()
        invariant
            i <= paths@.len(),
            texts(missing@) == undescribed(paths@.subrange(0, i as int)),
        decreases paths@.len() - i,
    {
        let item = &paths[i];
        let ghost sub = paths@.subrange(0, i + 1);
        assert(sub.drop_last() =~= paths@.subrange(0, i as int));
        if !has_prefix(item.path.as_str(), "/__rapina") {
            let ghost start = texts(missing@);
            let ops = &item.operations;
            let mut j: usize = 0;
            assert(undescribed_ops(item.path@, ops@.subrange(0, 0)) =~= Seq::<Seq<char>>::empty());
            assert(texts(missing@) =~= start + undescribed_ops(item.path@, ops@.subrange(0, 0)));
            while j < ops.len()
                invariant
                    j <= ops@.len(),
                    texts(missing@) == start + undescribed_ops(
                        item.path@,
                        ops@.subrange(0, j as int),
                    ),
                decreases ops@.len() - j,
            {
                let op = &ops[j];
                let ghost osub = ops@.subrange(0, j + 1);
                assert(osub.drop_last() =~= ops@.subrange(0, j as int));
                if !op.has_summary && !op.has_description {
                    let ghost m = texts(missing@);
                    missing.push(make_label(op.method.as_str(), item.path.as_str()));
                    assert(texts(missing@) =~= m.push(label(method_name(op.method), item.path@)));
                    assert(start + undescribed_ops(item.path@, osub) =~= (start + undescribed_ops(
                        item.path@,
                        ops@.subrange(0, j as int),
                    )).push(label(method_name(op.method), item.path@)));
                }
                j = j + 1;
            }
            assert(ops@.subrange(0, ops@.len() as int) =~= ops@);
        } else {
            assert(texts(missing@) =~= undescribed(sub));
        }
        i = i + 1;
    }
    assert(paths@.subrange(0, paths@.len() as int) =~= paths@);
    missing
}

/// Checks that every route outside the framework's own has a response
/// schema. A listing that is not an array of routes is passed over.
pub fn check_response_schemas(routes: &Option<Vec<RouteSummary>>, result: &mut DiagnosticResult)
    ensures
        final(result).errors == old(result).errors,
        match routes {
            None => *final(result) == *old(result),
            Some(rs) => if missing_schemas(rs@).len() == 0 {
                texts(final(result).passed@) == texts(old(result).passed@).push(
                    "All routes have response schemas"@,
                ) && final(result).warnings == old(result).warnings
            } else {
                texts(final(result).warnings@) == texts(old(result).warnings@) + prefixed(
                    "Missing response schema: "@,
                    missing_schemas(rs@),
                ) && final(result).passed == old(result).passed
            },
        },
{
    match routes {
        None => {},
        Some(rs) => {
            let missing = routes_missing_schema(rs);
            result.report(missing, "All routes have response schemas", "Missing response schema: ");
        },
    }
}

/// Checks that every route outside the framework's own documents at least
/// one error response. A listing that is not an array of routes is passed
/// over.
pub fn check_error_documentation(routes: &Option<Vec<RouteSummary>>, result: &mut DiagnosticResult)
    ensures
        final(result).errors == old(result).errors,
        match routes {
            None => *final(result) == *old(result),
            Some(rs) => if missing_errors(rs@).len() == 0 {
                texts(final(result).passed@) == texts(old(result).passed@).push(
                    "All routes have documented errors"@,
                ) && final(result).warnings == old(result).warnings
            } else {
                texts(final(result).warnings@) == texts(old(result).warnings@) + prefixed(
                    "No documented errors: "@,
                    missing_errors(rs@),
                ) && final(result).passed == old(result).passed
            },
        },
{
    match routes {
        None => {},
        Some(rs) => {
            let missing = routes_missing_errors(rs);
            result.report(missing, "All routes have documented errors", "No documented errors: ");
        },
    }
}

/// Checks that every operation outside the framework's own paths has a
/// summary or a description. A document that could not be had gives a
/// warning; one without a `paths` object is passed over.
pub fn check_openapi_metadata(
    openapi: &Result<Option<Vec<PathOperations>>, String>,
    result: &mut DiagnosticResult,
)
    ensures
        final(result).errors == old(result).errors,
        match openapi {
            Err(_) => texts(final(result).warnings@) == texts(old(result).warnings@).push(
                "OpenAPI endpoint: not enabled (add .openapi() to enable)"@,
            ) && final(result).passed == old(result).passed,
            Ok(None) => *final(result) == *old(result),
            Ok(Some(ps)) => if undescribed(ps@).len() == 0 {
                texts(final(result).passed@) == texts(old(result).passed@).push(
                    "All operations have descriptions"@,
                ) && final(result).warnings == old(result).warnings
            } else {
                texts(final(result).warnings@) == texts(old(result).warnings@) + prefixed(
                    "Missing documentation: "@,
                    undescribed(ps@),
                ) && final(result).passed == old(result).passed
            },
        },
{
    match openapi {
        Err(_) => {
            let ghost w = texts(result.warnings@);
            let text = String::from_str("OpenAPI endpoint: not enabled (add .openapi() to enable)");
            result.warnings.push(text);
            assert(texts(result.warnings@) =~= w.push(text@));
        },
        Ok(None) => {},
        Ok(Some(ps)) => {
            let missing = paths_undescribed(ps);
            result.report(missing, "All operations have descriptions", "Missing documentation: ");
        },
    }
}

} // verus!
