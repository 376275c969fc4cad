//! The route table: entries in registration order, and the first-match
//! dispatch over them.

use vstd::prelude::*;
use crate::pattern::{
    PathParams, PatternError, RoutePattern, extract_path_params, match_spec, segments_of, template_ok,
};
use crate::response::Response;

verus! {

/// The request methods that routes can be registered for.
#[derive(Clone, Copy, Debug, PartialEq, Eq, Structural)]
pub enum Method {
    Get,
    Post,
    Put,
    Delete,
    Patch,
    Head,
    Options,
    Connect,
    Trace,
}

/// The name of a method as it appears on the wire.
pub open spec fn method_name(m: Method) -> Seq<char> {
    match m {
        Method::Get => "GET"@,
        Method::Post => "POST"@,
        Method::Put => "PUT"@,
        Method::Delete => "DELETE"@,
        Method::Patch => "PATCH"@,
        Method::Head => "HEAD"@,
        Method::Options => "OPTIONS"@,
        Method::Connect => "CONNECT"@,
        Method::Trace => "TRACE"@,
    }
}

impl Method {
    /// The method's name on the wire.
    pub fn as_str(&self) -> (r: &'static str)
        ensures
            r@ == method_name(*self),
    {
        match self {
            Method::Get => "GET",
            Method::Post => "POST",
            Method::Put => "PUT",
            Method::Delete => "DELETE",
            Method::Patch => "PATCH",
            Method::Head => "HEAD",
            Method::Options => "OPTIONS",
            Method::Connect => "CONNECT",
            Method::Trace => "TRACE",
        }
    }

    /// The method with the given wire name; names are case-sensitive.
    pub fn from_name(name: &str) -> (r: Option<Method>)
        ensures
            match r {
                Some(m) => method_name(m) == name@,
                None => forall|m: Method| method_name(m) != name@,
            },
    {
        let all = [
            Method::Get,
            Method::Post,
            Method::Put,
            Method::Delete,
            Method::Patch,
            Method::Head,
            Method::Options,
            Method::Connect,
            Method::Trace,
        ];
        let key = name.to_owned();
        let mut i: usize = 0;
        while i < 9
            invariant
                key@ == name@,
                all@ == seq![
                    Method::Get,
                    Method::Post,
                    Method::Put,
                    Method::Delete,
                    Method::Patch,
                    Method::Head,
                    Method::Options,
                    Method::Connect,
                    Method::Trace,
                ],
                forall|k: int| 0 <= k < i ==> method_name(#[trigger] all@[k]) != name@,
            decreases 9 - i,
        {
            let m = all[i];
            let text = m.as_str().to_owned();
            if text == key {
                return Some(m);
            }
            i = i + 1;
        }
        proof {
            assert forall|m: Method| method_name(m) != name@ by {
                match m {
                    Method::Get => assert(all@[0] == m),
                    Method::Post => assert(all@[1] == m),
                    Method::Put => assert(all@[2] == m),
                    Method::Delete => assert(all@[3] == m),
                    Method::Patch => assert(all@[4] == m),
                    Method::Head => assert(all@[5] == m),
                    Method::Options => assert(all@[6] == m),
                    Method::Connect => assert(all@[7] == m),
                    Method::Trace => assert(all@[8] == m),
                }
            }
        }
        None
    }
}

/// An entry of the table accepts a request when the methods are equal and
/// its template matches the path.
pub open spec fn entry_accepts(entry: (Method, Seq<char>), method: Method, path: Seq<char>) -> bool {
    entry.0 == method && match_spec(entry.1, path) is Some
}

/// One registered route: method, template, and what handles it.
pub struct Route<H> {
    method: Method,
    pattern: String,
    handler: H,
}

/// Routes in registration order. The first route whose method and template
/// accept a request handles it: order decides, not specificity.
pub struct Router<H> {
    routes: Vec<Route<H>>,
}

impl<H> Router<H> {
    /// The table: each route's method and template, in registration order.
    pub closed spec fn table(&self) -> Seq<(Method, Seq<char>)> {
        self.routes@.map_values(|r: Route<H>| (r.method, r.pattern@))
    }

    /// The handlers, in registration order.
    pub closed spec fn handlers(&self) -> Seq<H> {
        self.routes@.map_values(|r: Route<H>| r.handler)
    }

    /// Every registered template is well formed.
    pub open spec fn wf(&self) -> bool {
        forall|i: int|
            0 <= i < self.table().len() ==> template_ok(segments_of(#[trigger] self.table()[i].1))
    }

    /// An empty table.
    pub fn new() -> (r: Router<H>)
        ensures
            r.table() == Seq::<(Method, Seq<char>)>::empty(),
            r.handlers() == Seq::<H>::empty(),
            r.wf(),
    {
        let r = Router { routes: Vec::new() };
        assert(r.table() =~= Seq::<(Method, Seq<char>)>::empty());
        assert(r.handlers() =~= Seq::<H>::empty());
        r
    }

    /// Registers a route after all earlier ones. A template with an empty or
    /// repeated capture name is refused, and the table is left as it was.
    pub fn register(&mut self, method: Method, pattern: &str, handler: H) -> (r: Result<
        (),
        PatternError,
    >)
        ensures
            r is Ok <==> template_ok(segments_of(pattern@)),
            r is Ok ==> final(self).table() == old(self).table().push((method, pattern@))
                && final(self).handlers() == old(self).handlers().push(handler),
            r is Err ==> final(self).table() == old(self).table() && final(self).handlers()
                == old(self).handlers(),
            old(self).wf() ==> final(self).wf(),
    {
        match RoutePattern::compile(pattern) {
            Err(e) => Err(e),
            Ok(_) => {
                let ghost before = self.table();
                let ghost hs = self.handlers();
                self.routes.push(Route { method, pattern: pattern.to_owned(), handler });
                assert(self.table() =~= before.push((method, pattern@)));
                assert(self.handlers() =~= hs.push(handler));
                assert(self.table()[before.len() as int] == (method, pattern@));
                Ok(())
            },
        }
    }

    /// The router with one more route, or the refusal of its template.
    pub fn route(self, method: Method, pattern: &str, handler: H) -> (r: Result<
        Router<H>,
        PatternError,
    >)
        ensures
            r is Ok <==> template_ok(segments_of(pattern@)),
            r matches Ok(rt) ==> rt.table() == self.table().push((method, pattern@))
                && rt.handlers() == self.handlers().push(handler) && (self.wf() ==> rt.wf()),
    {
        let mut router = self;
        match router.register(method, pattern, handler) {
            Ok(()) => Ok(router),
            Err(e) => Err(e),
        }
    }

    /// [`Router::route`] for `GET`.
    pub fn get(self, pattern: &str, handler: H) -> (r: Result<Router<H>, PatternError>)
        ensures
            r is Ok <==> template_ok(segments_of(pattern@)),
            r matches Ok(rt) ==> rt.table() == self.table().push((Method::Get, pattern@))
                && rt.handlers() == self.handlers().push(handler) && (self.wf() ==> rt.wf()),
    {
        self.route(Method::Get, pattern, handler)
    }

    /// [`Router::route`] for `POST`.
    pub fn post(self, pattern: &str, handler: H) -> (r: Result<Router<H>, PatternError>)
        ensures
            r is Ok <==> template_ok(segments_of(pattern@)),
            r matches Ok(rt) ==> rt.table() == self.table().push((Method::Post, pattern@))
                && rt.handlers() == self.handlers().push(handler) && (self.wf() ==> rt.wf()),
    {
        self.route(Method::Post, pattern, handler)
    }

    /// The number of routes.
    pub fn len(&self) -> (r: usize)
        ensures
            r == self.table().len(),
            r == self.handlers().len(),
    {
        self.routes.len()
    }

    /// The handler of the route registered at position `i`.
    pub fn handler(&self, i: usize) -> (r: &H)
        requires
            i < self.table().len(),
        ensures
            *r == self.handlers()[i as int],
    {
        &self.routes[i].handler
    }

    /// The first route, in registration order, that accepts the request, and
    /// the values its template captures.
    pub fn find(&self, method: Method, path: &str) -> (r: Option<(usize, PathParams)>)
        ensures
            match r {
                Some((i, p)) => {
                    &&& i < self.table().len()
                    &&& entry_accepts(self.table()[i as int], method, path@)
                    &&& forall|j: int|
                        0 <= j < i ==> !entry_accepts(#[trigger] self.table()[j], method, path@)
                    &&& match_spec(self.table()[i as int].1, path@) == Some(p@)
                },
                None => forall|j: int|
                    0 <= j < self.table().len() ==> !entry_accepts(
                        #[trigger] self.table()[j],
                        method,
                        path@,
                    ),
            },
    {
        let n = self.routes.len();
        let mut i: usize = 0;
        while i < n
            invariant
                n == self.table().len(),
                i <= n,
                forall|j: int| 0 <= j < i ==> !entry_accepts(#[trigger] self.table()[j], method, path@),
            decreases n - i,
        {
            let route = &self.routes[i];
            assert(self.table()[i as int] == (route.method, route.pattern@));
            if route.method == method {
                match extract_path_params(route.pattern.as_str(), path) {
                    Some(p) => {
                        return Some((i, p));
                    },
                    None => {},
                }
            }
            i = i + 1;
        }
        None
    }

    /// Resolves a request: the first accepting route and its captures, or,
    /// where no route accepts it, the terminal not-found response (status
    /// 404, no headers, empty body).
    pub fn dispatch(&self, method: Method, path: &str) -> (r: Result<(usize, PathParams), Response>)
        ensures
            match r {
                Ok((i, p)) => {
                    &&& i < self.table().len()
                    &&& entry_accepts(self.table()[i as int], method, path@)
                    &&& forall|j: int|
                        0 <= j < i ==> !entry_accepts(#[trigger] self.table()[j], method, path@)
                    &&& match_spec(self.table()[i as int].1, path@) == Some(p@)
                },
                Err(resp) => {
                    &&& resp.status == 404
                    &&& resp.headers_spec().len() == 0
                    &&& resp.body@.len() == 0
                    &&& forall|j: int|
                        0 <= j < self.table().len() ==> !entry_accepts(
                            #[trigger] self.table()[j],
                            method,
                            path@,
                        )
                },
            },
    {
        match self.find(method, path) {
            Some(found) => Ok(found),
            None => Err(Response::not_found()),
        }
    }
}

impl<H> Default for Router<H> {
    fn default() -> (r: Router<H>)
        ensures
            r.table() == Seq::<(Method, Seq<char>)>::empty(),
            r.handlers() == Seq::<H>::empty(),
            r.wf(),
    {
        Router::new()
    }
}

} // verus!
