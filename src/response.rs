//! The wire response every request ends in, and the conversions into it.

use vstd::prelude::*;
use vstd::string::*;

verus! {

/// Header pairs as name and value text.
pub open spec fn headers_view(hs: Seq<(String, String)>) -> Seq<(Seq<char>, Seq<char>)> {
    hs.map_values(|h: (String, String)| (h.0@, h.1@))
}

/// The headers that remain once every one named `name` is taken out.
pub open spec fn without_header(hs: Seq<(Seq<char>, Seq<char>)>, name: Seq<char>) -> Seq<
    (Seq<char>, Seq<char>),
>
    decreases hs.len(),
{
    if hs.len() == 0 {
        seq![]
    } else {
        let rest = without_header(hs.drop_last(), name);
        if hs.last().0 == name {
            rest
        } else {
            rest.push(hs.last())
        }
    }
}

/// The value of the first header named `name`.
pub open spec fn header_value(hs: Seq<(Seq<char>, Seq<char>)>, name: Seq<char>) -> Option<
    Seq<char>,
>
    decreases hs.len(),
{
    if hs.len() == 0 {
        None
    } else if hs[0].0 == name {
        Some(hs[0].1)
    } else {
        header_value(hs.drop_first(), name)
    }
}

/// The name of the header that gives the body's media type.
pub open spec fn content_type_spec() -> Seq<char> {
    "content-type"@
}

/// The media type of a plain-text body.
pub open spec fn text_type_spec() -> Seq<char> {
    "text/plain; charset=utf-8"@
}

/// The media type of a JSON body.
pub open spec fn json_type_spec() -> Seq<char> {
    "application/json"@
}

/// A response: status code, headers in order, and body text.
pub struct Response {
    pub status: u16,
    pub headers: Vec<(String, String)>,
    pub body: String,
}

impl Response {
    /// The headers as name and value text.
    pub open spec fn headers_spec(&self) -> Seq<(Seq<char>, Seq<char>)> {
        headers_view(self.headers@)
    }

    /// A response with the given status, no headers and an empty body.
    pub fn from_status(status: u16) -> (r: Response)
        ensures
            r.status == status,
            r.headers_spec() == Seq::<(Seq<char>, Seq<char>)>::empty(),
            r.body@ == Seq::<char>::empty(),
    {
        let r = Response { status, headers: Vec::new(), body: String::new() };
        assert(r.headers_spec() =~= Seq::<(Seq<char>, Seq<char>)>::empty());
        r
    }

    /// The response to a request that no route matches: status 404, no
    /// headers, an empty body.
    pub fn not_found() -> (r: Response)
        ensures
            r.status == 404,
            r.headers_spec() == Seq::<(Seq<char>, Seq<char>)>::empty(),
            r.body@ == Seq::<char>::empty(),
    {
        Response::from_status(404)
    }

    /// A response with the given status, one `content-type` header and the
    /// given body.
    pub fn with_type(status: u16, media_type: &str, body: String) -> (r: Response)
        ensures
            r.status == status,
            r.headers_spec() == seq![(content_type_spec(), media_type@)],
            r.body@ == body@,
    {
        let mut headers: Vec<(String, String)> = Vec::new();
        headers.push((String::from_str("content-type"), media_type.to_owned()));
        let r = Response { status, headers, body };
        assert(r.headers_spec() =~= seq![(content_type_spec(), media_type@)]);
        r
    }

    /// A plain-text response.
    pub fn text(status: u16, body: String) -> (r: Response)
        ensures
            r.status == status,
            r.headers_spec() == seq![(content_type_spec(), text_type_spec())],
            r.body@ == body@,
    {
        Response::with_type(status, "text/plain; charset=utf-8", body)
    }

    /// A JSON response whose body is already encoded.
    pub fn json(status: u16, body: String) -> (r: Response)
        ensures
            r.status == status,
            r.headers_spec() == seq![(content_type_spec(), json_type_spec())],
            r.body@ == body@,
    {
        Response::with_type(status, "application/json", body)
    }

    /// The value of the first header named `name`.
    pub fn header(&self, name: &str) -> (r: Option<String>)
        ensures
            match r {
                Some(v) => header_value(self.headers_spec(), name@) == Some(v@),
                None => header_value(self.headers_spec(), name@) is None,
            },
    {
        let key = name.to_owned();
        let n = self.headers.len();
        let mut i: usize = 0;
        assert(self.headers_spec().subrange(0, n as int) =~= self.headers_spec());
        while i < n
            invariant
                n == self.headers@.len(),
                i <= n,
                key@ == name@,
                header_value(self.headers_spec(), name@) == header_value(
                    self.headers_spec().subrange(i as int, n as int),
                    name@,
                ),
            decreases n - i,
        {
            let ghost sub = self.headers_spec().subrange(i as int, n as int);
            assert(sub.drop_first() =~= self.headers_spec().subrange(i + 1, n as int));
            if self.headers[i].0 == key {
                return Some(self.headers[i].1.clone());
            }
            i = i + 1;
        }
        None
    }

    /// Sets a header: every header of that name is taken out, and the new
    /// one goes last.
    pub fn set_header(&mut self, name: &str, value: &str)
        ensures
            final(self).status == old(self).status,
            final(self).body == old(self).body,
            final(self).headers_spec() == without_header(old(self).headers_spec(), name@).push(
                (name@, value@),
            ),
    {
        let key = name.to_owned();
        let n = self.headers.len();
        let mut kept: Vec<(String, String)> = Vec::new();
        let mut i: usize = 0;
        assert(headers_view(kept@) =~= without_header(
            self.headers_spec().subrange(0, 0),
            name@,
        ));
        while i < n
            invariant
                n == self.headers@.len(),
                i <= n,
                key@ == name@,
                headers_view(kept@) == without_header(
                    self.headers_spec().subrange(0, i as int),
                    name@,
                ),
            decreases n - i,
        {
            let ghost sub = self.headers_spec().subrange(0, i + 1);
            assert(sub.drop_last() =~= self.headers_spec().subrange(0, i as int));
            if self.headers[i].0 != key {
                let ghost prev = headers_view(kept@);
                kept.push((self.headers[i].0.clone(), self.headers[i].1.clone()));
                assert(headers_view(kept@) =~= prev.push(sub.last()));
            }
            i = i + 1;
        }
        assert(self.headers_spec().subrange(0, n as int) =~= self.headers_spec());
        let ghost prev = headers_view(kept@);
        kept.push((key, value.to_owned()));
        assert(headers_view(kept@) =~= prev.push((name@, value@)));
        self.headers = kept;
    }
}

/// A value that can be turned into a response. The conversion cannot fail.
pub trait IntoResponse: Sized {
    /// `r` is what this value converts into.
    spec fn converts_to(self, r: Response) -> bool;

    fn into_response(self) -> (r: Response)
        ensures
            self.converts_to(r),
    ;
}

/// A status-200 plain-text response with this body.
pub open spec fn is_text_response(r: Response, status: u16, body: Seq<char>) -> bool {
    &&& r.status == status
    &&& r.headers_spec() == seq![(content_type_spec(), text_type_spec())]
    &&& r.body@ == body
}

impl IntoResponse for Response {
    open spec fn converts_to(self, r: Response) -> bool {
        r == self
    }

    fn into_response(self) -> (r: Response) {
        self
    }
}

impl IntoResponse for String {
    open spec fn converts_to(self, r: Response) -> bool {
        is_text_response(r, 200, self@)
    }

    fn into_response(self) -> (r: Response) {
        Response::text(200, self)
    }
}

impl<'a> IntoResponse for &'a str {
    open spec fn converts_to(self, r: Response) -> bool {
        is_text_response(r, 200, self@)
    }

    fn into_response(self) -> (r: Response) {
        Response::text(200, self.to_owned())
    }
}

impl IntoResponse for (u16, String) {
    open spec fn converts_to(self, r: Response) -> bool {
        is_text_response(r, self.0, self.1@)
    }

    fn into_response(self) -> (r: Response) {
        Response::text(self.0, self.1)
    }
}

impl<T: IntoResponse, E: IntoResponse> IntoResponse for Result<T, E> {
    /// Each side converts as its own type does.
    open spec fn converts_to(self, r: Response) -> bool {
        match self {
            Ok(v) => v.converts_to(r),
            Err(e) => e.converts_to(r),
        }
    }

    fn into_response(self) -> (r: Response) {
        match self {
            Ok(v) => v.into_response(),
            Err(e) => e.into_response(),
        }
    }
}

} // verus!
