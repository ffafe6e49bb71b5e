//! The messages a resource sees: methods, header maps, requests, responses.

use vstd::prelude::*;

verus! {

/// Status of a reply to a request that was served.
pub const STATUS_OK: u16 = 200;

/// Status of a reply to a request that no resource matched.
pub const STATUS_NOT_FOUND: u16 = 404;

/// Status of a reply to a request that no route of its resource accepted.
pub const STATUS_METHOD_NOT_ALLOWED: u16 = 405;

/// Status of a reply from a handler whose scoped data is missing.
pub const STATUS_INTERNAL_SERVER_ERROR: u16 = 500;

/// A request method.
#[derive(Clone, Copy, Debug, PartialEq, Eq, Structural)]
pub enum Method {
    Get,
    Post,
    Put,
    Delete,
    Head,
    Options,
    Connect,
    Patch,
    Trace,
}

/// Whether two texts hold the same characters.
pub fn same_text(a: &str, b: &str) -> (same: bool)
    ensures
        same == (a@ == b@),
{
    a.to_owned() == b.to_owned()
}

/// One header line.
pub struct Header {
    pub name: String,
    pub value: String,
}

/// What a sequence of header lines says: for each name, the value of the
/// last line that carries it.
pub open spec fn header_lines(lines: Seq<Header>) -> Map<Seq<char>, Seq<char>>
    decreases lines.len(),
{
    if lines.len() == 0 {
        Map::empty()
    } else {
        header_lines(lines.drop_last()).insert(lines.last().name@, lines.last().value@)
    }
}

/// No line from index `from` on carries `name`, so the lines before decide.
pub proof fn lemma_header_lines_prefix(lines: Seq<Header>, from: int, name: Seq<char>)
    requires
        0 <= from <= lines.len(),
        forall|k: int| from <= k < lines.len() ==> (#[trigger] lines[k]).name@ != name,
    ensures
        header_lines(lines).contains_key(name) == header_lines(lines.take(from)).contains_key(
            name,
        ),
        header_lines(lines).contains_key(name) ==> header_lines(lines)[name] == header_lines(
            lines.take(from),
        )[name],
    decreases lines.len() - from,
{
    if from == lines.len() {
        assert(lines.take(from) =~= lines);
    } else {
        let front = lines.drop_last();
        assert(front.take(from) =~= lines.take(from));
        assert(lines.last() == lines[lines.len() - 1]);
        lemma_header_lines_prefix(front, from, name);
    }
}

/// A map from header names to values. Names are compared as written.
pub struct HeaderMap {
    lines: Vec<Header>,
}

impl View for HeaderMap {
    type V = Map<Seq<char>, Seq<char>>;

    closed spec fn view(&self) -> Map<Seq<char>, Seq<char>> {
        header_lines(self.lines@)
    }
}

impl HeaderMap {
    /// A map without headers.
    pub fn new() -> (headers: HeaderMap)
        ensures
            headers@ == Map::<Seq<char>, Seq<char>>::empty(),
    {
        HeaderMap { lines: Vec::new() }
    }

    /// Sets `name` to `value`, replacing what it was set to before.
    pub fn insert(&mut self, name: &str, value: &str)
        ensures
            final(self)@ == old(self)@.insert(name@, value@),
    {
        let line = Header { name: name.to_owned(), value: value.to_owned() };
        proof {
            assert(self.lines@.push(line).drop_last() =~= self.lines@);
        }
        self.lines.push(line);
    }

    /// The value that `name` is set to.
    pub fn get(&self, name: &str) -> (value: Option<String>)
        ensures
            match value {
                Some(v) => self@.contains_key(name@) && self@[name@] == v@,
                None => !self@.contains_key(name@),
            },
    {
        let mut i: usize = self.lines.len();
        while i > 0
            invariant
                i <= self.lines.len(),
                forall|k: int| i <= k < self.lines.len() ==> (#[trigger] self.lines@[k]).name@ != name@,
            decreases i,
        {
            i = i - 1;
            if same_text(self.lines[i].name.as_str(), name) {
                proof {
                    lemma_header_lines_prefix(self.lines@, i + 1, name@);
                    assert(self.lines@.take(i + 1).last() == self.lines@[i as int]);
                }
                return Some(self.lines[i].value.clone());
            }
        }
        proof {
            lemma_header_lines_prefix(self.lines@, 0, name@);
            assert(self.lines@.take(0) =~= Seq::<Header>::empty());
        }
        None
    }

    /// Whether `name` is set to exactly `value`.
    pub fn has(&self, name: &str, value: &str) -> (found: bool)
        ensures
            found == (self@.contains_key(name@) && self@[name@] == value@),
    {
        match self.get(name) {
            Some(v) => same_text(v.as_str(), value),
            None => false,
        }
    }

    /// A copy of the map.
    pub fn duplicate(&self) -> (copy: HeaderMap)
        ensures
            copy@ == self@,
    {
        let mut lines: Vec<Header> = Vec::new();
        let mut i: usize = 0;
        while i < self.lines.len()
            invariant
                i <= self.lines.len(),
                lines@.len() == i,
                forall|k: int|
                    0 <= k < i ==> (#[trigger] lines@[k]).name@ == self.lines@[k].name@
                        && lines@[k].value@ == self.lines@[k].value@,
            decreases self.lines.len() - i,
        {
            lines.push(
                Header { name: self.lines[i].name.clone(), value: self.lines[i].value.clone() },
            );
            i = i + 1;
        }
        proof {
            lemma_header_lines_same(lines@, self.lines@);
        }
        HeaderMap { lines }
    }
}

/// Lines that agree name by name and value by value say the same.
pub proof fn lemma_header_lines_same(a: Seq<Header>, b: Seq<Header>)
    requires
        a.len() == b.len(),
        forall|k: int|
            0 <= k < a.len() ==> (#[trigger] a[k]).name@ == b[k].name@ && a[k].value@
                == b[k].value@,
    ensures
        header_lines(a) == header_lines(b),
    decreases a.len(),
{
    if a.len() > 0 {
        lemma_header_lines_same(a.drop_last(), b.drop_last());
    }
}

/// What a request is, as plain values.
pub struct RequestView {
    pub method: Method,
    pub path: Seq<char>,
    pub headers: Map<Seq<char>, Seq<char>>,
}

/// An incoming request.
pub struct Request {
    method: Method,
    path: String,
    headers: HeaderMap,
}

impl View for Request {
    type V = RequestView;

    closed spec fn view(&self) -> RequestView {
        RequestView { method: self.method, path: self.path@, headers: self.headers@ }
    }
}

impl Request {
    /// A request for `path` with the given method and no headers.
    pub fn new(method: Method, path: &str) -> (request: Request)
        ensures
            request@ == (RequestView { method, path: path@, headers: Map::empty() }),
    {
        Request { method, path: path.to_owned(), headers: HeaderMap::new() }
    }

    /// A `GET` request for `path`.
    pub fn with_uri(path: &str) -> (request: Request)
        ensures
            request@ == (RequestView { method: Method::Get, path: path@, headers: Map::empty() }),
    {
        Request::new(Method::Get, path)
    }

    /// The same request with another method.
    pub fn method(self, method: Method) -> (request: Request)
        ensures
            request@ == (RequestView { method, ..self@ }),
    {
        Request { method, path: self.path, headers: self.headers }
    }

    /// The same request with the header `name` set to `value`.
    pub fn header(self, name: &str, value: &str) -> (request: Request)
        ensures
            request@ == (RequestView { headers: self@.headers.insert(name@, value@), ..self@ }),
    {
        let mut request = self;
        request.headers.insert(name, value);
        request
    }

    /// Sets the header `name` to `value`.
    pub fn set_header(&mut self, name: &str, value: &str)
        ensures
            final(self)@ == (RequestView {
                headers: old(self)@.headers.insert(name@, value@),
                ..old(self)@
            }),
    {
        self.headers.insert(name, value);
    }

    /// The request's method.
    pub fn get_method(&self) -> (method: Method)
        ensures
            method == self@.method,
    {
        self.method
    }

    /// The request's path.
    pub fn path(&self) -> (path: &str)
        ensures
            path@ == self@.path,
    {
        self.path.as_str()
    }

    /// The request's headers.
    pub fn headers(&self) -> (headers: &HeaderMap)
        ensures
            headers@ == self@.headers,
    {
        &self.headers
    }

    /// A copy of the request.
    pub fn duplicate(&self) -> (copy: Request)
        ensures
            copy@ == self@,
    {
        Request {
            method: self.method,
            path: self.path.clone(),
            headers: self.headers.duplicate(),
        }
    }
}

/// What a response is, as plain values.
pub struct ResponseView {
    pub status: u16,
    pub headers: Map<Seq<char>, Seq<char>>,
    pub body: Seq<char>,
}

/// An outgoing response.
pub struct Response {
    status: u16,
    headers: HeaderMap,
    body: String,
}

impl View for Response {
    type V = ResponseView;

    closed spec fn view(&self) -> ResponseView {
        ResponseView { status: self.status, headers: self.headers@, body: self.body@ }
    }
}

/// The response with the given status, no headers and an empty body.
pub open spec fn bare_response(status: u16) -> ResponseView {
    ResponseView { status, headers: Map::empty(), body: Seq::empty() }
}

impl Response {
    /// A response with the given status, no headers and an empty body.
    pub fn new(status: u16) -> (response: Response)
        ensures
            response@ == bare_response(status),
    {
        Response { status, headers: HeaderMap::new(), body: String::new() }
    }

    /// A response with the given status and body, and no headers.
    pub fn with_body(status: u16, body: &str) -> (response: Response)
        ensures
            response@ == (ResponseView { body: body@, ..bare_response(status) }),
    {
        Response { status, headers: HeaderMap::new(), body: body.to_owned() }
    }

    /// Sets the header `name` to `value`.
    pub fn set_header(&mut self, name: &str, value: &str)
        ensures
            final(self)@ == (ResponseView {
                headers: old(self)@.headers.insert(name@, value@),
                ..old(self)@
            }),
    {
        self.headers.insert(name, value);
    }

    /// The response's status.
    pub fn status(&self) -> (status: u16)
        ensures
            status == self@.status,
    {
        self.status
    }

    /// The response's headers.
    pub fn headers(&self) -> (headers: &HeaderMap)
        ensures
            headers@ == self@.headers,
    {
        &self.headers
    }

    /// The response's body.
    pub fn body(&self) -> (body: &str)
        ensures
            body@ == self@.body,
    {
        self.body.as_str()
    }
}

} // verus!
