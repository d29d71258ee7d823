//! The canonical request and response values that cross the host/engine
//! boundary, and the builder the dispatcher uses to assemble a request.

use vstd::prelude::*;

verus! {

/// View of a list of string pairs (query, path params, headers).
pub open spec fn kvs_view(v: Seq<(String, String)>) -> Seq<(Seq<char>, Seq<char>)> {
    v.map_values(|p: (String, String)| (p.0@, p.1@))
}

/// View of an optional string (a body that is absent or present).
pub open spec fn opt_view(v: Option<String>) -> Option<Seq<char>> {
    match v {
        Option::Some(s) => Option::Some(s@),
        Option::None => Option::None,
    }
}

/// A request handed to a handler: method, full URL, query parameters, path
/// parameters captured from the matched pattern, headers, and an optional
/// UTF-8 body. An absent body and an empty body are distinct.
#[derive(Debug)]
pub struct Req {
    pub method: String,
    pub url: String,
    pub query: Vec<(String, String)>,
    pub params: Vec<(String, String)>,
    pub headers: Vec<(String, String)>,
    pub body: Option<String>,
}

/// Ghost form of `Req`.
pub ghost struct ReqV {
    pub method: Seq<char>,
    pub url: Seq<char>,
    pub query: Seq<(Seq<char>, Seq<char>)>,
    pub params: Seq<(Seq<char>, Seq<char>)>,
    pub headers: Seq<(Seq<char>, Seq<char>)>,
    pub body: Option<Seq<char>>,
}

impl View for Req {
    type V = ReqV;

    open spec fn view(&self) -> ReqV {
        ReqV {
            method: self.method@,
            url: self.url@,
            query: kvs_view(self.query@),
            params: kvs_view(self.params@),
            headers: kvs_view(self.headers@),
            body: opt_view(self.body),
        }
    }
}

/// A response produced by a handler: status code, headers and an optional
/// body. Its invariant is that the status lies in `100..=599`.
#[derive(Debug)]
pub struct Res {
    pub status: u16,
    pub headers: Vec<(String, String)>,
    pub body: Option<String>,
}

/// Ghost form of `Res`.
pub ghost struct ResV {
    pub status: u16,
    pub headers: Seq<(Seq<char>, Seq<char>)>,
    pub body: Option<Seq<char>>,
}

impl View for Res {
    type V = ResV;

    open spec fn view(&self) -> ResV {
        ResV { status: self.status, headers: kvs_view(self.headers@), body: opt_view(self.body) }
    }
}

/// The status invariant every response observes.
pub open spec fn res_status_ok(status: u16) -> bool {
    100 <= status <= 599
}

impl Res {
    /// Build a response from parts whose status is already known valid.
    pub fn new(status: u16, headers: Vec<(String, String)>, body: Option<String>) -> (r: Res)
        requires
            res_status_ok(status),
        ensures
            r@.status == status,
            r@.headers == kvs_view(headers@),
            r@.body == opt_view(body),
    {
        Res { status, headers, body }
    }

    /// Build a response, rejecting a status outside `100..=599`.
    pub fn try_new(status: u16, headers: Vec<(String, String)>, body: Option<String>) -> (r: Option<
        Res,
    >)
        ensures
            r is Some <==> res_status_ok(status),
            r matches Some(res) ==> res@.status == status && res@.headers == kvs_view(headers@)
                && res@.body == opt_view(body),
    {
        if 100 <= status && status <= 599 {
            Option::Some(Res { status, headers, body })
        } else {
            Option::None
        }
    }
}

/// Step-by-step construction of a `Req`; unset parts stay empty or absent.
#[derive(Debug)]
pub struct ReqBuilder {
    pub method: String,
    pub url: String,
    pub query: Vec<(String, String)>,
    pub params: Vec<(String, String)>,
    pub headers: Vec<(String, String)>,
    pub body: Option<String>,
}

impl Req {
    /// Start building a request; every field begins empty or absent.
    pub fn builder() -> (b: ReqBuilder)
        ensures
            b.method@ == Seq::<char>::empty(),
            b.url@ == Seq::<char>::empty(),
            b.query@ == Seq::<(String, String)>::empty(),
            b.params@ == Seq::<(String, String)>::empty(),
            b.headers@ == Seq::<(String, String)>::empty(),
            b.body is None,
    {
        ReqBuilder {
            method: String::new(),
            url: String::new(),
            query: Vec::new(),
            params: Vec::new(),
            headers: Vec::new(),
            body: Option::None,
        }
    }
}

impl ReqBuilder {
    pub fn method(self, method: String) -> (b: ReqBuilder)
        ensures
            b == (ReqBuilder { method, ..self }),
    {
        ReqBuilder { method, ..self }
    }

    pub fn url(self, url: String) -> (b: ReqBuilder)
        ensures
            b == (ReqBuilder { url, ..self }),
    {
        ReqBuilder { url, ..self }
    }

    pub fn query(self, query: Vec<(String, String)>) -> (b: ReqBuilder)
        ensures
            b == (ReqBuilder { query, ..self }),
    {
        ReqBuilder { query, ..self }
    }

    pub fn params(self, params: Vec<(String, String)>) -> (b: ReqBuilder)
        ensures
            b == (ReqBuilder { params, ..self }),
    {
        ReqBuilder { params, ..self }
    }

    pub fn headers(self, headers: Vec<(String, String)>) -> (b: ReqBuilder)
        ensures
            b == (ReqBuilder { headers, ..self }),
    {
        ReqBuilder { headers, ..self }
    }

    pub fn body(self, body: Option<String>) -> (b: ReqBuilder)
        ensures
            b == (ReqBuilder { body, ..self }),
    {
        ReqBuilder { body, ..self }
    }

    /// Finish the construction.
    pub fn build(self) -> (r: Req)
        ensures
            r.method == self.method,
            r.url == self.url,
            r.query == self.query,
            r.params == self.params,
            r.headers == self.headers,
            r.body == self.body,
    {
        Req {
            method: self.method,
            url: self.url,
            query: self.query,
            params: self.params,
            headers: self.headers,
            body: self.body,
        }
    }
}

/// Assemble a request from the parts the HTTP layer extracted: the matched
/// route's captured parameters plus the plain request data.
pub fn assemble_req(
    method: String,
    url: String,
    query: Vec<(String, String)>,
    params: Vec<(String, String)>,
    headers: Vec<(String, String)>,
    body: Option<String>,
) -> (r: Req)
    ensures
        r@.method == method@,
        r@.url == url@,
        r@.query == kvs_view(query@),
        r@.params == kvs_view(params@),
        r@.headers == kvs_view(headers@),
        r@.body == opt_view(body),
{
    Req::builder().method(method).url(url).query(query).params(params).headers(headers).body(
        body,
    ).build()
}

} // verus!
