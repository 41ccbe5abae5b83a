//! Request methods and the response shape the rewriter works on.

use vstd::prelude::*;
use crate::headers::HeaderMap;

verus! {

/// An HTTP request method.
#[derive(Clone, Copy, PartialEq, Eq, Structural, Debug, Hash)]
pub enum Method {
    Options,
    Get,
    Head,
    Post,
    Put,
    Delete,
    Trace,
    Connect,
    Patch,
}

/// The scheme part of a request URL.
#[derive(Clone, Copy, PartialEq, Eq, Structural, Debug)]
pub enum Scheme {
    Http,
    Https,
}

/// A response: status code, headers, and an in-memory body.
pub struct Response {
    pub status: u16,
    pub headers: HeaderMap,
    pub body: Vec<u8>,
}

impl Response {
    pub fn new(status: u16, headers: HeaderMap, body: Vec<u8>) -> (r: Response)
        ensures
            r.status == status,
            r.headers@ == headers@,
            r.body@ == body@,
    {
        Response { status, headers, body }
    }

    pub fn status(&self) -> (r: u16)
        ensures
            r == self.status,
    {
        self.status
    }

    pub fn headers(&self) -> (r: &HeaderMap)
        ensures
            r@ == self.headers@,
    {
        &self.headers
    }

    pub fn body(&self) -> (r: &Vec<u8>)
        ensures
            r@ == self.body@,
    {
        &self.body
    }
}

} // verus!
