//! The request, the error kinds, and how each error maps to a status.

use vstd::prelude::*;

verus! {

/// A byte interval: a start and an end, both inclusive; no end means up to
/// the end of the resource.
pub type ByteRange = (u64, Option<u64>);

/// A response, as the bytes that go on the wire.
pub type HttpResponseBytes = Vec<u8>;

/// What can go wrong while answering a request.
#[derive(Debug)]
pub enum Errors {
    NotFound,
    ClientError(String),
    ServerError(String),
    InvalidContentRange,
    InvalidMethod,
}

/// The status code that answers an error.
pub open spec fn status_of(e: Errors) -> u16 {
    match e {
        Errors::NotFound => 404,
        Errors::ClientError(_) => 400,
        Errors::ServerError(_) => 500,
        Errors::InvalidContentRange => 416,
        Errors::InvalidMethod => 405,
    }
}

impl Errors {
    /// The status code that answers this error.
    pub fn status_code(&self) -> (r: u16)
        ensures
            r == status_of(*self),
    {
        match self {
            Errors::NotFound => 404,
            Errors::ClientError(_) => 400,
            Errors::ServerError(_) => 500,
            Errors::InvalidContentRange => 416,
            Errors::InvalidMethod => 405,
        }
    }
}

/// A parsed request. The headers are kept in the order they came; the
/// mapping they stand for lets a later header replace an earlier one of the
/// same name.
pub struct Request {
    pub method: String,
    pub endpoint: String,
    pub headers: Vec<(String, String)>,
    pub range: Option<ByteRange>,
}

pub struct RequestView {
    pub method: Seq<char>,
    pub endpoint: Seq<char>,
    pub headers: Map<Seq<char>, Seq<char>>,
    pub range: Option<ByteRange>,
}

/// The mapping from header name to value that a list of headers stands for,
/// the last of equal names winning.
pub open spec fn header_map(hs: Seq<(String, String)>) -> Map<Seq<char>, Seq<char>>
    decreases hs.len(),
{
    if hs.len() == 0 {
        Map::empty()
    } else {
        header_map(hs.drop_last()).insert(hs.last().0@, hs.last().1@)
    }
}

impl View for Request {
    type V = RequestView;

    open spec fn view(&self) -> RequestView {
        RequestView {
            method: self.method@,
            endpoint: self.endpoint@,
            headers: header_map(self.headers@),
            range: self.range,
        }
    }
}

impl Request {
    pub fn get_method(&self) -> (r: &str)
        ensures
            r@ == self@.method,
    {
        self.method.as_str()
    }

    pub fn get_endpoint(&self) -> (r: &str)
        ensures
            r@ == self@.endpoint,
    {
        self.endpoint.as_str()
    }

    pub fn get_range(&self) -> (r: Option<ByteRange>)
        ensures
            r == self@.range,
    {
        self.range
    }
}

} // verus!
