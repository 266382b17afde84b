//! Dispatching a parsed request, and turning any failure into its error page.

use vstd::prelude::*;
use crate::pages::error_response;
use crate::text::text_eq;
use crate::types::{Errors, HttpResponseBytes, Request, RequestView, status_of};

verus! {

/// Where a request goes: the listing, or the media file that a path names.
pub enum Target {
    Listing,
    Media(String),
}

/// The target of a request, or the status that refuses it: only `GET` is
/// served, `/` is the listing, and every other path is passed on unchanged.
pub open spec fn route_outcome(req: RequestView) -> Result<Option<Seq<char>>, u16> {
    if req.method != "GET"@ {
        Err(405)
    } else if req.endpoint == "/"@ {
        Ok(None)
    } else {
        Ok(Some(req.endpoint))
    }
}

/// Dispatches a request by method and path. The method is checked first, so
/// a request that is not `GET` never reaches the media directory.
pub fn route(request: &Request) -> (r: Result<Target, Errors>)
    ensures
        match route_outcome(request@) {
            Ok(None) => r matches Ok(Target::Listing),
            Ok(Some(path)) => r matches Ok(Target::Media(p)) && p@ == path,
            Err(code) => r is Err && status_of(r->Err_0) == code,
        },
{
    if !text_eq(request.get_method(), "GET") {
        return Err(Errors::InvalidMethod);
    }
    let endpoint = request.get_endpoint();
    if text_eq(endpoint, "/") {
        Ok(Target::Listing)
    } else {
        Ok(Target::Media(endpoint.to_owned()))
    }
}

/// The bytes that answer a request: the response itself, or the error page
/// of whatever went wrong.
pub fn respond(result: Result<HttpResponseBytes, Errors>) -> (r: HttpResponseBytes)
    ensures
        match result {
            Ok(v) => r@ == v@,
            Err(e) => r@ == error_response(status_of(e)),
        },
{
    match result {
        Ok(v) => v,
        Err(e) => e.get_page(),
    }
}

} // verus!
