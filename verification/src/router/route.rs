//! A route whose code takes a request and gives back a response.
use vstd::prelude::*;

use super::request::Request;
use crate::response::Response;

verus! {

/// The code behind such a route: it answers a request with a response or
/// an I/O error. Users of the library implement it for their callbacks.
pub trait Endpoint {
    /// Whether `r` is an answer the endpoint may give to `req`.
    spec fn answers(&self, req: Request, r: Result<Response, std::io::Error>) -> bool;

    fn call(&self, req: Request) -> (r: Result<Response, std::io::Error>)
        ensures
            self.answers(req, r),
    ;
}

/// A path bound to the code that answers it.
pub struct Route<E> {
    pub path: String,
    pub result: E,
}

impl<E: Endpoint> Route<E> {
    /// A route at `path`.
    pub fn new(path: &str, result: E) -> (route: Route<E>)
        ensures
            route.path@ == path@,
            route.result == result,
    {
        let chars = crate::text::str_chars(path);
        Route { path: crate::text::string_from_chars(&chars), result }
    }

    /// Answers `req` with the route's code, handing the request to it as it
    /// is and returning its answer as it is.
    pub fn get_result(&self, req: Request) -> (r: Result<Response, std::io::Error>)
        ensures
            self.result.answers(req, r),
    {
        self.result.call(req)
    }
}

} // verus!
