//! Routes: a path and a method bound to the code that answers them.
use vstd::prelude::*;

use crate::request::Request;
use crate::response::Response;
use crate::text::{str_chars, string_from_chars};

verus! {

/// `std::io::Error`, carried by `Next::Error`.
#[verifier::external_type_specification]
#[verifier::external_body]
pub struct ExIoError(std::io::Error);

/// How the handling of a request goes on after a route.
pub enum Next {
    Next,
    Error(std::io::Error),
}

/// The code that answers a request: it reads the request and fills in the
/// response. Users of the library implement it for their callbacks.
pub trait Handler {
    /// Whether the handler, run on the request `req0` and the response
    /// `res0`, may leave them as `req1` and `res1`.
    spec fn handled(&self, req0: Request, res0: Response, req1: Request, res1: Response) -> bool;

    fn handle(&self, req: &mut Request, res: &mut Response)
        ensures
            self.handled(*old(req), *old(res), *final(req), *final(res)),
    ;
}

/// A route. A middleware route answers every request; any other route
/// answers the requests whose query and method equal its path and method.
#[derive(Clone)]
pub struct Route<H> {
    pub path: String,
    pub method: String,
    pub result: H,
    pub middleware: bool,
}

impl<H: Handler> Route<H> {
    /// A route for `method` requests at `path`.
    pub fn new(path: &str, method: &str, result: H) -> (route: Route<H>)
        ensures
            route.path@ == path@,
            route.method@ == method@,
            route.result == result,
            !route.middleware,
    {
        let path_chars = str_chars(path);
        let method_chars = str_chars(method);
        Route {
            path: string_from_chars(&path_chars),
            method: string_from_chars(&method_chars),
            result,
            middleware: false,
        }
    }

    /// A middleware route: empty path and method, answering every request.
    pub fn middleware(result: H) -> (route: Route<H>)
        ensures
            route.path@.len() == 0,
            route.method@.len() == 0,
            route.result == result,
            route.middleware,
    {
        Route { path: String::new(), method: String::new(), result, middleware: true }
    }

    /// Whether the route runs on a request with this query and method, given
    /// whether a response has already been settled: a middleware route
    /// always runs, any other route only when its path and method match and
    /// no response has been settled.
    pub fn applies(&self, query: &String, method: &String, sent: bool) -> (res: bool)
        ensures
            res == crate::route_applies(*self, query@, method@, sent),
    {
        (self.path == *query && self.method == *method && !sent) || self.middleware
    }

    /// Runs the route's handler on the request and the response.
    pub fn get_result(&self, req: &mut Request, res: &mut Response)
        ensures
            self.result.handled(*old(req), *old(res), *final(req), *final(res)),
    {
        self.result.handle(req, res)
    }

    /// The route as text: its path.
    pub fn to_string(&self) -> (res: String)
        ensures
            res@ == self.path@,
    {
        self.path.clone()
    }
}

} // verus!
