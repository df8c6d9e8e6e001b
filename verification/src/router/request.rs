//! The request that a nested router's own routes take.
use vstd::prelude::*;

use crate::Param;

verus! {

/// A request reduced to its method, query and parameters.
#[derive(Debug)]
pub struct Request {
    pub method: String,
    pub query: String,
    pub params: Vec<Param>,
}

impl Request {
    /// A request with the given method, query and parameters.
    pub fn new(method: String, query: String, params: Vec<Param>) -> (req: Request)
        ensures
            req.method@ == method@,
            req.query@ == query@,
            req.params@ == params@,
    {
        Request { method, query, params }
    }
}

} // verus!
