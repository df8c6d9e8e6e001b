//! A small web framework in the manner of express.js: routes and middleware
//! answer HTTP requests that the server parses from a connection.
pub mod request;
pub mod response;
pub mod route;
pub mod router;
pub mod text;

pub use request::Request;
pub use response::Response;
pub use route::Route;

use vstd::prelude::*;
use vstd::string::StringExecFns;

use crate::route::Handler;
use crate::text::{
    decimal, lemma_split_join, lemma_split_len, lemma_split_single, push_decimal, split,
    split_chars, str_chars, string_from_chars, views,
};

verus! {

/// A `key=value` parameter of a query string.
#[derive(Debug, PartialEq)]
pub struct Param {
    pub key: String,
    pub value: String,
}

impl View for Param {
    type V = (Seq<char>, Seq<char>);

    open spec fn view(&self) -> (Seq<char>, Seq<char>) {
        (self.key@, self.value@)
    }
}

/// The parameter that `s` spells: the text before any `#` must hold
/// exactly one `=`, which separates the key from the value.
pub open spec fn spec_param(s: Seq<char>) -> Option<(Seq<char>, Seq<char>)> {
    let pieces = split(split(s, '#')[0], '=');
    if pieces.len() == 2 {
        Some((pieces[0], pieces[1]))
    } else {
        None
    }
}

impl Param {
    /// Parses `key=value`, ignoring a `#fragment` after it.
    pub fn new(param_string: &str) -> (res: Option<Param>)
        ensures
            match res {
                Some(p) => spec_param(param_string@) == Some(p@),
                None => spec_param(param_string@) is None,
            },
    {
        let chars = str_chars(param_string);
        Param::from_chars(&chars)
    }

    /// `Param::new` on a character sequence.
    pub fn from_chars(s: &Vec<char>) -> (res: Option<Param>)
        ensures
            match res {
                Some(p) => spec_param(s@) == Some(p@),
                None => spec_param(s@) is None,
            },
    {
        let fragment_pieces = split_chars(s, '#');
        proof { lemma_split_len(s@, '#'); }
        let pieces = split_chars(&fragment_pieces[0], '=');
        assert(views(fragment_pieces@)[0] == fragment_pieces@[0]@);
        if pieces.len() != 2 {
            return None;
        }
        assert(views(pieces@)[0] == pieces@[0]@);
        assert(views(pieces@)[1] == pieces@[1]@);
        let key = string_from_chars(&pieces[0]);
        let value = string_from_chars(&pieces[1]);
        Some(Param { key, value })
    }
}

/// The routes of a server, in the order they were added. Each request is
/// offered to them in that order.
pub struct Router<H> {
    pub routes: Vec<Route<H>>,
}

/// Whether `route` is the route for `method` requests at `path` that runs
/// `result`, and is a middleware route exactly when `middleware` holds.
pub open spec fn route_is<H>(
    route: Route<H>,
    path: Seq<char>,
    method: Seq<char>,
    result: H,
    middleware: bool,
) -> bool {
    &&& route.path@ == path
    &&& route.method@ == method
    &&& route.result == result
    &&& route.middleware == middleware
}

/// Whether a route runs on a request with this query and method, given
/// whether a response has already been settled: a middleware route always
/// runs, any other route only when its path and method match and no
/// response has been settled.
pub open spec fn route_applies<H>(route: Route<H>, query: Seq<char>, method: Seq<char>, sent: bool) -> bool {
    (route.path@ == query && route.method@ == method && !sent) || route.middleware
}

/// One route's turn: from `before` to `after`, each a request, a response
/// and whether the response is settled. A route that does not apply leaves
/// all three as they are; one that applies runs its handler, which leaves
/// the request and the response as `handled` allows, and the response is
/// settled from then on unless the handler left it marked `next`.
pub open spec fn dispatch_step<H: Handler>(
    route: Route<H>,
    before: (Request, Response, bool),
    after: (Request, Response, bool),
) -> bool {
    if route_applies(route, before.0.query@, before.0.method@, before.2) {
        &&& route.result.handled(before.0, before.1, after.0, after.1)
        &&& after.2 == (before.2 || !after.1.next)
    } else {
        after == before
    }
}

/// Whether `trace` holds the states before and after each route's turn.
pub open spec fn dispatch_trace<H: Handler>(routes: Seq<Route<H>>, trace: Seq<(Request, Response, bool)>) -> bool {
    &&& trace.len() == routes.len() + 1
    &&& forall|i: int| 0 <= i < routes.len() ==> #[trigger] dispatch_step(routes[i], trace[i], trace[i + 1])
}

/// The header lines of a response, each followed by CRLF.
pub open spec fn headers_block(headers: Seq<String>) -> Seq<char>
    decreases headers.len(),
{
    if headers.len() == 0 {
        Seq::empty()
    } else {
        headers_block(headers.drop_last()) + headers.last()@ + "\r\n"@
    }
}

/// The head of `response` as the server sends it, with the given content type.
pub open spec fn spec_response_head(content_type: Seq<char>, response: Response) -> Seq<char> {
    "HTTP/1.1 "@ + response.code.spec_as_str() + "\r\nContent-Type: "@ + content_type
        + "\r\nContent-Length: "@ + decimal(response.contents@.len()) + "\r\n"@
        + headers_block(response.headers@) + "\r\n"@
}

impl<H: Handler> Router<H> {
    /// A router without routes.
    pub fn new() -> (router: Router<H>)
        ensures
            router.routes@.len() == 0,
    {
        Router { routes: Vec::new() }
    }

    /// Adds a route for requests with an empty method at `path`.
    pub fn route(&mut self, path: &str, result: H)
        ensures
            final(self).routes@ == old(self).routes@.push(final(self).routes@.last()),
            route_is(final(self).routes@.last(), path@, Seq::empty(), result, false),
    {
        let new_route = Route::new(path, "", result);
        self.routes.push(new_route);
        proof {
            reveal_strlit("");
            assert(self.routes@.last().method@ =~= Seq::<char>::empty());
        }
    }

    /// Adds a route for `GET` requests at `path`.
    pub fn get(&mut self, path: &str, result: H)
        ensures
            final(self).routes@ == old(self).routes@.push(final(self).routes@.last()),
            route_is(final(self).routes@.last(), path@, "GET"@, result, false),
    {
        let new_route = Route::new(path, "GET", result);
        self.routes.push(new_route);
    }

    /// Adds a route for `POST` requests at `path`.
    pub fn post(&mut self, path: &str, result: H)
        ensures
            final(self).routes@ == old(self).routes@.push(final(self).routes@.last()),
            route_is(final(self).routes@.last(), path@, "POST"@, result, false),
    {
        let new_route = Route::new(path, "POST", result);
        self.routes.push(new_route);
    }

    /// Adds a route for `PUT` requests at `path`.
    pub fn put(&mut self, path: &str, result: H)
        ensures
            final(self).routes@ == old(self).routes@.push(final(self).routes@.last()),
            route_is(final(self).routes@.last(), path@, "PUT"@, result, false),
    {
        let new_route = Route::new(path, "PUT", result);
        self.routes.push(new_route);
    }

    /// Adds a route for `DELETE` requests at `path`.
    pub fn delete(&mut self, path: &str, result: H)
        ensures
            final(self).routes@ == old(self).routes@.push(final(self).routes@.last()),
            route_is(final(self).routes@.last(), path@, "DELETE"@, result, false),
    {
        let new_route = Route::new(path, "DELETE", result);
        self.routes.push(new_route);
    }

    /// Adds a middleware route, which runs on every request.
    pub fn use_middleware(&mut self, result: H)
        ensures
            final(self).routes@ == old(self).routes@.push(final(self).routes@.last()),
            route_is(final(self).routes@.last(), Seq::empty(), Seq::empty(), result, true),
    {
        let new_middleware = Route::middleware(result);
        self.routes.push(new_middleware);
        assert(self.routes@.last().method@ =~= Seq::<char>::empty());
        assert(self.routes@.last().path@ =~= Seq::<char>::empty());
    }

    /// Offers a parsed request to the routes in order (see `dispatch_step`),
    /// and returns whether the response was settled.
    pub fn handle_client(routes: &Vec<Route<H>>, req: &mut Request, res: &mut Response) -> (sent: bool)
        ensures
            exists|trace: Seq<(Request, Response, bool)>|
                #[trigger] dispatch_trace(routes@, trace)
                && trace[0] == (*old(req), *old(res), false)
                && trace.last() == (*final(req), *final(res), sent),
    {
        let mut res_sent = false;
        let ghost first = (*req, *res, false);
        let ghost mut trace: Seq<(Request, Response, bool)> = seq![first];
        let mut i: usize = 0;
        while i < routes.len()
            invariant
                i <= routes.len(),
                dispatch_trace(routes@.subrange(0, i as int), trace),
                trace[0] == first,
                trace.last() == (*req, *res, res_sent),
            decreases routes.len() - i,
        {
            let route = &routes[i];
            let ghost before = (*req, *res, res_sent);
            if route.applies(&req.query, &req.method, res_sent) {
                route.get_result(req, res);
                if !res.next {
                    res_sent = true;
                }
            }
            proof {
                let ghost prev = trace;
                trace = trace.push((*req, *res, res_sent));
                assert(dispatch_step(routes@[i as int], before, (*req, *res, res_sent)));
                assert forall|j: int| 0 <= j < i + 1 implies #[trigger] dispatch_step(
                    routes@.subrange(0, i + 1)[j],
                    trace[j],
                    trace[j + 1],
                ) by {
                    if j < i {
                        assert(routes@.subrange(0, i + 1)[j] == routes@.subrange(0, i as int)[j]);
                        assert(dispatch_step(routes@.subrange(0, i as int)[j], prev[j], prev[j + 1]));
                    }
                }
            }
            i = i + 1;
        }
        assert(routes@.subrange(0, routes.len() as int) =~= routes@);
        assert(dispatch_trace(routes@, trace));
        res_sent
    }

    /// The head of `response` with the given content type: the status line,
    /// the content type and length, the response's own header lines, and the
    /// blank line before the body.
    pub fn response_head(content_type: &str, response: &Response) -> (head: String)
        ensures
            head@ == spec_response_head(content_type@, *response),
    {
        let mut out = String::new();
        out.append("HTTP/1.1 ");
        out.append(response.code.as_str());
        out.append("\r\nContent-Type: ");
        out.append(content_type);
        out.append("\r\nContent-Length: ");
        let mut len_chars: Vec<char> = Vec::new();
        push_decimal(response.contents.len(), &mut len_chars);
        let len_string = string_from_chars(&len_chars);
        out.append(len_string.as_str());
        out.append("\r\n");
        let ghost head_start = out@;
        let mut i: usize = 0;
        while i < response.headers.len()
            invariant
                i <= response.headers.len(),
                out@ == head_start + headers_block(response.headers@.subrange(0, i as int)),
            decreases response.headers.len() - i,
        {
            assert(response.headers@.subrange(0, i + 1).drop_last() =~= response.headers@.subrange(0, i as int));
            out.append(response.headers[i].as_str());
            out.append("\r\n");
            i = i + 1;
        }
        assert(response.headers@.subrange(0, response.headers.len() as int) =~= response.headers@);
        out.append("\r\n");
        out
    }
}

/// `key=value` spells the parameter `(key, value)` when neither side holds
/// `=` or `#`.
pub proof fn law_param_round_trip(key: Seq<char>, value: Seq<char>)
    requires
        !key.contains('='),
        !key.contains('#'),
        !value.contains('='),
        !value.contains('#'),
    ensures
        spec_param(key + seq!['='] + value) == Some((key, value)),
{
    let s = key + seq!['='] + value;
    assert(!s.contains('#')) by {
        if s.contains('#') {
            let i = choose|i: int| 0 <= i < s.len() && s[i] == '#';
            if i < key.len() {
                assert(key[i] == '#');
            } else if i > key.len() {
                assert(value[i - key.len() - 1] == '#');
            }
        }
    }
    lemma_split_single(s, '#');
    lemma_split_join(key, value, '=');
    lemma_split_single(key, '=');
    lemma_split_single(value, '=');
}

/// A `#fragment` after a parameter does not change it.
pub proof fn law_param_ignores_fragment(s: Seq<char>, fragment: Seq<char>)
    requires
        !s.contains('#'),
    ensures
        spec_param(s + seq!['#'] + fragment) == spec_param(s),
{
    lemma_split_join(s, fragment, '#');
    lemma_split_single(s, '#');
    lemma_split_len(fragment, '#');
}

/// A response without header lines of its own has the head that
/// `header_string` writes, when sent as HTML.
pub proof fn law_header_string_is_response_head(r: Response)
    requires
        r.headers@.len() == 0,
    ensures
        crate::response::spec_header_string(r.code, r.contents@.len())
            == spec_response_head("text/html"@, r),
{
    reveal_strlit("\r\nContent-Type: text/html\r\nContent-Length: ");
    reveal_strlit("\r\nContent-Type: ");
    reveal_strlit("text/html");
    reveal_strlit("\r\nContent-Length: ");
    reveal_strlit("\r\n\r\n");
    reveal_strlit("\r\n");
    assert(headers_block(r.headers@) =~= Seq::<char>::empty());
    assert("\r\nContent-Type: text/html\r\nContent-Length: "@ =~= "\r\nContent-Type: "@ + "text/html"@
        + "\r\nContent-Length: "@);
    assert("\r\n\r\n"@ =~= "\r\n"@ + "\r\n"@);
    assert(crate::response::spec_header_string(r.code, r.contents@.len()) =~= spec_response_head(
        "text/html"@,
        r,
    ));
}

/// A middleware route runs on every request, settled or not.
pub proof fn law_middleware_always_applies<H>(route: Route<H>, query: Seq<char>, method: Seq<char>, sent: bool)
    requires
        route.middleware,
    ensures
        route_applies(route, query, method, sent),
{
}

/// Once the response is settled, no route but a middleware route runs.
pub proof fn law_settled_skips_routes<H>(route: Route<H>, query: Seq<char>, method: Seq<char>)
    requires
        !route.middleware,
    ensures
        !route_applies(route, query, method, true),
{
}

/// Along a dispatch, a settled response stays settled.
pub proof fn law_settled_stays_settled<H: Handler>(
    routes: Seq<Route<H>>,
    trace: Seq<(Request, Response, bool)>,
    i: int,
    j: int,
)
    requires
        dispatch_trace(routes, trace),
        0 <= i <= j < trace.len(),
        trace[i].2,
    ensures
        trace[j].2,
    decreases j - i,
{
    if i < j {
        assert(dispatch_step(routes[i], trace[i], trace[i + 1]));
        law_settled_stays_settled(routes, trace, i + 1, j);
    }
}

/// When no route applies to the request as it comes in, dispatch leaves the
/// request, the response and the settled flag as they were.
pub proof fn law_dispatch_without_match<H: Handler>(routes: Seq<Route<H>>, trace: Seq<(Request, Response, bool)>)
    requires
        dispatch_trace(routes, trace),
        forall|i: int|
            0 <= i < routes.len() ==> !route_applies(
                #[trigger] routes[i],
                trace[0].0.query@,
                trace[0].0.method@,
                trace[0].2,
            ),
    ensures
        trace.last() == trace[0],
{
    lemma_dispatch_unchanged_upto(routes, trace, routes.len() as int);
}

proof fn lemma_dispatch_unchanged_upto<H: Handler>(routes: Seq<Route<H>>, trace: Seq<(Request, Response, bool)>, k: int)
    requires
        dispatch_trace(routes, trace),
        0 <= k <= routes.len(),
        forall|i: int|
            0 <= i < routes.len() ==> !route_applies(
                #[trigger] routes[i],
                trace[0].0.query@,
                trace[0].0.method@,
                trace[0].2,
            ),
    ensures
        trace[k] == trace[0],
    decreases k,
{
    if k > 0 {
        lemma_dispatch_unchanged_upto(routes, trace, k - 1);
        let j = k - 1;
        assert(dispatch_step(routes[j], trace[j], trace[j + 1]));
    }
}

/// A route that is not middleware runs only on a request whose query is
/// exactly its path and whose method is exactly its method, while no
/// response is settled; a route whose path merely begins the query, or
/// whose method differs, does not run.
pub proof fn law_route_applies_only_on_exact_match<H>(
    route: Route<H>,
    query: Seq<char>,
    method: Seq<char>,
    sent: bool,
)
    requires
        !route.middleware,
    ensures
        route_applies(route, query, method, sent) <==> (route.path@ == query && route.method@ == method
            && !sent),
        route.path@ != query ==> !route_applies(route, query, method, sent),
        route.method@ != method ==> !route_applies(route, query, method, sent),
{
}

/// In a dispatch, the turn of a route that is not middleware and whose
/// path or method differs from the request's leaves everything as it was.
pub proof fn law_other_route_leaves_state<H: Handler>(
    route: Route<H>,
    before: (Request, Response, bool),
    after: (Request, Response, bool),
)
    requires
        dispatch_step(route, before, after),
        !route.middleware,
        route.path@ != before.0.query@ || route.method@ != before.0.method@,
    ensures
        after == before,
{
}

} // verus!
