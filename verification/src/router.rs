//! Routers that group routes under a root path and can be nested: a
//! request whose query begins with a nested router's root is offered to
//! that router with the root cut off.
pub mod request;
pub mod route;

use vstd::prelude::*;

use crate::request::Request;
use crate::response::Response;
use crate::route::{Handler, Route};
use crate::text::{starts_with_str, str_chars, string_from_chars};
use crate::{route_applies, route_is};

verus! {

/// Routes under a root path, and the routers nested in it.
pub struct Router<H> {
    pub routes: Vec<Route<H>>,
    pub routers: Vec<Router<H>>,
    pub root: String,
}

/// A route's own turn in a nested dispatch: as `dispatch_step`, but the
/// route's path is held against the query the router was given.
pub open spec fn nested_route_step<H: Handler>(
    route: Route<H>,
    query: Seq<char>,
    before: (Request, Response, bool),
    after: (Request, Response, bool),
) -> bool {
    if route_applies(route, query, before.0.method@, before.2) {
        &&& route.result.handled(before.0, before.1, after.0, after.1)
        &&& after.2 == (before.2 || !after.1.next)
    } else {
        after == before
    }
}

/// Whether `trace` holds the states before and after each route's own turn.
pub open spec fn routes_trace<H: Handler>(
    routes: Seq<Route<H>>,
    query: Seq<char>,
    trace: Seq<(Request, Response, bool)>,
) -> bool {
    &&& trace.len() == routes.len() + 1
    &&& forall|i: int|
        0 <= i < routes.len() ==> #[trigger] nested_route_step(routes[i], query, trace[i], trace[i + 1])
}

/// A nested router's turn: when its root begins the query, it handles the
/// rest of the query, and what it says of the response is what is settled
/// then; otherwise nothing changes.
pub open spec fn sub_router_step<H: Handler>(
    router: Router<H>,
    query: Seq<char>,
    before: (Request, Response, bool),
    after: (Request, Response, bool),
) -> bool
    decreases router, 1int,
{
    if router.root@.is_prefix_of(query) {
        router_handles(router, query.skip(router.root@.len() as int), (before.0, before.1), after)
    } else {
        after == before
    }
}

/// Whether `router`, given a request for `query` with the state `start`,
/// may end in `end` (a request, a response and whether the response is
/// settled): first each nested router whose root begins the query handles
/// the rest of the query, in order, once; then each route has its own turn
/// (see `nested_route_step`).
pub open spec fn router_handles<H: Handler>(
    router: Router<H>,
    query: Seq<char>,
    start: (Request, Response),
    end: (Request, Response, bool),
) -> bool
    decreases router, 0int,
{
    exists|subs: Seq<(Request, Response, bool)>, own: Seq<(Request, Response, bool)>|
        #![trigger routes_trace(router.routes@, query, own), subs[0]]
        {
            &&& subs.len() == router.routers@.len() + 1
            &&& subs[0] == (start.0, start.1, false)
            &&& forall|j: int|
                0 <= j < router.routers@.len() ==> sub_router_step(
                    #[trigger] router.routers@[j],
                    query,
                    subs[j],
                    subs[j + 1],
                )
            &&& routes_trace(router.routes@, query, own)
            &&& own[0] == subs.last()
            &&& own.last() == end
        }
}

impl<H: Handler> Router<H> {
    /// A router for the paths under `root`, which begins with `/`.
    pub fn new(root: &str) -> (router: Router<H>)
        requires
            "/"@.is_prefix_of(root@),
        ensures
            router.root@ == root@,
            router.routes@.len() == 0,
            router.routers@.len() == 0,
    {
        let chars = str_chars(root);
        Router { root: string_from_chars(&chars), routes: Vec::new(), routers: Vec::new() }
    }

    /// Adds a route for `GET` requests at `path`, which begins with `/`.
    pub fn get(&mut self, path: &str, result: H)
        requires
            "/"@.is_prefix_of(path@),
        ensures
            final(self).routes@ == old(self).routes@.push(final(self).routes@.last()),
            route_is(final(self).routes@.last(), path@, "GET"@, result, false),
            final(self).routers@ == old(self).routers@,
            final(self).root@ == old(self).root@,
    {
        let new_route = Route::new(path, "GET", result);
        self.routes.push(new_route);
    }

    /// Adds a route for `POST` requests at `path`, which begins with `/`.
    pub fn post(&mut self, path: &str, result: H)
        requires
            "/"@.is_prefix_of(path@),
        ensures
            final(self).routes@ == old(self).routes@.push(final(self).routes@.last()),
            route_is(final(self).routes@.last(), path@, "POST"@, result, false),
            final(self).routers@ == old(self).routers@,
            final(self).root@ == old(self).root@,
    {
        let new_route = Route::new(path, "POST", result);
        self.routes.push(new_route);
    }

    /// Adds a route for `PUT` requests at `path`, which begins with `/`.
    pub fn put(&mut self, path: &str, result: H)
        requires
            "/"@.is_prefix_of(path@),
        ensures
            final(self).routes@ == old(self).routes@.push(final(self).routes@.last()),
            route_is(final(self).routes@.last(), path@, "PUT"@, result, false),
            final(self).routers@ == old(self).routers@,
            final(self).root@ == old(self).root@,
    {
        let new_route = Route::new(path, "PUT", result);
        self.routes.push(new_route);
    }

    /// Adds a route for `DELETE` requests at `path`, which begins with `/`.
    pub fn delete(&mut self, path: &str, result: H)
        requires
            "/"@.is_prefix_of(path@),
        ensures
            final(self).routes@ == old(self).routes@.push(final(self).routes@.last()),
            route_is(final(self).routes@.last(), path@, "DELETE"@, result, false),
            final(self).routers@ == old(self).routers@,
            final(self).root@ == old(self).root@,
    {
        let new_route = Route::new(path, "DELETE", result);
        self.routes.push(new_route);
    }

    /// Adds a middleware route, which runs on every request.
    pub fn use_middleware(&mut self, result: H)
        ensures
            final(self).routes@ == old(self).routes@.push(final(self).routes@.last()),
            route_is(final(self).routes@.last(), Seq::empty(), Seq::empty(), result, true),
            final(self).routers@ == old(self).routers@,
            final(self).root@ == old(self).root@,
    {
        let new_middleware = Route::middleware(result);
        self.routes.push(new_middleware);
        assert(self.routes@.last().method@ =~= Seq::<char>::empty());
        assert(self.routes@.last().path@ =~= Seq::<char>::empty());
    }

    /// Nests `router` in this one.
    pub fn use_router(&mut self, router: Router<H>)
        ensures
            final(self).routers@ == old(self).routers@.push(router),
            final(self).routes@ == old(self).routes@,
            final(self).root@ == old(self).root@,
    {
        self.routers.push(router);
    }

    /// Offers a request for `query`: first to each nested router whose root
    /// begins the query, once and in order, with the root cut off (the last
    /// of them says whether the response is settled), then to the routes in
    /// order. Returns whether the response is settled at the end (see
    /// `router_handles`).
    pub fn handle_client(&self, query: String, req: &mut Request, res: &mut Response) -> (sent: bool)
        ensures
            router_handles(*self, query@, (*old(req), *old(res)), (*final(req), *final(res), sent)),
        decreases self,
    {
        let ghost start = (*req, *res);
        let mut res_sent = false;
        let query_chars = str_chars(query.as_str());
        let ghost mut subs: Seq<(Request, Response, bool)> = seq![(*req, *res, false)];
        let mut j: usize = 0;
        while j < self.routers.len()
            invariant
                j <= self.routers.len(),
                query_chars@ == query@,
                subs.len() == j + 1,
                subs[0] == (start.0, start.1, false),
                subs.last() == (*req, *res, res_sent),
                forall|k: int|
                    0 <= k < j ==> sub_router_step(
                        #[trigger] self.routers@[k],
                        query@,
                        subs[k],
                        subs[k + 1],
                    ),
            decreases self.routers.len() - j,
        {
            let router = &self.routers[j];
            let ghost before = (*req, *res, res_sent);
            if starts_with_str(&query_chars, router.root.as_str()) {
                let root_len = str_chars(router.root.as_str()).len();
                let mut rest: Vec<char> = Vec::new();
                let mut k: usize = root_len;
                while k < query_chars.len()
                    invariant
                        root_len <= k <= query_chars.len(),
                        rest@ == query_chars@.subrange(root_len as int, k as int),
                    decreases query_chars.len() - k,
                {
                    rest.push(query_chars[k]);
                    k = k + 1;
                }
                let sheared_query = string_from_chars(&rest);
                assert(sheared_query@ =~= query@.skip(router.root@.len() as int));
                proof {
                    assert(decreases_to!(self => self.routers));
                    assert(decreases_to!(self.routers => self.routers@));
                    assert(decreases_to!(self.routers@ => self.routers@[j as int]));
                }
                res_sent = router.handle_client(sheared_query, req, res);
            }
            proof {
                let ghost prev = subs;
                let ghost after = (*req, *res, res_sent);
                assert(sub_router_step(self.routers@[j as int], query@, before, after));
                subs = subs.push(after);
                assert forall|k: int| 0 <= k < j + 1 implies sub_router_step(
                    #[trigger] self.routers@[k],
                    query@,
                    subs[k],
                    subs[k + 1],
                ) by {
                    if k < j {
                        assert(subs[k] == prev[k] && subs[k + 1] == prev[k + 1]);
                    }
                }
            }
            j = j + 1;
        }
        let ghost mut own: Seq<(Request, Response, bool)> = seq![(*req, *res, res_sent)];
        let mut i: usize = 0;
        while i < self.routes.len()
            invariant
                i <= self.routes.len(),
                routes_trace(self.routes@.subrange(0, i as int), query@, own),
                own[0] == subs.last(),
                own.last() == (*req, *res, res_sent),
            decreases self.routes.len() - i,
        {
            let route = &self.routes[i];
            let ghost before = (*req, *res, res_sent);
            if route.applies(&query, &req.method, res_sent) {
                route.get_result(req, res);
                if !res.next {
                    res_sent = true;
                }
            }
            proof {
                let ghost prev = own;
                let ghost after = (*req, *res, res_sent);
                assert(nested_route_step(self.routes@[i as int], query@, before, after));
                own = own.push(after);
                let rs = self.routes@.subrange(0, i + 1);
                assert forall|m: int| 0 <= m < i + 1 implies #[trigger] nested_route_step(
                    rs[m],
                    query@,
                    own[m],
                    own[m + 1],
                ) by {
                    if m < i {
                        assert(rs[m] == self.routes@.subrange(0, i as int)[m]);
                        assert(nested_route_step(self.routes@.subrange(0, i as int)[m], query@, prev[m], prev[m + 1]));
                    }
                }
            }
            i = i + 1;
        }
        assert(self.routes@.subrange(0, self.routes.len() as int) =~= self.routes@);
        assert(routes_trace(self.routes@, query@, own));
        assert(subs[0] == (start.0, start.1, false));
        assert(router_handles(*self, query@, start, (*req, *res, res_sent)));
        res_sent
    }
}

/// In a nested router, the turn of a route that is not middleware and whose
/// method differs from the request's, or whose path differs from the query,
/// leaves everything as it was.
pub proof fn law_nested_other_route_leaves_state<H: Handler>(
    route: Route<H>,
    query: Seq<char>,
    before: (Request, Response, bool),
    after: (Request, Response, bool),
)
    requires
        nested_route_step(route, query, before, after),
        !route.middleware,
        route.path@ != query || route.method@ != before.0.method@,
    ensures
        after == before,
{
}

proof fn lemma_routes_trace_unchanged<H: Handler>(
    routes: Seq<Route<H>>,
    query: Seq<char>,
    trace: Seq<(Request, Response, bool)>,
    k: int,
)
    requires
        routes_trace(routes, query, trace),
        0 <= k <= routes.len(),
        forall|i: int|
            0 <= i < routes.len() ==> !(#[trigger] routes[i]).middleware && (routes[i].path@ != query
                || routes[i].method@ != trace[0].0.method@),
    ensures
        trace[k] == trace[0],
    decreases k,
{
    if k > 0 {
        lemma_routes_trace_unchanged(routes, query, trace, k - 1);
        let j = k - 1;
        assert(nested_route_step(routes[j], query, trace[j], trace[j + 1]));
    }
}

proof fn lemma_subs_unchanged<H: Handler>(
    routers: Seq<Router<H>>,
    query: Seq<char>,
    subs: Seq<(Request, Response, bool)>,
    k: int,
)
    requires
        subs.len() == routers.len() + 1,
        0 <= k <= routers.len(),
        forall|j: int|
            0 <= j < routers.len() ==> sub_router_step(#[trigger] routers[j], query, subs[j], subs[j + 1]),
        forall|j: int| 0 <= j < routers.len() ==> !(#[trigger] routers[j]).root@.is_prefix_of(query),
    ensures
        subs[k] == subs[0],
    decreases k,
{
    if k > 0 {
        lemma_subs_unchanged(routers, query, subs, k - 1);
        let j = k - 1;
        assert(sub_router_step(routers[j], query, subs[j], subs[j + 1]));
    }
}

/// A router none of whose nested routers has a root that begins the query,
/// and none of whose routes is middleware or has both the query as path and
/// the request's method, leaves the request and the response as they were
/// and settles nothing: a route for another method or another path never
/// runs.
pub proof fn law_nested_without_match<H: Handler>(
    router: Router<H>,
    query: Seq<char>,
    start: (Request, Response),
    end: (Request, Response, bool),
)
    requires
        router_handles(router, query, start, end),
        forall|j: int|
            0 <= j < router.routers@.len() ==> !(#[trigger] router.routers@[j]).root@.is_prefix_of(query),
        forall|i: int|
            0 <= i < router.routes@.len() ==> !(#[trigger] router.routes@[i]).middleware && (
            router.routes@[i].path@ != query || router.routes@[i].method@ != start.0.method@),
    ensures
        end == (start.0, start.1, false),
{
    let (subs, own) = choose|subs: Seq<(Request, Response, bool)>, own: Seq<(Request, Response, bool)>|
        #![trigger routes_trace(router.routes@, query, own), subs[0]]
        {
            &&& subs.len() == router.routers@.len() + 1
            &&& subs[0] == (start.0, start.1, false)
            &&& forall|j: int|
                0 <= j < router.routers@.len() ==> sub_router_step(
                    #[trigger] router.routers@[j],
                    query,
                    subs[j],
                    subs[j + 1],
                )
            &&& routes_trace(router.routes@, query, own)
            &&& own[0] == subs.last()
            &&& own.last() == end
        };
    lemma_subs_unchanged(router.routers@, query, subs, router.routers@.len() as int);
    lemma_routes_trace_unchanged(router.routes@, query, own, router.routes@.len() as int);
}

} // verus!
