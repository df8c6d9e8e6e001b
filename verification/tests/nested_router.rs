use std::cell::RefCell;
use std::rc::Rc;

use wind::response::HTTPCodes;
use wind::route::Handler;
use wind::router::request::Request as PlainRequest;
use wind::router::route::{Endpoint, Route as PlainRoute};
use wind::router::Router;
use wind::{Param, Request, Response};

#[derive(Clone)]
struct Probe {
    name: &'static str,
    log: Rc<RefCell<Vec<&'static str>>>,
}

impl Handler for Probe {
    fn handled(&self, _req0: Request, _res0: Response, _req1: Request, _res1: Response) -> bool {
        true
    }

    fn handle(&self, _req: &mut Request, res: &mut Response) {
        self.log.borrow_mut().push(self.name);
        res.send(HTTPCodes::OK, Vec::from(self.name));
    }
}

fn probe(log: &Rc<RefCell<Vec<&'static str>>>, name: &'static str) -> Probe {
    Probe { name, log: log.clone() }
}

fn get_request() -> Request {
    let mut req = Request::default();
    req.method = String::from("GET");
    req
}

#[test]
fn nested_router_answers_below_its_root() {
    let log = Rc::new(RefCell::new(Vec::new()));
    let mut inner = Router::new("/route");
    inner.get("/new_route", probe(&log, "inner"));
    let mut outer = Router::new("/");
    outer.use_router(inner);
    outer.get("/new_route", probe(&log, "outer"));
    let mut req = get_request();
    let mut res = Response::empty();
    let sent = outer.handle_client(String::from("/route/new_route"), &mut req, &mut res);
    assert!(sent);
    assert_eq!(*log.borrow(), vec!["inner"]);
    assert_eq!(res.contents, Vec::from("inner"));
}

#[test]
fn outer_route_answers_its_own_path() {
    let log = Rc::new(RefCell::new(Vec::new()));
    let mut inner = Router::new("/route");
    inner.get("/new_route", probe(&log, "inner"));
    let mut outer = Router::new("/");
    outer.use_router(inner);
    outer.get("/new_route", probe(&log, "outer"));
    let mut req = get_request();
    let mut res = Response::empty();
    assert!(outer.handle_client(String::from("/new_route"), &mut req, &mut res));
    assert_eq!(*log.borrow(), vec!["outer"]);
}

#[test]
fn router_without_routes_still_offers_nested_routers() {
    let log = Rc::new(RefCell::new(Vec::new()));
    let mut inner = Router::new("/r");
    inner.get("/x", probe(&log, "inner"));
    let mut outer: Router<Probe> = Router::new("/");
    outer.use_router(inner);
    let mut req = get_request();
    let mut res = Response::empty();
    assert!(outer.handle_client(String::from("/r/x"), &mut req, &mut res));
    assert_eq!(*log.borrow(), vec!["inner"]);
}

#[test]
fn nested_router_is_offered_the_request_once() {
    let log = Rc::new(RefCell::new(Vec::new()));
    let mut inner = Router::new("/r");
    inner.use_middleware(probe(&log, "inner"));
    let mut outer = Router::new("/");
    outer.use_router(inner);
    outer.use_middleware(probe(&log, "a"));
    outer.use_middleware(probe(&log, "b"));
    let mut req = get_request();
    let mut res = Response::empty();
    outer.handle_client(String::from("/r/x"), &mut req, &mut res);
    assert_eq!(*log.borrow(), vec!["inner", "a", "b"]);
}

#[test]
fn nested_router_below_another_root_is_skipped() {
    let log = Rc::new(RefCell::new(Vec::new()));
    let mut inner = Router::new("/r");
    inner.use_middleware(probe(&log, "inner"));
    let mut outer: Router<Probe> = Router::new("/");
    outer.use_router(inner);
    let mut req = get_request();
    let mut res = Response::empty();
    assert!(!outer.handle_client(String::from("/s/x"), &mut req, &mut res));
    assert!(log.borrow().is_empty());
    assert_eq!(res, Response::empty());
}

#[test]
fn nested_registration() {
    let log = Rc::new(RefCell::new(Vec::new()));
    let mut r = Router::new("/api");
    r.post("/a", probe(&log, "a"));
    r.put("/b", probe(&log, "b"));
    r.delete("/c", probe(&log, "c"));
    r.use_middleware(probe(&log, "m"));
    assert_eq!(r.root, "/api");
    let methods: Vec<String> = r.routes.iter().map(|x| x.method.clone()).collect();
    assert_eq!(methods, vec!["POST", "PUT", "DELETE", ""]);
    assert!(r.routes[3].middleware);
}

struct Echo;
impl Endpoint for Echo {
    fn answers(&self, _req: PlainRequest, _r: Result<Response, std::io::Error>) -> bool {
        true
    }

    fn call(&self, req: PlainRequest) -> Result<Response, std::io::Error> {
        Ok(Response::ok(req.query.into_bytes()))
    }
}

#[test]
fn plain_route_answers_with_its_endpoint() {
    let route = PlainRoute::new("/echo", Echo);
    assert_eq!(route.path, "/echo");
    let params = vec![Param { key: String::from("k"), value: String::from("v") }];
    let req = PlainRequest::new(String::from("GET"), String::from("/echo"), params);
    assert_eq!(req.method, "GET");
    assert_eq!(req.params.len(), 1);
    let res = route.get_result(req).unwrap();
    assert_eq!(res.contents, Vec::from("/echo"));
}
