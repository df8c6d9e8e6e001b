use std::cell::RefCell;
use std::rc::Rc;

use wind::response::HTTPCodes;
use wind::route::{Handler, Next};
use wind::{Request, Response, Route, Router};

/// Records its name when it runs; writes its name as the body, and leaves
/// the response open for the next route when `pass` is set.
#[derive(Clone)]
struct Probe {
    name: &'static str,
    pass: bool,
    log: Rc<RefCell<Vec<&'static str>>>,
}

impl Handler for Probe {
    fn handled(&self, _req0: Request, _res0: Response, _req1: Request, _res1: Response) -> bool {
        true
    }

    fn handle(&self, _req: &mut Request, res: &mut Response) {
        self.log.borrow_mut().push(self.name);
        res.send(HTTPCodes::OK, Vec::from(self.name));
        res.next = self.pass;
    }
}

fn probe(log: &Rc<RefCell<Vec<&'static str>>>, name: &'static str, pass: bool) -> Probe {
    Probe { name, pass, log: log.clone() }
}

fn request(method: &str, query: &str) -> Request {
    let mut req = Request::default();
    req.method = String::from(method);
    req.query = String::from(query);
    req
}

#[test]
fn registration_records_path_and_method() {
    let log = Rc::new(RefCell::new(Vec::new()));
    let mut router = Router::new();
    router.route("/any", probe(&log, "any", false));
    router.get("/g", probe(&log, "g", false));
    router.post("/p", probe(&log, "p", false));
    router.put("/u", probe(&log, "u", false));
    router.delete("/d", probe(&log, "d", false));
    router.use_middleware(probe(&log, "m", true));
    let got: Vec<(String, String, bool)> =
        router.routes.iter().map(|r| (r.path.clone(), r.method.clone(), r.middleware)).collect();
    assert_eq!(
        got,
        vec![
            (String::from("/any"), String::new(), false),
            (String::from("/g"), String::from("GET"), false),
            (String::from("/p"), String::from("POST"), false),
            (String::from("/u"), String::from("PUT"), false),
            (String::from("/d"), String::from("DELETE"), false),
            (String::new(), String::new(), true),
        ]
    );
}

#[test]
fn first_matching_route_answers() {
    let log = Rc::new(RefCell::new(Vec::new()));
    let mut router = Router::new();
    router.use_middleware(probe(&log, "before", true));
    router.post("/same_url", probe(&log, "post", false));
    router.get("/same_url", probe(&log, "get", false));
    router.get("/same_url", probe(&log, "get again", false));
    router.use_middleware(probe(&log, "after", true));
    let mut req = request("GET", "/same_url");
    let mut res = Response::empty();
    let sent = Router::handle_client(&router.routes, &mut req, &mut res);
    assert!(sent);
    assert_eq!(*log.borrow(), vec!["before", "get", "after"]);
    assert_eq!(res.contents, Vec::from("after"));
}

#[test]
fn nothing_matches_leaves_everything_alone() {
    let log = Rc::new(RefCell::new(Vec::new()));
    let mut router = Router::new();
    router.get("/a", probe(&log, "a", false));
    let mut req = request("GET", "/b");
    let mut res = Response::empty();
    let sent = Router::handle_client(&router.routes, &mut req, &mut res);
    assert!(!sent);
    assert!(log.borrow().is_empty());
    assert_eq!(res, Response::empty());
    assert_eq!(req, request("GET", "/b"));
}

#[test]
fn passing_route_lets_the_next_match_answer() {
    let log = Rc::new(RefCell::new(Vec::new()));
    let mut router = Router::new();
    router.get("/x", probe(&log, "first", true));
    router.get("/x", probe(&log, "second", false));
    let mut req = request("GET", "/x");
    let mut res = Response::empty();
    assert!(Router::handle_client(&router.routes, &mut req, &mut res));
    assert_eq!(*log.borrow(), vec!["first", "second"]);
}

#[test]
fn route_to_string_is_its_path() {
    let log = Rc::new(RefCell::new(Vec::new()));
    let route = Route::new("/hello", "GET", probe(&log, "h", false));
    assert_eq!(route.to_string(), "/hello");
    let m = Route::middleware(probe(&log, "m", false));
    assert!(m.middleware);
    assert_eq!(m.path, "");
}

#[test]
fn get_result_runs_the_handler() {
    let log = Rc::new(RefCell::new(Vec::new()));
    let route = Route::new("/hello", "GET", probe(&log, "h", false));
    let mut req = request("GET", "/hello");
    let mut res = Response::empty();
    route.get_result(&mut req, &mut res);
    assert_eq!(*log.borrow(), vec!["h"]);
    assert_eq!(res.code, HTTPCodes::OK);
}

#[test]
fn next_error_carries_an_io_error() {
    let e = Next::Error(std::io::Error::new(std::io::ErrorKind::Other, "x"));
    assert!(matches!(e, Next::Error(_)));
    assert!(matches!(Next::Next, Next::Next));
}


#[test]
fn applies_follows_path_method_and_settled_flag() {
    let log = Rc::new(RefCell::new(Vec::new()));
    let route = Route::new("/a", "GET", probe(&log, "a", false));
    let (a, b, get, post) = (String::from("/a"), String::from("/b"), String::from("GET"), String::from("POST"));
    assert!(route.applies(&a, &get, false));
    assert!(!route.applies(&a, &get, true));
    assert!(!route.applies(&b, &get, false));
    assert!(!route.applies(&a, &post, false));
    let m = Route::middleware(probe(&log, "m", false));
    assert!(m.applies(&b, &post, true));
}
