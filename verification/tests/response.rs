use wind::response::HTTPCodes;
use wind::{Response, Router};
use wind::route::Handler;
use wind::Request;

struct Nothing;
impl Handler for Nothing {
    fn handled(&self, _req0: Request, _res0: Response, _req1: Request, _res1: Response) -> bool {
        true
    }

    fn handle(&self, _req: &mut Request, _res: &mut Response) {}
}

#[test]
fn constructors() {
    let r = Response::new(HTTPCodes::Created, vec![1, 2]);
    assert_eq!(r.code, HTTPCodes::Created);
    assert_eq!(r.contents, vec![1, 2]);
    assert!(!r.next);
    let r = Response::ok(vec![3]);
    assert_eq!(r.code, HTTPCodes::OK);
    assert!(!r.next);
    let r = Response::next();
    assert_eq!(r.code, HTTPCodes::OK);
    assert!(r.contents.is_empty());
    assert!(r.next);
    let r = Response::empty();
    assert_eq!(r.code, HTTPCodes::NotFound);
    assert!(r.contents.is_empty());
    assert!(!r.next);
}

#[test]
fn send_replaces_code_and_body() {
    let mut r = Response::next();
    r.headers.push(String::from("A: b"));
    r.send(HTTPCodes::Accepted, Vec::from("hi"));
    assert_eq!(r.code, HTTPCodes::Accepted);
    assert_eq!(r.contents, Vec::from("hi"));
    assert!(r.next);
    assert_eq!(r.headers, vec![String::from("A: b")]);
}

#[test]
fn status_strings() {
    assert_eq!(HTTPCodes::Continue.as_str(), "100 Continue");
    assert_eq!(HTTPCodes::OK.as_str(), "200 OK");
    assert_eq!(HTTPCodes::NonAuthoritativeInformation.as_str(), "203 Non-Authoritative Information");
    assert_eq!(HTTPCodes::TemporaryRedirect.as_str(), "307 Temporary Redirect");
    assert_eq!(HTTPCodes::NotFound.as_str(), "404 Not Found");
    assert_eq!(HTTPCodes::RequestTimeout.as_str(), "408 Request Timeout");
    assert_eq!(HTTPCodes::HTTPVersionNotSupported.as_str(), "505 HTTP Version Not Supported");
}

#[test]
fn header_string_counts_the_body() {
    let r = Response::ok(Vec::from("Hello world!"));
    assert_eq!(
        r.header_string(),
        "HTTP/1.1 200 OK\r\nContent-Type: text/html\r\nContent-Length: 12\r\n\r\n"
    );
    let r = Response::new(HTTPCodes::NotFound, Vec::new());
    assert_eq!(
        r.header_string(),
        "HTTP/1.1 404 Not Found\r\nContent-Type: text/html\r\nContent-Length: 0\r\n\r\n"
    );
    let r = Response::ok(vec![0; 1234567]);
    assert!(r.header_string().contains("Content-Length: 1234567\r\n"));
}

#[test]
fn response_head_writes_the_headers() {
    let mut r = Response::new(HTTPCodes::BadRequest, Vec::from("could not parse request"));
    r.headers.push(String::from("Access-Control-Allow-Origin: *"));
    r.headers.push(String::from("X-A: 1"));
    assert_eq!(
        Router::<Nothing>::response_head("text/plain", &r),
        "HTTP/1.1 400 Bad Request\r\nContent-Type: text/plain\r\nContent-Length: 23\r\nAccess-Control-Allow-Origin: *\r\nX-A: 1\r\n\r\n"
    );
}

#[test]
fn response_head_without_headers_is_header_string() {
    let r = Response::ok(Vec::from("abc"));
    assert_eq!(Router::<Nothing>::response_head("text/html", &r), r.header_string());
}

#[test]
fn status_strings_are_distinct() {
    let all = [
        HTTPCodes::Continue,
        HTTPCodes::SwitchingProtocols,
        HTTPCodes::Processing,
        HTTPCodes::EarlyHints,
        HTTPCodes::OK,
        HTTPCodes::Created,
        HTTPCodes::Accepted,
        HTTPCodes::NonAuthoritativeInformation,
        HTTPCodes::NoContent,
        HTTPCodes::ResetContent,
        HTTPCodes::PartialContent,
        HTTPCodes::MultipleChoices,
        HTTPCodes::MovedPermanently,
        HTTPCodes::Found,
        HTTPCodes::SeeOther,
        HTTPCodes::NotModified,
        HTTPCodes::UseProxy,
        HTTPCodes::TemporaryRedirect,
        HTTPCodes::PermanentRedirect,
        HTTPCodes::BadRequest,
        HTTPCodes::Unauthorized,
        HTTPCodes::PaymentRequired,
        HTTPCodes::Forbidden,
        HTTPCodes::NotFound,
        HTTPCodes::MethodNotAllowed,
        HTTPCodes::NotAcceptable,
        HTTPCodes::RequestTimeout,
        HTTPCodes::InternalServerError,
        HTTPCodes::NotImplemented,
        HTTPCodes::BadGateway,
        HTTPCodes::ServiceUnavailable,
        HTTPCodes::GatewayTimeout,
        HTTPCodes::HTTPVersionNotSupported,
    ];
    for (i, a) in all.iter().enumerate() {
        for (j, b) in all.iter().enumerate() {
            if i != j {
                assert_ne!(&a.as_str()[..3], &b.as_str()[..3]);
            }
        }
    }
}

#[test]
fn set_next_keeps_the_response() {
    let mut r = Response::new(HTTPCodes::Created, Vec::from("body"));
    r.headers.push(String::from("A: b"));
    r.set_next();
    assert!(r.next);
    assert_eq!(r.code, HTTPCodes::Created);
    assert_eq!(r.contents, Vec::from("body"));
    assert_eq!(r.headers, vec![String::from("A: b")]);
}

#[test]
fn unreadable_request_answer() {
    let r = Response::unreadable_request();
    assert_eq!(r.code, HTTPCodes::BadRequest);
    assert_eq!(r.contents, Vec::from("could not parse request"));
    assert!(!r.next);
    assert!(r.headers.is_empty());
}
