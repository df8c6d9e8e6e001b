//! HTTP responses and their status codes.
use vstd::prelude::*;
use vstd::string::{StrSliceExecFns, StringExecFns};
use vstd::utf8::encode_utf8;

use crate::text::{decimal, push_decimal, string_from_chars};

verus! {

/// A response that route handlers fill in before it is sent.
#[derive(Debug, PartialEq, Clone)]
pub struct Response {
    pub code: HTTPCodes,
    pub contents: Vec<u8>,
    /// Set by a handler that lets the routes after it handle the request too.
    pub next: bool,
    /// Extra header lines, each written as it stands, followed by CRLF.
    pub headers: Vec<String>,
}

/// The status line of a response with code `code` and a body of `len`
/// bytes, followed by the fixed header block that `header_string` writes.
pub open spec fn spec_header_string(code: HTTPCodes, len: nat) -> Seq<char> {
    "HTTP/1.1 "@ + code.spec_as_str() + "\r\nContent-Type: text/html\r\nContent-Length: "@
        + decimal(len) + "\r\n\r\n"@
}

impl Response {
    /// A response with the given code and body.
    pub fn new(code: HTTPCodes, contents: Vec<u8>) -> (res: Response)
        ensures
            res.code == code,
            res.contents@ == contents@,
            !res.next,
            res.headers@.len() == 0,
    {
        Response { code, contents, next: false, headers: Vec::new() }
    }

    /// A `200 OK` response with the given body.
    pub fn ok(contents: Vec<u8>) -> (res: Response)
        ensures
            res.code == HTTPCodes::OK,
            res.contents@ == contents@,
            !res.next,
            res.headers@.len() == 0,
    {
        Response { code: HTTPCodes::OK, contents, next: false, headers: Vec::new() }
    }

    /// An empty `200 OK` response that passes the request on to the next route.
    pub fn next() -> (res: Response)
        ensures
            res.code == HTTPCodes::OK,
            res.contents@.len() == 0,
            res.next,
            res.headers@.len() == 0,
    {
        Response { code: HTTPCodes::OK, contents: Vec::new(), next: true, headers: Vec::new() }
    }

    /// The response a request starts with before any route handles it:
    /// `404 Not Found` with an empty body.
    pub fn empty() -> (res: Response)
        ensures
            res.code == HTTPCodes::NotFound,
            res.contents@.len() == 0,
            !res.next,
            res.headers@.len() == 0,
    {
        Response { code: HTTPCodes::NotFound, contents: Vec::new(), next: false, headers: Vec::new() }
    }

    /// The answer to a request that could not be read: `400 Bad Request`
    /// with the body `could not parse request`.
    pub fn unreadable_request() -> (res: Response)
        ensures
            res.code == HTTPCodes::BadRequest,
            res.contents@ == encode_utf8("could not parse request"@),
            !res.next,
            res.headers@.len() == 0,
    {
        Response::new(HTTPCodes::BadRequest, "could not parse request".as_bytes_vec())
    }

    /// Lets the routes after the current one handle the request too, keeping
    /// the code, the body and the headers.
    pub fn set_next(&mut self)
        ensures
            final(self).next,
            final(self).code == old(self).code,
            final(self).contents@ == old(self).contents@,
            final(self).headers@ == old(self).headers@,
    {
        self.next = true;
    }

    /// Sets the code and the body of the response.
    pub fn send(&mut self, code: HTTPCodes, contents: Vec<u8>)
        ensures
            final(self).code == code,
            final(self).contents@ == contents@,
            final(self).next == old(self).next,
            final(self).headers@ == old(self).headers@,
    {
        self.code = code;
        self.contents = contents;
    }

    /// The status line and the headers of this response as HTML, with the
    /// length of its body, ending in the blank line that precedes the body.
    pub fn header_string(&self) -> (res: String)
        ensures
            res@ == spec_header_string(self.code, self.contents@.len()),
    {
        let mut out = String::new();
        out.append("HTTP/1.1 ");
        out.append(self.code.as_str());
        out.append("\r\nContent-Type: text/html\r\nContent-Length: ");
        let mut len_chars: Vec<char> = Vec::new();
        push_decimal(self.contents.len(), &mut len_chars);
        let len_string = string_from_chars(&len_chars);
        out.append(len_string.as_str());
        out.append("\r\n\r\n");
        out
    }
}

/// The status codes a response can carry.
#[derive(Debug, PartialEq, Eq, Structural, Clone, Copy)]
pub enum HTTPCodes {
    // Informational Codes (100–199)
    Continue,
    SwitchingProtocols,
    Processing,
    EarlyHints,
    // Successful Responses (200–299)
    OK,
    Created,
    Accepted,
    NonAuthoritativeInformation,
    NoContent,
    ResetContent,
    PartialContent,
    // Redirection Messages (300–399)
    MultipleChoices,
    MovedPermanently,
    Found,
    SeeOther,
    NotModified,
    UseProxy,
    TemporaryRedirect,
    PermanentRedirect,
    // Client Error Responses (400–499)
    BadRequest,
    Unauthorized,
    PaymentRequired,
    Forbidden,
    NotFound,
    MethodNotAllowed,
    NotAcceptable,
    RequestTimeout,
    // Server Error Responses (500–599)
    InternalServerError,
    NotImplemented,
    BadGateway,
    ServiceUnavailable,
    GatewayTimeout,
    HTTPVersionNotSupported,
}

impl HTTPCodes {
    /// The numeric code followed by its reason phrase, as it stands in a status line.
    pub open spec fn spec_as_str(self) -> Seq<char> {
        match self {
            HTTPCodes::Continue => "100 Continue"@,
            HTTPCodes::SwitchingProtocols => "101 Switching Protocols"@,
            HTTPCodes::Processing => "102 Processing"@,
            HTTPCodes::EarlyHints => "103 Early Hints"@,
            HTTPCodes::OK => "200 OK"@,
            HTTPCodes::Created => "201 Created"@,
            HTTPCodes::Accepted => "202 Accepted"@,
            HTTPCodes::NonAuthoritativeInformation => "203 Non-Authoritative Information"@,
            HTTPCodes::NoContent => "204 No Content"@,
            HTTPCodes::ResetContent => "205 Reset Content"@,
            HTTPCodes::PartialContent => "206 Partial Content"@,
            HTTPCodes::MultipleChoices => "300 Multiple Choices"@,
            HTTPCodes::MovedPermanently => "301 Moved Permanently"@,
            HTTPCodes::Found => "302 Found"@,
            HTTPCodes::SeeOther => "303 See Other"@,
            HTTPCodes::NotModified => "304 Not Modified"@,
            HTTPCodes::UseProxy => "305 Use Proxy"@,
            HTTPCodes::TemporaryRedirect => "307 Temporary Redirect"@,
            HTTPCodes::PermanentRedirect => "308 Permanent Redirect"@,
            HTTPCodes::BadRequest => "400 Bad Request"@,
            HTTPCodes::Unauthorized => "401 Unauthorized"@,
            HTTPCodes::PaymentRequired => "402 Payment Required"@,
            HTTPCodes::Forbidden => "403 Forbidden"@,
            HTTPCodes::NotFound => "404 Not Found"@,
            HTTPCodes::MethodNotAllowed => "405 Method Not Allowed"@,
            HTTPCodes::NotAcceptable => "406 Not Acceptable"@,
            HTTPCodes::RequestTimeout => "408 Request Timeout"@,
            HTTPCodes::InternalServerError => "500 Internal Server Error"@,
            HTTPCodes::NotImplemented => "501 Not Implemented"@,
            HTTPCodes::BadGateway => "502 Bad Gateway"@,
            HTTPCodes::ServiceUnavailable => "503 Service Unavailable"@,
            HTTPCodes::GatewayTimeout => "504 Gateway Timeout"@,
            HTTPCodes::HTTPVersionNotSupported => "505 HTTP Version Not Supported"@,
        }
    }

    /// The numeric code followed by its reason phrase, e.g. `"404 Not Found"`.
    pub fn as_str(&self) -> (res: &'static str)
        ensures
            res@ == self.spec_as_str(),
    {
        match self {
            HTTPCodes::Continue => "100 Continue",
            HTTPCodes::SwitchingProtocols => "101 Switching Protocols",
            HTTPCodes::Processing => "102 Processing",
            HTTPCodes::EarlyHints => "103 Early Hints",
            HTTPCodes::OK => "200 OK",
            HTTPCodes::Created => "201 Created",
            HTTPCodes::Accepted => "202 Accepted",
            HTTPCodes::NonAuthoritativeInformation => "203 Non-Authoritative Information",
            HTTPCodes::NoContent => "204 No Content",
            HTTPCodes::ResetContent => "205 Reset Content",
            HTTPCodes::PartialContent => "206 Partial Content",
            HTTPCodes::MultipleChoices => "300 Multiple Choices",
            HTTPCodes::MovedPermanently => "301 Moved Permanently",
            HTTPCodes::Found => "302 Found",
            HTTPCodes::SeeOther => "303 See Other",
            HTTPCodes::NotModified => "304 Not Modified",
            HTTPCodes::UseProxy => "305 Use Proxy",
            HTTPCodes::TemporaryRedirect => "307 Temporary Redirect",
            HTTPCodes::PermanentRedirect => "308 Permanent Redirect",
            HTTPCodes::BadRequest => "400 Bad Request",
            HTTPCodes::Unauthorized => "401 Unauthorized",
            HTTPCodes::PaymentRequired => "402 Payment Required",
            HTTPCodes::Forbidden => "403 Forbidden",
            HTTPCodes::NotFound => "404 Not Found",
            HTTPCodes::MethodNotAllowed => "405 Method Not Allowed",
            HTTPCodes::NotAcceptable => "406 Not Acceptable",
            HTTPCodes::RequestTimeout => "408 Request Timeout",
            HTTPCodes::InternalServerError => "500 Internal Server Error",
            HTTPCodes::NotImplemented => "501 Not Implemented",
            HTTPCodes::BadGateway => "502 Bad Gateway",
            HTTPCodes::ServiceUnavailable => "503 Service Unavailable",
            HTTPCodes::GatewayTimeout => "504 Gateway Timeout",
            HTTPCodes::HTTPVersionNotSupported => "505 HTTP Version Not Supported",
        }
    }
}

/// The numeric code of a status string: its first three characters.
pub open spec fn status_digits(code: HTTPCodes) -> Seq<char> {
    code.spec_as_str().subrange(0, 3)
}

/// Distinct codes have distinct status strings; indeed distinct numeric codes.
#[verifier::rlimit(100)]
pub proof fn law_status_codes_distinct(a: HTTPCodes, b: HTTPCodes)
    requires
        a != b,
    ensures
        status_digits(a) != status_digits(b),
        a.spec_as_str() != b.spec_as_str(),
{
    reveal_strlit("100 Continue");
    reveal_strlit("101 Switching Protocols");
    reveal_strlit("102 Processing");
    reveal_strlit("103 Early Hints");
    reveal_strlit("200 OK");
    reveal_strlit("201 Created");
    reveal_strlit("202 Accepted");
    reveal_strlit("203 Non-Authoritative Information");
    reveal_strlit("204 No Content");
    reveal_strlit("205 Reset Content");
    reveal_strlit("206 Partial Content");
    reveal_strlit("300 Multiple Choices");
    reveal_strlit("301 Moved Permanently");
    reveal_strlit("302 Found");
    reveal_strlit("303 See Other");
    reveal_strlit("304 Not Modified");
    reveal_strlit("305 Use Proxy");
    reveal_strlit("307 Temporary Redirect");
    reveal_strlit("308 Permanent Redirect");
    reveal_strlit("400 Bad Request");
    reveal_strlit("401 Unauthorized");
    reveal_strlit("402 Payment Required");
    reveal_strlit("403 Forbidden");
    reveal_strlit("404 Not Found");
    reveal_strlit("405 Method Not Allowed");
    reveal_strlit("406 Not Acceptable");
    reveal_strlit("408 Request Timeout");
    reveal_strlit("500 Internal Server Error");
    reveal_strlit("501 Not Implemented");
    reveal_strlit("502 Bad Gateway");
    reveal_strlit("503 Service Unavailable");
    reveal_strlit("504 Gateway Timeout");
    reveal_strlit("505 HTTP Version Not Supported");
    let da = status_digits(a);
    let db = status_digits(b);
    assert(da.len() == 3 && db.len() == 3);
    assert(da[0] != db[0] || da[1] != db[1] || da[2] != db[2]);
}

impl HTTPCodes {
    /// The numeric status code.
    pub open spec fn status_number(self) -> nat {
        match self {
            HTTPCodes::Continue => 100,
            HTTPCodes::SwitchingProtocols => 101,
            HTTPCodes::Processing => 102,
            HTTPCodes::EarlyHints => 103,
            HTTPCodes::OK => 200,
            HTTPCodes::Created => 201,
            HTTPCodes::Accepted => 202,
            HTTPCodes::NonAuthoritativeInformation => 203,
            HTTPCodes::NoContent => 204,
            HTTPCodes::ResetContent => 205,
            HTTPCodes::PartialContent => 206,
            HTTPCodes::MultipleChoices => 300,
            HTTPCodes::MovedPermanently => 301,
            HTTPCodes::Found => 302,
            HTTPCodes::SeeOther => 303,
            HTTPCodes::NotModified => 304,
            HTTPCodes::UseProxy => 305,
            HTTPCodes::TemporaryRedirect => 307,
            HTTPCodes::PermanentRedirect => 308,
            HTTPCodes::BadRequest => 400,
            HTTPCodes::Unauthorized => 401,
            HTTPCodes::PaymentRequired => 402,
            HTTPCodes::Forbidden => 403,
            HTTPCodes::NotFound => 404,
            HTTPCodes::MethodNotAllowed => 405,
            HTTPCodes::NotAcceptable => 406,
            HTTPCodes::RequestTimeout => 408,
            HTTPCodes::InternalServerError => 500,
            HTTPCodes::NotImplemented => 501,
            HTTPCodes::BadGateway => 502,
            HTTPCodes::ServiceUnavailable => 503,
            HTTPCodes::GatewayTimeout => 504,
            HTTPCodes::HTTPVersionNotSupported => 505,
        }
    }

    /// The reason phrase that goes with the code.
    pub open spec fn reason_phrase(self) -> Seq<char> {
        match self {
            HTTPCodes::Continue => "Continue"@,
            HTTPCodes::SwitchingProtocols => "Switching Protocols"@,
            HTTPCodes::Processing => "Processing"@,
            HTTPCodes::EarlyHints => "Early Hints"@,
            HTTPCodes::OK => "OK"@,
            HTTPCodes::Created => "Created"@,
            HTTPCodes::Accepted => "Accepted"@,
            HTTPCodes::NonAuthoritativeInformation => "Non-Authoritative Information"@,
            HTTPCodes::NoContent => "No Content"@,
            HTTPCodes::ResetContent => "Reset Content"@,
            HTTPCodes::PartialContent => "Partial Content"@,
            HTTPCodes::MultipleChoices => "Multiple Choices"@,
            HTTPCodes::MovedPermanently => "Moved Permanently"@,
            HTTPCodes::Found => "Found"@,
            HTTPCodes::SeeOther => "See Other"@,
            HTTPCodes::NotModified => "Not Modified"@,
            HTTPCodes::UseProxy => "Use Proxy"@,
            HTTPCodes::TemporaryRedirect => "Temporary Redirect"@,
            HTTPCodes::PermanentRedirect => "Permanent Redirect"@,
            HTTPCodes::BadRequest => "Bad Request"@,
            HTTPCodes::Unauthorized => "Unauthorized"@,
            HTTPCodes::PaymentRequired => "Payment Required"@,
            HTTPCodes::Forbidden => "Forbidden"@,
            HTTPCodes::NotFound => "Not Found"@,
            HTTPCodes::MethodNotAllowed => "Method Not Allowed"@,
            HTTPCodes::NotAcceptable => "Not Acceptable"@,
            HTTPCodes::RequestTimeout => "Request Timeout"@,
            HTTPCodes::InternalServerError => "Internal Server Error"@,
            HTTPCodes::NotImplemented => "Not Implemented"@,
            HTTPCodes::BadGateway => "Bad Gateway"@,
            HTTPCodes::ServiceUnavailable => "Service Unavailable"@,
            HTTPCodes::GatewayTimeout => "Gateway Timeout"@,
            HTTPCodes::HTTPVersionNotSupported => "HTTP Version Not Supported"@,
        }
    }
}

/// The status string of every code is its own numeric code, written in
/// decimal, a space, and its own reason phrase.
#[verifier::rlimit(100)]
pub proof fn law_status_string_is_number_and_phrase(code: HTTPCodes)
    ensures
        code.spec_as_str() == decimal(code.status_number()) + seq![' '] + code.reason_phrase(),
        100 <= code.status_number() < 600,
{
    reveal_with_fuel(decimal, 3);
    match code {
        HTTPCodes::Continue => {
            reveal_strlit("100 Continue");
            reveal_strlit("Continue");
        },
        HTTPCodes::SwitchingProtocols => {
            reveal_strlit("101 Switching Protocols");
            reveal_strlit("Switching Protocols");
        },
        HTTPCodes::Processing => {
            reveal_strlit("102 Processing");
            reveal_strlit("Processing");
        },
        HTTPCodes::EarlyHints => {
            reveal_strlit("103 Early Hints");
            reveal_strlit("Early Hints");
        },
        HTTPCodes::OK => {
            reveal_strlit("200 OK");
            reveal_strlit("OK");
        },
        HTTPCodes::Created => {
            reveal_strlit("201 Created");
            reveal_strlit("Created");
        },
        HTTPCodes::Accepted => {
            reveal_strlit("202 Accepted");
            reveal_strlit("Accepted");
        },
        HTTPCodes::NonAuthoritativeInformation => {
            reveal_strlit("203 Non-Authoritative Information");
            reveal_strlit("Non-Authoritative Information");
        },
        HTTPCodes::NoContent => {
            reveal_strlit("204 No Content");
            reveal_strlit("No Content");
        },
        HTTPCodes::ResetContent => {
            reveal_strlit("205 Reset Content");
            reveal_strlit("Reset Content");
        },
        HTTPCodes::PartialContent => {
            reveal_strlit("206 Partial Content");
            reveal_strlit("Partial Content");
        },
        HTTPCodes::MultipleChoices => {
            reveal_strlit("300 Multiple Choices");
            reveal_strlit("Multiple Choices");
        },
        HTTPCodes::MovedPermanently => {
            reveal_strlit("301 Moved Permanently");
            reveal_strlit("Moved Permanently");
        },
        HTTPCodes::Found => {
            reveal_strlit("302 Found");
            reveal_strlit("Found");
        },
        HTTPCodes::SeeOther => {
            reveal_strlit("303 See Other");
            reveal_strlit("See Other");
        },
        HTTPCodes::NotModified => {
            reveal_strlit("304 Not Modified");
            reveal_strlit("Not Modified");
        },
        HTTPCodes::UseProxy => {
            reveal_strlit("305 Use Proxy");
            reveal_strlit("Use Proxy");
        },
        HTTPCodes::TemporaryRedirect => {
            reveal_strlit("307 Temporary Redirect");
            reveal_strlit("Temporary Redirect");
        },
        HTTPCodes::PermanentRedirect => {
            reveal_strlit("308 Permanent Redirect");
            reveal_strlit("Permanent Redirect");
        },
        HTTPCodes::BadRequest => {
            reveal_strlit("400 Bad Request");
            reveal_strlit("Bad Request");
        },
        HTTPCodes::Unauthorized => {
            reveal_strlit("401 Unauthorized");
            reveal_strlit("Unauthorized");
        },
        HTTPCodes::PaymentRequired => {
            reveal_strlit("402 Payment Required");
            reveal_strlit("Payment Required");
        },
        HTTPCodes::Forbidden => {
            reveal_strlit("403 Forbidden");
            reveal_strlit("Forbidden");
        },
        HTTPCodes::NotFound => {
            reveal_strlit("404 Not Found");
            reveal_strlit("Not Found");
        },
        HTTPCodes::MethodNotAllowed => {
            reveal_strlit("405 Method Not Allowed");
            reveal_strlit("Method Not Allowed");
        },
        HTTPCodes::NotAcceptable => {
            reveal_strlit("406 Not Acceptable");
            reveal_strlit("Not Acceptable");
        },
        HTTPCodes::RequestTimeout => {
            reveal_strlit("408 Request Timeout");
            reveal_strlit("Request Timeout");
        },
        HTTPCodes::InternalServerError => {
            reveal_strlit("500 Internal Server Error");
            reveal_strlit("Internal Server Error");
        },
        HTTPCodes::NotImplemented => {
            reveal_strlit("501 Not Implemented");
            reveal_strlit("Not Implemented");
        },
        HTTPCodes::BadGateway => {
            reveal_strlit("502 Bad Gateway");
            reveal_strlit("Bad Gateway");
        },
        HTTPCodes::ServiceUnavailable => {
            reveal_strlit("503 Service Unavailable");
            reveal_strlit("Service Unavailable");
        },
        HTTPCodes::GatewayTimeout => {
            reveal_strlit("504 Gateway Timeout");
            reveal_strlit("Gateway Timeout");
        },
        HTTPCodes::HTTPVersionNotSupported => {
            reveal_strlit("505 HTTP Version Not Supported");
            reveal_strlit("HTTP Version Not Supported");
        },
    }
    assert(code.spec_as_str() =~= decimal(code.status_number()) + seq![' '] + code.reason_phrase());
}

/// The class of a code, its first digit, is the group it belongs to:
/// informational, success, redirection, client error or server error.
pub proof fn law_status_class(code: HTTPCodes)
    ensures
        (code == HTTPCodes::Continue || code == HTTPCodes::SwitchingProtocols
            || code == HTTPCodes::Processing || code == HTTPCodes::EarlyHints)
            <==> 100 <= code.status_number() < 200,
        (code == HTTPCodes::BadRequest || code == HTTPCodes::Unauthorized
            || code == HTTPCodes::PaymentRequired || code == HTTPCodes::Forbidden
            || code == HTTPCodes::NotFound || code == HTTPCodes::MethodNotAllowed
            || code == HTTPCodes::NotAcceptable || code == HTTPCodes::RequestTimeout)
            <==> 400 <= code.status_number() < 500,
        500 <= code.status_number() < 600 <==> (code == HTTPCodes::InternalServerError
            || code == HTTPCodes::NotImplemented || code == HTTPCodes::BadGateway
            || code == HTTPCodes::ServiceUnavailable || code == HTTPCodes::GatewayTimeout
            || code == HTTPCodes::HTTPVersionNotSupported),
{
}

} // verus!
