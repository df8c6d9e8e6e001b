use wind::request::HEADER_LINE_LIMIT;
use wind::{Param, Request};

fn read_head(lines: &[&str]) -> (Request, Vec<Option<usize>>) {
    let mut req = Request::default();
    let mut count = 0;
    let mut steps = Vec::new();
    for line in lines {
        assert!(Request::header_line_is_accepted(line));
        let step = req.read_header_line(line, count);
        steps.push(step);
        match step {
            Some(c) => count = c,
            None => break,
        }
    }
    (req, steps)
}

#[test]
fn default_request_is_empty() {
    let req = Request::default();
    assert_eq!(req.method, "");
    assert_eq!(req.query, "");
    assert_eq!(req.content_length, 0);
    assert!(req.body.is_empty());
    assert!(req.params.is_empty());
}

#[test]
fn reads_a_whole_head() {
    let (mut req, steps) = read_head(&[
        "GET /hello?name=simon&age=21 HTTP/1.1\r\n",
        "Host: localhost:8000\r\n",
        "Content-Length: 5\r\n",
        "User-Agent: curl/8.0\r\n",
        "Accept: */*\r\n",
        "\r\n",
    ]);
    assert_eq!(steps, vec![Some(0), Some(1), Some(2), Some(3), Some(4), None]);
    assert_eq!(req.method, "GET");
    assert_eq!(req.query, "/hello?name=simon&age=21");
    // every colon after the first is dropped from the value
    assert_eq!(req.host, "localhost8000");
    assert_eq!(req.content_length, 5);
    assert_eq!(req.user_agent, "curl/8.0");
    assert_eq!(req.accept, "*/*");
    req.parse_query();
    assert_eq!(req.query, "/hello");
    assert_eq!(
        req.params,
        vec![
            Param { key: String::from("name"), value: String::from("simon") },
            Param { key: String::from("age"), value: String::from("21") },
        ]
    );
}

#[test]
fn every_known_header_is_kept() {
    let (req, _) = read_head(&[
        "POST /send_body HTTP/1.1\r\n",
        "Content-Type: text/plain\r\n",
        "Accept-Encoding: gzip\r\n",
        "Accept-Language: en\r\n",
        "Connection: keep-alive\r\n",
        "Referer: here\r\n",
        "Cookie: a=b\r\n",
        "Priority: u=0\r\n",
        "Upgrade-Insecure-Requests: 1\r\n",
        "Sec-Fetch-Dest: document\r\n",
        "Sec-Fetch-Mode: navigate\r\n",
        "Sec-Fetch-Site: none\r\n",
        "Sec-Fetch-User: ?1\r\n",
        "\r\n",
    ]);
    assert_eq!(req.method, "POST");
    assert_eq!(req.query, "/send_body");
    assert_eq!(req.content_type, "text/plain");
    assert_eq!(req.accept_encoding, "gzip");
    assert_eq!(req.accept_language, "en");
    assert_eq!(req.connection, "keep-alive");
    assert_eq!(req.referer, "here");
    assert_eq!(req.cookie, "a=b");
    assert_eq!(req.priority, "u=0");
    assert_eq!(req.upgrade_insecure_requests, "1");
    assert_eq!(req.sec_fetch_dest, "document");
    assert_eq!(req.sec_fetch_mode, "navigate");
    assert_eq!(req.sec_fetch_site, "none");
    assert_eq!(req.sec_fetch_user, "?1");
}

#[test]
fn request_line_does_not_count() {
    let mut req = Request::default();
    assert_eq!(req.read_header_line("PUT /x HTTP/1.1\r\n", 7), Some(7));
    assert_eq!(req.read_header_line("DELETE /y HTTP/1.1\r\n", 7), Some(7));
    assert_eq!(req.method, "DELETE");
    assert_eq!(req.query, "/y");
}

#[test]
fn unknown_header_is_counted_and_ignored() {
    let mut req = Request::default();
    assert_eq!(req.read_header_line("X-Custom: 1\r\n", 0), Some(1));
    assert_eq!(req, Request::default());
}

#[test]
fn two_byte_line_ends_the_head() {
    let mut req = Request::default();
    assert_eq!(req.read_header_line("x\n", 3), None);
    // a lone line feed is one byte long and does not end the head
    assert_eq!(req.read_header_line("\n", 3), Some(4));
    // at the end of input the line is empty
    assert_eq!(req.read_header_line("", 3), Some(4));
}

#[test]
fn line_limit_ends_the_head() {
    let mut req = Request::default();
    assert_eq!(req.read_header_line("X: y\r\n", HEADER_LINE_LIMIT - 1), Some(HEADER_LINE_LIMIT));
    assert_eq!(req.read_header_line("X: y\r\n", HEADER_LINE_LIMIT), None);
}

#[test]
fn content_length_takes_the_last_word() {
    let mut req = Request::default();
    req.read_header_line("Content-Length: 1 2 +30\r\n", 0);
    assert_eq!(req.content_length, 30);
}

#[test]
fn lines_that_are_refused() {
    assert!(!Request::header_line_is_accepted("GET\r\n"));
    assert!(!Request::header_line_is_accepted("Content-Length: abc\r\n"));
    assert!(!Request::header_line_is_accepted("Content-Length: -1\r\n"));
    assert!(!Request::header_line_is_accepted("Content-Length: 99999999999999999999999\r\n"));
    assert!(!Request::header_line_is_accepted("Host:é\r\n"));
    assert!(Request::header_line_is_accepted("Host: é\r\n"));
    assert!(Request::header_line_is_accepted("Content-Length: 12\r\n"));
    assert!(Request::header_line_is_accepted("\r\n"));
    assert!(Request::header_line_is_accepted(""));
}

#[test]
fn query_without_parameters() {
    let mut req = Request::default();
    req.query = String::from("/plain");
    req.parse_query();
    assert_eq!(req.query, "/plain");
    assert!(req.params.is_empty());
}

#[test]
fn query_parameters_stop_at_a_second_question_mark() {
    let mut req = Request::default();
    req.query = String::from("/p?a=1&bad&b=2?c=3");
    req.parse_query();
    assert_eq!(req.query, "/p");
    assert_eq!(
        req.params,
        vec![
            Param { key: String::from("a"), value: String::from("1") },
            Param { key: String::from("b"), value: String::from("2") },
        ]
    );
}

#[test]
fn parse_query_twice_changes_nothing_more() {
    let mut req = Request::default();
    req.query = String::from("/p?a=1");
    req.parse_query();
    req.parse_query();
    assert_eq!(req.query, "/p");
    assert_eq!(req.params.len(), 1);
}

#[test]
fn blank_line_ends_the_head_unchanged() {
    let (mut req, _) = read_head(&["GET /a HTTP/1.1\r\n", "Host: h\r\n"]);
    let before_method = req.method.clone();
    let before_host = req.host.clone();
    assert_eq!(req.read_header_line("\r\n", 1), None);
    assert_eq!(req.method, before_method);
    assert_eq!(req.host, before_host);
}
