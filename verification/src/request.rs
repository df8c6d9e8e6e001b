//! HTTP requests, and how the text of a request becomes one.
//!
//! The head of a request is read line by line: `read_header_line` takes
//! one line and says whether the head goes on. After the head, and the
//! body that `content_length` announces, `parse_query` splits the query
//! parameters off the query.
use vstd::prelude::*;
use vstd::utf8::encode_utf8;

use crate::text::{
    lemma_remove_crlf_join, lemma_remove_crlf_none, lemma_split_join, lemma_split_pieces,
    lemma_split_single, lemma_split_contains, decimal, is_digit, lemma_decimal_digits,
    law_decimal_round_trip, lemma_split_len, parse_decimal, parse_usize, remove_crlf, split, split_chars,
    starts_with_str, str_chars, string_from_chars, views, without_crlf, chars_eq_str,
};
use crate::{spec_param, Param};

verus! {

/// A request, as the server parsed it from a connection.
#[derive(Debug, PartialEq)]
pub struct Request {
    pub method: String,
    pub query: String,
    pub content_type: String,
    pub content_length: usize,
    pub host: String,
    pub user_agent: String,
    pub accept: String,
    pub accept_encoding: String,
    pub accept_language: String,
    pub referer: String,
    pub cookie: String,
    pub connection: String,
    pub priority: String,
    pub upgrade_insecure_requests: String,
    pub sec_fetch_dest: String,
    pub sec_fetch_mode: String,
    pub sec_fetch_site: String,
    pub sec_fetch_user: String,
    pub body: Vec<u8>,
    pub params: Vec<Param>,
}

/// The contents of a request, as character sequences.
#[verifier::ext_equal]
pub struct RequestView {
    pub method: Seq<char>,
    pub query: Seq<char>,
    pub content_type: Seq<char>,
    pub content_length: usize,
    pub host: Seq<char>,
    pub user_agent: Seq<char>,
    pub accept: Seq<char>,
    pub accept_encoding: Seq<char>,
    pub accept_language: Seq<char>,
    pub referer: Seq<char>,
    pub cookie: Seq<char>,
    pub connection: Seq<char>,
    pub priority: Seq<char>,
    pub upgrade_insecure_requests: Seq<char>,
    pub sec_fetch_dest: Seq<char>,
    pub sec_fetch_mode: Seq<char>,
    pub sec_fetch_site: Seq<char>,
    pub sec_fetch_user: Seq<char>,
    pub body: Seq<u8>,
    pub params: Seq<(Seq<char>, Seq<char>)>,
}

impl View for Request {
    type V = RequestView;

    open spec fn view(&self) -> RequestView {
        RequestView {
            method: self.method@,
            query: self.query@,
            content_type: self.content_type@,
            content_length: self.content_length,
            host: self.host@,
            user_agent: self.user_agent@,
            accept: self.accept@,
            accept_encoding: self.accept_encoding@,
            accept_language: self.accept_language@,
            referer: self.referer@,
            cookie: self.cookie@,
            connection: self.connection@,
            priority: self.priority@,
            upgrade_insecure_requests: self.upgrade_insecure_requests@,
            sec_fetch_dest: self.sec_fetch_dest@,
            sec_fetch_mode: self.sec_fetch_mode@,
            sec_fetch_site: self.sec_fetch_site@,
            sec_fetch_user: self.sec_fetch_user@,
            body: self.body@,
            params: self.params@.map_values(|p: Param| p@),
        }
    }
}

/// The request before any line of it has been read: every text empty,
/// no body, no parameters.
pub open spec fn empty_request() -> RequestView {
    RequestView {
        method: Seq::empty(),
        query: Seq::empty(),
        content_type: Seq::empty(),
        content_length: 0,
        host: Seq::empty(),
        user_agent: Seq::empty(),
        accept: Seq::empty(),
        accept_encoding: Seq::empty(),
        accept_language: Seq::empty(),
        referer: Seq::empty(),
        cookie: Seq::empty(),
        connection: Seq::empty(),
        priority: Seq::empty(),
        upgrade_insecure_requests: Seq::empty(),
        sec_fetch_dest: Seq::empty(),
        sec_fetch_mode: Seq::empty(),
        sec_fetch_site: Seq::empty(),
        sec_fetch_user: Seq::empty(),
        body: Seq::empty(),
        params: Seq::empty(),
    }
}

/// After this many lines that are neither the request line nor the blank
/// line, the head is taken to be over.
pub const HEADER_LINE_LIMIT: usize = 100000;

/// The key of a line: the text before its first `:`.
pub open spec fn line_key(line: Seq<char>) -> Seq<char> {
    split(line, ':')[0]
}

/// The text after the first `:` of a line, with every other `:` removed.
pub open spec fn line_value_raw(line: Seq<char>) -> Seq<char> {
    split(line, ':').skip(1).flatten()
}

/// The value of a header line: its raw value without the first character
/// (the space after the colon) and without carriage returns and line feeds.
pub open spec fn line_value(line: Seq<char>) -> Seq<char> {
    let raw = line_value_raw(line);
    if raw.len() == 0 {
        raw
    } else {
        remove_crlf(raw.drop_first())
    }
}

/// Whether a key opens the request line: it begins with a method name.
pub open spec fn is_request_line(key: Seq<char>) -> bool {
    ||| "GET"@.is_prefix_of(key)
    ||| "POST"@.is_prefix_of(key)
    ||| "PUT"@.is_prefix_of(key)
    ||| "DELETE"@.is_prefix_of(key)
}

/// The lines that the head of a request may hold. A line falls outside
/// when its raw value begins with a character that is not ASCII, when it is
/// a request line without a space after the method, or when it is a
/// `Content-Length` header whose last word is not a number.
pub open spec fn header_line_accepted(line: Seq<char>) -> bool {
    let key = line_key(line);
    let raw = line_value_raw(line);
    &&& raw.len() > 0 ==> (raw[0] as u32) < 128
    &&& is_request_line(key) ==> split(key, ' ').len() >= 2
    &&& (!is_request_line(key) && key == "Content-Length"@) ==> parse_usize(
        split(line_value(line), ' ').last(),
    ) is Some
}

/// The request after one line of its head.
pub open spec fn apply_header_line(r: RequestView, line: Seq<char>) -> RequestView {
    let key = line_key(line);
    let val = line_value(line);
    if is_request_line(key) {
        let words = split(key, ' ');
        RequestView { method: words[0], query: words[1], ..r }
    } else if key == "Content-Length"@ {
        match parse_usize(split(val, ' ').last()) {
            Some(n) => RequestView { content_length: n, ..r },
            None => r,
        }
    } else if key == "Content-Type"@ {
        RequestView { content_type: val, ..r }
    } else if key == "Host"@ {
        RequestView { host: val, ..r }
    } else if key == "User-Agent"@ {
        RequestView { user_agent: val, ..r }
    } else if key == "Accept"@ {
        RequestView { accept: val, ..r }
    } else if key == "Accept-Encoding"@ {
        RequestView { accept_encoding: val, ..r }
    } else if key == "Accept-Language"@ {
        RequestView { accept_language: val, ..r }
    } else if key == "Connection"@ {
        RequestView { connection: val, ..r }
    } else if key == "Referer"@ {
        RequestView { referer: val, ..r }
    } else if key == "Cookie"@ {
        RequestView { cookie: val, ..r }
    } else if key == "Priority"@ {
        RequestView { priority: val, ..r }
    } else if key == "Upgrade-Insecure-Requests"@ {
        RequestView { upgrade_insecure_requests: val, ..r }
    } else if key == "Sec-Fetch-Dest"@ {
        RequestView { sec_fetch_dest: val, ..r }
    } else if key == "Sec-Fetch-Mode"@ {
        RequestView { sec_fetch_mode: val, ..r }
    } else if key == "Sec-Fetch-Site"@ {
        RequestView { sec_fetch_site: val, ..r }
    } else if key == "Sec-Fetch-User"@ {
        RequestView { sec_fetch_user: val, ..r }
    } else {
        r
    }
}

/// Whether the head goes on after `line`, read when `count` lines other
/// than the request line had been read, and how many have been read then.
/// The head ends at the blank line `\r\n`, at a line of two bytes, or
/// after `HEADER_LINE_LIMIT` lines.
pub open spec fn next_line_count(line: Seq<char>, count: usize) -> Option<usize> {
    let key = line_key(line);
    if is_request_line(key) {
        Some(count)
    } else if key == "\r\n"@ {
        None
    } else if count + 1 > HEADER_LINE_LIMIT {
        None
    } else if encode_utf8(line).len() as usize == 2 {
        None
    } else {
        Some((count + 1) as usize)
    }
}

/// The parameters that the `&`-separated pieces of a query string spell,
/// in order, leaving out the pieces that spell none.
pub open spec fn params_of(pieces: Seq<Seq<char>>) -> Seq<(Seq<char>, Seq<char>)> {
    pieces.filter_map(|piece: Seq<char>| spec_param(piece))
}

/// The request after its query has been split at `?`: the query keeps the
/// text before the first `?`, and the parameters between the first and
/// the second `?` are added to the request's parameters.
pub open spec fn apply_query(r: RequestView) -> RequestView {
    let parts = split(r.query, '?');
    if r.query.contains('?') {
        RequestView { query: parts[0], params: r.params + params_of(split(parts[1], '&')), ..r }
    } else {
        RequestView { query: parts[0], ..r }
    }
}

impl Default for Request {
    /// A request of which nothing has been read yet.
    fn default() -> (req: Request)
        ensures
            req@ == empty_request(),
    {
        let req = Request {
            method: String::new(),
            query: String::new(),
            content_type: String::new(),
            content_length: 0,
            host: String::new(),
            user_agent: String::new(),
            accept: String::new(),
            accept_encoding: String::new(),
            accept_language: String::new(),
            referer: String::new(),
            cookie: String::new(),
            connection: String::new(),
            priority: String::new(),
            upgrade_insecure_requests: String::new(),
            sec_fetch_dest: String::new(),
            sec_fetch_mode: String::new(),
            sec_fetch_site: String::new(),
            sec_fetch_user: String::new(),
            body: Vec::new(),
            params: Vec::new(),
        };
        assert(req@ =~= empty_request());
        req
    }
}

/// Appends the characters of `v` to `out`.
fn extend_chars(out: &mut Vec<char>, v: &Vec<char>)
    ensures
        final(out)@ == old(out)@ + v@,
{
    let mut i: usize = 0;
    while i < v.len()
        invariant
            i <= v.len(),
            out@ == old(out)@ + v@.subrange(0, i as int),
        decreases v.len() - i,
    {
        out.push(v[i]);
        i = i + 1;
    }
    assert(v@.subrange(0, v.len() as int) =~= v@);
}

impl Request {
    /// Whether `line` is one that the head of a request may hold (see
    /// `header_line_accepted`); `read_header_line` takes only those.
    pub fn header_line_is_accepted(line: &str) -> (res: bool)
        ensures
            res == header_line_accepted(line@),
    {
        let chars = str_chars(line);
        let pieces = split_chars(&chars, ':');
        proof { lemma_split_len(chars@, ':'); }
        let raw = value_raw(&pieces);
        if raw.len() > 0 && (raw[0] as u32) >= 128 {
            return false;
        }
        let key = &pieces[0];
        if is_request_key(key) {
            let words = split_chars(key, ' ');
            return words.len() >= 2;
        }
        if chars_eq_str(key, "Content-Length") {
            let val = value_of(&raw);
            let words = split_chars(&val, ' ');
            proof { lemma_split_len(val@, ' '); }
            let last = &words[words.len() - 1];
            return parse_decimal(last).is_some();
        }
        true
    }

    /// Takes one line of the head of the request, with its line ending, read
    /// when `count` lines other than the request line had been read. Returns
    /// the new count while the head goes on, and `None` where it ends.
    pub fn read_header_line(&mut self, line: &str, count: usize) -> (next: Option<usize>)
        requires
            header_line_accepted(line@),
        ensures
            final(self)@ == apply_header_line(old(self)@, line@),
            next == next_line_count(line@, count),
    {
        let chars = str_chars(line);
        let pieces = split_chars(&chars, ':');
        proof { lemma_split_len(chars@, ':'); }
        let raw = value_raw(&pieces);
        let val = value_of(&raw);
        let key = &pieces[0];
        let ghost old_view = self@;
        if is_request_key(key) {
            let words = split_chars(key, ' ');
            self.method = string_from_chars(&words[0]);
            self.query = string_from_chars(&words[1]);
            assert(self@ =~= apply_header_line(old_view, line@));
            return Some(count);
        }
        if chars_eq_str(key, "Content-Length") {
            let words = split_chars(&val, ' ');
            proof { lemma_split_len(val@, ' '); }
            let last = &words[words.len() - 1];
            match parse_decimal(last) {
                Some(n) => { self.content_length = n; },
                None => {},
            }
        } else if chars_eq_str(key, "Content-Type") {
            self.content_type = string_from_chars(&val);
        } else if chars_eq_str(key, "Host") {
            self.host = string_from_chars(&val);
        } else if chars_eq_str(key, "User-Agent") {
            self.user_agent = string_from_chars(&val);
        } else if chars_eq_str(key, "Accept") {
            self.accept = string_from_chars(&val);
        } else if chars_eq_str(key, "Accept-Encoding") {
            self.accept_encoding = string_from_chars(&val);
        } else if chars_eq_str(key, "Accept-Language") {
            self.accept_language = string_from_chars(&val);
        } else if chars_eq_str(key, "Connection") {
            self.connection = string_from_chars(&val);
        } else if chars_eq_str(key, "Referer") {
            self.referer = string_from_chars(&val);
        } else if chars_eq_str(key, "Cookie") {
            self.cookie = string_from_chars(&val);
        } else if chars_eq_str(key, "Priority") {
            self.priority = string_from_chars(&val);
        } else if chars_eq_str(key, "Upgrade-Insecure-Requests") {
            self.upgrade_insecure_requests = string_from_chars(&val);
        } else if chars_eq_str(key, "Sec-Fetch-Dest") {
            self.sec_fetch_dest = string_from_chars(&val);
        } else if chars_eq_str(key, "Sec-Fetch-Mode") {
            self.sec_fetch_mode = string_from_chars(&val);
        } else if chars_eq_str(key, "Sec-Fetch-Site") {
            self.sec_fetch_site = string_from_chars(&val);
        } else if chars_eq_str(key, "Sec-Fetch-User") {
            self.sec_fetch_user = string_from_chars(&val);
        }
        assert(self@ =~= apply_header_line(old_view, line@));
        if chars_eq_str(key, "\r\n") {
            return None;
        }
        if count >= HEADER_LINE_LIMIT {
            return None;
        }
        if line.len() == 2 {
            return None;
        }
        Some(count + 1)
    }

    /// Splits the query at `?`: the query keeps the text before the first
    /// `?`, and the `&`-separated parameters that follow it are added.
    pub fn parse_query(&mut self)
        ensures
            final(self)@ == apply_query(old(self)@),
    {
        let ghost old_view = self@;
        let chars = str_chars(self.query.as_str());
        let parts = split_chars(&chars, '?');
        proof {
            lemma_split_len(chars@, '?');
            lemma_split_contains(chars@, '?');
        }
        self.query = string_from_chars(&parts[0]);
        assert(views(parts@)[0] == parts@[0]@);
        if parts.len() < 2 {
            assert(self@ =~= apply_query(old_view));
            return;
        }
        assert(views(parts@)[1] == parts@[1]@);
        let pieces = split_chars(&parts[1], '&');
        let mut i: usize = 0;
        while i < pieces.len()
            invariant
                i <= pieces.len(),
                views(pieces@) == split(views(parts@)[1], '&'),
                self@ == (RequestView {
                    query: views(parts@)[0],
                    params: old_view.params + params_of(views(pieces@).subrange(0, i as int)),
                    ..old_view
                }),
            decreases pieces.len() - i,
        {
            let ghost done = views(pieces@).subrange(0, i as int);
            let ghost upto = views(pieces@).subrange(0, i + 1);
            assert(upto.drop_last() =~= done);
            assert(upto.last() == pieces@[i as int]@);
            let ghost old_params = self.params@;
            match Param::from_chars(&pieces[i]) {
                Some(p) => {
                    self.params.push(p);
                    assert(self.params@.map_values(|q: Param| q@) =~= old_params.map_values(|q: Param| q@).push(p@));
                    assert(params_of(upto) =~= params_of(done) + seq![p@]);
                },
                None => {
                    assert(params_of(upto) =~= params_of(done));
                },
            }
            assert(self@ =~= RequestView {
                query: views(parts@)[0],
                params: old_view.params + params_of(views(pieces@).subrange(0, i + 1)),
                ..old_view
            });
            i = i + 1;
        }
        assert(views(pieces@).subrange(0, pieces.len() as int) =~= views(pieces@));
        assert(self@ =~= apply_query(old_view));
    }
}

/// Whether a key opens the request line.
fn is_request_key(key: &Vec<char>) -> (res: bool)
    ensures
        res == is_request_line(key@),
{
    starts_with_str(key, "GET") || starts_with_str(key, "POST") || starts_with_str(key, "PUT")
        || starts_with_str(key, "DELETE")
}

/// The pieces after the first, joined.
fn value_raw(pieces: &Vec<Vec<char>>) -> (raw: Vec<char>)
    requires
        pieces@.len() >= 1,
    ensures
        raw@ == views(pieces@).skip(1).flatten(),
{
    let mut raw: Vec<char> = Vec::new();
    let mut j: usize = 1;
    while j < pieces.len()
        invariant
            1 <= j <= pieces.len(),
            raw@ == views(pieces@).subrange(1, j as int).flatten_alt(),
        decreases pieces.len() - j,
    {
        assert(views(pieces@).subrange(1, j + 1).drop_last() =~= views(pieces@).subrange(1, j as int));
        extend_chars(&mut raw, &pieces[j]);
        j = j + 1;
    }
    assert(views(pieces@).subrange(1, pieces.len() as int) =~= views(pieces@).skip(1));
    proof { views(pieces@).skip(1).lemma_flatten_and_flatten_alt_are_equivalent(); }
    raw
}

/// The value of a header line from its raw value.
fn value_of(raw: &Vec<char>) -> (val: Vec<char>)
    ensures
        val@ == (if raw@.len() == 0 { raw@ } else { remove_crlf(raw@.drop_first()) }),
{
    if raw.len() == 0 {
        return Vec::new();
    }
    let mut rest: Vec<char> = Vec::new();
    let mut i: usize = 1;
    while i < raw.len()
        invariant
            1 <= i <= raw.len(),
            rest@ == raw@.subrange(1, i as int),
        decreases raw.len() - i,
    {
        rest.push(raw[i]);
        i = i + 1;
    }
    assert(rest@ =~= raw@.drop_first());
    without_crlf(&rest)
}

/// Whether `s` holds none of the characters of `cs`.
pub open spec fn lacks(s: Seq<char>, cs: Seq<char>) -> bool {
    forall|i: int| 0 <= i < cs.len() ==> !s.contains(#[trigger] cs[i])
}

proof fn lemma_lacks_join(a: Seq<char>, b: Seq<char>, c: char)
    requires
        !a.contains(c),
        !b.contains(c),
    ensures
        !(a + b).contains(c),
{
    if (a + b).contains(c) {
        let i = choose|i: int| 0 <= i < (a + b).len() && (a + b)[i] == c;
        if i < a.len() {
            assert(a[i] == c);
        } else {
            assert(b[i - a.len()] == c);
        }
    }
}

/// A header line `name: value` gives back its name as key and its value,
/// when the name holds no `:` and the value no `:`, `\r` or `\n`.
pub proof fn law_header_line_round_trip(name: Seq<char>, value: Seq<char>)
    requires
        !name.contains(':'),
        lacks(value, seq![':', '\r', '\n']),
    ensures
        line_key(name + seq![':', ' '] + value + seq!['\r', '\n']) == name,
        line_value(name + seq![':', ' '] + value + seq!['\r', '\n']) == value,
{
    let crlf = seq!['\r', '\n'];
    let rest = seq![' '] + value + crlf;
    let line = name + seq![':', ' '] + value + crlf;
    assert(line =~= name + seq![':'] + rest);
    assert(!value.contains(':') && !value.contains('\r') && !value.contains('\n')) by {
        assert(seq![':', '\r', '\n'][0] == ':');
        assert(seq![':', '\r', '\n'][1] == '\r');
        assert(seq![':', '\r', '\n'][2] == '\n');
    }
    assert(!seq![' '].contains(':')) by {
        if seq![' '].contains(':') {
            let i = choose|i: int| 0 <= i < 1 && seq![' '][i] == ':';
        }
    }
    assert(!crlf.contains(':')) by {
        if crlf.contains(':') {
            let i = choose|i: int| 0 <= i < 2 && crlf[i] == ':';
        }
    }
    lemma_lacks_join(seq![' '], value, ':');
    lemma_lacks_join(seq![' '] + value, crlf, ':');
    lemma_split_join(name, rest, ':');
    lemma_split_single(name, ':');
    lemma_split_single(rest, ':');
    let pieces = split(line, ':');
    assert(pieces =~= seq![name, rest]);
    assert(pieces.skip(1) =~= seq![rest]);
    seq![rest].lemma_flatten_one_element();
    assert(line_value_raw(line) == rest);
    assert(rest.drop_first() =~= value + crlf);
    lemma_remove_crlf_join(value, crlf);
    lemma_remove_crlf_none(value);
    assert(crlf.drop_last() =~= seq!['\r']);
    assert(seq!['\r'].drop_last() =~= Seq::<char>::empty());
    assert(remove_crlf(Seq::<char>::empty()) =~= Seq::<char>::empty());
    assert(seq!['\r'].last() == '\r');
    assert(remove_crlf(seq!['\r']) =~= Seq::<char>::empty());
    assert(crlf.last() == '\n');
    assert(remove_crlf(crlf) =~= Seq::<char>::empty());
    assert(line_value(line) =~= value);
}

/// The request line `METHOD path version` sets the method and the query and
/// does not count as a header line, when the method opens a request line
/// and no part holds `:`, and neither the method nor the path holds a space.
pub proof fn law_request_line(
    r: RequestView,
    method: Seq<char>,
    path: Seq<char>,
    version: Seq<char>,
    count: usize,
)
    requires
        is_request_line(method),
        lacks(method, seq![' ', ':']),
        lacks(path, seq![' ', ':']),
        !version.contains(':'),
    ensures
        apply_header_line(r, method + seq![' '] + path + seq![' '] + version + seq!['\r', '\n'])
            == (RequestView { method, query: path, ..r }),
        next_line_count(method + seq![' '] + path + seq![' '] + version + seq!['\r', '\n'], count)
            == Some(count),
{
    let crlf = seq!['\r', '\n'];
    let tail = version + crlf;
    let line = method + seq![' '] + path + seq![' '] + version + seq!['\r', '\n'];
    assert(seq![' ', ':'][0] == ' ' && seq![' ', ':'][1] == ':');
    assert(!seq![' '].contains(':')) by {
        if seq![' '].contains(':') {
            let i = choose|i: int| 0 <= i < 1 && seq![' '][i] == ':';
        }
    }
    assert(!crlf.contains(':')) by {
        if crlf.contains(':') {
            let i = choose|i: int| 0 <= i < 2 && crlf[i] == ':';
        }
    }
    lemma_lacks_join(version, crlf, ':');
    lemma_lacks_join(method, seq![' '], ':');
    lemma_lacks_join(method + seq![' '], path, ':');
    lemma_lacks_join(method + seq![' '] + path, seq![' '], ':');
    lemma_lacks_join(method + seq![' '] + path + seq![' '], tail, ':');
    assert(line =~= method + seq![' '] + path + seq![' '] + tail);
    lemma_split_single(line, ':');
    assert(line_key(line) == line);
    // the words of the request line
    assert(line =~= method + seq![' '] + (path + seq![' '] + tail));
    lemma_split_join(method, path + seq![' '] + tail, ' ');
    lemma_split_join(path, tail, ' ');
    lemma_split_single(method, ' ');
    lemma_split_single(path, ' ');
    lemma_split_len(tail, ' ');
    let words = split(line, ' ');
    assert(words[0] == method);
    assert(words[1] == path);
    // the method opens the line
    assert(method.is_prefix_of(line));
    assert(is_request_line(line)) by {
        if "GET"@.is_prefix_of(method) {
            assert("GET"@.is_prefix_of(line));
        } else if "POST"@.is_prefix_of(method) {
            assert("POST"@.is_prefix_of(line));
        } else if "PUT"@.is_prefix_of(method) {
            assert("PUT"@.is_prefix_of(line));
        } else {
            assert("DELETE"@.is_prefix_of(line));
        }
    }
    assert(apply_header_line(r, line) =~= RequestView { method, query: path, ..r });
}

/// The blank line `\r\n` ends the head and changes nothing.
pub proof fn law_blank_line(r: RequestView, count: usize)
    ensures
        apply_header_line(r, seq!['\r', '\n']) == r,
        next_line_count(seq!['\r', '\n'], count) is None,
{
    let line = seq!['\r', '\n'];
    assert(!line.contains(':')) by {
        if line.contains(':') {
            let i = choose|i: int| 0 <= i < 2 && line[i] == ':';
        }
    }
    lemma_split_single(line, ':');
    assert(line_key(line) == line);
    reveal_strlit("GET");
    reveal_strlit("POST");
    reveal_strlit("PUT");
    reveal_strlit("DELETE");
    reveal_strlit("\r\n");
    reveal_strlit("Content-Length");
    reveal_strlit("Content-Type");
    reveal_strlit("Host");
    reveal_strlit("User-Agent");
    reveal_strlit("Accept");
    reveal_strlit("Accept-Encoding");
    reveal_strlit("Accept-Language");
    reveal_strlit("Connection");
    reveal_strlit("Referer");
    reveal_strlit("Cookie");
    reveal_strlit("Priority");
    reveal_strlit("Upgrade-Insecure-Requests");
    reveal_strlit("Sec-Fetch-Dest");
    reveal_strlit("Sec-Fetch-Mode");
    reveal_strlit("Sec-Fetch-Site");
    reveal_strlit("Sec-Fetch-User");
    assert(!"GET"@.is_prefix_of(line)) by { assert(line[0] != "GET"@[0]); }
    assert(!"POST"@.is_prefix_of(line)) by { assert(line.len() < "POST"@.len()); }
    assert(!"PUT"@.is_prefix_of(line)) by { assert(line[0] != "PUT"@[0]); }
    assert(!"DELETE"@.is_prefix_of(line)) by { assert(line.len() < "DELETE"@.len()); }
    assert(line =~= "\r\n"@);
}

/// After the query has been split, splitting it again changes nothing.
pub proof fn law_query_split_once(r: RequestView)
    ensures
        apply_query(apply_query(r)) == apply_query(r),
{
    let once = apply_query(r);
    lemma_split_len(r.query, '?');
    lemma_split_pieces(r.query, '?', 0);
    lemma_split_contains(once.query, '?');
    lemma_split_single(once.query, '?');
    assert(apply_query(once) =~= once);
}

/// `path?key=value` keeps `path` as the query and adds the parameter
/// `(key, value)`, when the path holds no `?` and the key and value hold
/// none of `?`, `&`, `=` and `#`.
pub proof fn law_query_round_trip(r: RequestView, path: Seq<char>, key: Seq<char>, value: Seq<char>)
    requires
        r.query == path + seq!['?'] + key + seq!['='] + value,
        !path.contains('?'),
        lacks(key, seq!['?', '&', '=', '#']),
        lacks(value, seq!['?', '&', '=', '#']),
    ensures
        apply_query(r) == (RequestView { query: path, params: r.params.push((key, value)), ..r }),
{
    let cs = seq!['?', '&', '=', '#'];
    assert(cs[0] == '?' && cs[1] == '&' && cs[2] == '=' && cs[3] == '#');
    let p = key + seq!['='] + value;
    assert(r.query =~= path + seq!['?'] + p);
    assert(!p.contains('?') && !p.contains('&')) by {
        if p.contains('?') {
            let i = choose|i: int| 0 <= i < p.len() && p[i] == '?';
            if i < key.len() { assert(key[i] == '?'); } else if i > key.len() { assert(value[i - key.len() - 1] == '?'); }
        }
        if p.contains('&') {
            let i = choose|i: int| 0 <= i < p.len() && p[i] == '&';
            if i < key.len() { assert(key[i] == '&'); } else if i > key.len() { assert(value[i - key.len() - 1] == '&'); }
        }
    }
    lemma_split_join(path, p, '?');
    lemma_split_single(path, '?');
    lemma_split_single(p, '?');
    assert(r.query[path.len() as int] == '?');
    assert(r.query.contains('?'));
    lemma_split_single(p, '&');
    crate::law_param_round_trip(key, value);
    let pieces = seq![p];
    assert(pieces.drop_last() =~= Seq::<Seq<char>>::empty());
    assert(pieces.last() == p);
    assert(spec_param(p) == Some((key, value)));
    assert(params_of(pieces.drop_last()) =~= Seq::<(Seq<char>, Seq<char>)>::empty());
    assert(params_of(pieces) =~= seq![(key, value)]);
    assert(apply_query(r) =~= RequestView { query: path, params: r.params.push((key, value)), ..r });
}

/// Each `&`-separated piece adds its parameter, if it spells one, after
/// those of the pieces before it, however many pieces there are.
pub proof fn law_params_of_push(pieces: Seq<Seq<char>>, piece: Seq<char>)
    ensures
        params_of(pieces.push(piece)) == params_of(pieces) + match spec_param(piece) {
            Some(p) => seq![p],
            None => Seq::empty(),
        },
{
    assert(pieces.push(piece).drop_last() =~= pieces);
    assert(pieces.push(piece).last() == piece);
    match spec_param(piece) {
        Some(p) => {},
        None => {
            assert(params_of(pieces) + Seq::<(Seq<char>, Seq<char>)>::empty() =~= params_of(pieces));
        },
    }
}

/// The parameters of two runs of pieces are those of the first followed by
/// those of the second.
pub proof fn law_params_of_concat(a: Seq<Seq<char>>, b: Seq<Seq<char>>)
    ensures
        params_of(a + b) == params_of(a) + params_of(b),
    decreases b.len(),
{
    if b.len() == 0 {
        assert(a + b =~= a);
        assert(params_of(b) =~= Seq::<(Seq<char>, Seq<char>)>::empty());
        assert(params_of(a) + params_of(b) =~= params_of(a));
    } else {
        law_params_of_concat(a, b.drop_last());
        assert(a + b =~= (a + b.drop_last()).push(b.last()));
        assert(b =~= b.drop_last().push(b.last()));
        law_params_of_push(a + b.drop_last(), b.last());
        law_params_of_push(b.drop_last(), b.last());
        assert(params_of(a + b) =~= params_of(a) + params_of(b));
    }
}

/// Every piece that spells a parameter adds one: there are as many new
/// parameters as such pieces, and the `i`-th piece that spells one gives
/// the `i`-th new parameter.
pub proof fn law_params_of_len(pieces: Seq<Seq<char>>)
    ensures
        params_of(pieces).len() == pieces.filter(|piece: Seq<char>| spec_param(piece) is Some).len(),
    decreases pieces.len(),
{
    reveal(Seq::filter);
    if pieces.len() > 0 {
        law_params_of_len(pieces.drop_last());
    }
}

/// Adding `&key=value` to a query after its `?` adds the parameter
/// `(key, value)` after the others, and keeps the query's path.
pub proof fn law_query_extra_param(
    r: RequestView,
    path: Seq<char>,
    rest: Seq<char>,
    key: Seq<char>,
    value: Seq<char>,
)
    requires
        r.query == path + seq!['?'] + rest,
        !path.contains('?'),
        !rest.contains('?'),
        lacks(key, seq!['?', '&', '=', '#']),
        lacks(value, seq!['?', '&', '=', '#']),
    ensures
        apply_query(RequestView { query: r.query + seq!['&'] + key + seq!['='] + value, ..r }) == (
        RequestView {
            params: apply_query(r).params.push((key, value)),
            ..apply_query(r)
        }),
{
    let cs = seq!['?', '&', '=', '#'];
    assert(cs[0] == '?' && cs[1] == '&' && cs[2] == '=' && cs[3] == '#');
    let p = key + seq!['='] + value;
    let rest2 = rest + seq!['&'] + p;
    let r2 = RequestView { query: r.query + seq!['&'] + key + seq!['='] + value, ..r };
    assert(r2.query =~= path + seq!['?'] + rest2);
    assert(!p.contains('?') && !p.contains('&')) by {
        if p.contains('?') {
            let i = choose|i: int| 0 <= i < p.len() && p[i] == '?';
            if i < key.len() { assert(key[i] == '?'); } else if i > key.len() { assert(value[i - key.len() - 1] == '?'); }
        }
        if p.contains('&') {
            let i = choose|i: int| 0 <= i < p.len() && p[i] == '&';
            if i < key.len() { assert(key[i] == '&'); } else if i > key.len() { assert(value[i - key.len() - 1] == '&'); }
        }
    }
    assert(!rest2.contains('?')) by {
        if rest2.contains('?') {
            let i = choose|i: int| 0 <= i < rest2.len() && rest2[i] == '?';
            if i < rest.len() { assert(rest[i] == '?'); } else if i > rest.len() { assert(p[i - rest.len() - 1] == '?'); }
        }
    }
    lemma_split_join(path, rest, '?');
    lemma_split_join(path, rest2, '?');
    lemma_split_single(path, '?');
    lemma_split_single(rest, '?');
    lemma_split_single(rest2, '?');
    assert(r.query[path.len() as int] == '?');
    assert(r2.query[path.len() as int] == '?');
    lemma_split_join(rest, p, '&');
    lemma_split_single(p, '&');
    crate::law_param_round_trip(key, value);
    assert(split(rest2, '&') =~= split(rest, '&') + seq![p]);
    law_params_of_concat(split(rest, '&'), seq![p]);
    assert(seq![p].drop_last() =~= Seq::<Seq<char>>::empty());
    assert(seq![p].last() == p);
    assert(spec_param(p) == Some((key, value)));
    assert(params_of(seq![p].drop_last()) =~= Seq::<(Seq<char>, Seq<char>)>::empty());
    assert(params_of(seq![p]) =~= seq![(key, value)]);
    assert(apply_query(r2) =~= RequestView { params: apply_query(r).params.push((key, value)), ..apply_query(r) });
}

/// The line `name: value` followed by CRLF.
pub open spec fn header_line(name: Seq<char>, value: Seq<char>) -> Seq<char> {
    name + seq![':', ' '] + value + seq!['\r', '\n']
}

proof fn lemma_no_colon(s: Seq<char>)
    requires
        forall|i: int| 0 <= i < s.len() ==> s[i] != ':',
    ensures
        !s.contains(':'),
{
}

proof fn lemma_not_prefix_at(a: Seq<char>, b: Seq<char>, i: int)
    requires
        0 <= i < a.len(),
        i < b.len(),
        a[i] != b[i],
    ensures
        !a.is_prefix_of(b),
{
    if a.is_prefix_of(b) {
        assert(a[i] == b.subrange(0, a.len() as int)[i]);
    }
}

/// A name that begins neither with `G`, `D`, `PO` nor `PU` does not open a
/// request line.
proof fn lemma_not_request_name(name: Seq<char>)
    requires
        name.len() >= 2,
        name[0] != 'G',
        name[0] != 'D',
        name[0] == 'P' ==> name[1] != 'O' && name[1] != 'U',
    ensures
        !is_request_line(name),
{
    reveal_strlit("GET");
    reveal_strlit("POST");
    reveal_strlit("PUT");
    reveal_strlit("DELETE");
    lemma_not_prefix_at("GET"@, name, 0);
    lemma_not_prefix_at("DELETE"@, name, 0);
    if name[0] == 'P' {
        lemma_not_prefix_at("POST"@, name, 1);
        lemma_not_prefix_at("PUT"@, name, 1);
    } else {
        lemma_not_prefix_at("POST"@, name, 0);
        lemma_not_prefix_at("PUT"@, name, 0);
    }
}

proof fn lemma_header_name_line(r: RequestView, name: Seq<char>, value: Seq<char>)
    requires
        forall|i: int| 0 <= i < name.len() ==> name[i] != ':',
        lacks(value, seq![':', '\r', '\n']),
    ensures
        line_key(header_line(name, value)) == name,
        line_value(header_line(name, value)) == value,
        (name.len() >= 2 && name[0] != 'G' && name[0] != 'D' && (name[0] == 'P' ==> name[1] != 'O'
            && name[1] != 'U')) ==> !is_request_line(name),
{
    if name.len() >= 2 && name[0] != 'G' && name[0] != 'D' && (name[0] == 'P' ==> name[1] != 'O'
        && name[1] != 'U') {
        lemma_not_request_name(name);
    }
    lemma_no_colon(name);
    law_header_line_round_trip(name, value);
}

/// Each known header line `Name: value` sets its own field of the request to
/// exactly `value`, spaces and all, and leaves every other field as it was,
/// when the value holds no `:`, `\r` or `\n`.
#[verifier::rlimit(100)]
pub proof fn law_known_header_sets_its_field(r: RequestView, value: Seq<char>)
    requires
        lacks(value, seq![':', '\r', '\n']),
    ensures
        apply_header_line(r, header_line("Content-Type"@, value)) == (RequestView { content_type: value, ..r }),
        apply_header_line(r, header_line("Host"@, value)) == (RequestView { host: value, ..r }),
        apply_header_line(r, header_line("User-Agent"@, value)) == (RequestView { user_agent: value, ..r }),
        apply_header_line(r, header_line("Accept"@, value)) == (RequestView { accept: value, ..r }),
        apply_header_line(r, header_line("Accept-Encoding"@, value)) == (RequestView { accept_encoding: value, ..r }),
        apply_header_line(r, header_line("Accept-Language"@, value)) == (RequestView { accept_language: value, ..r }),
        apply_header_line(r, header_line("Connection"@, value)) == (RequestView { connection: value, ..r }),
        apply_header_line(r, header_line("Referer"@, value)) == (RequestView { referer: value, ..r }),
        apply_header_line(r, header_line("Cookie"@, value)) == (RequestView { cookie: value, ..r }),
        apply_header_line(r, header_line("Priority"@, value)) == (RequestView { priority: value, ..r }),
        apply_header_line(r, header_line("Upgrade-Insecure-Requests"@, value)) == (RequestView { upgrade_insecure_requests: value, ..r }),
        apply_header_line(r, header_line("Sec-Fetch-Dest"@, value)) == (RequestView { sec_fetch_dest: value, ..r }),
        apply_header_line(r, header_line("Sec-Fetch-Mode"@, value)) == (RequestView { sec_fetch_mode: value, ..r }),
        apply_header_line(r, header_line("Sec-Fetch-Site"@, value)) == (RequestView { sec_fetch_site: value, ..r }),
        apply_header_line(r, header_line("Sec-Fetch-User"@, value)) == (RequestView { sec_fetch_user: value, ..r }),
{
    reveal_strlit("GET");
    reveal_strlit("POST");
    reveal_strlit("PUT");
    reveal_strlit("DELETE");
    reveal_strlit("Content-Length");
    reveal_strlit("Content-Type");
    reveal_strlit("Host");
    reveal_strlit("User-Agent");
    reveal_strlit("Accept");
    reveal_strlit("Accept-Encoding");
    reveal_strlit("Accept-Language");
    reveal_strlit("Connection");
    reveal_strlit("Referer");
    reveal_strlit("Cookie");
    reveal_strlit("Priority");
    reveal_strlit("Upgrade-Insecure-Requests");
    reveal_strlit("Sec-Fetch-Dest");
    reveal_strlit("Sec-Fetch-Mode");
    reveal_strlit("Sec-Fetch-Site");
    reveal_strlit("Sec-Fetch-User");
    lemma_header_name_line(r, "Content-Type"@, value);
    lemma_header_name_line(r, "Host"@, value);
    lemma_header_name_line(r, "User-Agent"@, value);
    lemma_header_name_line(r, "Accept"@, value);
    lemma_header_name_line(r, "Accept-Encoding"@, value);
    lemma_header_name_line(r, "Accept-Language"@, value);
    lemma_header_name_line(r, "Connection"@, value);
    lemma_header_name_line(r, "Referer"@, value);
    lemma_header_name_line(r, "Cookie"@, value);
    lemma_header_name_line(r, "Priority"@, value);
    lemma_header_name_line(r, "Upgrade-Insecure-Requests"@, value);
    lemma_header_name_line(r, "Sec-Fetch-Dest"@, value);
    lemma_header_name_line(r, "Sec-Fetch-Mode"@, value);
    lemma_header_name_line(r, "Sec-Fetch-Site"@, value);
    assert("Sec-Fetch-Site"@[10] != "Sec-Fetch-Dest"@[10]);
    assert("Sec-Fetch-Site"@[10] != "Sec-Fetch-Mode"@[10]);
    lemma_header_name_line(r, "Sec-Fetch-User"@, value);
}

/// `Content-Length: n` sets the content length to `n`.
pub proof fn law_content_length_header(r: RequestView, n: usize)
    ensures
        apply_header_line(r, header_line("Content-Length"@, decimal(n as nat)))
            == (RequestView { content_length: n, ..r }),
{
    reveal_strlit("GET");
    reveal_strlit("POST");
    reveal_strlit("PUT");
    reveal_strlit("DELETE");
    reveal_strlit("Content-Length");
    reveal_strlit("Content-Type");
    reveal_strlit("Host");
    reveal_strlit("User-Agent");
    reveal_strlit("Accept");
    reveal_strlit("Accept-Encoding");
    reveal_strlit("Accept-Language");
    reveal_strlit("Connection");
    reveal_strlit("Referer");
    reveal_strlit("Cookie");
    reveal_strlit("Priority");
    reveal_strlit("Upgrade-Insecure-Requests");
    reveal_strlit("Sec-Fetch-Dest");
    reveal_strlit("Sec-Fetch-Mode");
    reveal_strlit("Sec-Fetch-Site");
    reveal_strlit("Sec-Fetch-User");
    let d = decimal(n as nat);
    lemma_decimal_digits(n as nat);
    let bad = seq![':', '\r', '\n'];
    assert(lacks(d, bad)) by {
        assert forall|i: int| 0 <= i < 3 implies !d.contains(#[trigger] bad[i]) by {
            if d.contains(bad[i]) {
                let k = choose|k: int| 0 <= k < d.len() && d[k] == bad[i];
                assert(is_digit(d[k]));
            }
        }
    }
    lemma_header_name_line(r, "Content-Length"@, d);
    assert(!d.contains(' ')) by {
        if d.contains(' ') {
            let k = choose|k: int| 0 <= k < d.len() && d[k] == ' ';
            assert(is_digit(d[k]));
        }
    }
    lemma_split_single(d, ' ');
    law_decimal_round_trip(n);
    assert(apply_header_line(r, header_line("Content-Length"@, d)) =~= RequestView { content_length: n, ..r });
}

} // verus!
