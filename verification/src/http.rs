//! HTTP requests and responses.
use vstd::prelude::*;
use vstd::utf8::encode_utf8;
use crate::server::Message;
use crate::text::{decimal, decimal_string, digit_value};

verus! {

/// The request methods that are told apart; any other is `NONE`.
#[derive(Clone, Copy, Debug, PartialEq, Eq, Structural)]
pub enum Method {
    GET,
    POST,
    PUT,
    DELETE,
    NONE,
}

/// The name of method `m`.
pub open spec fn method_name(m: Method) -> Seq<char> {
    match m {
        Method::GET => "GET"@,
        Method::POST => "POST"@,
        Method::PUT => "PUT"@,
        Method::DELETE => "DELETE"@,
        Method::NONE => "NONE"@,
    }
}

/// The method that the request-line token `t` names.
pub open spec fn method_of_token(t: Seq<char>) -> Method {
    if t == "GET"@ {
        Method::GET
    } else if t == "PUT"@ {
        Method::PUT
    } else if t == "POST"@ {
        Method::POST
    } else if t == "DELETE"@ {
        Method::DELETE
    } else {
        Method::NONE
    }
}

impl Method {
    /// The method's name.
    pub fn to_str(self) -> (s: &'static str)
        ensures
            s@ == method_name(self),
    {
        match self {
            Method::GET => "GET",
            Method::POST => "POST",
            Method::PUT => "PUT",
            Method::DELETE => "DELETE",
            Method::NONE => "NONE",
        }
    }

    /// The method that a request-line token names.
    pub fn from_token(token: &String) -> (m: Method)
        ensures
            m == method_of_token(token@),
    {
        if *token == "GET".to_owned() {
            Method::GET
        } else if *token == "PUT".to_owned() {
            Method::PUT
        } else if *token == "POST".to_owned() {
            Method::POST
        } else if *token == "DELETE".to_owned() {
            Method::DELETE
        } else {
            Method::NONE
        }
    }
}

/// What the request line of a request buffer gives: its method token, its
/// path and its minor version, each where it was read.
pub type RequestLine = (Option<String>, Option<String>, Option<u8>);

/// Naming a method and reading the name back gives the same method, for
/// every method but `NONE` (whose name is no request token).
pub proof fn lemma_method_name_roundtrip(m: Method)
    ensures
        m != Method::NONE ==> method_of_token(method_name(m)) == m,
        method_of_token(method_name(Method::NONE)) == Method::NONE,
{
    reveal_strlit("GET");
    reveal_strlit("PUT");
    reveal_strlit("POST");
    reveal_strlit("DELETE");
    reveal_strlit("NONE");
    assert("GET"@[0] != "PUT"@[0]);
    assert("GET"@ != "PUT"@);
    assert("POST"@.len() != "PUT"@.len() && "POST"@.len() != "GET"@.len());
    assert("POST"@ != "PUT"@ && "POST"@ != "GET"@);
    assert("DELETE"@ != "PUT"@ && "DELETE"@ != "GET"@ && "DELETE"@ != "POST"@);
    assert("NONE"@[0] != "POST"@[0]);
    assert("NONE"@.len() != "PUT"@.len() && "NONE"@.len() != "GET"@.len() && "NONE"@.len() != "DELETE"@.len());
    assert("NONE"@ != "PUT"@ && "NONE"@ != "GET"@ && "NONE"@ != "POST"@ && "NONE"@ != "DELETE"@);
}

/// A text, as its characters.
pub open spec fn opt_text(o: Option<String>) -> Option<Seq<char>> {
    match o {
        Some(s) => Some(s@),
        None => None,
    }
}

/// A parsed request line, as plain values.
pub open spec fn line_view(l: Option<RequestLine>) -> Option<(Option<Seq<char>>, Option<Seq<char>>, Option<u8>)> {
    match l {
        Some((m, p, v)) => Some((opt_text(m), opt_text(p), v)),
        None => None,
    }
}

/// What `httparse` makes of the request buffer `buf` (parsed with room for
/// sixteen headers): `None` where it reports an error, else the method
/// token, path and minor version it has read.
pub uninterp spec fn httparse_request_line(buf: Seq<u8>) -> Option<(Option<Seq<char>>, Option<Seq<char>>, Option<u8>)>;

/// Parses the head of an HTTP request.
///
/// Calls `httparse::Request::parse` with room for sixteen headers. The
/// contract claims that the outcome is the one `httparse_request_line` names
/// for the buffer, and, as the crate's version parser shows, that a version
/// it reads is 0 or 1.
#[verifier::external_body]
fn parse_request_line(buf: &[u8]) -> (r: Option<RequestLine>)
    ensures
        line_view(r) == httparse_request_line(buf@),
        r matches Some((_, _, Some(v))) ==> v <= 1,
{
    let mut headers = [httparse::EMPTY_HEADER; 16];
    let mut req = httparse::Request::new(&mut headers);
    match req.parse(buf) {
        Ok(_) => Some((
            match req.method { Some(m) => Some(m.to_string()), None => None },
            match req.path { Some(p) => Some(p.to_string()), None => None },
            req.version,
        )),
        Err(_) => None,
    }
}

/// A request, as plain values.
pub struct RequestView {
    pub method: Method,
    pub uri: Seq<char>,
    pub version: u8,
}

/// The request that a parsed request line gives: one exactly where the
/// line was read without error and has its method, path and version.
pub open spec fn request_of_line(l: Option<(Option<Seq<char>>, Option<Seq<char>>, Option<u8>)>) -> Option<RequestView> {
    match l {
        Some((Some(m), Some(p), Some(v))) => Some(
            RequestView { method: method_of_token(m), uri: p, version: v },
        ),
        _ => None,
    }
}

/// A request line that has a method, a path and a version gives a request
/// whose method is the one the method token names, whose target is the
/// whole path token, query and all, and whose version is the line's; a line
/// missing any of the three, or not read at all, gives none.
pub proof fn lemma_request_of_line_parts(l: Option<(Option<Seq<char>>, Option<Seq<char>>, Option<u8>)>)
    ensures
        l matches Some((Some(m), Some(p), Some(v))) ==> {
            &&& request_of_line(l) is Some
            &&& request_of_line(l)->Some_0.method == method_of_token(m)
            &&& request_of_line(l)->Some_0.uri == p
            &&& request_of_line(l)->Some_0.version == v
        },
        !(l matches Some((Some(_), Some(_), Some(_)))) ==> request_of_line(l) is None,
{
}

/// An HTTP request: its method, its target and its minor version.
#[derive(Debug)]
pub struct Request {
    method: Method,
    uri: String,
    version: u8,
}

impl View for Request {
    type V = RequestView;

    closed spec fn view(&self) -> RequestView {
        RequestView { method: self.method, uri: self.uri@, version: self.version }
    }
}

impl Request {
    /// The request that a parsed request line gives, where it gives one.
    pub fn from_parsed(line: Option<RequestLine>) -> (r: Option<Request>)
        ensures
            match request_of_line(line_view(line)) {
                Some(v) => r matches Some(req) && req@ == v,
                None => r is None,
            },
    {
        match line {
            Some((Some(m), Some(p), Some(v))) => {
                let method = Method::from_token(&m);
                Some(Request { method: method, uri: p, version: v })
            },
            _ => None,
        }
    }

    /// The request in `message`, where its head is read without error and
    /// has a method, a path and a version.
    pub fn try_parse(message: &Message) -> (r: Option<Request>)
        ensures
            match request_of_line(httparse_request_line(message.buf@)) {
                Some(v) => r matches Some(req) && req@ == v,
                None => r is None,
            },
    {
        let line = parse_request_line(message.buf.as_slice());
        match Request::from_parsed(line) {
            Some(_) => Some(Request::parse(message)),
            None => None,
        }
    }

    /// The request in `message`, whose head must be read without error and
    /// have a method, a path and a version.
    pub fn parse(message: &Message) -> (r: Request)
        requires
            request_of_line(httparse_request_line(message.buf@)) is Some,
        ensures
            r@ == request_of_line(httparse_request_line(message.buf@))->Some_0,
    {
        let line = parse_request_line(message.buf.as_slice());
        match Request::from_parsed(line) {
            Some(r) => r,
            None => {
                assert(false);
                Request { method: Method::NONE, uri: String::new(), version: 0 }
            },
        }
    }

    /// The request's method.
    pub fn method(&self) -> (m: Method)
        ensures
            m == self@.method,
    {
        self.method
    }

    /// A copy of the request's target.
    pub fn uri(&self) -> (u: String)
        ensures
            u@ == self@.uri,
    {
        self.uri.clone()
    }
}

/// Whether `c` is a decimal digit.
pub open spec fn decimal_digit(c: char) -> bool {
    '0' <= c && c <= '9'
}

/// Whether every character of `t` is a decimal digit.
pub open spec fn all_digits(t: Seq<char>) -> bool {
    forall|i: int| 0 <= i < t.len() ==> decimal_digit(#[trigger] t[i])
}

/// Whether `y` is a year as `%Y` writes it: four digits, or a sign and at
/// least four digits.
pub open spec fn year_text(y: Seq<char>) -> bool {
    ||| y.len() == 4 && all_digits(y)
    ||| y.len() >= 5 && (y[0] == '+' || y[0] == '-') && all_digits(y.drop_first())
}

/// Whether `t` is `-MM-DD hh:mm:ss`, each letter standing for a digit.
pub open spec fn clock_tail(t: Seq<char>) -> bool {
    &&& t.len() == 15
    &&& t[0] == '-' && t[3] == '-' && t[6] == ' ' && t[9] == ':' && t[12] == ':'
    &&& decimal_digit(t[1]) && decimal_digit(t[2])
    &&& decimal_digit(t[4]) && decimal_digit(t[5])
    &&& decimal_digit(t[7]) && decimal_digit(t[8])
    &&& decimal_digit(t[10]) && decimal_digit(t[11])
    &&& decimal_digit(t[13]) && decimal_digit(t[14])
}

/// Whether `d` is a date written as `%Y-%m-%d %H:%M:%S`: a year, then
/// `-MM-DD hh:mm:ss`.
pub open spec fn date_text(d: Seq<char>) -> bool {
    &&& d.len() >= 19
    &&& year_text(d.take(d.len() - 15))
    &&& clock_tail(d.skip(d.len() - 15))
}

/// The number that the two digits of `d` at `i` and `i + 1` write.
pub open spec fn two_digits(d: Seq<char>, i: int) -> nat {
    10 * digit_value(d[i]) + digit_value(d[i + 1])
}

/// Whether the month of date text `d` (`%Y-%m-%d %H:%M:%S`) is 1 to 12, its
/// day 1 to 31, its hour at most 23, its minute at most 59 and its second
/// at most 60 (a leap second).
pub open spec fn date_in_range(d: Seq<char>) -> bool {
    let k = d.len() - 15;
    &&& 1 <= two_digits(d, k + 1) <= 12
    &&& 1 <= two_digits(d, k + 4) <= 31
    &&& two_digits(d, k + 7) <= 23
    &&& two_digits(d, k + 10) <= 59
    &&& two_digits(d, k + 13) <= 60
}

/// The current local date and time as `YYYY-MM-DD hh:mm:ss`.
///
/// Calls `chrono::Local::now` and formats the result with
/// `"%Y-%m-%d %H:%M:%S"`. The value depends on the clock and the local time
/// zone, so only its shape is claimed: chrono writes `%Y` with four digits
/// (with a sign, and at least four digits, outside 0 to 9999) and each of
/// `%m`, `%d`, `%H`, `%M`, `%S` with two digits, all zero-padded, and the
/// format adds only `-`, a space and `:`. A chrono date has a month of 1 to
/// 12 and a day of 1 to 31, its time an hour below 24 and a minute below
/// 60, and `%S` writes the second plus one for a leap second, so at most 60.
#[verifier::external_body]
fn local_date_text() -> (d: String)
    ensures
        date_text(d@),
        date_in_range(d@),
{
    chrono::Local::now().format("%Y-%m-%d %H:%M:%S").to_string()
}

/// The length in bytes of the UTF-8 encoding of `s`, as `str::len`
/// reports it.
pub open spec fn byte_len(s: Seq<char>) -> nat {
    (encode_utf8(s).len() as usize) as nat
}

/// The plain values of response `r`.
pub open spec fn response_view(r: &Response) -> ResponseView {
    r@
}

/// A response, as plain values.
pub struct ResponseView {
    pub version: Seq<char>,
    pub status: Seq<char>,
    pub fields: Seq<(Seq<char>, Seq<char>)>,
    pub body: Seq<char>,
}

/// The header fields as plain values.
pub open spec fn fields_view(fields: Seq<(String, String)>) -> Seq<(Seq<char>, Seq<char>)> {
    fields.map_values(|f: (String, String)| (f.0@, f.1@))
}

/// Whether no field name occurs twice in `fields`.
pub open spec fn names_distinct(fields: Seq<(Seq<char>, Seq<char>)>) -> bool {
    forall|i: int, j: int|
        0 <= i < fields.len() && 0 <= j < fields.len() && i != j ==> #[trigger] fields[i].0 != #[trigger] fields[j].0
}

/// `fields` with field `name` set to `value`: its value replaced where the
/// name is present, else the field added at the end.
pub open spec fn set_field(fields: Seq<(Seq<char>, Seq<char>)>, name: Seq<char>, value: Seq<char>) -> Seq<(Seq<char>, Seq<char>)> {
    if exists|i: int| 0 <= i < fields.len() && #[trigger] fields[i].0 == name {
        let i = choose|i: int| 0 <= i < fields.len() && #[trigger] fields[i].0 == name;
        fields.update(i, (name, value))
    } else {
        fields.push((name, value))
    }
}

/// The value of the field named `name` in `fields`, if there is one.
pub open spec fn field_value(fields: Seq<(Seq<char>, Seq<char>)>, name: Seq<char>) -> Option<Seq<char>> {
    if exists|i: int| 0 <= i < fields.len() && #[trigger] fields[i].0 == name {
        Some(fields[choose|i: int| 0 <= i < fields.len() && #[trigger] fields[i].0 == name].1)
    } else {
        None
    }
}

/// Setting a field keeps the names distinct, and the field then reads back
/// as the value it was set to.
pub proof fn lemma_set_field_reads_back(fields: Seq<(Seq<char>, Seq<char>)>, name: Seq<char>, value: Seq<char>)
    requires
        names_distinct(fields),
    ensures
        names_distinct(set_field(fields, name, value)),
        field_value(set_field(fields, name, value), name) == Some(value),
        forall|other: Seq<char>| other != name ==>
            #[trigger] field_value(set_field(fields, name, value), other) == field_value(fields, other),
{
    let r = set_field(fields, name, value);
    assert forall|other: Seq<char>| other != name implies
        #[trigger] field_value(r, other) == field_value(fields, other) by {
        if exists|i: int| 0 <= i < fields.len() && #[trigger] fields[i].0 == name {
            let k = choose|i: int| 0 <= i < fields.len() && #[trigger] fields[i].0 == name;
            assert(r == fields.update(k, (name, value)));
            if exists|i: int| 0 <= i < fields.len() && #[trigger] fields[i].0 == other {
                let j = choose|i: int| 0 <= i < fields.len() && #[trigger] fields[i].0 == other;
                assert(j != k);
                assert(r[j].0 == other);
                let c = choose|i: int| 0 <= i < r.len() && #[trigger] r[i].0 == other;
                assert(c != k);
                assert(r[c] == fields[c]);
                assert(fields[c].0 == fields[j].0);
                assert(c == j);
            } else {
                assert forall|i: int| 0 <= i < r.len() implies #[trigger] r[i].0 != other by {
                    if i != k {
                        assert(r[i] == fields[i]);
                    }
                }
            }
        } else {
            assert(r == fields.push((name, value)));
            let n = fields.len() as int;
            if exists|i: int| 0 <= i < fields.len() && #[trigger] fields[i].0 == other {
                let j = choose|i: int| 0 <= i < fields.len() && #[trigger] fields[i].0 == other;
                assert(r[j] == fields[j]);
                let c = choose|i: int| 0 <= i < r.len() && #[trigger] r[i].0 == other;
                assert(c != n);
                assert(r[c] == fields[c]);
                assert(c == j);
            } else {
                assert forall|i: int| 0 <= i < r.len() implies #[trigger] r[i].0 != other by {
                    if i != n {
                        assert(r[i] == fields[i]);
                    }
                }
            }
        }
    }
    if exists|i: int| 0 <= i < fields.len() && #[trigger] fields[i].0 == name {
        let k = choose|i: int| 0 <= i < fields.len() && #[trigger] fields[i].0 == name;
        assert(r == fields.update(k, (name, value)));
        assert forall|a: int, b: int| 0 <= a < r.len() && 0 <= b < r.len() && a != b
            implies #[trigger] r[a].0 != #[trigger] r[b].0 by {
            assert(r[a].0 == fields[a].0 && r[b].0 == fields[b].0);
            assert(fields[a].0 != fields[b].0);
        }
        assert(r[k].0 == name);
        let c = choose|i: int| 0 <= i < r.len() && #[trigger] r[i].0 == name;
        assert(r[c].0 == r[k].0);
        assert(c == k);
    } else {
        assert(r == fields.push((name, value)));
        let n = fields.len() as int;
        assert forall|a: int, b: int| 0 <= a < r.len() && 0 <= b < r.len() && a != b
            implies #[trigger] r[a].0 != #[trigger] r[b].0 by {
            if a == n {
                assert(r[b] == fields[b]);
            } else if b == n {
                assert(r[a] == fields[a]);
            } else {
                assert(r[a] == fields[a] && r[b] == fields[b]);
            }
        }
        assert(r[n].0 == name);
        let c = choose|i: int| 0 <= i < r.len() && #[trigger] r[i].0 == name;
        if c != n {
            assert(r[c] == fields[c]);
        }
        assert(c == n);
    }
}

/// The text of header fields: each as `name: value` and a newline.
pub open spec fn fields_text(fields: Seq<(Seq<char>, Seq<char>)>) -> Seq<char>
    decreases fields.len(),
{
    if fields.len() == 0 {
        Seq::empty()
    } else {
        fields_text(fields.drop_last()) + fields.last().0 + ": "@ + fields.last().1 + "\n"@
    }
}

/// The text of one header field is its name, `: `, its value and a line
/// break, and the text of several fields is the text of each, in order.
pub proof fn lemma_fields_text_parts(a: Seq<(Seq<char>, Seq<char>)>, b: Seq<(Seq<char>, Seq<char>)>, f: (Seq<char>, Seq<char>))
    ensures
        fields_text(Seq::empty()) == Seq::<char>::empty(),
        fields_text(seq![f]) == f.0 + ": "@ + f.1 + "\n"@,
        fields_text(a + b) == fields_text(a) + fields_text(b),
    decreases b.len(),
{
    let e = Seq::<(Seq<char>, Seq<char>)>::empty();
    assert(fields_text(e) == Seq::<char>::empty());
    assert(seq![f].drop_last() =~= e);
    assert(seq![f].last() == f);
    assert(fields_text(seq![f]) == fields_text(e) + f.0 + ": "@ + f.1 + "\n"@);
    assert(Seq::<char>::empty() + f.0 =~= f.0);
    if b.len() == 0 {
        assert(a + b =~= a);
        assert(fields_text(a) + fields_text(b) =~= fields_text(a));
    } else {
        lemma_fields_text_parts(a, b.drop_last(), f);
        assert((a + b).drop_last() =~= a + b.drop_last());
        assert((a + b).last() == b.last());
        assert(fields_text(a + b) =~= fields_text(a) + fields_text(b));
    }
}

/// The text of a response: the status line, the header fields, an empty
/// line and the body.
pub open spec fn response_text(r: ResponseView) -> Seq<char> {
    r.version + " "@ + r.status + "\n"@ + fields_text(r.fields) + "\n"@ + r.body
}

/// A response's text starts with its status line (version, a space, the
/// status, a line break) and, whatever the status, ends with a blank line
/// followed by exactly the response's body.
pub proof fn lemma_response_text_frame(r: ResponseView)
    ensures
        ({
            let t = response_text(r);
            let head = r.version + " "@ + r.status + "\n"@;
            let n = t.len();
            let b = r.body.len();
            &&& n >= head.len() + 1 + b
            &&& t.take(head.len() as int) == head
            &&& t.skip(n - b) == r.body
            &&& t[n - b - 1] == '\n'
            &&& t[n - b - 2] == '\n'
        }),
{
    reveal_strlit("\n");
    reveal_strlit(" ");
    let head = r.version + " "@ + r.status + "\n"@;
    let f = fields_text(r.fields);
    let t = response_text(r);
    assert(t == head + f + "\n"@ + r.body);
    assert(t.take(head.len() as int) =~= head);
    assert(t.skip(t.len() - r.body.len()) =~= r.body);
    assert(t[t.len() - r.body.len() - 1] == ("\n"@)[0]);
    if r.fields.len() == 0 {
        assert(f == Seq::<char>::empty());
        assert(t[t.len() - r.body.len() - 2] == head[head.len() - 1]);
    } else {
        let g = r.fields;
        assert(f == fields_text(g.drop_last()) + g.last().0 + ": "@ + g.last().1 + "\n"@);
        assert(f[f.len() - 1] == '\n');
        assert(t[t.len() - r.body.len() - 2] == f[f.len() - 1]);
    }
}

/// The status of a successful response.
pub open spec fn status_ok() -> Seq<char> {
    "200 OK"@
}

/// The status of a response for a missing resource.
pub open spec fn status_not_found() -> Seq<char> {
    "404 NOT FOUND"@
}

/// The status of a response for a failure of the server.
pub open spec fn status_server_error() -> Seq<char> {
    "500 Internal Server Error"@
}

/// The header fields every new response has, the date aside: the first
/// field is `Date`, then come these.
pub open spec fn default_fields_after_date() -> Seq<(Seq<char>, Seq<char>)> {
    seq![("Server"@, "Rust-server/0.0.0"@), ("Content-Length"@, decimal(0)), ("Content-Type"@, "text/html"@)]
}

/// The response with status `status`, dated `date`, with the default
/// header fields and no body.
pub open spec fn dated_response(status: Seq<char>, date: Seq<char>) -> ResponseView {
    ResponseView {
        version: "HTTP/1.1"@,
        status: status,
        fields: seq![("Date"@, date)] + default_fields_after_date(),
        body: Seq::empty(),
    }
}

/// Whether `r` is a fresh response with status `status` and no body: one
/// dated with some date text.
pub open spec fn fresh_response(r: ResponseView, status: Seq<char>) -> bool {
    &&& r.version == "HTTP/1.1"@
    &&& r.status == status
    &&& r.fields.len() == 4
    &&& r.fields[0].0 == "Date"@
    &&& date_text(r.fields[0].1)
    &&& r.fields.drop_first() == default_fields_after_date()
    &&& r.body == Seq::<char>::empty()
}

/// An HTTP response: protocol version, status, header fields and body.
/// No header field name occurs twice.
#[derive(Debug)]
pub struct Response {
    version: String,
    status: String,
    fields: Vec<(String, String)>,
    body: String,
}

impl View for Response {
    type V = ResponseView;

    closed spec fn view(&self) -> ResponseView {
        ResponseView {
            version: self.version@,
            status: self.status@,
            fields: fields_view(self.fields@),
            body: self.body@,
        }
    }
}

/// The text of a response, put in a message by `to_message`, is valid
/// UTF-8, and the only text that message reads as (`Message::to_str`) is the
/// response's text (`to_string`).
pub proof fn lemma_message_reads_back(t: Seq<char>, s: Seq<char>)
    ensures
        vstd::utf8::valid_utf8(encode_utf8(t)),
        encode_utf8(s) == encode_utf8(t) ==> s == t,
{
    vstd::utf8::encode_utf8_valid_utf8(t);
    vstd::utf8::encode_utf8_decode_utf8(t);
    vstd::utf8::encode_utf8_decode_utf8(s);
}

/// Giving a fresh response a body sets its `Content-Length` field, the
/// third, to the body's length in bytes, and leaves the other fields and
/// their order as they were.
pub proof fn lemma_fresh_response_body(r: ResponseView, status: Seq<char>, body: Seq<char>)
    requires
        fresh_response(r, status),
    ensures
        set_field(r.fields, "Content-Length"@, decimal(byte_len(body)))
            == r.fields.update(2, ("Content-Length"@, decimal(byte_len(body)))),
        set_field(r.fields, "Content-Length"@, decimal(byte_len(body))).len() == 4,
{
    reveal_strlit("Date");
    reveal_strlit("Server");
    reveal_strlit("Content-Length");
    reveal_strlit("Content-Type");
    assert(r.fields[2] == r.fields.drop_first()[1]);
    assert(r.fields[1] == r.fields.drop_first()[0]);
    assert(r.fields[3] == r.fields.drop_first()[2]);
    assert(r.fields[2].0 == "Content-Length"@);
    let c = choose|c: int| 0 <= c < r.fields.len() && #[trigger] r.fields[c].0 == "Content-Length"@;
    assert(r.fields[0].0.len() == 4 && r.fields[1].0.len() == 6 && r.fields[3].0.len() == 12);
    assert(c == 2);
}

/// Sets field `name` of `fields` to `value`.
fn put_field(fields: &mut Vec<(String, String)>, name: String, value: String)
    requires
        names_distinct(fields_view(old(fields)@)),
    ensures
        fields_view(final(fields)@) == set_field(fields_view(old(fields)@), name@, value@),
        names_distinct(fields_view(final(fields)@)),
{
    let ghost fv = fields_view(fields@);
    let n = fields.len();
    let mut i: usize = 0;
    while i < n
        invariant
            n == fields.len(),
            fields@ == old(fields)@,
            fv == fields_view(fields@),
            names_distinct(fv),
            i <= n,
            forall|j: int| 0 <= j < i ==> #[trigger] fv[j].0 != name@,
        decreases n - i,
    {
        if fields[i].0 == name {
            let ghost k = i as int;
            proof {
                assert(fv[k].0 == name@);
                let c = choose|c: int| 0 <= c < fv.len() && #[trigger] fv[c].0 == name@;
                assert(fv[c].0 == fv[k].0);
                assert(c == k);
            }
            fields.set(i, (name, value));
            proof {
                assert(fields_view(fields@) =~= fv.update(k, (name@, value@)));
                assert forall|a: int, b: int|
                    0 <= a < fields_view(fields@).len() && 0 <= b < fields_view(fields@).len() && a != b
                    implies #[trigger] fields_view(fields@)[a].0 != #[trigger] fields_view(fields@)[b].0 by {
                    if a != k && b != k {
                        assert(fv[a].0 != fv[b].0);
                    } else if a == k {
                        assert(fv[b].0 != fv[k].0);
                    } else {
                        assert(fv[a].0 != fv[k].0);
                    }
                }
            }
            return;
        }
        i = i + 1;
    }
    let ghost old_fv = fv;
    fields.push((name, value));
    proof {
        assert(fields_view(fields@) =~= old_fv.push((name@, value@)));
        assert(!(exists|c: int| 0 <= c < old_fv.len() && #[trigger] old_fv[c].0 == name@));
    }
}

impl Response {
    #[verifier::type_invariant]
    closed spec fn well_formed(self) -> bool {
        names_distinct(fields_view(self.fields@))
    }

    /// The response with status `status`, dated `date`, with the default
    /// header fields (`Date`, `Server`, `Content-Length` 0, `Content-Type`)
    /// and no body.
    pub fn with_date(status: String, date: String) -> (r: Response)
        ensures
            r@ == dated_response(status@, date@),
            names_distinct(r@.fields),
            date_text(date@) ==> fresh_response(r@, status@),
    {
        proof {
            reveal_strlit("Date");
            reveal_strlit("Server");
            reveal_strlit("Content-Length");
            reveal_strlit("Content-Type");
            reveal_strlit("0");
        }
        let mut fields: Vec<(String, String)> = Vec::new();
        fields.push(("Date".to_owned(), date));
        fields.push(("Server".to_owned(), "Rust-server/0.0.0".to_owned()));
        fields.push(("Content-Length".to_owned(), decimal_string(0)));
        fields.push(("Content-Type".to_owned(), "text/html".to_owned()));
        proof {
            let fv = fields_view(fields@);
            assert(fv[0].0.len() == 4 && fv[1].0.len() == 6 && fv[2].0.len() == 14 && fv[3].0.len() == 12);
            assert(names_distinct(fv));
        }
        let r = Response {
            version: "HTTP/1.1".to_owned(),
            status: status,
            fields: fields,
            body: String::new(),
        };
        assert(fields_view(r.fields@).drop_first() =~= default_fields_after_date());
        assert(fields_view(r.fields@) =~= dated_response(status@, date@).fields);
        r
    }

    /// A fresh response with status `200 OK`.
    pub fn ok() -> (r: Response)
        ensures
            fresh_response(r@, status_ok()),
            date_in_range(r@.fields[0].1),
    {
        Response::with_date("200 OK".to_owned(), local_date_text())
    }

    /// A fresh response with status `404 NOT FOUND`.
    pub fn not_found() -> (r: Response)
        ensures
            fresh_response(r@, status_not_found()),
            date_in_range(r@.fields[0].1),
    {
        Response::with_date("404 NOT FOUND".to_owned(), local_date_text())
    }

    /// A fresh response with status `500 Internal Server Error`.
    pub fn server_error() -> (r: Response)
        ensures
            fresh_response(r@, status_server_error()),
            date_in_range(r@.fields[0].1),
    {
        Response::with_date("500 Internal Server Error".to_owned(), local_date_text())
    }

    /// The response with `body` as its body and a `Content-Length` field
    /// giving the body's length in bytes.
    pub fn body(self, body: String) -> (r: Response)
        ensures
            r@ == (ResponseView {
                fields: set_field(self@.fields, "Content-Length"@, decimal(byte_len(body@))),
                body: body@,
                ..self@
            }),
            names_distinct(self@.fields),
            names_distinct(r@.fields),
            field_value(r@.fields, "Content-Length"@) == Some(decimal(byte_len(body@))),
    {
        proof {
            use_type_invariant(&self);
            lemma_set_field_reads_back(self@.fields, "Content-Length"@, decimal(byte_len(body@)));
        }
        let Response { version: v, status: s, fields: mut f, .. } = self;
        let len = body.as_str().len();
        put_field(&mut f, "Content-Length".to_owned(), decimal_string(len));
        Response { version: v, status: s, fields: f, body: body }
    }

    /// The response as text: the status line, each header field on a line of
    /// its own, an empty line and the body.
    pub fn to_string(&self) -> (s: String)
        ensures
            s@ == response_text(self@),
            names_distinct(self@.fields),
    {
        proof {
            use_type_invariant(self);
        }
        let ghost fv = self@.fields;
        let mut s = String::new();
        s.append(self.version.as_str());
        s.append(" ");
        s.append(self.status.as_str());
        s.append("\n");
        let ghost head = s@;
        let n = self.fields.len();
        for i in 0..n
            invariant
                n == self.fields.len(),
                fv == fields_view(self.fields@),
                s@ == head + fields_text(fv.take(i as int)),
        {
            assert(fv.take(i + 1).drop_last() =~= fv.take(i as int));
            s.append(self.fields[i].0.as_str());
            s.append(": ");
            s.append(self.fields[i].1.as_str());
            s.append("\n");
        }
        assert(fv.take(n as int) =~= fv);
        s.append("\n");
        s.append(self.body.as_str());
        s
    }

    /// The response's text, encoded as UTF-8, in a message.
    pub fn to_message(&self) -> (m: Message)
        ensures
            m.buf@ == encode_utf8(response_text(self@)),
    {
        let mut message = Message::new();
        let text = self.to_string();
        message.write(text.as_str().as_bytes());
        assert(message.buf@ =~= encode_utf8(response_text(self@)));
        message
    }
}

} // verus!
