//! What a served connection computes between reading a request line and
//! writing the response: the route, the page, and the framed response.

use vstd::prelude::*;
use vstd::string::*;
use vstd::utf8::encode_utf8;

verus! {

/// The status of a response.
#[derive(Clone, Copy, Debug, PartialEq, Eq, Structural)]
pub enum HttpStatus {
    /// The request was served.
    Okay,
    /// Nothing is served under the requested path.
    NotFound,
}

/// What a request line asks for.
#[derive(Clone, Copy, Debug, PartialEq, Eq, Structural)]
pub enum Route {
    /// The page, with the counter as it stands.
    Index,
    /// The page, after the counter has gone up by one.
    Increment,
    /// Anything else.
    Unknown,
}

/// The decimal digit for `d`, which is below ten.
pub open spec fn digit(d: nat) -> char {
    if d == 0 {
        '0'
    } else if d == 1 {
        '1'
    } else if d == 2 {
        '2'
    } else if d == 3 {
        '3'
    } else if d == 4 {
        '4'
    } else if d == 5 {
        '5'
    } else if d == 6 {
        '6'
    } else if d == 7 {
        '7'
    } else if d == 8 {
        '8'
    } else {
        '9'
    }
}

/// `n` in decimal, without leading zeros.
pub open spec fn decimal(n: nat) -> Seq<char>
    decreases n,
{
    if n < 10 {
        seq![digit(n)]
    } else {
        decimal(n / 10).push(digit(n % 10))
    }
}

/// The status line of a response with `status`.
pub open spec fn status_text(status: HttpStatus) -> Seq<char> {
    match status {
        HttpStatus::Okay => "HTTP/1.1 200 OK"@,
        HttpStatus::NotFound => "HTTP/1.1 404 NOT FOUND"@,
    }
}

/// What `line` asks for: the two request lines that are served, to the
/// letter, and everything else.
pub open spec fn route_of(line: Seq<char>) -> Route {
    if line == "GET / HTTP/1.1"@ {
        Route::Index
    } else if line == "GET /incr HTTP/1.1"@ {
        Route::Increment
    } else {
        Route::Unknown
    }
}

/// A response: the status line, the length of the contents in bytes, an
/// empty line, and the contents.
pub open spec fn response_text(status: HttpStatus, contents: Seq<char>) -> Seq<char> {
    status_text(status) + "\r\nContent-Length: "@ + decimal(encode_utf8(contents).len())
        + "\r\n\r\n"@ + contents
}

/// The contents served for `route` while the counter stands at `count`:
/// the markup with the counter filled in, or the page that says that
/// nothing was found.
pub open spec fn page_of(route: Route, markup: Seq<char>, count: nat) -> Seq<char> {
    if route is Unknown {
        "<h1>Page not found.</h1>"@
    } else {
        replaced(markup, "{count}"@, decimal(count))
    }
}

/// `text` with every occurrence of `from` replaced by `to`, as
/// `str::replace` finds them.
pub uninterp spec fn replaced(text: Seq<char>, from: Seq<char>, to: Seq<char>) -> Seq<char>;

/// Calls `str::replace`, which copies `text` and puts `to` in the place of
/// each match of `from`. The result depends on the three strings alone;
/// the contract gives it its name and claims nothing else of it.
#[verifier::external_body]
fn replace_all(text: &str, from: &str, to: &str) -> (out: String)
    ensures
        out@ == replaced(text@, from@, to@),
{
    text.replace(from, to)
}

impl HttpStatus {
    /// The status line.
    pub fn status_line(&self) -> (line: String)
        ensures
            line@ == status_text(*self),
    {
        match self {
            HttpStatus::Okay => "HTTP/1.1 200 OK".to_owned(),
            HttpStatus::NotFound => "HTTP/1.1 404 NOT FOUND".to_owned(),
        }
    }
}

impl Route {
    /// The status of the response to a request for this route.
    pub open spec fn status_of(self) -> HttpStatus {
        if self is Unknown {
            HttpStatus::NotFound
        } else {
            HttpStatus::Okay
        }
    }

    /// The status of the response to a request for this route.
    pub fn status(&self) -> (status: HttpStatus)
        ensures
            status == self.status_of(),
    {
        match self {
            Route::Unknown => HttpStatus::NotFound,
            _ => HttpStatus::Okay,
        }
    }

    /// Whether serving this route moves the counter up by one.
    pub fn increments(&self) -> (increments: bool)
        ensures
            increments == (*self is Increment),
    {
        match self {
            Route::Increment => true,
            _ => false,
        }
    }
}

/// Tells what the request line `line` asks for.
pub fn route(line: &str) -> (route: Route)
    ensures
        route == route_of(line@),
{
    let line = line.to_owned();
    if line == "GET / HTTP/1.1".to_owned() {
        Route::Index
    } else if line == "GET /incr HTTP/1.1".to_owned() {
        Route::Increment
    } else {
        Route::Unknown
    }
}

/// The digit `d` as a string.
fn digit_str(d: usize) -> (s: &'static str)
    requires
        d < 10,
    ensures
        s@ == seq![digit(d as nat)],
{
    proof {
        reveal_strlit("0");
        reveal_strlit("1");
        reveal_strlit("2");
        reveal_strlit("3");
        reveal_strlit("4");
        reveal_strlit("5");
        reveal_strlit("6");
        reveal_strlit("7");
        reveal_strlit("8");
        reveal_strlit("9");
    }
    let s = if d == 0 {
        "0"
    } else if d == 1 {
        "1"
    } else if d == 2 {
        "2"
    } else if d == 3 {
        "3"
    } else if d == 4 {
        "4"
    } else if d == 5 {
        "5"
    } else if d == 6 {
        "6"
    } else if d == 7 {
        "7"
    } else if d == 8 {
        "8"
    } else {
        "9"
    };
    assert(s@ =~= seq![digit(d as nat)]);
    s
}

/// Writes `n` in decimal.
pub fn decimal_string(n: usize) -> (out: String)
    ensures
        out@ == decimal(n as nat),
    decreases n,
{
    if n < 10 {
        digit_str(n).to_owned()
    } else {
        let mut out = decimal_string(n / 10);
        out.append(digit_str(n % 10));
        assert(out@ =~= decimal(n as nat / 10).push(digit(n as nat % 10)));
        out
    }
}

/// The page: `markup` with each placeholder `{count}` replaced by `count`
/// in decimal.
pub fn render(markup: &str, count: usize) -> (page: String)
    ensures
        page@ == replaced(markup@, "{count}"@, decimal(count as nat)),
{
    let digits = decimal_string(count);
    replace_all(markup, "{count}", digits.as_str())
}

/// The page that is served when nothing is found under the requested
/// path.
pub fn not_found_page() -> (page: String)
    ensures
        page@ == "<h1>Page not found.</h1>"@,
{
    "<h1>Page not found.</h1>".to_owned()
}

/// The contents served for `route` while the counter stands at `count`.
pub fn page(route: Route, markup: &str, count: usize) -> (page: String)
    ensures
        page@ == page_of(route, markup@, count as nat),
{
    match route {
        Route::Unknown => not_found_page(),
        _ => render(markup, count),
    }
}

/// The whole response to a request for `route` while the counter stands
/// at `count`.
pub fn reply(route: Route, markup: &str, count: usize) -> (out: String)
    ensures
        out@ == response_text(route.status_of(), page_of(route, markup@, count as nat)),
{
    let contents = page(route, markup, count);
    response(route.status(), contents.as_str())
}

/// Frames `contents` as a response with `status`.
pub fn response(status: HttpStatus, contents: &str) -> (out: String)
    ensures
        out@ == response_text(status, contents@),
{
    let mut out = status.status_line();
    out.append("\r\nContent-Length: ");
    let length = decimal_string(contents.as_bytes().len());
    out.append(length.as_str());
    out.append("\r\n\r\n");
    out.append(contents);
    assert(out@ =~= response_text(status, contents@));
    out
}

} // verus!
