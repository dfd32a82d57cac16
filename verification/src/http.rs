//! What the server makes of a request, and the bytes it answers with. The
//! jobs that the pool runs are built on these.

use vstd::prelude::*;
use vstd::string::*;

verus! {

/// The page that a request is answered with.
#[derive(Clone, Copy, Debug, PartialEq, Eq, Structural)]
pub enum Route {
    /// The front page.
    Index,
    /// The page that is served after a pause.
    Sleep,
    /// The page for every other request.
    NotFound,
}

/// The page for `request`, which is decided by how the request begins.
pub open spec fn route_of(request: Seq<u8>) -> Route {
    if "GET / HTTP/1.1\r\n".spec_bytes().is_prefix_of(request) {
        Route::Index
    } else if "GET /sleep HTTP/1.1\r\n".spec_bytes().is_prefix_of(request) {
        Route::Sleep
    } else {
        Route::NotFound
    }
}

/// The first line of the answer for `route`.
pub open spec fn status_line_of(route: Route) -> Seq<char> {
    match route {
        Route::Index => "HTTP/1.1 200 OK"@,
        Route::Sleep => "HTTP/1.1 200 OK"@,
        Route::NotFound => "HTTP/1.1 400 NOT FOUND"@,
    }
}

/// The name of the file that holds the page for `route`.
pub open spec fn file_name_of(route: Route) -> Seq<char> {
    match route {
        Route::Index => "index.html"@,
        Route::Sleep => "sleep.html"@,
        Route::NotFound => "404.html"@,
    }
}

/// `n` in decimal digits, the highest first, without leading zeros.
pub open spec fn decimal(n: nat) -> Seq<u8>
    decreases n,
{
    if n < 10 {
        seq![(48 + n) as u8]
    } else {
        decimal(n / 10).push((48 + n % 10) as u8)
    }
}

/// The answer: the status line, one header with the length of the body, an
/// empty line, the body.
pub open spec fn response_of(status_line: Seq<u8>, body: Seq<u8>) -> Seq<u8> {
    status_line + "\r\nContent-Lenght: ".spec_bytes() + decimal(body.len()) + "\r\n\r\n".spec_bytes()
        + body
}

fn starts_with(request: &[u8], line: &str) -> (found: bool)
    ensures
        found == line.spec_bytes().is_prefix_of(request@),
{
    let prefix = line.as_bytes_vec();
    if request.len() < prefix.len() {
        return false;
    }
    let mut at: usize = 0;
    while at < prefix.len()
        invariant
            at <= prefix@.len() <= request@.len(),
            prefix@ == line.spec_bytes(),
            forall|i: int| 0 <= i < at ==> request@[i] == prefix@[i],
        decreases prefix@.len() - at,
    {
        if request[at] != prefix[at] {
            return false;
        }
        at = at + 1;
    }
    true
}

fn push_all(out: &mut Vec<u8>, bytes: &[u8])
    ensures
        final(out)@ == old(out)@ + bytes@,
{
    let mut at: usize = 0;
    while at < bytes.len()
        invariant
            at <= bytes@.len(),
            out@ == old(out)@ + bytes@.take(at as int),
        decreases bytes@.len() - at,
    {
        out.push(bytes[at]);
        at = at + 1;
    }
}

fn push_decimal(out: &mut Vec<u8>, n: usize)
    ensures
        final(out)@ == old(out)@ + decimal(n as nat),
    decreases n,
{
    if n >= 10 {
        push_decimal(out, n / 10);
    }
    let digit: u8 = 48 + (n % 10) as u8;
    out.push(digit);
}

/// Decides which page answers `request`.
pub fn route(request: &[u8]) -> (route: Route)
    ensures
        route == route_of(request@),
{
    if starts_with(request, "GET / HTTP/1.1\r\n") {
        Route::Index
    } else if starts_with(request, "GET /sleep HTTP/1.1\r\n") {
        Route::Sleep
    } else {
        Route::NotFound
    }
}

impl Route {
    /// The first line of the answer.
    pub fn status_line(&self) -> (line: &'static str)
        ensures
            line@ == status_line_of(*self),
    {
        match self {
            Route::Index => "HTTP/1.1 200 OK",
            Route::Sleep => "HTTP/1.1 200 OK",
            Route::NotFound => "HTTP/1.1 400 NOT FOUND",
        }
    }

    /// The name of the file that holds the page.
    pub fn file_name(&self) -> (name: &'static str)
        ensures
            name@ == file_name_of(*self),
    {
        match self {
            Route::Index => "index.html",
            Route::Sleep => "sleep.html",
            Route::NotFound => "404.html",
        }
    }

    /// How many seconds to wait before the answer: ten for the page that is
    /// served after a pause, none for the others.
    pub fn delay_secs(&self) -> (secs: u64)
        ensures
            secs == if *self == Route::Sleep {
                10u64
            } else {
                0u64
            },
    {
        match self {
            Route::Sleep => 10,
            _ => 0,
        }
    }
}

/// Puts the answer together from its first line and the page.
pub fn response(status_line: &str, body: &[u8]) -> (bytes: Vec<u8>)
    ensures
        bytes@ == response_of(status_line.spec_bytes(), body@),
{
    let mut bytes = status_line.as_bytes_vec();
    let header = "\r\nContent-Lenght: ".as_bytes_vec();
    push_all(&mut bytes, header.as_slice());
    push_decimal(&mut bytes, body.len());
    let blank = "\r\n\r\n".as_bytes_vec();
    push_all(&mut bytes, blank.as_slice());
    push_all(&mut bytes, body);
    bytes
}

} // verus!
