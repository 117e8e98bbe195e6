//! The compute half of the HTTP collaborator that submits jobs to the pool:
//! deciding which of the three canned responses a request line gets, and
//! assembling the response bytes (status line, `Content-Length` header with
//! the body's length in decimal, blank line, body). Reading the request line
//! and writing the response are I/O and stay with the caller, as does the
//! artificial delay of the slow route: the route value says which requests
//! get it.

use vstd::prelude::*;

verus! {

/// The three routes the collaborator serves.
#[derive(Clone, Copy, Debug, PartialEq, Eq, Structural)]
pub enum Route {
    /// `GET / HTTP/1.1`: the canned page, served at once.
    Home,
    /// `GET /sleep HTTP/1.1`: the canned page after a fixed delay.
    Sleep,
    /// Anything else: the canned not-found snippet.
    NotFound,
}

/// The bytes of the request line that selects the home route.
pub open spec fn home_request_line() -> Seq<u8> {
    seq![
        'G' as u8, 'E' as u8, 'T' as u8, ' ' as u8, '/' as u8, ' ' as u8,
        'H' as u8, 'T' as u8, 'T' as u8, 'P' as u8, '/' as u8, '1' as u8,
        '.' as u8, '1' as u8,
    ]
}

/// The bytes of the request line that selects the slow route.
pub open spec fn sleep_request_line() -> Seq<u8> {
    seq![
        'G' as u8, 'E' as u8, 'T' as u8, ' ' as u8, '/' as u8, 's' as u8,
        'l' as u8, 'e' as u8, 'e' as u8, 'p' as u8, ' ' as u8, 'H' as u8,
        'T' as u8, 'T' as u8, 'P' as u8, '/' as u8, '1' as u8, '.' as u8,
        '1' as u8,
    ]
}

/// The bytes of the success status line.
pub open spec fn ok_status_line() -> Seq<u8> {
    seq![
        'H' as u8, 'T' as u8, 'T' as u8, 'P' as u8, '/' as u8, '1' as u8,
        '.' as u8, '1' as u8, ' ' as u8, '2' as u8, '0' as u8, '0' as u8,
        ' ' as u8, 'O' as u8, 'K' as u8,
    ]
}

/// The bytes of the not-found status line.
pub open spec fn not_found_status_line() -> Seq<u8> {
    seq![
        'H' as u8, 'T' as u8, 'T' as u8, 'P' as u8, '/' as u8, '1' as u8,
        '.' as u8, '1' as u8, ' ' as u8, '4' as u8, '0' as u8, '4' as u8,
        ' ' as u8, 'N' as u8, 'O' as u8, 'T' as u8, ' ' as u8, 'F' as u8,
        'O' as u8, 'U' as u8, 'N' as u8, 'D' as u8,
    ]
}

/// The bytes of the header label before the body length.
pub open spec fn content_length_label() -> Seq<u8> {
    seq![
        'C' as u8, 'o' as u8, 'n' as u8, 't' as u8, 'e' as u8, 'n' as u8,
        't' as u8, '-' as u8, 'L' as u8, 'e' as u8, 'n' as u8, 'g' as u8,
        't' as u8, 'h' as u8, ':' as u8, ' ' as u8,
    ]
}

/// Carriage return, line feed.
pub open spec fn crlf() -> Seq<u8> {
    seq![13u8, 10u8]
}

/// Which route a request line selects: the two recognised lines get their
/// routes, any other line is not found.
pub open spec fn spec_route(line: Seq<u8>) -> Route {
    if line == home_request_line() {
        Route::Home
    } else if line == sleep_request_line() {
        Route::Sleep
    } else {
        Route::NotFound
    }
}

/// The status line a route is answered with: the recognised routes succeed,
/// the rest are not found.
pub open spec fn spec_status_line(route: Route) -> Seq<u8> {
    match route {
        Route::Home => ok_status_line(),
        Route::Sleep => ok_status_line(),
        Route::NotFound => not_found_status_line(),
    }
}

/// The decimal digits of `n`, most significant first, no sign, no leading
/// zero except for `n == 0` itself.
pub open spec fn decimal_rep(n: nat) -> Seq<u8>
    decreases n,
{
    if n < 10 {
        seq![(48 + n) as u8]
    } else {
        decimal_rep(n / 10).push((48 + n % 10) as u8)
    }
}

/// The full response for a status line and body: status line, then the
/// `Content-Length` header giving the body's length in decimal, then a
/// blank line, then the body.
pub open spec fn spec_response(status_line: Seq<u8>, body: Seq<u8>) -> Seq<u8> {
    status_line + crlf() + content_length_label() + decimal_rep(body.len()) + crlf() + crlf()
        + body
}

/// Whether two byte slices hold the same bytes.
fn bytes_eq(a: &[u8], b: &[u8]) -> (r: bool)
    ensures
        r == (a@ == b@),
{
    if a.len() != b.len() {
        return false;
    }
    let mut i: usize = 0;
    while i < a.len()
        invariant
            i <= a@.len(),
            a@.len() == b@.len(),
            forall|j: int| 0 <= j < i ==> a@[j] == b@[j],
        decreases a@.len() - i,
    {
        if a[i] != b[i] {
            return false;
        }
        i += 1;
    }
    proof {
        assert(a@ =~= b@);
    }
    true
}

/// The request line that selects the home route, as owned bytes.
fn home_request_line_bytes() -> (v: Vec<u8>)
    ensures
        v@ == home_request_line(),
{
    let mut v: Vec<u8> = Vec::new();
    v.push('G' as u8);
    v.push('E' as u8);
    v.push('T' as u8);
    v.push(' ' as u8);
    v.push('/' as u8);
    v.push(' ' as u8);
    v.push('H' as u8);
    v.push('T' as u8);
    v.push('T' as u8);
    v.push('P' as u8);
    v.push('/' as u8);
    v.push('1' as u8);
    v.push('.' as u8);
    v.push('1' as u8);
    proof {
        assert(v@ =~= home_request_line());
    }
    v
}

/// The request line that selects the slow route, as owned bytes.
fn sleep_request_line_bytes() -> (v: Vec<u8>)
    ensures
        v@ == sleep_request_line(),
{
    let mut v: Vec<u8> = Vec::new();
    v.push('G' as u8);
    v.push('E' as u8);
    v.push('T' as u8);
    v.push(' ' as u8);
    v.push('/' as u8);
    v.push('s' as u8);
    v.push('l' as u8);
    v.push('e' as u8);
    v.push('e' as u8);
    v.push('p' as u8);
    v.push(' ' as u8);
    v.push('H' as u8);
    v.push('T' as u8);
    v.push('T' as u8);
    v.push('P' as u8);
    v.push('/' as u8);
    v.push('1' as u8);
    v.push('.' as u8);
    v.push('1' as u8);
    proof {
        assert(v@ =~= sleep_request_line());
    }
    v
}

/// Decide which route a request line selects.
pub fn route_of(request_line: &[u8]) -> (r: Route)
    ensures
        r == spec_route(request_line@),
{
    let home = home_request_line_bytes();
    if bytes_eq(request_line, home.as_slice()) {
        return Route::Home;
    }
    let sleep = sleep_request_line_bytes();
    if bytes_eq(request_line, sleep.as_slice()) {
        return Route::Sleep;
    }
    Route::NotFound
}

impl Route {
    /// Whether this route is served only after the fixed artificial delay.
    pub fn delays(&self) -> (r: bool)
        ensures
            r == (self is Sleep),
    {
        match self {
            Route::Sleep => true,
            _ => false,
        }
    }

    /// Whether this route is answered with the canned page rather than the
    /// not-found snippet.
    pub fn found(&self) -> (r: bool)
        ensures
            r == !(self is NotFound),
    {
        match self {
            Route::NotFound => false,
            _ => true,
        }
    }
}

/// The status line for a route.
pub fn status_line_for(route: Route) -> (v: Vec<u8>)
    ensures
        v@ == spec_status_line(route),
{
    let mut v: Vec<u8> = Vec::new();
    v.push('H' as u8);
    v.push('T' as u8);
    v.push('T' as u8);
    v.push('P' as u8);
    v.push('/' as u8);
    v.push('1' as u8);
    v.push('.' as u8);
    v.push('1' as u8);
    v.push(' ' as u8);
    match route {
        Route::NotFound => {
            v.push('4' as u8);
            v.push('0' as u8);
            v.push('4' as u8);
            v.push(' ' as u8);
            v.push('N' as u8);
            v.push('O' as u8);
            v.push('T' as u8);
            v.push(' ' as u8);
            v.push('F' as u8);
            v.push('O' as u8);
            v.push('U' as u8);
            v.push('N' as u8);
            v.push('D' as u8);
            proof {
                assert(v@ =~= not_found_status_line());
            }
        }
        _ => {
            v.push('2' as u8);
            v.push('0' as u8);
            v.push('0' as u8);
            v.push(' ' as u8);
            v.push('O' as u8);
            v.push('K' as u8);
            proof {
                assert(v@ =~= ok_status_line());
            }
        }
    }
    v
}

/// Append every byte of `src` to `dst`.
fn append_bytes(dst: &mut Vec<u8>, src: &[u8])
    ensures
        final(dst)@ == old(dst)@ + src@,
{
    let ghost init = dst@;
    let mut i: usize = 0;
    while i < src.len()
        invariant
            i <= src@.len(),
            dst@ == init + src@.take(i as int),
        decreases src@.len() - i,
    {
        proof {
            assert(init + src@.take(i + 1) =~= (init + src@.take(i as int)).push(src@[i as int]));
        }
        dst.push(src[i]);
        i += 1;
    }
    proof {
        assert(src@.take(src@.len() as int) =~= src@);
    }
}

/// The decimal digits of `n`, most significant first.
pub fn decimal_bytes(n: usize) -> (v: Vec<u8>)
    ensures
        v@ == decimal_rep(n as nat),
    decreases n,
{
    if n < 10 {
        let mut v: Vec<u8> = Vec::new();
        v.push(48 + n as u8);
        v
    } else {
        let mut v = decimal_bytes(n / 10);
        v.push(48 + (n % 10) as u8);
        v
    }
}

/// Assemble the full response for a status line and body. The header states
/// the body's exact length, so a reader taking the header at its word reads
/// exactly the body, no more and no less.
pub fn build_response(status_line: &[u8], body: &[u8]) -> (v: Vec<u8>)
    ensures
        v@ == spec_response(status_line@, body@),
{
    let mut v: Vec<u8> = Vec::new();
    append_bytes(&mut v, status_line);
    v.push(13);
    v.push(10);
    let label = content_length_label_bytes();
    append_bytes(&mut v, label.as_slice());
    let digits = decimal_bytes(body.len());
    append_bytes(&mut v, digits.as_slice());
    v.push(13);
    v.push(10);
    v.push(13);
    v.push(10);
    append_bytes(&mut v, body);
    proof {
        assert(v@ =~= spec_response(status_line@, body@));
    }
    v
}

/// The header label before the body length, as owned bytes.
fn content_length_label_bytes() -> (v: Vec<u8>)
    ensures
        v@ == content_length_label(),
{
    let mut v: Vec<u8> = Vec::new();
    v.push('C' as u8);
    v.push('o' as u8);
    v.push('n' as u8);
    v.push('t' as u8);
    v.push('e' as u8);
    v.push('n' as u8);
    v.push('t' as u8);
    v.push('-' as u8);
    v.push('L' as u8);
    v.push('e' as u8);
    v.push('n' as u8);
    v.push('g' as u8);
    v.push('t' as u8);
    v.push('h' as u8);
    v.push(':' as u8);
    v.push(' ' as u8);
    proof {
        assert(v@ =~= content_length_label());
    }
    v
}

} // verus!
