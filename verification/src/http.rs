//! The answer a connection gets: which resource a request selects, and the
//! bytes of the response built around that resource's body.
//!
//! Everything here is a function of bytes. Reading the request and the
//! resource, and writing the response, is left to the caller.

use vstd::prelude::*;
use vstd::utf8::{is_ascii_chars, is_ascii_chars_encode_utf8};

verus! {

/// The resource that answers a request.
#[derive(Clone, Copy, Debug, PartialEq, Eq, Structural)]
pub enum Route {
    /// The request asked for the root path.
    Root,
    /// The request asked for anything else.
    NotFound,
}

/// The bytes of a text of ASCII characters: one byte for each character.
pub open spec fn ascii(text: Seq<char>) -> Seq<u8> {
    Seq::new(text.len(), |i: int| text[i] as u8)
}

/// The one request line that selects the root resource.
pub open spec fn root_request_line() -> Seq<u8> {
    ascii("GET / HTTP/1.1\r\n"@)
}

/// The resource a request selects: the root resource when the request begins
/// with the root request line, byte for byte, and the not-found resource
/// otherwise.
pub open spec fn route_of(request: Seq<u8>) -> Route {
    if root_request_line().is_prefix_of(request) {
        Route::Root
    } else {
        Route::NotFound
    }
}

/// The status line of the response for a route, line break included.
pub open spec fn status_line(route: Route) -> Seq<u8> {
    match route {
        Route::Root => ascii("HTTP/1.1 200 OK\r\n"@),
        Route::NotFound => ascii("HTTP/1.1 404 NOT FOUND\r\n"@),
    }
}

/// The name under which the body for a route is kept.
pub open spec fn resource_name_of(route: Route) -> Seq<char> {
    match route {
        Route::Root => "../serve.html"@,
        Route::NotFound => "../404.html"@,
    }
}

/// The ASCII digit for a value below ten.
pub open spec fn digit(d: nat) -> u8
    recommends
        d < 10,
{
    (48 + d) as u8
}

/// A number in base ten, most significant digit first, without leading zeros.
pub open spec fn decimal(n: nat) -> Seq<u8>
    decreases n,
{
    if n < 10 {
        seq![digit(n)]
    } else {
        decimal(n / 10).push(digit(n % 10))
    }
}

/// The number that a run of ASCII digits stands for, read in base ten.
pub open spec fn decimal_value(digits: Seq<u8>) -> nat
    decreases digits.len(),
{
    if digits.len() == 0 {
        0
    } else {
        (10 * decimal_value(digits.drop_last()) + (digits.last() - 48)) as nat
    }
}

/// The header that announces a body of `len` bytes.
pub open spec fn content_length_header(len: nat) -> Seq<u8> {
    ascii("Content-Length: "@) + decimal(len) + ascii("\r\n"@)
}

/// The empty line that ends the head of a response.
pub open spec fn blank_line() -> Seq<u8> {
    ascii("\r\n"@)
}

/// The head of the response for a route whose body has `len` bytes: the
/// status line, for the root resource the length of the body, and the empty
/// line.
pub open spec fn response_head(route: Route, len: nat) -> Seq<u8> {
    match route {
        Route::Root => status_line(route) + content_length_header(len) + blank_line(),
        Route::NotFound => status_line(route) + blank_line(),
    }
}

/// The whole response: the head, then the body unchanged.
pub open spec fn response(route: Route, body: Seq<u8>) -> Seq<u8> {
    response_head(route, body.len()) + body
}

/// Every byte of `decimal(n)` is an ASCII digit, the first is not a zero
/// unless it is the only one, and read back in base ten the digits give `n`:
/// the length that a response announces is the length of its body.
pub proof fn lemma_decimal_reads_back(n: nat)
    ensures
        decimal(n).len() >= 1,
        forall|i: int| 0 <= i < decimal(n).len() ==> 48 <= #[trigger] decimal(n)[i] <= 57,
        decimal(n).len() > 1 ==> decimal(n)[0] != 48,
        decimal_value(decimal(n)) == n,
    decreases n,
{
    if n < 10 {
        let d = decimal(n);
        assert(d.drop_last() =~= Seq::<u8>::empty());
        assert(decimal_value(d.drop_last()) == 0);
    } else {
        lemma_decimal_reads_back(n / 10);
        let head = decimal(n / 10);
        let d = decimal(n);
        assert(d.drop_last() =~= head);
        assert(d.last() == digit(n % 10));
        assert(d[0] == head[0]);
        if n / 10 < 10 {
            assert(head[0] == digit(n / 10));
        } else {
            lemma_decimal_reads_back(n / 10 / 10);
            assert(head.len() > 1);
        }
    }
}

/// A response begins with the status line of its route and ends with the
/// body it was given.
pub proof fn lemma_response_frames_body(route: Route, body: Seq<u8>)
    ensures
        status_line(route).is_prefix_of(response(route, body)),
        body.is_suffix_of(response(route, body)),
{
    let r = response(route, body);
    assert(r.subrange(r.len() - body.len(), r.len() as int) =~= body);
    assert(r.subrange(0, status_line(route).len() as int) =~= status_line(route));
}

/// Whether `bytes` begins with `prefix`.
pub fn starts_with(bytes: &[u8], prefix: &[u8]) -> (r: bool)
    ensures
        r == prefix@.is_prefix_of(bytes@),
{
    if bytes.len() < prefix.len() {
        return false;
    }
    let mut i: usize = 0;
    while i < prefix.len()
        invariant
            i <= prefix.len() <= bytes.len(),
            forall|k: int| 0 <= k < i ==> bytes@[k] == prefix@[k],
        decreases prefix.len() - i,
    {
        if bytes[i] != prefix[i] {
            assert(bytes@.subrange(0, prefix@.len() as int)[i as int] != prefix@[i as int]);
            return false;
        }
        i += 1;
    }
    assert(bytes@.subrange(0, prefix@.len() as int) =~= prefix@);
    true
}

/// The bytes of a text of ASCII characters.
fn bytes_of(text: &'static str) -> (bytes: &'static [u8])
    requires
        is_ascii_chars(text@),
    ensures
        bytes@ == ascii(text@),
{
    proof {
        is_ascii_chars_encode_utf8(text@);
    }
    let bytes = text.as_bytes();
    assert(bytes@ =~= ascii(text@));
    bytes
}

/// Selects the resource that answers `request`.
pub fn route(request: &[u8]) -> (r: Route)
    ensures
        r == route_of(request@),
{
    proof {
        reveal_strlit("GET / HTTP/1.1\r\n");
    }
    if starts_with(request, bytes_of("GET / HTTP/1.1\r\n")) {
        Route::Root
    } else {
        Route::NotFound
    }
}

/// The name under which the body for `route` is kept.
pub fn resource_name(route: Route) -> (name: &'static str)
    ensures
        name@ == resource_name_of(route),
{
    match route {
        Route::Root => "../serve.html",
        Route::NotFound => "../404.html",
    }
}

/// Appends `bytes` to `out`.
fn append(out: &mut Vec<u8>, bytes: &[u8])
    ensures
        final(out)@ == old(out)@ + bytes@,
{
    let mut i: usize = 0;
    while i < bytes.len()
        invariant
            i <= bytes.len(),
            out@ == old(out)@ + bytes@.subrange(0, i as int),
        decreases bytes.len() - i,
    {
        out.push(bytes[i]);
        assert(bytes@.subrange(0, i + 1) =~= bytes@.subrange(0, i as int).push(bytes@[i as int]));
        i += 1;
    }
    assert(bytes@.subrange(0, i as int) =~= bytes@);
}

/// Appends `n` in base ten to `out`.
fn append_decimal(out: &mut Vec<u8>, n: usize)
    ensures
        final(out)@ == old(out)@ + decimal(n as nat),
    decreases n,
{
    if n >= 10 {
        append_decimal(out, n / 10);
    }
    let d: u8 = (n % 10) as u8;
    out.push(48 + d);
    assert(out@ =~= old(out)@ + decimal(n as nat));
}

/// Builds the response for `route` around `body`.
pub fn render(route: Route, body: &[u8]) -> (out: Vec<u8>)
    ensures
        out@ == response(route, body@),
{
    proof {
        reveal_strlit("HTTP/1.1 200 OK\r\n");
        reveal_strlit("HTTP/1.1 404 NOT FOUND\r\n");
        reveal_strlit("Content-Length: ");
        reveal_strlit("\r\n");
    }
    let mut out: Vec<u8> = Vec::new();
    match route {
        Route::Root => {
            append(&mut out, bytes_of("HTTP/1.1 200 OK\r\n"));
            append(&mut out, bytes_of("Content-Length: "));
            append_decimal(&mut out, body.len());
            append(&mut out, bytes_of("\r\n"));
        },
        Route::NotFound => {
            append(&mut out, bytes_of("HTTP/1.1 404 NOT FOUND\r\n"));
        },
    }
    append(&mut out, bytes_of("\r\n"));
    append(&mut out, body);
    assert(out@ =~= response(route, body@));
    out
}

/// Answers `request`: the response built around `root_body` when the request
/// selects the root resource, around `not_found_body` otherwise.
pub fn respond(request: &[u8], root_body: &[u8], not_found_body: &[u8]) -> (out: Vec<u8>)
    ensures
        out@ == match route_of(request@) {
            Route::Root => response(Route::Root, root_body@),
            Route::NotFound => response(Route::NotFound, not_found_body@),
        },
{
    match route(request) {
        Route::Root => render(Route::Root, root_body),
        Route::NotFound => render(Route::NotFound, not_found_body),
    }
}

} // verus!
