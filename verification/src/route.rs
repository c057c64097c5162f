use vstd::prelude::*;
use vstd::string::StringSliceAdditionalSpecFns;

verus! {

/// The pages that the front end can answer with.
#[derive(Clone, Copy, Debug, PartialEq, Eq, Structural)]
pub enum Page {
    Home,
    Test,
    NotFound,
}

/// The page that a request line asks for: the two known lines have a page of
/// their own, every other line gets the page for what was not found.
pub open spec fn page_for(request: Seq<char>) -> Page {
    if request == "GET / HTTP/1.1"@ {
        Page::Home
    } else if request == "GET /test HTTP/1.1"@ {
        Page::Test
    } else {
        Page::NotFound
    }
}

/// The page that the request line `request` asks for.
pub fn route(request: &str) -> (page: Page)
    ensures
        page == page_for(request@),
{
    let line = request.to_owned();
    if line == "GET / HTTP/1.1".to_owned() {
        Page::Home
    } else if line == "GET /test HTTP/1.1".to_owned() {
        Page::Test
    } else {
        Page::NotFound
    }
}

impl Page {
    /// The first line of the answer.
    pub fn status_line(self) -> (line: &'static str)
        ensures
            line@ == (if self == Page::NotFound {
                "HTTP/1.1 404 NotFound"@
            } else {
                "HTTP/1.1 200 OK"@
            }),
    {
        match self {
            Page::Home => "HTTP/1.1 200 OK",
            Page::Test => "HTTP/1.1 200 OK",
            Page::NotFound => "HTTP/1.1 404 NotFound",
        }
    }

    /// The file that holds the page.
    pub fn file_path(self) -> (path: &'static str)
        ensures
            path@ == (match self {
                Page::Home => "./response/home.html"@,
                Page::Test => "./response/test.html"@,
                Page::NotFound => "./response/not_found.html"@,
            }),
    {
        match self {
            Page::Home => "./response/home.html",
            Page::Test => "./response/test.html",
            Page::NotFound => "./response/not_found.html",
        }
    }
}

/// The decimal digits of `n`, as bytes, without leading zeros.
pub open spec fn decimal(n: nat) -> Seq<u8>
    decreases n,
{
    if n < 10 {
        seq![(48 + n) as u8]
    } else {
        decimal(n / 10).push((48 + n % 10) as u8)
    }
}

/// The bytes of an answer: the status line, a line that gives the length of
/// the body in bytes, and the body, each closed by a line feed.
pub open spec fn answer_bytes(status_line: Seq<u8>, body: Seq<u8>) -> Seq<u8> {
    status_line + "\nContent-Length: ".spec_bytes() + decimal(body.len()) + seq![10u8] + body
        + seq![10u8]
}

/// Appends `bytes` to `out`.
fn append_bytes(out: &mut Vec<u8>, bytes: &[u8])
    ensures
        final(out)@ == old(out)@ + bytes@,
{
    let mut i: usize = 0;
    while i < bytes.len()
        invariant
            i <= bytes.len(),
            out@ == old(out)@ + bytes@.take(i as int),
        decreases bytes.len() - i,
    {
        out.push(bytes[i]);
        assert(bytes@.take(i + 1) =~= bytes@.take(i as int).push(bytes@[i as int]));
        assert(out@ =~= old(out)@ + bytes@.take(i + 1));
        i = i + 1;
    }
    assert(bytes@.take(bytes.len() as int) =~= bytes@);
}

/// Appends the decimal digits of `n` to `out`.
fn append_decimal(out: &mut Vec<u8>, n: usize)
    ensures
        final(out)@ == old(out)@ + decimal(n as nat),
    decreases n,
{
    if n >= 10 {
        append_decimal(out, n / 10);
    }
    let digit: u8 = (n % 10) as u8;
    out.push(48 + digit);
    assert(out@ =~= old(out)@ + decimal(n as nat));
}

/// The answer that is written back: `status_line`, the length of `body`, and
/// `body`.
pub fn answer(status_line: &str, body: &str) -> (bytes: Vec<u8>)
    ensures
        bytes@ == answer_bytes(status_line.spec_bytes(), body.spec_bytes()),
{
    let mut bytes: Vec<u8> = Vec::new();
    append_bytes(&mut bytes, status_line.as_bytes());
    append_bytes(&mut bytes, "\nContent-Length: ".as_bytes());
    let content = body.as_bytes();
    append_decimal(&mut bytes, content.len());
    bytes.push(10);
    append_bytes(&mut bytes, content);
    bytes.push(10);
    assert(bytes@ =~= answer_bytes(status_line.spec_bytes(), body.spec_bytes()));
    bytes
}

} // verus!
