//! What a tiny web server answers: the page for the root, and a complaint for
//! everything else.

use crate::decimal::{decimal, render};
use crate::text::same_text;
use vstd::prelude::*;
use vstd::string::StringSliceAdditionalSpecFns;

verus! {

/// The one request line that is served with the page.
pub open spec fn root_request() -> Seq<char> {
    "GET / HTTP/1.1"@
}

/// The status line and the file that answer a request.
pub struct Route {
    pub status_line: &'static str,
    pub filename: &'static str,
}

/// The answer to a request line as plain text: status line first, file name second.
pub open spec fn route_for(request_line: Seq<char>) -> (Seq<char>, Seq<char>) {
    if request_line == root_request() {
        ("HTTP/1.1 200 OK"@, "hello.html"@)
    } else {
        ("HTTP/1.1 404 NOT FOUND"@, "404.html"@)
    }
}

/// Chooses the answer from the first line of a request. Nothing of the request
/// but this line counts, and it has to match to the letter.
pub fn route(request_line: &str) -> (chosen: Route)
    ensures
        (chosen.status_line@, chosen.filename@) == route_for(request_line@),
{
    if same_text(request_line, "GET / HTTP/1.1") {
        Route { status_line: "HTTP/1.1 200 OK", filename: "hello.html" }
    } else {
        Route { status_line: "HTTP/1.1 404 NOT FOUND", filename: "404.html" }
    }
}

/// A response as it goes over the wire: the status line, the length of the body in
/// bytes, its type, an empty line, and the body.
pub open spec fn response_text(status_line: Seq<char>, body: Seq<char>, body_bytes: nat) -> Seq<
    char,
> {
    status_line + "\r\nContent-Length: "@ + decimal(body_bytes) + "\r\nContent-Type: text/html\r\n\r\n"@
        + body
}

/// Puts a response together from its status line and its body.
pub fn response(status_line: &str, contents: &str) -> (text: String)
    ensures
        text@ == response_text(status_line@, contents@, contents.spec_bytes().len()),
{
    let length = contents.as_bytes().len();
    let mut text = status_line.to_owned();
    text.append("\r\nContent-Length: ");
    let digits = render(length as u64);
    text.append(digits.as_str());
    text.append("\r\nContent-Type: text/html\r\n\r\n");
    text.append(contents);
    assert(text@ =~= response_text(status_line@, contents@, contents.spec_bytes().len()));
    text
}

} // verus!
