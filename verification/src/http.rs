//! The two decisions of the little web server that the pool was built for:
//! what to answer to a request line, and how the answer is framed.

use crate::text::{decimal, render_decimal};
use vstd::prelude::*;
use vstd::string::StringExecFns;
use vstd::utf8::encode_utf8;

verus! {

/// What a request is answered with.
pub struct Route {
    /// The status line of the response.
    pub status_line: &'static str,
    /// The file whose content is the body of the response.
    pub file_path: &'static str,
    /// How many seconds to let pass before answering.
    pub delay_secs: u64,
}

/// Whether `route` is the answer to `request_line`: the root page for a
/// request of `/`, the same page after five seconds for `/sleep`, and the
/// not-found page for everything else.
pub open spec fn answers(route: Route, request_line: Seq<char>) -> bool {
    if request_line == "GET / HTTP/1.1"@ {
        &&& route.status_line@ == "HTTP/1.1 200 OK"@
        &&& route.file_path@ == "hello.html"@
        &&& route.delay_secs == 0
    } else if request_line == "GET /sleep HTTP/1.1"@ {
        &&& route.status_line@ == "HTTP/1.1 200 OK"@
        &&& route.file_path@ == "hello.html"@
        &&& route.delay_secs == 5
    } else {
        &&& route.status_line@ == "HTTP/1.1 404 NOT FOUND"@
        &&& route.file_path@ == "404.html"@
        &&& route.delay_secs == 0
    }
}

/// The text of a response: the status line, the length of the body in bytes,
/// an empty line, the body.
pub open spec fn response_text(status_line: Seq<char>, content: Seq<char>) -> Seq<char> {
    status_line + "\r\nContent-Length: "@ + decimal(encode_utf8(content).len()) + "\r\n\r\n"@
        + content
}

/// Decides what to answer to the first line of a request.
pub fn route(request_line: &str) -> (route: Route)
    ensures
        answers(route, request_line@),
{
    let line = String::from_str(request_line);
    if line == String::from_str("GET / HTTP/1.1") {
        Route { status_line: "HTTP/1.1 200 OK", file_path: "hello.html", delay_secs: 0 }
    } else if line == String::from_str("GET /sleep HTTP/1.1") {
        Route { status_line: "HTTP/1.1 200 OK", file_path: "hello.html", delay_secs: 5 }
    } else {
        Route { status_line: "HTTP/1.1 404 NOT FOUND", file_path: "404.html", delay_secs: 0 }
    }
}

/// Frames `content` as the body of a response with the given status line.
pub fn response(status_line: &str, content: &str) -> (text: String)
    ensures
        text@ == response_text(status_line@, content@),
{
    let length = content.as_bytes().len();
    let mut text = String::from_str(status_line);
    text.append("\r\nContent-Length: ");
    text.append(render_decimal(length).as_str());
    text.append("\r\n\r\n");
    text.append(content);
    text
}

} // verus!
