//! Responses and their wire format.
//!
//! Every wire text ends in a line ending that is written after the status
//! line and the headers, and after a body too: a body is followed by one
//! line ending that `Content-Length` does not count.

use crate::strings::{append_decimal, byte_len, decimal, utf8_len};
use vstd::prelude::*;

verus! {

/// The status of a response.
#[derive(Clone, Copy, Debug, PartialEq, Eq, Structural)]
pub enum HttpResponseStatus {
    /// 200
    Okay,
    /// 404
    NotFound,
    /// 400
    BadRequest,
    /// 501
    NotImplemented,
}

impl HttpResponseStatus {
    /// The status code and reason phrase, as they stand in a status line.
    pub open spec fn reason(self) -> Seq<char> {
        match self {
            HttpResponseStatus::Okay => "200 OK"@,
            HttpResponseStatus::NotFound => "404 Not Found"@,
            HttpResponseStatus::BadRequest => "400 Bad Request"@,
            HttpResponseStatus::NotImplemented => "501 Not Implemented"@,
        }
    }

    /// The status code and reason phrase.
    pub fn as_str(&self) -> (r: &'static str)
        ensures
            r@ == self.reason(),
    {
        match self {
            HttpResponseStatus::Okay => "200 OK",
            HttpResponseStatus::NotFound => "404 Not Found",
            HttpResponseStatus::BadRequest => "400 Bad Request",
            HttpResponseStatus::NotImplemented => "501 Not Implemented",
        }
    }

    /// The status code and reason phrase, as an owned text.
    pub fn to_string(&self) -> (r: String)
        ensures
            r@ == self.reason(),
    {
        String::from_str(self.as_str())
    }
}

/// The content of a response.
#[derive(Clone, Debug, PartialEq, Eq)]
pub enum HttpResponseContent {
    /// No content: the response is a status line alone.
    Empty,
    /// A body of type `text/plain`.
    TextPlain(String),
}

impl View for HttpResponseContent {
    type V = Option<Seq<char>>;

    open spec fn view(&self) -> Option<Seq<char>> {
        match self {
            HttpResponseContent::Empty => None,
            HttpResponseContent::TextPlain(body) => Some(body@),
        }
    }
}

/// What a response says: its status, and its body where it has one.
pub ghost struct Outcome {
    pub status: HttpResponseStatus,
    pub content: Option<Seq<char>>,
}

/// A response: a status and a content.
#[derive(Clone, Debug, PartialEq, Eq)]
pub struct HttpResponse {
    pub status: HttpResponseStatus,
    pub content: HttpResponseContent,
}

impl View for HttpResponse {
    type V = Outcome;

    open spec fn view(&self) -> Outcome {
        Outcome { status: self.status, content: self.content@ }
    }
}

/// The status line of a response, with its line ending.
pub open spec fn status_line(status: HttpResponseStatus) -> Seq<char> {
    "HTTP/1.1 "@ + status.reason() + "\r\n"@
}

/// The wire text of a response. Without content it is the status line and
/// an empty line. With content, the status line is followed by the two
/// headers `Content-Length`, which gives the body's length in bytes, and
/// `Content-Type`, by an empty line, by the body, and by one more line
/// ending after the body.
pub open spec fn wire(o: Outcome) -> Seq<char> {
    match o.content {
        None => status_line(o.status) + "\r\n"@,
        Some(body) => status_line(o.status) + "Content-Length: "@ + decimal(utf8_len(body))
            + "\r\n"@ + "Content-Type: text/plain\r\n\r\n"@ + body + "\r\n"@,
    }
}

impl HttpResponse {
    /// A response with the given status and no content.
    pub fn new(status: HttpResponseStatus) -> (r: Self)
        ensures
            r@ == (Outcome { status, content: None }),
    {
        HttpResponse { status, content: HttpResponseContent::Empty }
    }

    /// The same response with `content` as its body, of type `text/plain`.
    pub fn with_content_text_plain(self, content: &str) -> (r: Self)
        ensures
            r@ == (Outcome { status: self.status, content: Some(content@) }),
    {
        HttpResponse {
            status: self.status,
            content: HttpResponseContent::TextPlain(String::from_str(content)),
        }
    }

    /// The wire text of the response.
    pub fn into(self) -> (r: String)
        ensures
            r@ == wire(self@),
    {
        let mut out = String::from_str("HTTP/1.1 ");
        out.append(self.status.as_str());
        out.append("\r\n");
        match self.content {
            HttpResponseContent::Empty => {},
            HttpResponseContent::TextPlain(body) => {
                out.append("Content-Length: ");
                append_decimal(&mut out, byte_len(body.as_str()));
                out.append("\r\n");
                out.append("Content-Type: text/plain\r\n\r\n");
                out.append(body.as_str());
            },
        }
        out.append("\r\n");
        assert(out@ =~= wire(self@));
        out
    }
}

} // verus!
