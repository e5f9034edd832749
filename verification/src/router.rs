//! The routing rules, and the engine from the text of a request to the
//! wire text of its response.
//!
//! Two answers are fixed here. A request with a method other than `GET` is
//! answered with `501 Not Implemented`, before its path is looked at. A
//! text that holds no request is answered with `400 Bad Request`.

use crate::request::{parse, HttpMethod, HttpRequest, MethodModel, MethodToken, RequestModel};
use crate::response::{wire, HttpResponse, HttpResponseStatus, Outcome};
use crate::strings::{strip_prefix, text_eq};
use vstd::prelude::*;

verus! {

/// The response to a request. The first rule that applies decides:
/// a method other than `GET` is not implemented; the path `/` is answered
/// with success and no content; a path that starts with `/echo/` with
/// success and the rest of the path, taken as it stands; the path
/// `/user-agent` with success and the value of the header `User-Agent`, or
/// as a bad request where the request has no such header; every other
/// path is not found.
pub open spec fn route_of(req: RequestModel) -> Outcome {
    if req.method != MethodModel::Known(HttpMethod::GET) {
        Outcome { status: HttpResponseStatus::NotImplemented, content: None }
    } else if req.path == "/"@ {
        Outcome { status: HttpResponseStatus::Okay, content: None }
    } else if "/echo/"@.is_prefix_of(req.path) {
        Outcome {
            status: HttpResponseStatus::Okay,
            content: Some(req.path.skip("/echo/"@.len() as int)),
        }
    } else if req.path == "/user-agent"@ {
        if req.headers.contains_key("User-Agent"@) {
            Outcome {
                status: HttpResponseStatus::Okay,
                content: Some(req.headers["User-Agent"@]),
            }
        } else {
            Outcome { status: HttpResponseStatus::BadRequest, content: None }
        }
    } else {
        Outcome { status: HttpResponseStatus::NotFound, content: None }
    }
}

/// The response to the text of a request: that of the request it holds,
/// and a bad request where it holds none.
pub open spec fn respond(s: Seq<char>) -> Outcome {
    match parse(s) {
        Some(req) => route_of(req),
        None => Outcome { status: HttpResponseStatus::BadRequest, content: None },
    }
}

/// Routes a request.
pub fn route(req: &HttpRequest) -> (r: HttpResponse)
    ensures
        r@ == route_of(req@),
{
    match &req.method {
        MethodToken::Known(HttpMethod::GET) => {},
        MethodToken::Unknown(_) => {
            return HttpResponse::new(HttpResponseStatus::NotImplemented);
        },
    }
    let path = req.path.as_str();
    if text_eq(path, "/") {
        HttpResponse::new(HttpResponseStatus::Okay)
    } else if let Some(to_echo) = strip_prefix(path, "/echo/") {
        HttpResponse::new(HttpResponseStatus::Okay).with_content_text_plain(to_echo)
    } else if text_eq(path, "/user-agent") {
        match req.headers.get("User-Agent") {
            None => HttpResponse::new(HttpResponseStatus::BadRequest),
            Some(value) => HttpResponse::new(HttpResponseStatus::Okay).with_content_text_plain(
                value.as_str(),
            ),
        }
    } else {
        HttpResponse::new(HttpResponseStatus::NotFound)
    }
}

/// Answers the text of a request with the wire text of its response.
pub fn handle_request(request: &str) -> (r: String)
    ensures
        r@ == wire(respond(request@)),
{
    let response = match HttpRequest::try_from(request) {
        Ok(req) => route(&req),
        Err(_) => HttpResponse::new(HttpResponseStatus::BadRequest),
    };
    response.into()
}

} // verus!
