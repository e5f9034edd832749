//! Laws of the engine, stated over the models of its functions.

use crate::request::{
    header_line, headers_from, method_of, parse, request_line, HttpMethod, MethodModel,
    RequestModel,
};
use crate::response::{status_line, wire, HttpResponse, HttpResponseStatus, Outcome};
use crate::router::{respond, route_of};
use crate::strings::{decimal, utf8_len};
use crate::text::{
    after_first_line, find, first_line, is_whitespace, lemma_find_unique, lines, CharClass,
};
use vstd::prelude::*;

verus! {

/// The text of a request without headers, for `path` and with the method
/// token `method`.
pub open spec fn request_text(method: Seq<char>, path: Seq<char>) -> Seq<char> {
    method + " "@ + path + " HTTP/1.1\r\n\r\n"@
}

/// The text of a `GET` request for `path`, without headers.
pub open spec fn get_request(path: Seq<char>) -> Seq<char> {
    request_text("GET"@, path)
}

/// The text of a request for the echo of `s`.
pub open spec fn echo_request(s: Seq<char>) -> Seq<char> {
    get_request("/echo/"@ + s)
}

/// Whether `s` holds no white space.
pub open spec fn no_whitespace(s: Seq<char>) -> bool {
    forall|i: int| 0 <= i < s.len() ==> !is_whitespace(#[trigger] s[i])
}

/// A request without headers, whose method token and path are not empty
/// and hold no white space, is parsed to that method token and that path,
/// with an empty header table.
pub proof fn lemma_request_text_parses(method: Seq<char>, path: Seq<char>)
    requires
        method.len() > 0,
        path.len() > 0,
        no_whitespace(method),
        no_whitespace(path),
    ensures
        parse(request_text(method, path)) == Some(
            RequestModel { method: method_of(method), path, headers: Map::empty() },
        ),
{
    reveal_strlit(" ");
    reveal_strlit(" HTTP/1.1\r\n\r\n");
    let r = request_text(method, path);
    let t = method.len() as int;
    let m = path.len() as int;
    let n = r.len() as int;
    assert(n == t + m + 14);
    assert forall|i: int| 0 <= i < t implies r[i] == method[i] by {}
    assert forall|i: int| t + 1 <= i < t + 1 + m implies r[i] == path[i - t - 1] by {}
    // The first line ends at the first line feed.
    assert forall|i: int| 0 <= i < t + m + 11 implies !CharClass::Newline.holds(#[trigger] r[i]) by {
        if i < t {
            assert(r[i] == method[i]);
        } else if t + 1 <= i < t + 1 + m {
            assert(r[i] == path[i - t - 1]);
        }
    }
    lemma_find_unique(r, 0, n, CharClass::Newline, t + m + 11);
    let k = t + m + 10;
    let line = r.subrange(0, k);
    assert(r.subrange(0, k + 1).last() == '\r');
    assert(r.subrange(0, k + 1).drop_last() =~= line);
    assert(first_line(r) == line);
    // What follows is one empty line.
    let rest = r.subrange(k + 2, n);
    assert(after_first_line(r) == rest);
    assert(rest.len() == 2 && rest[0] == '\r' && rest[1] == '\n');
    lemma_find_unique(rest, 0, 2, CharClass::Newline, 1);
    assert(rest.subrange(0, 1).drop_last() =~= Seq::<char>::empty());
    assert(first_line(rest).len() == 0);
    assert(after_first_line(rest).len() == 0);
    assert(lines(after_first_line(rest)) =~= Seq::<Seq<char>>::empty());
    assert(lines(rest) =~= seq![first_line(rest)]);
    assert(lines(r) =~= seq![line] + lines(rest));
    assert(lines(r)[0] == line);
    assert(lines(r).drop_first() =~= lines(rest));
    assert(headers_from(lines(rest), Map::empty()) == Some(Map::<Seq<char>, Seq<char>>::empty()));
    // The request line holds the method token and the path.
    assert(line[0] == method[0]);
    lemma_find_unique(line, 0, k, CharClass::NonWhitespace, 0);
    assert forall|i: int| 0 <= i < t implies !is_whitespace(#[trigger] line[i]) by {
        assert(line[i] == method[i]);
    }
    lemma_find_unique(line, 0, k, CharClass::Whitespace, t);
    assert(line[t + 1] == path[0]);
    lemma_find_unique(line, t, k, CharClass::NonWhitespace, t + 1);
    assert forall|i: int| t + 1 <= i < t + 1 + m implies !is_whitespace(#[trigger] line[i]) by {
        assert(line[i] == path[i - t - 1]);
    }
    lemma_find_unique(line, t + 1, k, CharClass::Whitespace, t + 1 + m);
    assert(line.subrange(0, t) =~= method);
    assert(line.subrange(t + 1, t + 1 + m) =~= path);
    assert(request_line(line) == Some((method, path)));
}

/// A `GET` request without headers, for a path that is not empty and
/// holds no white space, is parsed to that method and that path.
pub proof fn lemma_get_request_parses(path: Seq<char>)
    requires
        path.len() > 0,
        no_whitespace(path),
    ensures
        parse(get_request(path)) == Some(
            RequestModel {
                method: MethodModel::Known(HttpMethod::GET),
                path,
                headers: Map::empty(),
            },
        ),
{
    reveal_strlit("GET");
    lemma_request_text_parses("GET"@, path);
}

/// Every text that holds a `GET` request for the path `/`, whatever its
/// headers, is answered with success and no content: the wire text is the
/// status line `HTTP/1.1 200 OK` and an empty line.
pub proof fn lemma_root_is_ok(s: Seq<char>)
    requires
        parse(s) is Some,
        parse(s)->0.method == MethodModel::Known(HttpMethod::GET),
        parse(s)->0.path == "/"@,
    ensures
        respond(s) == (Outcome { status: HttpResponseStatus::Okay, content: None }),
        wire(respond(s)) == "HTTP/1.1 200 OK\r\n\r\n"@,
{
    reveal_strlit("HTTP/1.1 ");
    reveal_strlit("200 OK");
    reveal_strlit("\r\n");
    reveal_strlit("HTTP/1.1 200 OK\r\n\r\n");
    assert(wire(respond(s)) =~= "HTTP/1.1 200 OK\r\n\r\n"@);
}

/// The text `GET / HTTP/1.1` with an empty line after it is such a
/// request.
pub proof fn lemma_bare_root_is_ok()
    ensures
        get_request("/"@) == "GET / HTTP/1.1\r\n\r\n"@,
        respond("GET / HTTP/1.1\r\n\r\n"@) == (Outcome {
            status: HttpResponseStatus::Okay,
            content: None,
        }),
        wire(respond("GET / HTTP/1.1\r\n\r\n"@)) == "HTTP/1.1 200 OK\r\n\r\n"@,
{
    reveal_strlit("/");
    reveal_strlit("GET");
    reveal_strlit(" ");
    reveal_strlit(" HTTP/1.1\r\n\r\n");
    reveal_strlit("GET / HTTP/1.1\r\n\r\n");
    assert(get_request("/"@) =~= "GET / HTTP/1.1\r\n\r\n"@);
    lemma_get_request_parses("/"@);
    lemma_root_is_ok(get_request("/"@));
}

/// A request for the echo of a text without white space is answered with
/// success and that text as the body; on the wire the header
/// `Content-Length` gives the length of the text in bytes.
pub proof fn lemma_echo_returns_text(s: Seq<char>)
    requires
        no_whitespace(s),
    ensures
        respond(echo_request(s)) == (Outcome {
            status: HttpResponseStatus::Okay,
            content: Some(s),
        }),
        wire(respond(echo_request(s))) == status_line(HttpResponseStatus::Okay)
            + "Content-Length: "@ + decimal(utf8_len(s)) + "\r\n"@
            + "Content-Type: text/plain\r\n\r\n"@ + s + "\r\n"@,
{
    reveal_strlit("/echo/");
    reveal_strlit("/");
    let path = "/echo/"@ + s;
    assert forall|i: int| 0 <= i < path.len() implies !is_whitespace(#[trigger] path[i]) by {
        if i >= 6 {
            assert(path[i] == s[i - 6]);
        }
    }
    lemma_get_request_parses(path);
    assert(path.subrange(0, 6) =~= "/echo/"@);
    assert("/echo/"@.is_prefix_of(path));
    assert(path.skip(6) =~= s);
}

/// A `GET` request for the path `/user-agent` is answered with the value
/// of its header `User-Agent` as the body, and as a bad request where it
/// has no such header.
pub proof fn lemma_user_agent_reflected(req: RequestModel)
    requires
        req.method == MethodModel::Known(HttpMethod::GET),
        req.path == "/user-agent"@,
    ensures
        req.headers.contains_key("User-Agent"@) ==> route_of(req) == (Outcome {
            status: HttpResponseStatus::Okay,
            content: Some(req.headers["User-Agent"@]),
        }),
        !req.headers.contains_key("User-Agent"@) ==> route_of(req) == (Outcome {
            status: HttpResponseStatus::BadRequest,
            content: None,
        }),
{
    reveal_strlit("/user-agent");
    reveal_strlit("/echo/");
    reveal_strlit("/");
    assert("/user-agent"@[1] != "/echo/"@[1]);
    assert("/user-agent"@.subrange(0, 6)[1] == 'u');
}

/// A request with a method other than `GET` is answered as not
/// implemented: whatever its path and its headers, never with success.
pub proof fn lemma_unknown_method_not_implemented(req: RequestModel)
    requires
        req.method != MethodModel::Known(HttpMethod::GET),
    ensures
        route_of(req) == (Outcome { status: HttpResponseStatus::NotImplemented, content: None }),
        route_of(req).status != HttpResponseStatus::Okay,
{
}

/// A request without headers whose method token is not `GET` is answered
/// as not implemented, whatever its path.
pub proof fn lemma_other_method_text_not_implemented(method: Seq<char>, path: Seq<char>)
    requires
        method.len() > 0,
        path.len() > 0,
        no_whitespace(method),
        no_whitespace(path),
        method != "GET"@,
    ensures
        respond(request_text(method, path)) == (Outcome {
            status: HttpResponseStatus::NotImplemented,
            content: None,
        }),
{
    lemma_request_text_parses(method, path);
}

/// A text whose first line holds fewer than two tokens, so no path, holds
/// no request, and is answered as a bad request.
pub proof fn lemma_missing_path_bad_request(s: Seq<char>)
    requires
        lines(s).len() > 0,
        request_line(lines(s)[0]) is None,
    ensures
        parse(s) is None,
        respond(s) == (Outcome { status: HttpResponseStatus::BadRequest, content: None }),
{
}

/// A line without white space holds at most one token, so it is no request
/// line.
pub proof fn lemma_one_token_is_no_request_line(line: Seq<char>)
    requires
        forall|i: int| 0 <= i < line.len() ==> !is_whitespace(#[trigger] line[i]),
    ensures
        request_line(line) is None,
{
    let n = line.len() as int;
    if n > 0 {
        lemma_find_unique(line, 0, n, CharClass::NonWhitespace, 0);
    }
    let a = find(line, 0, n, CharClass::NonWhitespace);
    lemma_find_unique(line, a, n, CharClass::Whitespace, n);
    lemma_find_unique(line, n, n, CharClass::NonWhitespace, n);
}

/// A method token alone, followed by an empty line, is answered as a bad
/// request.
pub proof fn lemma_method_alone_bad_request(method: Seq<char>)
    requires
        no_whitespace(method),
    ensures
        respond(method + "\r\n\r\n"@) == (Outcome {
            status: HttpResponseStatus::BadRequest,
            content: None,
        }),
{
    reveal_strlit("\r\n\r\n");
    let r = method + "\r\n\r\n"@;
    let t = method.len() as int;
    assert forall|i: int| 0 <= i < t + 1 implies !CharClass::Newline.holds(#[trigger] r[i]) by {
        if i < t {
            assert(r[i] == method[i]);
        }
    }
    lemma_find_unique(r, 0, r.len() as int, CharClass::Newline, t + 1);
    assert(r.subrange(0, t + 1).last() == '\r');
    assert(r.subrange(0, t + 1).drop_last() =~= method);
    assert(first_line(r) == method);
    assert(lines(r)[0] == method);
    lemma_one_token_is_no_request_line(method);
    lemma_missing_path_bad_request(r);
}

/// Reading headers is all or nothing: where a line that stands before
/// the first empty one holds no colon, no header table comes out,
/// whatever the lines before it held.
pub proof fn lemma_header_without_colon_fails(
    rest: Seq<Seq<char>>,
    acc: Map<Seq<char>, Seq<char>>,
    i: int,
)
    requires
        0 <= i < rest.len(),
        forall|j: int| 0 <= j <= i ==> (#[trigger] rest[j]).len() > 0,
        header_line(rest[i]) is None,
    ensures
        headers_from(rest, acc) is None,
    decreases i,
{
    if i > 0 {
        match header_line(rest[0]) {
            None => {},
            Some((name, value)) => {
                let tail = rest.drop_first();
                assert forall|j: int| 0 <= j <= i - 1 implies (#[trigger] tail[j]).len() > 0 by {
                    assert(tail[j] == rest[j + 1]);
                }
                assert(tail[i - 1] == rest[i]);
                lemma_header_without_colon_fails(tail, acc.insert(name, value), i - 1);
            },
        }
    }
}

/// A text with such a line among its headers holds no request, and is
/// answered as a bad request.
pub proof fn lemma_bad_header_bad_request(s: Seq<char>, i: int)
    requires
        1 <= i < lines(s).len(),
        forall|j: int| 1 <= j <= i ==> (#[trigger] lines(s)[j]).len() > 0,
        header_line(lines(s)[i]) is None,
    ensures
        parse(s) is None,
        respond(s) == (Outcome { status: HttpResponseStatus::BadRequest, content: None }),
{
    let tail = lines(s).drop_first();
    assert forall|j: int| 0 <= j <= i - 1 implies (#[trigger] tail[j]).len() > 0 by {
        assert(tail[j] == lines(s)[j + 1]);
    }
    assert(tail[i - 1] == lines(s)[i]);
    lemma_header_without_colon_fails(tail, Map::empty(), i - 1);
}

/// Of two headers with one name the later one stays: a header line read
/// after the lines `rest`, none of which is empty, puts its value under its
/// name into the table that `rest` gives, in place of what stood there.
pub proof fn lemma_later_header_replaces(
    rest: Seq<Seq<char>>,
    line: Seq<char>,
    acc: Map<Seq<char>, Seq<char>>,
)
    requires
        forall|j: int| 0 <= j < rest.len() ==> (#[trigger] rest[j]).len() > 0,
        headers_from(rest, acc) is Some,
        line.len() > 0,
        header_line(line) is Some,
    ensures
        headers_from(rest.push(line), acc) == (match header_line(line) {
            Some((name, value)) => Some(headers_from(rest, acc).unwrap().insert(name, value)),
            None => None,
        }),
    decreases rest.len(),
{
    let all = rest.push(line);
    let entry = header_line(line).unwrap();
    if rest.len() == 0 {
        assert(all[0] == line);
        assert(all.drop_first() =~= rest);
        assert(headers_from(rest, acc) == Some(acc));
        assert(headers_from(rest, acc.insert(entry.0, entry.1)) == Some(
            acc.insert(entry.0, entry.1),
        ));
        assert(headers_from(all, acc) == headers_from(
            all.drop_first(),
            acc.insert(entry.0, entry.1),
        ));
    } else {
        assert(all[0] == rest[0]);
        assert(rest[0].len() > 0);
        let tail = rest.drop_first();
        assert(all.drop_first() =~= tail.push(line));
        assert forall|j: int| 0 <= j < tail.len() implies (#[trigger] tail[j]).len() > 0 by {
            assert(tail[j] == rest[j + 1]);
        }
        let first = header_line(rest[0]).unwrap();
        let next = acc.insert(first.0, first.1);
        assert(headers_from(rest, acc) == headers_from(tail, next));
        assert(headers_from(all, acc) == headers_from(all.drop_first(), next));
        lemma_later_header_replaces(tail, line, next);
    }
}

/// The wire text depends on nothing but the status and the content: two
/// responses that say the same have the same wire text.
pub proof fn lemma_wire_deterministic(a: HttpResponse, b: HttpResponse)
    requires
        a@ == b@,
    ensures
        wire(a@) == wire(b@),
{
}

/// Whether `pattern` stands in `s` at the index `i`.
pub open spec fn occurs_at(s: Seq<char>, pattern: Seq<char>, i: int) -> bool {
    0 <= i && i + pattern.len() <= s.len() && s.subrange(i, i + pattern.len()) == pattern
}

/// Whether `pattern` stands somewhere in `s`.
pub open spec fn occurs(s: Seq<char>, pattern: Seq<char>) -> bool {
    exists|i: int| occurs_at(s, pattern, i)
}

/// Whether `s` holds neither a carriage return nor a capital C.
pub open spec fn is_plain(s: Seq<char>) -> bool {
    forall|i: int| 0 <= i < s.len() ==> #[trigger] s[i] != '\r' && s[i] != 'C'
}

/// No status code or reason phrase holds a carriage return or a capital C.
pub proof fn lemma_reason_is_plain(status: HttpResponseStatus)
    ensures
        is_plain(status.reason()),
        is_plain("HTTP/1.1 "@),
{
    reveal_strlit("HTTP/1.1 ");
    reveal_strlit("200 OK");
    reveal_strlit("404 Not Found");
    reveal_strlit("400 Bad Request");
    reveal_strlit("501 Not Implemented");
}

/// The wire text of a response without content is the status line and an
/// empty line: the end of the headers stands in it once, at its end, and
/// neither the header `Content-Length` nor the header `Content-Type`
/// stands in it.
pub proof fn lemma_empty_content_has_no_headers(o: Outcome)
    requires
        o.content is None,
    ensures
        wire(o) == status_line(o.status) + "\r\n"@,
        forall|i: int| occurs_at(wire(o), "\r\n\r\n"@, i) <==> i == wire(o).len() - 4,
        !occurs(wire(o), "Content-Length"@),
        !occurs(wire(o), "Content-Type"@),
{
    reveal_strlit("\r\n");
    reveal_strlit("\r\n\r\n");
    reveal_strlit("Content-Length");
    reveal_strlit("Content-Type");
    lemma_reason_is_plain(o.status);
    let w = wire(o);
    let head = "HTTP/1.1 "@ + o.status.reason();
    let n = w.len() as int;
    assert(w =~= head + "\r\n\r\n"@);
    assert(is_plain(head));
    assert forall|i: int| 0 <= i < n - 4 implies #[trigger] w[i] != '\r' && w[i] != 'C' by {
        assert(w[i] == head[i]);
    }
    assert(w.subrange(n - 4, n) =~= "\r\n\r\n"@);
    assert forall|i: int| occurs_at(w, "\r\n\r\n"@, i) implies i == n - 4 by {
        let t = w.subrange(i, i + 4);
        assert(t[0] == '\r' && t[0] == w[i]);
    }
    assert forall|i: int| !occurs_at(w, "Content-Length"@, i) by {
        if occurs_at(w, "Content-Length"@, i) {
            let t = w.subrange(i, i + 14);
            assert(t[0] == 'C' && t[0] == w[i]);
        }
    }
    assert forall|i: int| !occurs_at(w, "Content-Type"@, i) by {
        if occurs_at(w, "Content-Type"@, i) {
            let t = w.subrange(i, i + 12);
            assert(t[0] == 'C' && t[0] == w[i]);
        }
    }
}

} // verus!
