//! Requests, and the parser from the text of a request to a request.

use crate::strings::{text_eq, to_chars};
use crate::text::{
    find, lemma_find_subrange, lines, next_line, scan, trim, trim_window, CharClass,
};
use vstd::hash_map::StringHashMap;
use vstd::prelude::*;

verus! {

/// The methods that the router knows.
#[derive(Clone, Copy, Debug, PartialEq, Eq, Structural)]
pub enum HttpMethod {
    GET,
}

impl HttpMethod {
    /// The method that `s` names: `GET` for the text `GET`, and no other
    /// text names a method.
    pub fn from_str(s: &str) -> (r: Result<HttpMethod, ()>)
        ensures
            r == (if s@ == "GET"@ {
                Ok::<HttpMethod, ()>(HttpMethod::GET)
            } else {
                Err(())
            }),
    {
        if text_eq(s, "GET") {
            Ok(HttpMethod::GET)
        } else {
            Err(())
        }
    }
}

/// The method token of a request line: a known method, or the token as it
/// was received.
#[derive(Clone, Debug, PartialEq, Eq)]
pub enum MethodToken {
    Known(HttpMethod),
    Unknown(String),
}

/// The model of a `MethodToken`.
pub ghost enum MethodModel {
    Known(HttpMethod),
    Unknown(Seq<char>),
}

impl View for MethodToken {
    type V = MethodModel;

    open spec fn view(&self) -> MethodModel {
        match self {
            MethodToken::Known(m) => MethodModel::Known(*m),
            MethodToken::Unknown(t) => MethodModel::Unknown(t@),
        }
    }
}

/// The method token that the text `token` stands for.
pub open spec fn method_of(token: Seq<char>) -> MethodModel {
    if token == "GET"@ {
        MethodModel::Known(HttpMethod::GET)
    } else {
        MethodModel::Unknown(token)
    }
}

/// A request: the method and the path of its request line, and its
/// headers. Of two headers with one name the later one stays.
pub struct HttpRequest {
    pub method: MethodToken,
    pub path: String,
    pub headers: StringHashMap<String>,
}

/// The model of an `HttpRequest`.
pub ghost struct RequestModel {
    pub method: MethodModel,
    pub path: Seq<char>,
    pub headers: Map<Seq<char>, Seq<char>>,
}

/// The model of a header table: each value by its characters.
pub open spec fn header_model(headers: Map<Seq<char>, String>) -> Map<Seq<char>, Seq<char>> {
    headers.map_values(|v: String| v@)
}

impl View for HttpRequest {
    type V = RequestModel;

    open spec fn view(&self) -> RequestModel {
        RequestModel {
            method: self.method@,
            path: self.path@,
            headers: header_model(self.headers@),
        }
    }
}

/// The method token and the path of a request line: its first two runs of
/// characters that are not white space. `None` where the line holds fewer
/// than two. What follows the second is not looked at.
pub open spec fn request_line(line: Seq<char>) -> Option<(Seq<char>, Seq<char>)> {
    let n = line.len() as int;
    let a = find(line, 0, n, CharClass::NonWhitespace);
    let b = find(line, a, n, CharClass::Whitespace);
    let c = find(line, b, n, CharClass::NonWhitespace);
    let d = find(line, c, n, CharClass::Whitespace);
    if c < n {
        Some((line.subrange(a, b), line.subrange(c, d)))
    } else {
        None
    }
}

/// The name and the value of a header line: what stands before and after
/// its first colon, both trimmed. `None` where the line holds no colon.
pub open spec fn header_line(line: Seq<char>) -> Option<(Seq<char>, Seq<char>)> {
    let n = line.len() as int;
    let k = find(line, 0, n, CharClass::Colon);
    if k < n {
        Some((trim(line.subrange(0, k)), trim(line.subrange(k + 1, n))))
    } else {
        None
    }
}

/// The header table that the lines `rest` add to `acc`. The lines are read
/// in order up to the first empty one or to the end; a later header
/// replaces an earlier one of the same name. `None` where one of the lines
/// read is no header line.
pub open spec fn headers_from(rest: Seq<Seq<char>>, acc: Map<Seq<char>, Seq<char>>) -> Option<
    Map<Seq<char>, Seq<char>>,
>
    decreases rest.len(),
{
    if rest.len() == 0 || rest[0].len() == 0 {
        Some(acc)
    } else {
        match header_line(rest[0]) {
            None => None,
            Some((name, value)) => headers_from(rest.drop_first(), acc.insert(name, value)),
        }
    }
}

/// The request that the text `s` holds, or `None` where it holds none:
/// where `s` has no line, where its first line is no request line, or
/// where one of the lines between the first and the first empty one is no
/// header line. What follows the first empty line is not looked at.
pub open spec fn parse(s: Seq<char>) -> Option<RequestModel> {
    let ls = lines(s);
    if ls.len() == 0 {
        None
    } else {
        match (request_line(ls[0]), headers_from(ls.drop_first(), Map::empty())) {
            (Some((token, path)), Some(headers)) => Some(
                RequestModel { method: method_of(token), path, headers },
            ),
            _ => None,
        }
    }
}

/// Finds the method token and the path in the window `[lo, hi)` of `text`,
/// which holds a request line: the result is the windows of the two.
pub fn split_request_line(text: &Vec<char>, lo: usize, hi: usize) -> (r: Option<
    (usize, usize, usize, usize),
>)
    requires
        lo <= hi <= text.len(),
    ensures
        match r {
            Some((a, b, c, d)) => lo <= a <= b <= c <= d <= hi && request_line(
                text@.subrange(lo as int, hi as int),
            ) == Some((text@.subrange(a as int, b as int), text@.subrange(c as int, d as int))),
            None => request_line(text@.subrange(lo as int, hi as int)) is None,
        },
{
    let a = scan(text, lo, hi, CharClass::NonWhitespace);
    let b = scan(text, a, hi, CharClass::Whitespace);
    let c = scan(text, b, hi, CharClass::NonWhitespace);
    let d = scan(text, c, hi, CharClass::Whitespace);
    proof {
        let s = text@;
        let line = s.subrange(lo as int, hi as int);
        lemma_find_subrange(s, lo as int, hi as int, lo as int, hi as int, CharClass::NonWhitespace);
        lemma_find_subrange(s, lo as int, hi as int, a as int, hi as int, CharClass::Whitespace);
        lemma_find_subrange(s, lo as int, hi as int, b as int, hi as int, CharClass::NonWhitespace);
        lemma_find_subrange(s, lo as int, hi as int, c as int, hi as int, CharClass::Whitespace);
        assert(line.subrange(a - lo, b - lo) =~= s.subrange(a as int, b as int));
        assert(line.subrange(c - lo, d - lo) =~= s.subrange(c as int, d as int));
    }
    if c < hi {
        Some((a, b, c, d))
    } else {
        None
    }
}

/// Finds the name and the value in the window `[lo, hi)` of `text`, which
/// holds a header line: the result is the windows of the two.
pub fn split_header_line(text: &Vec<char>, lo: usize, hi: usize) -> (r: Option<
    (usize, usize, usize, usize),
>)
    requires
        lo <= hi <= text.len(),
    ensures
        match r {
            Some((a, b, c, d)) => lo <= a <= b <= hi && lo <= c <= d <= hi && header_line(
                text@.subrange(lo as int, hi as int),
            ) == Some((text@.subrange(a as int, b as int), text@.subrange(c as int, d as int))),
            None => header_line(text@.subrange(lo as int, hi as int)) is None,
        },
{
    let k = scan(text, lo, hi, CharClass::Colon);
    proof {
        lemma_find_subrange(text@, lo as int, hi as int, lo as int, hi as int, CharClass::Colon);
    }
    if k < hi {
        let name = trim_window(text, lo, k);
        let value = trim_window(text, k + 1, hi);
        proof {
            let s = text@;
            let line = s.subrange(lo as int, hi as int);
            assert(line.subrange(0, k - lo) =~= s.subrange(lo as int, k as int));
            assert(line.subrange(k - lo + 1, hi - lo) =~= s.subrange(k + 1, hi as int));
        }
        Some((name.0, name.1, value.0, value.1))
    } else {
        None
    }
}

impl HttpRequest {
    /// Parses the text of a request. Succeeds exactly where `parse` gives
    /// a request, and then returns that request.
    pub fn try_from(request: &str) -> (r: Result<HttpRequest, ()>)
        ensures
            match r {
                Ok(req) => parse(request@) == Some(req@),
                Err(_) => parse(request@) is None,
            },
    {
        let text = to_chars(request);
        let n = text.len();
        if n == 0 {
            return Err(());
        }
        let ghost s = text@;
        let (end, next) = next_line(&text, 0);
        proof {
            assert(s.skip(0) =~= s);
            assert(lines(s).drop_first() =~= lines(s.skip(next as int)));
        }
        let (method, path) = match split_request_line(&text, 0, end) {
            None => {
                return Err(());
            },
            Some((a, b, c, d)) => {
                let token = request.substring_char(a, b);
                let method = match HttpMethod::from_str(token) {
                    Ok(m) => MethodToken::Known(m),
                    Err(_) => MethodToken::Unknown(String::from_str(token)),
                };
                (method, String::from_str(request.substring_char(c, d)))
            },
        };
        let mut headers: StringHashMap<String> = StringHashMap::new();
        let mut pos: usize = next;
        proof {
            assert(header_model(headers@) =~= Map::empty());
        }
        while pos < n
            invariant
                pos <= n == text.len(),
                text@ == s,
                request@ == s,
                headers_from(lines(s).drop_first(), Map::empty()) == headers_from(
                    lines(s.skip(pos as int)),
                    header_model(headers@),
                ),
            ensures
                headers_from(lines(s).drop_first(), Map::empty()) == Some(header_model(headers@)),
            decreases n - pos,
        {
            let (end, next) = next_line(&text, pos);
            if end == pos {
                break ;
            }
            match split_header_line(&text, pos, end) {
                None => {
                    return Err(());
                },
                Some((a, b, c, d)) => {
                    let name = String::from_str(request.substring_char(a, b));
                    let value = String::from_str(request.substring_char(c, d));
                    proof {
                        assert(header_model(headers@.insert(name@, value)) =~= header_model(
                            headers@,
                        ).insert(name@, value@));
                        assert(lines(s.skip(pos as int)).drop_first() =~= lines(
                            s.skip(next as int),
                        ));
                    }
                    headers.insert(name, value);
                },
            }
            pos = next;
        }
        Ok(HttpRequest { method, path, headers })
    }
}

} // verus!
