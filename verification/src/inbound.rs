//! From what the transport hands over to a request of the dispatch core.

use crate::fields::{map_of_pairs, pairs_view, StringMap};
use crate::message::{HttpMethod, HttpRequest, HttpRequestView};
use vstd::prelude::*;
use vstd::slice::slice_subrange;

verus! {

/// The (name, value) pairs that a byte string in the
/// `application/x-www-form-urlencoded` syntax holds, in its order and
/// percent-decoded.
pub uninterp spec fn form_pairs(input: Seq<u8>) -> Seq<(Seq<char>, Seq<char>)>;

/// `url::form_urlencoded::parse` cuts the input at each `&` and each piece at
/// its first `=`, and decodes names and values. What it returns depends on
/// the input alone.
#[verifier::external_body]
fn parse_form(input: &[u8]) -> (pairs: Vec<(String, String)>)
    ensures
        pairs_view(pairs@) == form_pairs(input@),
{
    url::form_urlencoded::parse(input).into_owned().collect()
}

/// The text that the bytes are the UTF-8 encoding of, with the replacement
/// character U+FFFD in place of each part that is not valid UTF-8.
pub uninterp spec fn utf8_lossy(bytes: Seq<u8>) -> Seq<char>;

/// `String::from_utf8_lossy` decodes the bytes as UTF-8 and puts U+FFFD in
/// place of what is invalid. What it returns depends on the bytes alone.
#[verifier::external_body]
fn lossy_text(bytes: &[u8]) -> (text: String)
    ensures
        text@ == utf8_lossy(bytes@),
{
    String::from_utf8_lossy(bytes).into_owned()
}

/// The method that a verb stands for. The four verbs are written in capital
/// letters; anything else is unsupported.
pub open spec fn method_of(verb: Seq<char>) -> HttpMethod {
    if verb == "GET"@ {
        HttpMethod::Get
    } else if verb == "POST"@ {
        HttpMethod::Post
    } else if verb == "PUT"@ {
        HttpMethod::Put
    } else if verb == "DELETE"@ {
        HttpMethod::Delete
    } else {
        HttpMethod::Unsupported
    }
}

impl HttpMethod {
    /// The method that `verb` stands for.
    pub fn from_name(verb: &str) -> (m: HttpMethod)
        ensures
            m == method_of(verb@),
    {
        if verb.eq("GET") {
            HttpMethod::Get
        } else if verb.eq("POST") {
            HttpMethod::Post
        } else if verb.eq("PUT") {
            HttpMethod::Put
        } else if verb.eq("DELETE") {
            HttpMethod::Delete
        } else {
            HttpMethod::Unsupported
        }
    }
}

/// The first position in `from..to` that holds `b`, or `to` where none does.
pub open spec fn first_in(s: Seq<u8>, b: u8, from: int, to: int) -> int
    decreases to - from,
{
    if from >= to {
        to
    } else if s[from] == b {
        from
    } else {
        first_in(s, b, from + 1, to)
    }
}

/// The first position in `from..to` that holds no space, or `to` where all
/// are spaces.
pub open spec fn spaces_end(s: Seq<u8>, from: int, to: int) -> int
    decreases to - from,
{
    if from >= to {
        to
    } else if s[from] != 0x20u8 {
        from
    } else {
        spaces_end(s, from + 1, to)
    }
}

/// The cookie in the piece `start..end` of a cookie header: after leading
/// spaces, a name up to the first `=` and a value behind it. A piece without
/// `=` holds no cookie.
pub open spec fn cookie_in(text: Seq<u8>, start: int, end: int) -> Seq<(Seq<char>, Seq<char>)> {
    let from = spaces_end(text, start, end);
    let eq = first_in(text, 0x3du8, from, end);
    if eq < end {
        seq![(utf8_lossy(text.subrange(from, eq)), utf8_lossy(text.subrange(eq + 1, end)))]
    } else {
        Seq::empty()
    }
}

/// The first position found lies in the range that was searched, or at its end.
pub proof fn lemma_first_in_bounds(s: Seq<u8>, b: u8, from: int, to: int)
    requires
        from <= to,
    ensures
        from <= first_in(s, b, from, to) <= to,
    decreases to - from,
{
    if from < to && s[from] != b {
        lemma_first_in_bounds(s, b, from + 1, to);
    }
}

/// The cookies of a cookie header from position `start` on. The header is a
/// list of pieces, each ended by `;` or by the end of the text.
pub open spec fn cookies_from(text: Seq<u8>, start: int) -> Seq<(Seq<char>, Seq<char>)>
    decreases text.len() - start,
{
    if start < 0 || start >= text.len() {
        Seq::empty()
    } else {
        let end = first_in(text, 0x3bu8, start, text.len() as int);
        proof {
            lemma_first_in_bounds(text, 0x3bu8, start, text.len() as int);
        }
        let rest = if end < text.len() {
            cookies_from(text, end + 1)
        } else {
            Seq::empty()
        };
        cookie_in(text, start, end) + rest
    }
}

/// The cookies that a cookie header holds, in its order.
pub open spec fn cookie_pairs(text: Seq<u8>) -> Seq<(Seq<char>, Seq<char>)> {
    cookies_from(text, 0)
}

/// The position of the first `b` in `from..to` of `text`, or `to`.
fn scan(text: &[u8], b: u8, from: usize, to: usize) -> (at: usize)
    requires
        from <= to <= text@.len(),
    ensures
        at == first_in(text@, b, from as int, to as int),
        from <= at <= to,
{
    let mut at = from;
    while at < to && text[at] != b
        invariant
            from <= at <= to <= text@.len(),
            first_in(text@, b, at as int, to as int) == first_in(text@, b, from as int, to as int),
        decreases to - at,
    {
        at = at + 1;
    }
    at
}

/// The position of the first byte in `from..to` of `text` that is no space,
/// or `to`.
fn skip_spaces(text: &[u8], from: usize, to: usize) -> (at: usize)
    requires
        from <= to <= text@.len(),
    ensures
        at == spaces_end(text@, from as int, to as int),
        from <= at <= to,
{
    let mut at = from;
    while at < to && text[at] == 0x20u8
        invariant
            from <= at <= to <= text@.len(),
            spaces_end(text@, at as int, to as int) == spaces_end(text@, from as int, to as int),
        decreases to - at,
    {
        at = at + 1;
    }
    at
}

/// Reads the cookies of a cookie header.
pub fn parse_cookies(text: &[u8]) -> (pairs: Vec<(String, String)>)
    ensures
        pairs_view(pairs@) == cookie_pairs(text@),
{
    let mut pairs: Vec<(String, String)> = Vec::new();
    let mut start: usize = 0;
    while start < text.len()
        invariant
            start <= text@.len(),
            pairs_view(pairs@) + cookies_from(text@, start as int) == cookie_pairs(text@),
        decreases text@.len() - start,
    {
        let end = scan(text, 0x3bu8, start, text.len());
        let from = skip_spaces(text, start, end);
        let eq = scan(text, 0x3du8, from, end);
        let ghost had = pairs_view(pairs@);
        if eq < end {
            let name = lossy_text(slice_subrange(text, from, eq));
            let value = lossy_text(slice_subrange(text, eq + 1, end));
            pairs.push((name, value));
        }
        proof {
            assert(pairs_view(pairs@) =~= had + cookie_in(text@, start as int, end as int));
        }
        let ghost piece = start;
        if end < text.len() {
            start = end + 1;
        } else {
            start = end;
        }
        proof {
            assert(pairs_view(pairs@) + cookies_from(text@, start as int) =~= had + cookies_from(
                text@,
                piece as int,
            ));
        }
    }
    assert(pairs_view(pairs@) + cookies_from(text@, start as int) =~= pairs_view(pairs@));
    pairs
}

/// The header lines as (name, value) pairs of text: names as they are,
/// values decoded as UTF-8 with a replacement for what is invalid.
pub open spec fn header_pairs(lines: Seq<(String, Vec<u8>)>) -> Seq<(Seq<char>, Seq<char>)> {
    Seq::new(lines.len(), |i: int| (lines[i].0@, utf8_lossy(lines[i].1@)))
}

/// The byte as a small letter where it is a capital ASCII letter, and as it
/// is otherwise.
pub open spec fn lower(b: u8) -> u8 {
    if 0x41 <= b <= 0x5a {
        (b + 0x20) as u8
    } else {
        b
    }
}

/// Whether a header name reads `Cookies`, capital and small ASCII letters
/// taken as the same.
pub open spec fn names_cookies(name: Seq<char>) -> bool {
    let bytes = vstd::utf8::encode_utf8(name);
    &&& bytes.len() == 7
    &&& lower(bytes[0]) == 0x63
    &&& lower(bytes[1]) == 0x6f
    &&& lower(bytes[2]) == 0x6f
    &&& lower(bytes[3]) == 0x6b
    &&& lower(bytes[4]) == 0x69
    &&& lower(bytes[5]) == 0x65
    &&& lower(bytes[6]) == 0x73
}

/// The value of the last header line that is named `Cookies`, if there is
/// such a line.
pub open spec fn cookie_line(lines: Seq<(Seq<char>, Seq<char>)>) -> Option<Seq<char>>
    decreases lines.len(),
{
    if lines.len() == 0 {
        None
    } else if names_cookies(lines.last().0) {
        Some(lines.last().1)
    } else {
        cookie_line(lines.drop_last())
    }
}

/// The cookies of a request with the given header lines: those of its last
/// `Cookies` line, a later cookie replacing an earlier one of the same
/// name; none without such a line.
pub open spec fn cookies_of(lines: Seq<(Seq<char>, Seq<char>)>) -> Map<Seq<char>, Seq<char>> {
    match cookie_line(lines) {
        Some(text) => map_of_pairs(cookie_pairs(vstd::utf8::encode_utf8(text))),
        None => Map::empty(),
    }
}

fn to_lower(b: u8) -> (r: u8)
    ensures
        r == lower(b),
{
    if 0x41 <= b && b <= 0x5a {
        b + 0x20
    } else {
        b
    }
}

/// Whether `name` reads `Cookies`, whatever the case of its letters.
pub fn is_cookies_name(name: &str) -> (r: bool)
    ensures
        r == names_cookies(name@),
{
    let bytes = name.as_bytes();
    bytes.len() == 7 && to_lower(bytes[0]) == 0x63 && to_lower(bytes[1]) == 0x6f && to_lower(
        bytes[2],
    ) == 0x6f && to_lower(bytes[3]) == 0x6b && to_lower(bytes[4]) == 0x69 && to_lower(bytes[5])
        == 0x65 && to_lower(bytes[6]) == 0x73
}

/// The position of the last line that is named `Cookies`.
fn find_cookie_line(lines: &Vec<(String, String)>) -> (found: Option<usize>)
    ensures
        match found {
            Some(i) => i < lines@.len() && cookie_line(pairs_view(lines@)) == Some(lines@[i as int].1@),
            None => cookie_line(pairs_view(lines@)) is None,
        },
{
    let ghost all = pairs_view(lines@);
    let mut i: usize = lines.len();
    assert(all.take(i as int) =~= all);
    while i > 0
        invariant
            i <= lines@.len(),
            all == pairs_view(lines@),
            cookie_line(all) == cookie_line(all.take(i as int)),
        decreases i,
    {
        i = i - 1;
        proof {
            assert(all.take(i + 1).drop_last() =~= all.take(i as int));
            assert(all.take(i + 1).last() == all[i as int]);
        }
        if is_cookies_name(lines[i].0.as_str()) {
            return Some(i);
        }
    }
    None
}

/// The query parameters of a request: the pairs of its query string, a later
/// pair replacing an earlier one of the same name; none without a query
/// string.
pub open spec fn params_of(query: Option<Seq<char>>) -> Map<Seq<char>, Seq<char>> {
    match query {
        Some(q) => map_of_pairs(form_pairs(vstd::utf8::encode_utf8(q))),
        None => Map::empty(),
    }
}

impl HttpRequest {
    /// The request that the transport's parts stand for: the method of the
    /// verb, the path as it is, the parameters of the query string, the
    /// header lines with a later line replacing an earlier one of the same
    /// name, the cookies of the last header line named `Cookies` in any
    /// case of its letters, and the body as it is.
    pub fn from_parts(
        verb: &str,
        path: &str,
        query: Option<&str>,
        header_lines: &Vec<(String, Vec<u8>)>,
        body: Vec<u8>,
    ) -> (req: HttpRequest)
        ensures
            req@ == (HttpRequestView {
                method: method_of(verb@),
                path: path@,
                params: params_of(
                    match query {
                        Some(q) => Some(q@),
                        None => None,
                    },
                ),
                headers: map_of_pairs(header_pairs(header_lines@)),
                cookies: cookies_of(header_pairs(header_lines@)),
                body: body@,
            }),
    {
        let params = match query {
            Some(q) => StringMap::from_pairs(&parse_form(q.as_bytes())),
            None => StringMap::new(),
        };
        let mut lines: Vec<(String, String)> = Vec::new();
        let mut i: usize = 0;
        while i < header_lines.len()
            invariant
                i <= header_lines@.len(),
                lines@.len() == i,
                pairs_view(lines@) == header_pairs(header_lines@).take(i as int),
            decreases header_lines@.len() - i,
        {
            let name = header_lines[i].0.clone();
            let value = lossy_text(header_lines[i].1.as_slice());
            let ghost had = pairs_view(lines@);
            lines.push((name, value));
            proof {
                let now = pairs_view(lines@);
                let all = header_pairs(header_lines@);
                assert forall|j: int| 0 <= j < now.len() implies now[j] == all.take(i + 1)[j] by {
                    if j < i {
                        assert(now[j] == had[j]);
                    }
                }
                assert(now =~= all.take(i + 1));
            }
            i = i + 1;
        }
        assert(header_pairs(header_lines@).take(i as int) =~= header_pairs(header_lines@));
        let headers = StringMap::from_pairs(&lines);
        let cookies = match find_cookie_line(&lines) {
            Some(at) => StringMap::from_pairs(&parse_cookies(lines[at].1.as_str().as_bytes())),
            None => StringMap::new(),
        };
        HttpRequest {
            method: HttpMethod::from_name(verb),
            path: path.to_owned(),
            params,
            headers,
            cookies,
            body,
        }
    }
}

} // verus!
