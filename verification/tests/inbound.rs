use web_dispatch::inbound::{is_cookies_name, parse_cookies};
use web_dispatch::message::{HttpMethod, HttpRequest};

fn s(text: &str) -> String {
    text.to_string()
}

fn line(name: &str, value: &[u8]) -> (String, Vec<u8>) {
    (name.to_string(), value.to_vec())
}

#[test]
fn verbs_map_to_methods() {
    assert_eq!(HttpMethod::from_name("GET"), HttpMethod::Get);
    assert_eq!(HttpMethod::from_name("POST"), HttpMethod::Post);
    assert_eq!(HttpMethod::from_name("PUT"), HttpMethod::Put);
    assert_eq!(HttpMethod::from_name("DELETE"), HttpMethod::Delete);
    for other in ["PATCH", "HEAD", "OPTIONS", "get", "Get", "", "GET "] {
        assert_eq!(HttpMethod::from_name(other), HttpMethod::Unsupported);
    }
}

#[test]
fn parts_are_taken_over() {
    let req = HttpRequest::from_parts("POST", "/a/b", None, &vec![], vec![1, 2, 3]);
    assert_eq!(req.method, HttpMethod::Post);
    assert_eq!(req.path, "/a/b");
    assert!(req.params.is_empty());
    assert!(req.headers.is_empty());
    assert!(req.cookies.is_empty());
    assert_eq!(req.body, vec![1, 2, 3]);
}

#[test]
fn query_parameters_are_decoded_and_the_last_of_equal_names_wins() {
    let req = HttpRequest::from_parts(
        "GET",
        "/search",
        Some("q=a+b&lang=de&q=%23first&empty=&flag&&x=1=2"),
        &vec![],
        vec![],
    );
    assert_eq!(req.path, "/search");
    assert_eq!(req.params.get("q"), Some(&s("#first")));
    assert_eq!(req.params.get("lang"), Some(&s("de")));
    assert_eq!(req.params.get("empty"), Some(&s("")));
    assert_eq!(req.params.get("flag"), Some(&s("")));
    assert_eq!(req.params.get("x"), Some(&s("1=2")));
    assert_eq!(req.params.len(), 5);
}

#[test]
fn an_empty_query_gives_no_parameters() {
    let req = HttpRequest::from_parts("GET", "/", Some(""), &vec![], vec![]);
    assert!(req.params.is_empty());
}

#[test]
fn headers_are_copied_with_a_replacement_for_invalid_bytes() {
    let lines = vec![
        line("host", b"example.org"),
        line("x-raw", &[b'a', 0xff, b'b']),
        line("accept", b"text/html"),
        line("accept", b"application/json"),
        line("x-utf8", "gr\u{fc}n".as_bytes()),
    ];
    let req = HttpRequest::from_parts("GET", "/", None, &lines, vec![]);
    assert_eq!(req.headers.get("host"), Some(&s("example.org")));
    assert_eq!(req.headers.get("x-raw"), Some(&s("a\u{fffd}b")));
    assert_eq!(req.headers.get("accept"), Some(&s("application/json")));
    assert_eq!(req.headers.get("x-utf8"), Some(&s("gr\u{fc}n")));
    assert_eq!(req.headers.len(), 4);
    assert!(req.headers.get("Host").is_none());
}

#[test]
fn cookies_come_from_the_cookies_header() {
    let lines = vec![line("Cookies", b"session=abc; theme=dark"), line("Cookie", b"other=1")];
    let req = HttpRequest::from_parts("GET", "/", None, &lines, vec![]);
    assert_eq!(req.cookies.get("session"), Some(&s("abc")));
    assert_eq!(req.cookies.get("theme"), Some(&s("dark")));
    assert!(req.cookies.get("other").is_none());
    assert_eq!(req.cookies.len(), 2);
}

#[test]
fn the_cookies_header_is_found_in_any_case_of_its_letters() {
    for name in ["cookies", "Cookies", "COOKIES", "cOoKiEs"] {
        let lines = vec![line("host", b"example.org"), line(name, b"a=1; b=2")];
        let req = HttpRequest::from_parts("GET", "/", None, &lines, vec![]);
        assert_eq!(req.cookies.get("a"), Some(&s("1")));
        assert_eq!(req.cookies.get("b"), Some(&s("2")));
        assert_eq!(req.cookies.len(), 2);
        assert_eq!(req.headers.get(name), Some(&s("a=1; b=2")));
    }
}

#[test]
fn only_the_name_cookies_is_a_cookies_header() {
    assert!(is_cookies_name("Cookies"));
    assert!(is_cookies_name("cookies"));
    assert!(is_cookies_name("COOKIES"));
    for other in ["Cookie", "cookie", "cookies ", " cookies", "x-cookies", "cookiez", "", "c\u{f6}okies", "kookies"] {
        assert!(!is_cookies_name(other));
    }
}

#[test]
fn without_a_cookies_header_there_are_no_cookies() {
    let lines = vec![line("x-cookies", b"a=1"), line("Cookie", b"b=2")];
    let req = HttpRequest::from_parts("GET", "/", None, &lines, vec![]);
    assert!(req.cookies.is_empty());
}

#[test]
fn the_last_cookies_header_counts() {
    let lines = vec![line("Cookies", b"a=1"), line("Cookies", b"b=2")];
    let req = HttpRequest::from_parts("GET", "/", None, &lines, vec![]);
    assert!(req.cookies.get("a").is_none());
    assert_eq!(req.cookies.get("b"), Some(&s("2")));
    let lines = vec![line("cookies", b"a=1"), line("Cookies", b"b=2"), line("host", b"h")];
    let req = HttpRequest::from_parts("GET", "/", None, &lines, vec![]);
    assert!(req.cookies.get("a").is_none());
    assert_eq!(req.cookies.get("b"), Some(&s("2")));
    let lines = vec![line("Cookies", b"b=2"), line("cookies", b"a=1")];
    let req = HttpRequest::from_parts("GET", "/", None, &lines, vec![]);
    assert_eq!(req.cookies.get("a"), Some(&s("1")));
    assert!(req.cookies.get("b").is_none());
}

#[test]
fn cookie_pieces_are_cut_at_semicolons_and_at_the_first_equals_sign() {
    assert_eq!(parse_cookies(b""), vec![]);
    assert_eq!(parse_cookies(b"a=1"), vec![(s("a"), s("1"))]);
    assert_eq!(
        parse_cookies(b"a=1; b=2;c=3"),
        vec![(s("a"), s("1")), (s("b"), s("2")), (s("c"), s("3"))]
    );
    assert_eq!(parse_cookies(b"a=1=2"), vec![(s("a"), s("1=2"))]);
    assert_eq!(parse_cookies(b"a="), vec![(s("a"), s(""))]);
    assert_eq!(parse_cookies(b"=v"), vec![(s(""), s("v"))]);
    assert_eq!(parse_cookies(b"novalue"), vec![]);
    assert_eq!(parse_cookies(b"novalue; a=1;;  ;b=2;"), vec![(s("a"), s("1")), (s("b"), s("2"))]);
    assert_eq!(parse_cookies(b"   a=1"), vec![(s("a"), s("1"))]);
    assert_eq!(parse_cookies(b"a =1 "), vec![(s("a "), s("1 "))]);
    assert_eq!(parse_cookies(b"a=1;a=2"), vec![(s("a"), s("1")), (s("a"), s("2"))]);
    assert_eq!(parse_cookies(b";"), vec![]);
    assert_eq!(parse_cookies(&[b'a', b'=', 0xff]), vec![(s("a"), s("\u{fffd}"))]);
}

#[test]
fn a_later_cookie_replaces_an_earlier_one_of_the_same_name() {
    let lines = vec![line("Cookies", b"a=1; b=2; a=3")];
    let req = HttpRequest::from_parts("GET", "/", None, &lines, vec![]);
    assert_eq!(req.cookies.get("a"), Some(&s("3")));
    assert_eq!(req.cookies.len(), 2);
}
