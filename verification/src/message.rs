//! The request and response values that cross every boundary of the
//! dispatch core.

use crate::fields::StringMap;
use vstd::prelude::*;

verus! {

/// The request verbs that the dispatch core tells apart.
#[derive(Copy, Clone, PartialEq, Eq, Structural, PartialOrd, Ord, Hash, Debug)]
pub enum HttpMethod {
    Get,
    Post,
    Delete,
    Put,
    /// Any verb other than the four above.
    Unsupported,
}

/// A request as the network side hands it over.
#[derive(Debug)]
pub struct HttpRequest {
    pub method: HttpMethod,
    /// The path that routing compares, character by character.
    pub path: String,
    pub params: StringMap,
    pub headers: StringMap,
    pub cookies: StringMap,
    pub body: Vec<u8>,
}

/// What a request holds, as mathematical values.
pub struct HttpRequestView {
    pub method: HttpMethod,
    pub path: Seq<char>,
    pub params: Map<Seq<char>, Seq<char>>,
    pub headers: Map<Seq<char>, Seq<char>>,
    pub cookies: Map<Seq<char>, Seq<char>>,
    pub body: Seq<u8>,
}

impl View for HttpRequest {
    type V = HttpRequestView;

    open spec fn view(&self) -> HttpRequestView {
        HttpRequestView {
            method: self.method,
            path: self.path@,
            params: self.params@,
            headers: self.headers@,
            cookies: self.cookies@,
            body: self.body@,
        }
    }
}

impl Clone for HttpRequest {
    fn clone(&self) -> (copy: HttpRequest)
        ensures
            copy@ == self@,
    {
        HttpRequest {
            method: self.method,
            path: self.path.clone(),
            params: self.params.clone(),
            headers: self.headers.clone(),
            cookies: self.cookies.clone(),
            body: self.body.clone(),
        }
    }
}

/// A response as a controller, a middleware or the pipeline produces it.
#[derive(Debug)]
pub struct HttpResponse {
    pub status: u16,
    pub headers: StringMap,
    pub body: Vec<u8>,
}

/// What a response holds, as mathematical values.
pub struct HttpResponseView {
    pub status: u16,
    pub headers: Map<Seq<char>, Seq<char>>,
    pub body: Seq<u8>,
}

impl View for HttpResponse {
    type V = HttpResponseView;

    open spec fn view(&self) -> HttpResponseView {
        HttpResponseView { status: self.status, headers: self.headers@, body: self.body@ }
    }
}

impl Clone for HttpResponse {
    fn clone(&self) -> (copy: HttpResponse)
        ensures
            copy@ == self@,
    {
        HttpResponse {
            status: self.status,
            headers: self.headers.clone(),
            body: self.body.clone(),
        }
    }
}

/// Why a request's body could not be read as JSON.
#[derive(Copy, Clone, PartialEq, Eq, Structural, PartialOrd, Ord, Hash, Debug)]
pub enum JsonError {
    /// The body is not a JSON document of the kind asked for.
    CouldNotParse,
}

#[verifier::external_type_specification]
#[verifier::external_body]
pub struct ExJsonValue(serde_json::Value);

#[verifier::external_type_specification]
#[verifier::external_body]
pub struct ExJsonFailure(serde_json::Error);

#[verifier::external_type_specification]
#[verifier::external_body]
pub struct ExIoError(std::io::Error);

/// Why the application could not run.
pub enum ApplicationError {
    IoError(std::io::Error),
}

/// The JSON value that `body` is the text of, if it is the text of one.
pub uninterp spec fn json_document(body: Seq<u8>) -> Option<serde_json::Value>;

/// `serde_json::from_slice` reads one JSON value from the bytes and fails
/// where they are not the text of exactly one. What it returns depends on
/// the bytes alone.
#[verifier::external_body]
fn parse_json(body: &[u8]) -> (parsed: Result<serde_json::Value, serde_json::Error>)
    ensures
        match parsed {
            Ok(v) => json_document(body@) == Some(v),
            Err(_) => json_document(body@) is None,
        },
{
    serde_json::from_slice::<serde_json::Value>(body)
}

impl JsonError {
    /// What an attempt to read JSON came to, with the parser's own error
    /// replaced by `CouldNotParse`.
    pub fn from_parse<T>(parsed: Result<T, serde_json::Error>) -> (r: Result<T, JsonError>)
        ensures
            match parsed {
                Ok(v) => r == Ok::<T, JsonError>(v),
                Err(_) => r == Err::<T, JsonError>(JsonError::CouldNotParse),
            },
    {
        match parsed {
            Ok(v) => Ok(v),
            Err(_) => Err(JsonError::CouldNotParse),
        }
    }
}

/// The response that reports a body that could not be read as JSON: status
/// 400, no body, and the header `Accept: application/json` beside those of
/// a JSON response.
pub open spec fn json_error_view() -> HttpResponseView {
    HttpResponseView {
        status: 400,
        headers: body_headers("application/json"@).insert("Accept"@, "application/json"@),
        body: Seq::<u8>::empty(),
    }
}

impl From<JsonError> for HttpResponse {
    fn from(error: JsonError) -> (resp: HttpResponse)
        ensures
            resp@ == json_error_view(),
    {
        let mut response = HttpResponse::new(Vec::new(), "application/json", 400);
        response.headers.insert("Accept".to_owned(), "application/json".to_owned());
        response
    }
}

/// The conversion is stated by what the response holds (see `from`), not as
/// one value: two responses of the same content are different values.
impl vstd::std_specs::convert::FromSpecImpl<JsonError> for HttpResponse {
    open spec fn obeys_from_spec() -> bool {
        false
    }

    open spec fn from_spec(error: JsonError) -> HttpResponse {
        arbitrary()
    }
}

impl HttpRequest {
    /// The body read as one JSON value. This fails exactly where the body is
    /// not the text of one.
    pub fn as_json(&self) -> (parsed: Result<serde_json::Value, JsonError>)
        ensures
            match parsed {
                Ok(v) => json_document(self.body@) == Some(v),
                Err(e) => json_document(self.body@) is None && e == JsonError::CouldNotParse,
            },
    {
        JsonError::from_parse(parse_json(self.body.as_slice()))
    }
}

/// The headers that every response starts with.
pub open spec fn closing_headers() -> Map<Seq<char>, Seq<char>> {
    Map::<Seq<char>, Seq<char>>::empty().insert("Connection"@, "close"@)
}

/// The headers of a response that carries a body of the given content type.
pub open spec fn body_headers(content_type: Seq<char>) -> Map<Seq<char>, Seq<char>> {
    closing_headers().insert("Content-Type"@, content_type)
}

impl HttpResponse {
    /// The "not found" response: status 404, no body, and the one header
    /// `Connection: close`.
    pub open spec fn not_found_view() -> HttpResponseView {
        HttpResponseView { status: 404, headers: closing_headers(), body: Seq::<u8>::empty() }
    }

    /// A response with the given body, content type and status.
    pub fn new(body: Vec<u8>, content_type: &str, status: u16) -> (resp: HttpResponse)
        ensures
            resp@ == (HttpResponseView {
                status,
                headers: body_headers(content_type@),
                body: body@,
            }),
    {
        let mut headers = StringMap::new();
        headers.insert("Connection".to_owned(), "close".to_owned());
        headers.insert("Content-Type".to_owned(), content_type.to_owned());
        HttpResponse { status, headers, body }
    }

    /// The response for a request that nothing answers.
    pub fn not_found() -> (resp: HttpResponse)
        ensures
            resp@ == HttpResponse::not_found_view(),
    {
        let mut headers = StringMap::new();
        headers.insert("Connection".to_owned(), "close".to_owned());
        HttpResponse { status: 404, headers, body: Vec::new() }
    }

    /// A response of status 200 whose body is `body`, an encoded JSON
    /// document.
    pub fn with_json(body: Vec<u8>) -> (resp: HttpResponse)
        ensures
            resp@ == (HttpResponseView {
                status: 200,
                headers: body_headers("application/json"@),
                body: body@,
            }),
    {
        HttpResponse::new(body, "application/json", 200)
    }
}

} // verus!
