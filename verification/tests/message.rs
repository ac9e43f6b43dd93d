use web_dispatch::fields::StringMap;
use web_dispatch::message::{HttpMethod, HttpRequest, HttpResponse, JsonError};

fn request_with_body(body: &[u8]) -> HttpRequest {
    HttpRequest {
        method: HttpMethod::Post,
        path: "/".to_string(),
        params: StringMap::new(),
        headers: StringMap::new(),
        cookies: StringMap::new(),
        body: body.to_vec(),
    }
}

#[test]
fn new_response_seeds_connection_and_content_type() {
    let resp = HttpResponse::new(vec![1, 2, 3], "text/plain", 201);
    assert_eq!(resp.status, 201);
    assert_eq!(resp.body, vec![1, 2, 3]);
    assert_eq!(resp.headers.len(), 2);
    assert_eq!(resp.headers.get("Connection"), Some(&"close".to_string()));
    assert_eq!(resp.headers.get("Content-Type"), Some(&"text/plain".to_string()));
}

#[test]
fn not_found_has_status_404_no_body_and_connection_close() {
    let resp = HttpResponse::not_found();
    assert_eq!(resp.status, 404);
    assert!(resp.body.is_empty());
    assert_eq!(resp.headers.len(), 1);
    assert_eq!(resp.headers.get("Connection"), Some(&"close".to_string()));
    assert!(resp.headers.get("Content-Type").is_none());
}

#[test]
fn with_json_has_status_200_and_json_content_type() {
    let resp = HttpResponse::with_json(b"{\"a\":1}".to_vec());
    assert_eq!(resp.status, 200);
    assert_eq!(resp.body, b"{\"a\":1}".to_vec());
    assert_eq!(resp.headers.get("Content-Type"), Some(&"application/json".to_string()));
    assert_eq!(resp.headers.get("Connection"), Some(&"close".to_string()));
    assert_eq!(resp.headers.len(), 2);
}

#[test]
fn json_error_becomes_a_400_response() {
    let resp: HttpResponse = JsonError::CouldNotParse.into();
    assert_eq!(resp.status, 400);
    assert!(resp.body.is_empty());
    assert_eq!(resp.headers.get("Accept"), Some(&"application/json".to_string()));
    assert_eq!(resp.headers.get("Content-Type"), Some(&"application/json".to_string()));
    assert_eq!(resp.headers.get("Connection"), Some(&"close".to_string()));
    assert_eq!(resp.headers.len(), 3);
}

#[test]
fn as_json_reads_a_json_body() {
    let req = request_with_body(b"{\"name\":\"x\",\"n\":[1,2]}");
    let value = req.as_json().unwrap();
    assert_eq!(value["name"].as_str(), Some("x"));
    assert_eq!(value["n"][1].as_u64(), Some(2));
}

#[test]
fn as_json_fails_on_a_malformed_body() {
    assert_eq!(request_with_body(b"{\"name\":").as_json(), Err(JsonError::CouldNotParse));
    assert_eq!(request_with_body(b"").as_json(), Err(JsonError::CouldNotParse));
    assert_eq!(request_with_body(b"1 2").as_json(), Err(JsonError::CouldNotParse));
}

#[test]
fn from_parse_keeps_the_value_and_replaces_the_error() {
    let good = serde_json::from_slice::<u32>(b"17");
    assert_eq!(JsonError::from_parse(good), Ok(17));
    let bad = serde_json::from_slice::<u32>(b"\"text\"");
    assert_eq!(JsonError::from_parse(bad), Err(JsonError::CouldNotParse));
}

#[test]
fn clones_of_messages_hold_the_same() {
    let mut req = request_with_body(b"abc");
    req.headers.insert("A".to_string(), "b".to_string());
    let copy = req.clone();
    assert_eq!(copy.method, HttpMethod::Post);
    assert_eq!(copy.path, "/");
    assert_eq!(copy.body, b"abc".to_vec());
    assert_eq!(copy.headers.get("A"), Some(&"b".to_string()));
    let resp = HttpResponse::new(vec![9], "text/plain", 200);
    let copy = resp.clone();
    assert_eq!(copy.status, 200);
    assert_eq!(copy.body, vec![9]);
    assert_eq!(copy.headers.get("Content-Type"), Some(&"text/plain".to_string()));
}

#[test]
fn application_error_carries_the_io_error() {
    let error = web_dispatch::message::ApplicationError::IoError(std::io::Error::new(
        std::io::ErrorKind::AddrInUse,
        "port taken",
    ));
    match error {
        web_dispatch::message::ApplicationError::IoError(inner) => {
            assert_eq!(inner.kind(), std::io::ErrorKind::AddrInUse)
        }
    }
}
