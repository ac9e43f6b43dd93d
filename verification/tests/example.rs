use web_dispatch::example::CountController;
use web_dispatch::fields::StringMap;
use web_dispatch::message::{HttpMethod, HttpRequest};
use web_dispatch::pipeline::{HttpController, RequestProcessor, StandardRequestProcessor};

fn get(path: &str) -> HttpRequest {
    HttpRequest {
        method: HttpMethod::Get,
        path: path.to_string(),
        params: StringMap::new(),
        headers: StringMap::new(),
        cookies: StringMap::new(),
        body: Vec::new(),
    }
}

fn counting_pipeline() -> StandardRequestProcessor {
    StandardRequestProcessor::new(vec![], vec![Box::new(CountController::new())])
}

#[test]
fn counter_is_bound_to_its_path() {
    assert_eq!(CountController::new().url(), "/api/counter");
}

#[test]
fn counter_counts_its_get_requests() {
    let mut p = counting_pipeline();
    let first = p.process(get("/api/counter"));
    assert_eq!(first.status, 200);
    assert_eq!(first.body, b"Site called 1 times".to_vec());
    assert_eq!(first.headers.get("Content-Type"), Some(&"text/html".to_string()));
    assert_eq!(first.headers.get("Connection"), Some(&"close".to_string()));
    let second = p.process(get("/api/counter"));
    assert_eq!(second.body, b"Site called 2 times".to_vec());
    for _ in 0..8 {
        p.process(get("/api/counter"));
    }
    assert_eq!(p.process(get("/api/counter")).body, b"Site called 11 times".to_vec());
}

#[test]
fn a_fresh_pipeline_counts_from_the_start() {
    let mut worker_one = counting_pipeline();
    let first = worker_one.process(get("/api/counter"));
    assert!(String::from_utf8(first.body).unwrap().contains("1"));
    let mut worker_two = counting_pipeline();
    let again = worker_two.process(get("/api/counter"));
    assert_eq!(again.body, b"Site called 1 times".to_vec());
}

#[test]
fn counter_provides_get_only() {
    let mut c = CountController::new();
    let req = get("/api/counter");
    assert_eq!(c.on_post(&req).status, 404);
    assert_eq!(c.on_put(&req).status, 404);
    assert_eq!(c.on_delete(&req).status, 404);
    assert_eq!(c.on_get(&req).body, b"Site called 1 times".to_vec());
}

#[test]
fn the_first_of_two_counters_on_one_path_answers() {
    let req = get("/api/counter");
    let mut c1 = CountController::new();
    c1.on_get(&req);
    let c2 = CountController::new();
    let mut p = <StandardRequestProcessor>::new(vec![], vec![Box::new(c1), Box::new(c2)]);
    let resp = p.process(get("/api/counter"));
    assert_eq!(resp.status, 200);
    assert_eq!(resp.body, b"Site called 2 times".to_vec());
}
