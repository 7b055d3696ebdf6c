use icpad::frontend::{http_request, HttpRequest, HttpResponse};

fn request(url: &str) -> HttpRequest {
    HttpRequest { method: "GET".to_string(), url: url.to_string(), headers: vec![], body: vec![] }
}

#[test]
fn every_address_gets_the_page() {
    let page = b"<!doctype html><title>ICPad</title>";
    let expected = HttpResponse {
        status_code: 200,
        headers: vec![
            ("Content-Type".to_string(), "text/html".to_string()),
            ("Cache-Control".to_string(), "no-cache".to_string()),
        ],
        body: page.to_vec(),
        upgrade: None,
        streaming_strategy: None,
    };
    assert_eq!(http_request(request("/"), page), expected);
    assert_eq!(http_request(request("/projects/7?tab=code"), page), expected);
    assert_eq!(http_request(request(""), page), expected);
}

#[test]
fn an_empty_page_is_served_as_it_is() {
    let response = http_request(request("/"), b"");
    assert_eq!(response.status_code, 200);
    assert!(response.body.is_empty());
}
