use imhottep::headers::Headers;
use imhottep::http_client::{HeaderName, HeaderValue, HttpMethod, HttpRequest};

fn set(headers: &mut Headers, name: &str, value: &str) {
    headers.insert(HeaderName::from(name), HeaderValue::from(value));
}

fn listed(headers: &Headers) -> Vec<(String, String)> {
    (0..headers.len())
        .map(|i| (headers.name_at(i).to_string(), headers.value_at(i).to_string()))
        .collect()
}

#[test]
fn a_set_header_is_read_back() {
    let mut headers = Headers::new();
    assert!(headers.is_empty());
    set(&mut headers, "Accept", "a");
    set(&mut headers, "Host", "h");
    assert_eq!(headers.len(), 2);
    assert_eq!(headers.get("Accept").map(|v| v.as_str()), Some("a"));
    assert!(headers.contains_key("Host"));
    assert!(headers.get("accept").is_none());
}

#[test]
fn setting_a_header_twice_keeps_the_second_value() {
    let mut headers = Headers::new();
    set(&mut headers, "Accept", "a");
    set(&mut headers, "Host", "h");
    set(&mut headers, "Accept", "b");
    assert_eq!(
        listed(&headers),
        vec![
            ("Accept".to_string(), "b".to_string()),
            ("Host".to_string(), "h".to_string())
        ]
    );
}

#[test]
fn removing_a_header_undoes_setting_it() {
    let mut headers = Headers::new();
    set(&mut headers, "Accept", "a");
    let before = listed(&headers);
    set(&mut headers, "X-New", "n");
    assert_eq!(
        headers.remove_ignoring_case("x-new").map(|v| v.to_string()),
        Some("n".to_string())
    );
    assert_eq!(listed(&headers), before);
    assert!(headers.remove_ignoring_case("x-new").is_none());
}

#[test]
fn names_that_differ_in_case_are_two_headers() {
    let request = HttpRequest::new(HttpMethod::GET, "https://a")
        .with_header("A", "1")
        .with_header("a", "2");
    assert_eq!(request.headers.len(), 2);
}
