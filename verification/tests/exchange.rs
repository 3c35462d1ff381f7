use imhottep::exchange::{
    answered, built, collect_headers, header_text, prepare, Frame, RawHeader, Reception,
};
use imhottep::http_client::{
    ErrorSource, HttpError, HttpMethod, HttpRequest, HttpResponse, RequestEvent, StatusCode,
};

fn told(events: &[RequestEvent]) -> Vec<String> {
    events.iter().map(|e| e.to_string()).collect()
}

fn raw(name: &str, value: &[u8]) -> RawHeader {
    RawHeader {
        name: name.to_string(),
        value: value.to_vec(),
    }
}

#[test]
fn a_good_request_is_prepared_as_it_was_written() {
    let request = HttpRequest::new(HttpMethod::POST, "HTTPS://Example.com/a b")
        .with_header("Accept", "*/*")
        .with_body("text".to_string());
    let (events, prepared) = prepare(&request);
    assert_eq!(
        told(&events),
        vec![
            "Request started",
            "Resolving host: example.com",
            "Host resolved",
            "Connecting to server",
            "Starting TLS handshake",
            "TLS handshake complete",
        ]
    );
    let prepared = prepared.unwrap();
    assert_eq!(prepared.method, HttpMethod::POST);
    assert_eq!(prepared.uri, "https://example.com/a%20b");
    assert_eq!(prepared.headers.len(), 1);
    assert_eq!(prepared.body, "text");
}

#[test]
fn plain_http_has_no_handshake() {
    let (events, prepared) = prepare(&HttpRequest::new(HttpMethod::GET, "http://localhost:80/"));
    assert_eq!(
        told(&events),
        vec![
            "Request started",
            "Resolving host: localhost",
            "Host resolved",
            "Connecting to server",
        ]
    );
    assert_eq!(prepared.unwrap().body, "");
}

#[test]
fn a_bad_address_is_refused() {
    let (events, prepared) = prepare(&HttpRequest::new(HttpMethod::GET, "not an address"));
    assert_eq!(
        told(&events),
        vec![
            "Request started",
            "Request failed: relative URL without a base",
        ]
    );
    let error = prepared.unwrap_err();
    assert!(matches!(error, HttpError::InvalidUrl { .. }));
    assert_eq!(error.to_string(), "Invalid URL: relative URL without a base");
    assert!(error.source().is_some());
}

#[test]
fn an_address_that_is_not_of_the_network_is_refused() {
    let (events, prepared) = prepare(&HttpRequest::new(HttpMethod::GET, "data:text/plain,hi"));
    assert_eq!(events.len(), 2);
    assert!(matches!(events[1], RequestEvent::Failed(_)));
    assert!(matches!(prepared, Err(HttpError::InvalidUrl { .. })));
}

#[test]
fn a_bad_header_value_is_refused() {
    let request = HttpRequest::new(HttpMethod::GET, "http://localhost/")
        .with_header("A", "fine\ttoo")
        .with_header("B", "line\nbreak");
    let (events, prepared) = prepare(&request);
    assert_eq!(
        told(&events).last().unwrap(),
        "Request failed: B: failed to parse header value"
    );
    let error = prepared.unwrap_err();
    assert!(matches!(error, HttpError::InvalidHeader { .. }));
    assert!(error.source().is_none());
}

#[test]
fn a_bad_header_name_is_refused() {
    let request =
        HttpRequest::new(HttpMethod::GET, "http://localhost/").with_header("two words", "x");
    let (events, prepared) = prepare(&request);
    assert_eq!(
        told(&events).last().unwrap(),
        "Request failed: invalid HTTP header name"
    );
    assert!(matches!(prepared, Err(HttpError::RequestFailed { .. })));
    let long = "n".repeat(65536);
    let request = HttpRequest::new(HttpMethod::GET, "http://localhost/").with_header(long, "x");
    assert!(matches!(prepare(&request).1, Err(HttpError::RequestFailed { .. })));
    let name = "n".repeat(65535);
    let request = HttpRequest::new(HttpMethod::GET, "http://localhost/").with_header(name, "x");
    assert!(prepare(&request).1.is_ok());
}

#[test]
fn sending_is_reported_step_by_step() {
    let (events, error) = built(Ok(()));
    assert_eq!(told(&events), vec!["Sending request"]);
    assert!(error.is_none());
    let (events, error) = answered(Ok(()));
    assert_eq!(
        told(&events),
        vec!["Request sent", "Waiting for response", "Receiving headers"]
    );
    assert!(error.is_none());
}

#[test]
fn failures_to_send_are_reported() {
    let cause = || {
        let inner = ErrorSource::new("refused".to_string(), None);
        ErrorSource::new("no connection".to_string(), Some(Box::new(inner)))
    };
    for (events, error) in [built(Err(cause())), answered(Err(cause()))] {
        assert_eq!(told(&events), vec!["Request failed: no connection"]);
        let error = error.unwrap();
        assert!(matches!(error, HttpError::RequestFailed { .. }));
        assert_eq!(error.to_string(), "Request failed: no connection");
        let source = error.source().unwrap();
        assert_eq!(source.to_string(), "no connection");
        assert_eq!(source.source().unwrap().to_string(), "refused");
    }
}

#[test]
fn only_visible_header_values_are_kept() {
    assert_eq!(header_text(&b"a b\t~".to_vec()), Some("a b\t~".to_string()));
    assert_eq!(header_text(&vec![0xe9]), None);
    assert_eq!(header_text(&vec![0x7f]), None);
    let headers = collect_headers(&vec![
        raw("a", b"1"),
        raw("b", &[0xff]),
        raw("c", b"3"),
        raw("a", b"4"),
    ]);
    assert_eq!(headers.len(), 2);
    assert_eq!(headers.get("a").map(|v| v.as_str()), Some("4"));
    assert_eq!(headers.get("c").map(|v| v.as_str()), Some("3"));
}

fn receive(frames: &[Frame]) -> (HttpResponse, Vec<String>) {
    let status = StatusCode::from_u16(201).unwrap();
    let (mut reception, event) = Reception::new(status, &vec![raw("a", b"1")]);
    let mut events = vec![event.to_string()];
    for frame in frames {
        if let Some(event) = reception.on_frame(frame) {
            events.push(event.to_string());
        }
    }
    let (response, event) = reception.finish();
    events.push(event.to_string());
    (response, events)
}

#[test]
fn the_body_is_what_the_parts_say() {
    let (response, events) = receive(&[
        Frame::Data("abé".as_bytes().to_vec()),
        Frame::Other,
        Frame::Problem,
        Frame::Data(b"c".to_vec()),
    ]);
    assert_eq!(response.status_code.as_u16(), 201);
    assert_eq!(response.body, "abéc");
    assert_eq!(response.headers.len(), 1);
    assert_eq!(
        events,
        vec![
            "Headers received (Status: 201)",
            "Body chunk (4 bytes)",
            "Temporary issue with connection: Could not receive response chunk",
            "Body chunk (1 bytes)",
            "Request completed: 5 total bytes",
        ]
    );
}

#[test]
fn bad_bytes_are_replaced_part_by_part() {
    let bytes = "é".as_bytes();
    let (response, events) = receive(&[
        Frame::Data(bytes[..1].to_vec()),
        Frame::Data(bytes[1..].to_vec()),
    ]);
    assert_eq!(response.body, "\u{fffd}\u{fffd}");
    assert_eq!(events.last().unwrap(), "Request completed: 6 total bytes");
}

#[test]
fn status_codes_have_three_digits() {
    assert!(StatusCode::from_u16(99).is_err());
    assert!(StatusCode::from_u16(1000).is_err());
    let code = StatusCode::from_u16(404).unwrap();
    assert_eq!(code.canonical_reason(), Some("Not Found"));
    assert_eq!(code.to_string(), "404 Not Found");
    let code = StatusCode::from_u16(999).unwrap();
    assert_eq!(code.canonical_reason(), None);
    assert_eq!(code.to_string(), "999 <unknown status code>");
}
