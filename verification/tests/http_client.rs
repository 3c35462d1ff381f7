use std::borrow::Borrow;
use std::fmt;

use imhottep::exchange::fail;
use imhottep::headers::Headers;
use imhottep::http_client::{
    default_jq_filter, default_prefix_regex, default_suffix_regex, is_default_jq_filter,
    is_default_prefix_regex, is_default_suffix_regex, ErrorKind, ErrorSource, HeaderValue,
    HttpError, HttpMethod, HttpRequest, HttpResponse, JqFilter, RegexPattern, RequestEvent,
    StatusCode, UrlString,
};
use imhottep::storage::{restore_all, restore_request, save_all, save_request};

/// An error as a program around the library reports it.
#[derive(Debug)]
struct Reported(HttpError);

impl fmt::Display for Reported {
    fn fmt(&self, f: &mut fmt::Formatter<'_>) -> fmt::Result {
        f.write_str(&self.0.to_string())
    }
}

impl std::error::Error for Reported {}

#[test]
fn test_http_method_display() {
    assert_eq!(HttpMethod::GET.to_string(), "GET");
    assert_eq!(HttpMethod::POST.to_string(), "POST");
    assert_eq!(HttpMethod::PUT.to_string(), "PUT");
    assert_eq!(HttpMethod::DELETE.to_string(), "DELETE");
    assert_eq!(HttpMethod::PATCH.to_string(), "PATCH");
}

#[test]
fn test_http_method_head_options() {
    assert_eq!(HttpMethod::HEAD.to_string(), "HEAD");
    assert_eq!(HttpMethod::OPTIONS.to_string(), "OPTIONS");
}

#[test]
fn test_url_string_from_string() {
    let u: UrlString = "https://example.com".into();
    assert_eq!(&*u, "https://example.com");
    assert_eq!(u.to_string(), "https://example.com");
}

#[test]
fn test_jq_filter_default() {
    let f = JqFilter::default();
    assert_eq!(&*f, ".");
}

#[test]
fn test_regex_pattern_compiles() {
    let r = RegexPattern::new(r"^\w+:\s*".to_string());
    assert!(r.compiled().is_some());
    assert!(r.compile().is_ok());
}

#[test]
fn test_regex_pattern_invalid() {
    let r = RegexPattern::new(r"[invalid".to_string());
    assert!(r.compiled().is_none());
    assert!(r.compile().is_err());
}

#[test]
fn test_regex_pattern_set_updates_compiled() {
    let mut r = RegexPattern::new(r"[invalid".to_string());
    assert!(r.compiled().is_none());
    r.set_pattern(r"^\w+:\s*".to_string());
    assert!(r.compiled().is_some());
}

#[test]
fn test_regex_pattern_custom_serde_on_request() {
    let req = HttpRequest::new(HttpMethod::GET, "https://example.com");
    let decoded = restore_request(&save_request(&req)).unwrap();
    assert_eq!(
        req.stream_prefix_regex.pattern(),
        decoded.stream_prefix_regex.pattern()
    );
    assert_eq!(
        req.stream_suffix_regex.pattern(),
        decoded.stream_suffix_regex.pattern()
    );
    assert!(decoded.stream_prefix_regex.compiled().is_some());
    assert!(decoded.stream_suffix_regex.compiled().is_some());
}

#[test]
fn test_http_request_builder() {
    let req = HttpRequest::new(HttpMethod::GET, "https://example.com")
        .with_header("Content-Type", "application/json")
        .with_body("test body".to_string());

    assert_eq!(req.method, HttpMethod::GET);
    assert_eq!(&*req.url, "https://example.com");
    assert_eq!(
        req.headers.get("Content-Type").map(|v| v.as_str()),
        Some("application/json")
    );
    assert_eq!(req.body, Some("test body".to_string()));
}

#[test]
fn test_http_request_add_header() {
    let mut req = HttpRequest::new(HttpMethod::POST, "https://example.com");
    req.add_header("Authorization", "Bearer token");

    assert_eq!(
        req.headers.get("Authorization").map(|v| v.as_str()),
        Some("Bearer token")
    );
}

#[test]
fn test_http_request_add_header_overwrites_existing() {
    let mut req = HttpRequest::new(HttpMethod::GET, "https://example.com");
    req.add_header("X-Custom", "first");
    req.add_header("X-Custom", "second");
    assert_eq!(
        req.headers.get("X-Custom").map(|v| v.as_str()),
        Some("second")
    );
    assert_eq!(req.headers.len(), 1);
}

#[test]
fn test_http_request_remove_header() {
    let mut req = HttpRequest::new(HttpMethod::GET, "https://example.com")
        .with_header("X-Test", "value");

    let removed = req.remove_header("X-Test");
    assert!(removed.is_some());
    assert_eq!(
        req.headers.get("X-Test"),
        None
    );
}

#[test]
fn test_http_request_remove_nonexistent_header_returns_none() {
    let mut req = HttpRequest::new(HttpMethod::GET, "https://example.com");
    let removed = req.remove_header("Does-Not-Exist");
    assert_eq!(removed, None);
}

#[test]
fn test_http_request_set_body() {
    let mut req = HttpRequest::new(HttpMethod::POST, "https://example.com");
    req.set_body("initial body".to_string());
    assert_eq!(req.body, Some("initial body".to_string()));

    req.set_body("updated body".to_string());
    assert_eq!(req.body, Some("updated body".to_string()));
}

#[test]
fn test_http_request_empty_body() {
    let req = HttpRequest::new(HttpMethod::GET, "https://example.com");
    assert_eq!(req.body, None);
}

#[test]
fn test_http_request_empty_headers() {
    let req = HttpRequest::new(HttpMethod::GET, "https://example.com");
    assert_eq!(req.headers.len(), 0);
}

#[test]
fn test_request_builder_chaining() {
    let req = HttpRequest::new(HttpMethod::POST, "https://api.example.com/data")
        .with_header("Content-Type", "application/json")
        .with_header("Authorization", "Bearer token123")
        .with_body(r#"{"key": "value"}"#.to_string());

    assert_eq!(req.headers.len(), 2);
    assert!(req.body.is_some());
}

#[test]
fn test_http_request_serde_round_trip_get() {
    let req = HttpRequest::new(HttpMethod::GET, "https://example.com/api")
        .with_header("Accept", "application/json");

    let decoded = restore_request(&save_request(&req)).expect("restoring failed");

    assert_eq!(decoded.method, HttpMethod::GET);
    assert_eq!(&*decoded.url, "https://example.com/api");
    assert_eq!(
        decoded.headers.get("Accept").map(|v| v.as_str()),
        Some("application/json")
    );
    assert_eq!(decoded.body, None);
}

#[test]
fn test_http_request_serde_round_trip_post_with_body() {
    let req = HttpRequest::new(HttpMethod::POST, "https://api.example.com")
        .with_body(r#"{"name":"Alice"}"#.to_string());

    let decoded = restore_request(&save_request(&req)).expect("restoring failed");

    assert_eq!(decoded.method, HttpMethod::POST);
    assert_eq!(decoded.body, Some(r#"{"name":"Alice"}"#.to_string()));
}

#[test]
fn test_http_request_serde_all_methods() {
    for method in [
        HttpMethod::GET,
        HttpMethod::POST,
        HttpMethod::PUT,
        HttpMethod::PATCH,
        HttpMethod::DELETE,
        HttpMethod::HEAD,
        HttpMethod::OPTIONS,
    ] {
        let req = HttpRequest::new(method.clone(), "https://example.com");
        let decoded = restore_request(&save_request(&req)).expect("restoring failed");
        assert_eq!(decoded.method, method);
    }
}

#[test]
fn test_http_request_serde_method_stored_as_string() {
    let req = HttpRequest::new(HttpMethod::DELETE, "https://example.com");
    assert_eq!(save_request(&req).method, "DELETE");
}

#[test]
fn test_http_request_serde_vec_round_trip() {
    let requests = vec![
        HttpRequest::new(HttpMethod::GET, "https://a.example.com"),
        HttpRequest::new(HttpMethod::POST, "https://b.example.com").with_body("data".to_string()),
    ];
    let decoded = restore_all(&save_all(&requests)).expect("restoring failed");

    assert_eq!(decoded.len(), 2);
    assert_eq!(decoded[0].method, HttpMethod::GET);
    assert_eq!(decoded[1].method, HttpMethod::POST);
    assert_eq!(decoded[1].body, Some("data".to_string()));
}

#[test]
fn test_http_response_status_checks() {
    let success_response = HttpResponse {
        status_code: StatusCode::from_u16(200).unwrap(),
        headers: Headers::new(),
        body: "".to_string(),
    };
    assert!(success_response.is_success());
    assert!(!success_response.is_client_error());
    assert!(!success_response.is_server_error());

    let client_error_response = HttpResponse {
        status_code: StatusCode::from_u16(404).unwrap(),
        headers: Headers::new(),
        body: "".to_string(),
    };
    assert!(!client_error_response.is_success());
    assert!(client_error_response.is_client_error());
    assert!(!client_error_response.is_server_error());

    let server_error_response = HttpResponse {
        status_code: StatusCode::from_u16(500).unwrap(),
        headers: Headers::new(),
        body: "".to_string(),
    };
    assert!(!server_error_response.is_success());
    assert!(!server_error_response.is_client_error());
    assert!(server_error_response.is_server_error());
}

#[test]
fn test_http_response_status_boundary_values() {
    let r199 = HttpResponse {
        status_code: StatusCode::from_u16(199).unwrap(),
        headers: Headers::new(),
        body: String::new(),
    };
    assert!(!r199.is_success());

    let r200 = HttpResponse {
        status_code: StatusCode::from_u16(200).unwrap(),
        ..r199.clone()
    };
    assert!(r200.is_success());

    let r299 = HttpResponse {
        status_code: StatusCode::from_u16(299).unwrap(),
        ..r199.clone()
    };
    assert!(r299.is_success());

    let r300 = HttpResponse {
        status_code: StatusCode::from_u16(300).unwrap(),
        ..r199.clone()
    };
    assert!(!r300.is_success());

    let r399 = HttpResponse {
        status_code: StatusCode::from_u16(399).unwrap(),
        ..r199.clone()
    };
    assert!(!r399.is_client_error());

    let r400 = HttpResponse {
        status_code: StatusCode::from_u16(400).unwrap(),
        ..r199.clone()
    };
    assert!(r400.is_client_error());

    let r499 = HttpResponse {
        status_code: StatusCode::from_u16(499).unwrap(),
        ..r199.clone()
    };
    assert!(r499.is_client_error());

    let r500 = HttpResponse {
        status_code: StatusCode::from_u16(500).unwrap(),
        ..r199.clone()
    };
    assert!(!r500.is_client_error());
    assert!(r500.is_server_error());

    let r599 = HttpResponse {
        status_code: StatusCode::from_u16(599).unwrap(),
        ..r199.clone()
    };
    assert!(r599.is_server_error());

    let r600 = HttpResponse {
        status_code: StatusCode::from_u16(600).unwrap(),
        ..r199
    };
    assert!(!r600.is_server_error());
}

#[test]
fn test_http_response_all_status_categories_are_mutually_exclusive_for_common_codes() {
    let codes_and_expected: &[(u16, bool, bool, bool)] = &[
        (200, true, false, false),
        (201, true, false, false),
        (204, true, false, false),
        (301, false, false, false),
        (400, false, true, false),
        (401, false, true, false),
        (403, false, true, false),
        (404, false, true, false),
        (422, false, true, false),
        (500, false, false, true),
        (502, false, false, true),
        (503, false, false, true),
    ];
    for &(status, ok, ce, se) in codes_and_expected {
        let r = HttpResponse {
            status_code: StatusCode::from_u16(status).unwrap(),
            headers: Headers::new(),
            body: String::new(),
        };
        assert_eq!(r.is_success(), ok, "is_success wrong for {status}");
        assert_eq!(
            r.is_client_error(),
            ce,
            "is_client_error wrong for {status}"
        );
        assert_eq!(
            r.is_server_error(),
            se,
            "is_server_error wrong for {status}"
        );
    }
}

#[test]
fn test_invalid_url_error() {
    let error = HttpError::InvalidUrl {
        msg: "not a valid url".to_string(),
        source: None,
    };
    assert!(error.to_string().contains("Invalid URL"));
}

#[test]
fn test_http_error_display_all_variants() {
    assert!(
        (HttpError::InvalidUrl {
            msg: "x".to_string(),
            source: None,
        })
        .to_string()
        .contains("Invalid URL")
    );
    assert!(
        (HttpError::InvalidHeader {
            msg: "y".to_string(),
            source: None,
        })
        .to_string()
        .contains("Invalid header")
    );
    assert!(
        (HttpError::RequestFailed {
            msg: "z".to_string(),
            source: None,
        })
        .to_string()
        .contains("Request failed")
    );
    assert!(
        (HttpError::ResponseParseError {
            msg: "w".to_string(),
            source: None,
        })
        .to_string()
        .contains("Response parse error")
    );
}

#[test]
fn test_http_error_display_includes_message() {
    let msg = "something went wrong";
    let err = HttpError::RequestFailed {
        msg: msg.to_string(),
        source: None,
    };
    assert!(err.to_string().contains(msg));
}

#[test]
fn test_http_error_implements_std_error() {
    let err: Box<dyn std::error::Error> = Box::new(Reported(HttpError::InvalidUrl {
        msg: "bad".to_string(),
        source: None,
    }));
    assert!(err.to_string().contains("Invalid URL"));
}

#[test]
fn test_http_error_source_none() {
    let err = HttpError::InvalidUrl {
        msg: "bad".to_string(),
        source: None,
    };
    assert!(err.source().is_none());
}

#[test]
fn test_http_error_source_some() {
    let inner = "inner error".to_string();
    let err = HttpError::InvalidUrl {
        msg: "bad".to_string(),
        source: Some(Box::new(ErrorSource::new(inner, None))),
    };
    assert!(err.source().is_some());
}

#[test]
fn test_request_event_display_started() {
    assert_eq!(RequestEvent::Started.to_string(), "Request started");
}

#[test]
fn test_request_event_display_resolving_host() {
    let ev = RequestEvent::ResolvingHost("example.com".to_string());
    assert!(ev.to_string().contains("Resolving host"));
    assert!(ev.to_string().contains("example.com"));
}

#[test]
fn test_request_event_display_host_resolved() {
    assert_eq!(RequestEvent::HostResolved.to_string(), "Host resolved");
}

#[test]
fn test_request_event_display_connecting() {
    assert_eq!(RequestEvent::Connecting.to_string(), "Connecting to server");
}

#[test]
fn test_request_event_display_tls_events() {
    assert_eq!(
        RequestEvent::TlsHandshakeStarted.to_string(),
        "Starting TLS handshake"
    );
    assert_eq!(
        RequestEvent::TlsHandshakeComplete.to_string(),
        "TLS handshake complete"
    );
}

#[test]
fn test_request_event_display_sending_and_waiting() {
    assert_eq!(RequestEvent::SendingRequest.to_string(), "Sending request");
    assert_eq!(RequestEvent::RequestSent.to_string(), "Request sent");
    assert_eq!(
        RequestEvent::WaitingForResponse.to_string(),
        "Waiting for response"
    );
    assert_eq!(
        RequestEvent::ReceivingHeaders.to_string(),
        "Receiving headers"
    );
}

#[test]
fn test_request_event_display_headers_received() {
    let ev = RequestEvent::HeadersReceived(200);
    assert!(ev.to_string().contains("200"));
    assert!(ev.to_string().contains("Headers received"));
}

#[test]
fn test_request_event_display_completed() {
    assert_eq!(
        RequestEvent::Completed(25).to_string(),
        "Request completed: 25 total bytes"
    );
}

#[test]
fn test_request_event_display_failed() {
    let ev = RequestEvent::Failed("timeout".to_string());
    assert!(ev.to_string().contains("Request failed"));
    assert!(ev.to_string().contains("timeout"));
}

#[test]
fn test_request_event_display_body_chunk() {
    let ev = RequestEvent::BodyChunk("data".to_string());
    assert_eq!(ev.to_string(), "Body chunk (4 bytes)");
}

#[test]
fn test_request_event_display_temporary_problem() {
    let ev = RequestEvent::TemporaryConnectionProblem("timeout".to_string());
    assert!(ev.to_string().contains("Temporary issue"));
    assert!(ev.to_string().contains("timeout"));
}

#[test]
fn test_header_value_display() {
    let v: HeaderValue = "text/html".into();
    assert_eq!(v.to_string(), "text/html");
}

#[test]
fn test_header_value_borrow() {
    let v: HeaderValue = "application/json".into();
    let borrowed: &str = v.borrow();
    assert_eq!(borrowed, "application/json");
}

#[test]
fn test_jq_filter_display() {
    let f = JqFilter::default();
    assert_eq!(f.to_string(), ".");
}

#[test]
fn test_jq_filter_from_string() {
    let f: JqFilter = ".key".to_string().into();
    assert_eq!(&*f, ".key");
}

#[test]
fn test_jq_filter_from_str() {
    let f: JqFilter = ".key".into();
    assert_eq!(&*f, ".key");
}

#[test]
fn test_regex_pattern_display() {
    let r = RegexPattern::new(r"^\w+:\s*".to_string());
    assert_eq!(r.to_string(), r"^\w+:\s*");
}

#[test]
fn test_regex_pattern_deref() {
    let r = RegexPattern::new(r"\d+".to_string());
    assert_eq!(&*r, r"\d+");
}

#[test]
fn test_regex_pattern_partial_eq() {
    let a = RegexPattern::new(r"^data:".to_string());
    let b = RegexPattern::new(r"^data:".to_string());
    let c = RegexPattern::new(r"^event:".to_string());
    assert_eq!(a, b);
    assert_ne!(a, c);
}

#[test]
fn test_regex_pattern_from_string() {
    let r: RegexPattern = r"^\w+:\s*".to_string().into();
    assert_eq!(r.pattern(), r"^\w+:\s*");
    assert!(r.compiled().is_some());
}

#[test]
fn test_regex_pattern_from_str() {
    let r: RegexPattern = r"\d+".into();
    assert_eq!(r.pattern(), r"\d+");
    assert!(r.compiled().is_some());
}

#[test]
fn test_fail_creates_error_and_sends_event() {
    let mut events = Vec::new();
    let err = fail(&mut events, "bad url".to_string(), None, ErrorKind::InvalidUrl);
    assert!(matches!(err, HttpError::InvalidUrl { .. }));
    assert!(err.to_string().contains("bad url"));

    assert_eq!(events.len(), 1);
    assert!(matches!(events[0], RequestEvent::Failed(_)));
}

#[test]
fn test_fail_with_source() {
    let inner = ErrorSource::new("inner error".to_string(), None);
    let err = fail(
        &mut Vec::new(),
        "outer".to_string(),
        Some(Box::new(inner)),
        ErrorKind::RequestFailed,
    );
    if let HttpError::RequestFailed { source, .. } = err {
        assert!(source.is_some());
    } else {
        panic!("expected RequestFailed");
    }
}

#[test]
fn test_default_jq_filter_helper() {
    let f = default_jq_filter();
    assert_eq!(&*f, ".");
    assert!(is_default_jq_filter(&f));
}

#[test]
fn test_is_default_jq_filter_false() {
    let f: JqFilter = ".key".into();
    assert!(!is_default_jq_filter(&f));
}

#[test]
fn test_default_prefix_regex_helper() {
    let r = default_prefix_regex();
    assert_eq!(r.pattern(), r"^\w+:\s*");
    assert!(is_default_prefix_regex(&r));
}

#[test]
fn test_is_default_prefix_regex_false() {
    let r = RegexPattern::new(r"^custom:".to_string());
    assert!(!is_default_prefix_regex(&r));
}

#[test]
fn test_default_suffix_regex_helper() {
    let r = default_suffix_regex();
    assert_eq!(r.pattern(), r"\s*$");
    assert!(is_default_suffix_regex(&r));
}

#[test]
fn test_is_default_suffix_regex_false() {
    let r = RegexPattern::new(r"###".to_string());
    assert!(!is_default_suffix_regex(&r));
}

#[test]
fn test_url_string_into_string() {
    let u = UrlString::new("https://example.com".to_string());
    let s: String = u.into();
    assert_eq!(s, "https://example.com");
}

#[test]
fn test_jq_filter_new() {
    let f = JqFilter::new("select(.key)".to_string());
    assert_eq!(&*f, "select(.key)");
}

#[test]
fn test_error_source_clone_preserves_message() {
    let source = ErrorSource::new("original msg".to_string(), None);
    let cloned = source.clone();
    assert!(cloned.to_string().contains("original msg"));
}

#[test]
fn test_error_source_source_returns_none_for_io_error() {
    let source = ErrorSource::new("test".to_string(), None);
    assert!(source.source().is_none());
}

#[test]
fn test_error_source_display() {
    let source = ErrorSource::new("display me".to_string(), None);
    assert_eq!(source.to_string(), "display me");
}

#[test]
fn test_regex_pattern_serde_custom_pattern_round_trip() {
    let mut req = HttpRequest::new(HttpMethod::GET, "https://example.com");
    req.stream_prefix_regex = RegexPattern::new(r"^custom:\s*".to_string());
    req.stream_suffix_regex = RegexPattern::new(r"END$".to_string());

    let saved = save_request(&req);
    assert_eq!(saved.stream_prefix_regex.as_deref(), Some(r"^custom:\s*"));
    assert_eq!(saved.stream_suffix_regex.as_deref(), Some(r"END$"));

    let decoded = restore_request(&saved).expect("restoring failed");
    assert_eq!(decoded.stream_prefix_regex.pattern(), r"^custom:\s*");
    assert_eq!(decoded.stream_suffix_regex.pattern(), r"END$");
    assert!(decoded.stream_prefix_regex.compiled().is_some());
    assert!(decoded.stream_suffix_regex.compiled().is_some());
}
