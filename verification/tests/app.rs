use imhottep::app::{
    App, AutocompleteState, CurrentScreen, EditingField, FocusableField, HeaderField,
    PerRequestState, ResponseViewMode,
};
use imhottep::editing::{word_boundary_after, word_boundary_before};
use imhottep::headers::Headers;
use imhottep::http_client::{
    HttpError, HttpMethod, HttpRequest, HttpResponse, JqFilter, RegexPattern, RequestEvent,
    StatusCode,
};
use imhottep::storage::{restore_all, save_all};
use imhottep::streaming::strip_line;
use imhottep::suggestions::fuzzy_match;
use tokio::sync::{mpsc, oneshot};

fn app_with_requests(requests: Vec<HttpRequest>) -> App {
    App::new(requests)
}

fn make_get(url: &str) -> HttpRequest {
    HttpRequest::new(HttpMethod::GET, url)
}

fn make_response(status: u16, body: &str) -> HttpResponse {
    HttpResponse {
        status_code: StatusCode::from_u16(status).unwrap(),
        headers: Headers::new(),
        body: body.to_string(),
    }
}

#[test]
fn test_response_view_mode_labels() {
    assert_eq!(ResponseViewMode::Text.label(), "text");
    assert_eq!(ResponseViewMode::Json.label(), "json");
}

#[test]
fn test_create_new_request_on_empty_list() {
    let mut app = app_with_requests(vec![]);
    assert_eq!(app.requests.len(), 0);
    assert_eq!(app.current_request_index, None);

    app.create_new_request();

    assert_eq!(app.requests.len(), 1);
    assert_eq!(app.current_request_index, Some(0));
    assert_eq!(app.requests[0].method, HttpMethod::GET);
    assert_eq!(&*app.requests[0].url, "https://");
}

#[test]
fn test_create_new_request_appends_and_selects() {
    let mut app = app_with_requests(vec![make_get("https://a.com")]);
    app.create_new_request();
    assert_eq!(app.requests.len(), 2);
    assert_eq!(app.current_request_index, Some(1));
}

#[test]
fn test_delete_only_request_clears_index() {
    let mut app = app_with_requests(vec![make_get("https://only.com")]);
    app.delete_current_request();
    assert!(app.requests.is_empty());
    assert_eq!(app.current_request_index, None);
}

#[test]
fn test_delete_first_of_two_keeps_index_at_0() {
    let mut app = app_with_requests(vec![
        make_get("https://first.com"),
        make_get("https://second.com"),
    ]);
    app.current_request_index = Some(0);
    app.delete_current_request();
    assert_eq!(app.requests.len(), 1);
    assert_eq!(app.current_request_index, Some(0));
    assert_eq!(&*app.requests[0].url, "https://second.com");
}

#[test]
fn test_delete_last_of_two_adjusts_index() {
    let mut app = app_with_requests(vec![
        make_get("https://first.com"),
        make_get("https://second.com"),
    ]);
    app.current_request_index = Some(1);
    app.delete_current_request();
    assert_eq!(app.requests.len(), 1);
    assert_eq!(app.current_request_index, Some(0));
}

#[test]
fn test_delete_with_no_selection_is_noop() {
    let mut app = app_with_requests(vec![make_get("https://a.com")]);
    app.current_request_index = None;
    app.delete_current_request();
    assert_eq!(app.requests.len(), 1);
}

#[test]
fn test_select_next_request() {
    let mut app = app_with_requests(vec![
        make_get("https://a.com"),
        make_get("https://b.com"),
        make_get("https://c.com"),
    ]);
    app.current_request_index = Some(0);

    app.select_next_request();
    assert_eq!(app.current_request_index, Some(1));

    app.select_next_request();
    assert_eq!(app.current_request_index, Some(2));

    // At last item — should not advance
    app.select_next_request();
    assert_eq!(app.current_request_index, Some(2));
}

#[test]
fn test_select_previous_request() {
    let mut app = app_with_requests(vec![make_get("https://a.com"), make_get("https://b.com")]);
    app.current_request_index = Some(1);

    app.select_previous_request();
    assert_eq!(app.current_request_index, Some(0));

    // Already at first — should not go negative
    app.select_previous_request();
    assert_eq!(app.current_request_index, Some(0));
}

#[test]
fn test_select_next_on_empty_list_is_noop() {
    let mut app = app_with_requests(vec![]);
    app.select_next_request();
    assert_eq!(app.current_request_index, None);
}

#[test]
fn test_select_previous_on_empty_list_is_noop() {
    let mut app = app_with_requests(vec![]);
    app.select_previous_request();
    assert_eq!(app.current_request_index, None);
}

#[test]
fn test_get_current_request_none_when_no_selection() {
    let app = app_with_requests(vec![]);
    assert!(app.get_current_request().is_none());
}

#[test]
fn test_get_current_request_returns_correct_item() {
    let app = app_with_requests(vec![
        make_get("https://first.com"),
        make_get("https://second.com"),
    ]);
    // index 0 is selected by default in app_with_requests
    assert_eq!(
        &*app.get_current_request().unwrap().url,
        "https://first.com"
    );
}

#[test]
fn test_toggle_method_full_cycle() {
    let mut app = app_with_requests(vec![make_get("https://a.com")]);
    let expected_cycle = [
        HttpMethod::POST,
        HttpMethod::PUT,
        HttpMethod::PATCH,
        HttpMethod::DELETE,
        HttpMethod::HEAD,
        HttpMethod::OPTIONS,
        HttpMethod::GET, // wraps back
    ];
    for expected in &expected_cycle {
        app.toggle_method();
        assert_eq!(
            app.get_current_request().unwrap().method,
            *expected,
            "expected method {} after toggle",
            expected.to_string()
        );
    }
}

#[test]
fn test_toggle_method_no_request_is_noop() {
    let mut app = app_with_requests(vec![]);
    // Must not panic
    app.toggle_method();
}

#[test]
fn test_focus_next_field_full_cycle() {
    let mut app = app_with_requests(vec![make_get("https://a.com")]);
    app.focused_field = FocusableField::Url;

    let expected = [
        FocusableField::Headers,
        FocusableField::Body,
        FocusableField::Response,
        FocusableField::RequestEvents,
        FocusableField::Url, // wraps back
    ];
    for &field in &expected {
        app.focus_next_field();
        assert_eq!(app.focused_field, field);
    }
}

#[test]
fn test_focus_previous_field_full_cycle() {
    let mut app = app_with_requests(vec![make_get("https://a.com")]);
    app.focused_field = FocusableField::Url;

    let expected = [
        FocusableField::RequestEvents,
        FocusableField::Response,
        FocusableField::Body,
        FocusableField::Headers,
        FocusableField::Url, // wraps back
    ];
    for &field in &expected {
        app.focus_previous_field();
        assert_eq!(app.focused_field, field);
    }
}

#[test]
fn test_edit_focused_url_populates_input_buffer() {
    let mut app = app_with_requests(vec![make_get("https://edit.me")]);
    app.focused_field = FocusableField::Url;
    app.edit_focused_field();
    assert_eq!(app.editing_field, Some(EditingField::Url));
    assert_eq!(app.input_buffer, "https://edit.me");
}

#[test]
fn test_edit_focused_body_populates_input_buffer() {
    let req = HttpRequest::new(HttpMethod::POST, "https://a.com".to_string())
        .with_body("body content".to_string());
    let mut app = app_with_requests(vec![req]);
    app.focused_field = FocusableField::Body;
    app.edit_focused_field();
    assert_eq!(app.editing_field, Some(EditingField::Body));
    assert_eq!(app.input_buffer, "body content");
}

#[test]
fn test_edit_focused_headers_clears_buffers_and_opens_autocomplete() {
    let mut app = app_with_requests(vec![make_get("https://a.com")]);
    app.focused_field = FocusableField::Headers;
    app.header_key_buffer = "leftover".to_string();
    app.edit_focused_field();
    assert_eq!(app.editing_field, Some(EditingField::Headers));
    assert_eq!(app.header_key_buffer, "");
    assert_eq!(app.header_value_buffer, "");
    assert!(app.header_autocomplete.is_some());
    assert_eq!(app.header_autocomplete.as_ref().unwrap().selected, 0);
}

#[test]
fn test_edit_focused_response_is_noop() {
    let mut app = app_with_requests(vec![make_get("https://a.com")]);
    app.focused_field = FocusableField::Response;
    app.edit_focused_field();
    assert_eq!(app.editing_field, None);
}

#[test]
fn test_edit_focused_events_is_noop() {
    let mut app = app_with_requests(vec![make_get("https://a.com")]);
    app.focused_field = FocusableField::RequestEvents;
    app.edit_focused_field();
    assert_eq!(app.editing_field, None);
}

#[test]
fn test_scroll_down_increments_focused_field() {
    let mut app = app_with_requests(vec![make_get("https://a.com")]);
    app.focused_field = FocusableField::Body;
    app.scroll_down(1);
    assert_eq!(app.body_scroll, 1);
    app.scroll_down(2);
    assert_eq!(app.body_scroll, 3);
}

#[test]
fn test_scroll_up_decrements_and_saturates_at_zero() {
    let mut app = app_with_requests(vec![make_get("https://a.com")]);
    app.focused_field = FocusableField::Response;
    app.response_scroll = 3;
    app.scroll_up(1);
    assert_eq!(app.response_scroll, 2);
    app.scroll_up(2);
    assert_eq!(app.response_scroll, 0);
    // Saturating — must not underflow
    app.scroll_up(1);
    assert_eq!(app.response_scroll, 0);
}

#[test]
fn test_scroll_url_field_is_noop() {
    let mut app = app_with_requests(vec![make_get("https://a.com")]);
    app.focused_field = FocusableField::Url;
    app.scroll_down(1);
    app.scroll_up(1);
    // No scroll state for Url — nothing to assert except no panic
}

#[test]
fn test_scroll_per_field_independence() {
    let mut app = app_with_requests(vec![make_get("https://a.com")]);

    app.focused_field = FocusableField::Body;
    app.scroll_down(2);

    app.focused_field = FocusableField::RequestEvents;
    app.scroll_down(1);

    app.focused_field = FocusableField::Response;
    app.scroll_down(3);

    assert_eq!(app.body_scroll, 2);
    assert_eq!(app.events_scroll, 1);
    assert_eq!(app.response_scroll, 3);
    assert_eq!(app.headers_scroll, 0); // untouched
}

#[test]
fn test_reset_request_screen_state() {
    let mut app = app_with_requests(vec![make_get("https://a.com")]);
    app.editing_field = Some(EditingField::Url);
    app.input_buffer = "something".to_string();
    app.header_key_buffer = "key".to_string();
    app.header_value_buffer = "val".to_string();
    app.focused_field = FocusableField::Body;
    app.headers_scroll = 5;
    app.body_scroll = 3;
    app.events_scroll = 2;
    app.response_scroll = 7;
    app.header_autocomplete = Some(AutocompleteState { selected: 4 });

    app.reset_request_screen_state();

    assert_eq!(app.editing_field, None);
    assert_eq!(app.input_buffer, "");
    assert_eq!(app.header_key_buffer, "");
    assert_eq!(app.header_value_buffer, "");
    assert_eq!(app.focused_field, FocusableField::Url);
    assert_eq!(app.headers_scroll, 0);
    assert_eq!(app.body_scroll, 0);
    assert_eq!(app.events_scroll, 0);
    assert_eq!(app.response_scroll, 0);
    assert!(app.header_autocomplete.is_none());
}

#[test]
fn test_select_next_header_wraps() {
    let req = HttpRequest::new(HttpMethod::GET, "https://a.com".to_string())
        .with_header("A".to_string(), "1".to_string())
        .with_header("B".to_string(), "2".to_string());
    let mut app = app_with_requests(vec![req]);
    app.selected_header_index = 0;

    app.select_next_header();
    assert_eq!(app.selected_header_index, 1);

    app.select_next_header();
    assert_eq!(app.selected_header_index, 0); // wrapped
}

#[test]
fn test_select_previous_header_wraps() {
    let req = HttpRequest::new(HttpMethod::GET, "https://a.com".to_string())
        .with_header("A".to_string(), "1".to_string())
        .with_header("B".to_string(), "2".to_string());
    let mut app = app_with_requests(vec![req]);
    app.selected_header_index = 0;

    app.select_previous_header();
    assert_eq!(app.selected_header_index, 1); // wrapped to end
}

#[test]
fn test_select_next_header_no_headers_is_noop() {
    let mut app = app_with_requests(vec![make_get("https://a.com")]);
    app.selected_header_index = 0;
    app.select_next_header();
    assert_eq!(app.selected_header_index, 0);
}

#[test]
fn test_delete_selected_header_removes_correct_header() {
    let req = HttpRequest::new(HttpMethod::GET, "https://a.com".to_string())
        .with_header("First".to_string(), "1".to_string())
        .with_header("Second".to_string(), "2".to_string());
    let mut app = app_with_requests(vec![req]);
    app.selected_header_index = 0;
    app.delete_selected_header();
    let remaining = &app.requests[0].headers;
    assert_eq!(remaining.len(), 1);
    assert!(!remaining.contains_key("First") || !remaining.contains_key("Second"));
}

#[test]
fn test_get_filtered_header_suggestions_empty_query_returns_all() {
    let mut app = app_with_requests(vec![make_get("https://a.com")]);
    app.header_field = HeaderField::Key;
    app.header_key_buffer = String::new();
    let suggestions = app.get_filtered_header_suggestions();
    // There are 76 standard headers — just verify we get a non-empty full list
    assert!(!suggestions.is_empty());
    assert!(suggestions.len() > 50);
}

#[test]
fn test_get_filtered_header_suggestions_filters_by_prefix() {
    let mut app = app_with_requests(vec![make_get("https://a.com")]);
    app.header_field = HeaderField::Key;
    app.header_key_buffer = "content".to_string();
    let suggestions = app.get_filtered_header_suggestions();
    assert!(!suggestions.is_empty());
    for s in &suggestions {
        assert!(
            s.to_lowercase().contains('c'),
            "expected 'content' match in: {s}"
        );
    }
    // All content-* headers should appear
    assert!(suggestions.iter().any(|s| *s == "content-type"));
    assert!(suggestions.iter().any(|s| *s == "content-length"));
}

#[test]
fn test_get_filtered_header_suggestions_empty_when_not_editing_key() {
    let mut app = app_with_requests(vec![make_get("https://a.com")]);
    app.header_field = HeaderField::Value;
    app.header_key_buffer = "content".to_string();
    let suggestions = app.get_filtered_header_suggestions();
    assert!(suggestions.is_empty());
}

#[test]
fn test_get_filtered_header_suggestions_sorted_prefix_first() {
    let mut app = app_with_requests(vec![make_get("https://a.com")]);
    app.header_field = HeaderField::Key;
    app.header_key_buffer = "con".to_string();
    let suggestions = app.get_filtered_header_suggestions();
    // The first suggestions should start with "con"
    if let Some(first) = suggestions.first() {
        assert!(
            first.to_lowercase().starts_with("con"),
            "expected prefix-match first, got: {first}"
        );
    }
}

#[test]
fn test_get_filtered_header_suggestions_no_match_returns_empty() {
    let mut app = app_with_requests(vec![make_get("https://a.com")]);
    app.header_field = HeaderField::Key;
    app.header_key_buffer = "zzzzzzzzzz".to_string();
    let suggestions = app.get_filtered_header_suggestions();
    assert!(suggestions.is_empty());
}

#[test]
fn test_select_next_autocomplete_increments() {
    let mut app = app_with_requests(vec![make_get("https://a.com")]);
    app.header_autocomplete = Some(AutocompleteState { selected: 0 });
    app.select_next_autocomplete(5);
    assert_eq!(app.header_autocomplete.as_ref().unwrap().selected, 1);
}

#[test]
fn test_select_next_autocomplete_does_not_exceed_max() {
    let mut app = app_with_requests(vec![make_get("https://a.com")]);
    app.header_autocomplete = Some(AutocompleteState { selected: 4 });
    app.select_next_autocomplete(5);
    assert_eq!(app.header_autocomplete.as_ref().unwrap().selected, 4);
}

#[test]
fn test_select_previous_autocomplete_decrements() {
    let mut app = app_with_requests(vec![make_get("https://a.com")]);
    app.header_autocomplete = Some(AutocompleteState { selected: 3 });
    app.select_previous_autocomplete();
    assert_eq!(app.header_autocomplete.as_ref().unwrap().selected, 2);
}

#[test]
fn test_select_previous_autocomplete_does_not_underflow() {
    let mut app = app_with_requests(vec![make_get("https://a.com")]);
    app.header_autocomplete = Some(AutocompleteState { selected: 0 });
    app.select_previous_autocomplete();
    assert_eq!(app.header_autocomplete.as_ref().unwrap().selected, 0);
}

#[test]
fn test_apply_autocomplete_selection_sets_key_and_hides() {
    let mut app = app_with_requests(vec![make_get("https://a.com")]);
    app.header_autocomplete = Some(AutocompleteState { selected: 1 });
    let suggestions = &["content-type", "content-length", "authorization"];
    app.apply_autocomplete_selection(suggestions);
    assert_eq!(app.header_key_buffer, "content-length");
    assert_eq!(app.header_field, HeaderField::Value);
    assert!(app.header_autocomplete.is_none());
}

#[test]
fn test_apply_autocomplete_selection_out_of_bounds_is_noop() {
    let mut app = app_with_requests(vec![make_get("https://a.com")]);
    app.header_autocomplete = Some(AutocompleteState { selected: 99 });
    app.header_key_buffer = "original".to_string();
    let suggestions = &["accept"];
    app.apply_autocomplete_selection(suggestions);
    // Index 99 is out of bounds for a 1-element slice
    assert_eq!(app.header_key_buffer, "original");
}

#[test]
fn test_is_response_json_true_for_json_body() {
    let mut app = app_with_requests(vec![make_get("https://a.com")]);
    app.per_request
        .entry(0)
        .or_insert_with(PerRequestState::new)
        .last_response = Some(Ok(make_response(200, r#"{"key":"value"}"#)));
    assert!(app.is_response_json());
}

#[test]
fn test_is_response_json_false_for_plain_text() {
    let mut app = app_with_requests(vec![make_get("https://a.com")]);
    app.per_request
        .entry(0)
        .or_insert_with(PerRequestState::new)
        .last_response = Some(Ok(make_response(200, "plain text response")));
    assert!(!app.is_response_json());
}

#[test]
fn test_is_response_json_false_when_no_response() {
    let app = app_with_requests(vec![make_get("https://a.com")]);
    assert!(!app.is_response_json());
}

#[test]
fn test_is_response_json_false_on_error_response() {
    let mut app = app_with_requests(vec![make_get("https://a.com")]);
    app.per_request
        .entry(0)
        .or_insert_with(PerRequestState::new)
        .last_response = Some(Err(HttpError::RequestFailed {
        msg: "request failed".to_string(),
        source: None,
    }));
    assert!(!app.is_response_json());
}

#[test]
fn test_cycle_response_view_mode_text_to_json_when_json_available() {
    let mut app = app_with_requests(vec![make_get("https://a.com")]);
    app.per_request
        .entry(0)
        .or_insert_with(PerRequestState::new)
        .last_response = Some(Ok(make_response(200, r#"{"ok":true}"#)));
    app.response_view_mode = ResponseViewMode::Text;
    app.cycle_response_view_mode();
    assert_eq!(app.response_view_mode, ResponseViewMode::Json);
}

#[test]
fn test_cycle_response_view_mode_stays_text_when_not_json() {
    let mut app = app_with_requests(vec![make_get("https://a.com")]);
    app.per_request
        .entry(0)
        .or_insert_with(PerRequestState::new)
        .last_response = Some(Ok(make_response(200, "not json")));
    app.response_view_mode = ResponseViewMode::Text;
    app.cycle_response_view_mode();
    assert_eq!(app.response_view_mode, ResponseViewMode::Text);
}

#[test]
fn test_cycle_response_view_mode_json_to_text() {
    let mut app = app_with_requests(vec![make_get("https://a.com")]);
    app.per_request
        .entry(0)
        .or_insert_with(PerRequestState::new)
        .last_response = Some(Ok(make_response(200, r#"{"ok":true}"#)));
    app.response_view_mode = ResponseViewMode::Json;
    app.cycle_response_view_mode();
    assert_eq!(app.response_view_mode, ResponseViewMode::Text);
}

#[test]
fn test_check_for_events_drains_channel() {
    let mut app = app_with_requests(vec![make_get("https://a.com")]);
    let (tx, rx) = mpsc::unbounded_channel();
    app.event_receiver = Some(rx);
    app.pending_request_index = Some(0);

    tx.send(RequestEvent::Started).unwrap();
    tx.send(RequestEvent::Completed(20))
        .unwrap();

    let received = app.check_for_events();
    assert!(received);
    let events = app.current_request_events();
    assert_eq!(events.len(), 2);
    assert!(events[0].contains("started") || events[0].contains("Request"));
}

#[test]
fn test_check_for_events_returns_false_when_empty() {
    let mut app = app_with_requests(vec![make_get("https://a.com")]);
    let (_tx, rx) = mpsc::unbounded_channel::<RequestEvent>();
    app.event_receiver = Some(rx);

    let received = app.check_for_events();
    assert!(!received);
    assert!(app.current_request_events().is_empty());
}

#[test]
fn test_check_for_events_returns_false_with_no_receiver() {
    let mut app = app_with_requests(vec![make_get("https://a.com")]);
    app.event_receiver = None;
    let received = app.check_for_events();
    assert!(!received);
}

#[test]
fn test_check_pending_response_moves_result_to_last_response() {
    let mut app = app_with_requests(vec![make_get("https://a.com")]);
    let (tx, rx) = oneshot::channel::<Result<HttpResponse, HttpError>>();
    app.pending_response = Some(rx);
    app.pending_request_index = Some(0);

    // Send the response before polling
    tx.send(Ok(make_response(200, "hello"))).unwrap();
    app.check_pending_response();

    assert!(app.current_last_response().is_some());
    assert!(app.pending_response.is_none());
    if let Some(Ok(resp)) = app.current_last_response() {
        assert_eq!(resp.status_code.as_u16(), 200);
        assert_eq!(resp.body, "hello");
    } else {
        panic!("expected Ok response");
    }
}

#[test]
fn test_check_pending_response_closed_channel_becomes_error() {
    let mut app = app_with_requests(vec![make_get("https://a.com")]);
    let (tx, rx) = oneshot::channel::<Result<HttpResponse, HttpError>>();
    app.pending_response = Some(rx);
    app.pending_request_index = Some(0);

    drop(tx); // close without sending
    app.check_pending_response();

    assert!(app.pending_response.is_none());
    assert!(matches!(app.current_last_response(), Some(Err(_))));
}

#[test]
fn test_check_pending_response_empty_channel_keeps_pending() {
    let mut app = app_with_requests(vec![make_get("https://a.com")]);
    let (_tx, rx) = oneshot::channel::<Result<HttpResponse, HttpError>>();
    app.pending_response = Some(rx);
    app.pending_request_index = Some(0);

    app.check_pending_response();

    // Still pending, nothing received yet
    assert!(app.pending_response.is_some());
    assert!(app.current_last_response().is_none());
}

#[test]
fn test_save_and_load_requests_round_trip() {
    let requests = vec![
        HttpRequest::new(HttpMethod::GET, "https://save-test.com".to_string()),
        HttpRequest::new(HttpMethod::POST, "https://post-test.com".to_string())
            .with_body("payload".to_string()),
    ];

    let loaded = restore_all(&save_all(&requests)).expect("load failed");

    assert_eq!(loaded.len(), 2);
    assert_eq!(loaded[0].method, HttpMethod::GET);
    assert_eq!(&*loaded[0].url, "https://save-test.com");
    assert_eq!(loaded[1].method, HttpMethod::POST);
    assert_eq!(loaded[1].body, Some("payload".to_string()));
}

#[test]
fn test_fuzzy_match_via_suggestions_subsequence() {
    // "ct" should match "content-type" (c…t subsequence)
    let mut app = app_with_requests(vec![make_get("https://a.com")]);
    app.header_field = HeaderField::Key;
    app.header_key_buffer = "ct".to_string();
    let suggestions = app.get_filtered_header_suggestions();
    assert!(
        suggestions.iter().any(|s| *s == "content-type"),
        "expected content-type in fuzzy results for 'ct'"
    );
}

#[test]
fn test_fuzzy_match_via_suggestions_no_match() {
    let mut app = app_with_requests(vec![make_get("https://a.com")]);
    app.header_field = HeaderField::Key;
    app.header_key_buffer = "xyz_not_a_header_xyz".to_string();
    let suggestions = app.get_filtered_header_suggestions();
    assert!(suggestions.is_empty());
}

#[test]
fn test_fuzzy_match_exact_match() {
    assert!(fuzzy_match("content-type", "content-type"));
}

#[test]
fn test_fuzzy_match_subsequence() {
    assert!(fuzzy_match("ct", "content-type"));
}

#[test]
fn test_fuzzy_match_case_sensitive() {
    // fuzzy_match is case-sensitive by design
    assert!(!fuzzy_match("CONTENT", "content-type"));
}

#[test]
fn test_fuzzy_match_no_match() {
    assert!(!fuzzy_match("xyz", "content-type"));
}

#[test]
fn test_fuzzy_match_empty_query_matches_anything() {
    assert!(fuzzy_match("", "anything"));
}

#[test]
fn test_word_boundary_before_from_zero() {
    assert_eq!(word_boundary_before("hello world", 0), 0);
}

#[test]
fn test_word_boundary_before_jumps_to_word_start() {
    // "hello world" — cursor at 6 (space), before should be at 0 ("hello" start)
    assert_eq!(word_boundary_before("hello world", 6), 0);
}

#[test]
fn test_word_boundary_before_in_middle_of_word() {
    // cursor at 3 ("l" in "hello") — before should be at 0
    assert_eq!(word_boundary_before("hello world", 3), 0);
}

#[test]
fn test_word_boundary_before_non_alnum() {
    // "abc://def" — cursor at 6 ("/" in "://"), before should skip "://" to 3 ("abc" end)
    assert_eq!(word_boundary_before("abc://def", 6), 3);
}

#[test]
fn test_word_boundary_before_skip_leading_whitespace() {
    // "  hello" — cursor at 6 (after "hello"), should skip whitespace to "hello" start at 2
    assert_eq!(word_boundary_before("  hello", 6), 2);
}

#[test]
fn test_word_boundary_before_already_at_start_of_word() {
    // cursor at 6, right at "world" start
    assert_eq!(word_boundary_before("hello world", 6), 0);
}

#[test]
fn test_word_boundary_after_from_end() {
    assert_eq!(word_boundary_after("hello world", 11), 11);
}

#[test]
fn test_word_boundary_after_jumps_to_next_word() {
    // cursor at 0 ("h" in "hello") — after should be at 5 (end of "hello")
    assert_eq!(word_boundary_after("hello world", 0), 5);
}

#[test]
fn test_word_boundary_after_in_middle_of_word() {
    // cursor at 2 ("l" in "hello") — after should be at 5
    assert_eq!(word_boundary_after("hello world", 2), 5);
}

#[test]
fn test_word_boundary_after_non_alnum() {
    // "abc://def" — cursor at 3 ('c'), after should jump to index 6 (start of "def")
    assert_eq!(word_boundary_after("abc://def", 3), 6);
}

#[test]
fn test_word_boundary_after_skip_whitespace() {
    // cursor at 5 (space), after should skip to "world" end at 11
    assert_eq!(word_boundary_after("hello world", 5), 11);
}

#[test]
fn test_strip_line_with_prefix_suffix() {
    let prefix = RegexPattern::new(r"^\w+:\s*".to_string());
    let suffix = RegexPattern::new(r"\s*$".to_string());
    let result = strip_line("data: {\"key\": \"value\"}  ", &Some(prefix), &Some(suffix));
    assert_eq!(result.unwrap(), r#"{"key": "value"}"#);
}

#[test]
fn test_strip_line_prefix_only() {
    let prefix = RegexPattern::new(r"^event:\s*".to_string());
    let suffix = RegexPattern::new(r"^$".to_string());
    let result = strip_line("event: update", &Some(prefix), &Some(suffix));
    assert_eq!(result.unwrap(), "update");
}

#[test]
fn test_strip_line_no_change() {
    let prefix = RegexPattern::new(r"^$".to_string());
    let suffix = RegexPattern::new(r"^$".to_string());
    let result = strip_line("plain line", &Some(prefix), &Some(suffix));
    assert_eq!(result.unwrap(), "plain line");
}

#[test]
fn test_strip_line_no_regex_available_with_some() {
    let prefix = RegexPattern::new(r"[invalid".to_string());
    let noop_suffix = RegexPattern::new(r"^$".to_string());
    let result = strip_line("test", &Some(prefix), &Some(noop_suffix));
    assert!(result.is_err());
    assert!(result.unwrap_err().contains("Invalid prefix regex"));
}

#[test]
fn test_current_request_is_pending_true() {
    let mut app = app_with_requests(vec![make_get("https://a.com")]);
    let (_tx, rx) = oneshot::channel::<Result<HttpResponse, HttpError>>();
    app.pending_response = Some(rx);
    app.pending_request_index = Some(0);
    assert!(app.current_request_is_pending());
}

#[test]
fn test_current_request_is_pending_false_no_request() {
    let app = app_with_requests(vec![]);
    assert!(!app.current_request_is_pending());
}

#[test]
fn test_current_request_is_pending_false_no_pending() {
    let app = app_with_requests(vec![make_get("https://a.com")]);
    assert!(!app.current_request_is_pending());
}

#[test]
fn test_current_request_is_pending_false_mismatched_index() {
    let mut app = app_with_requests(vec![make_get("https://a.com"), make_get("https://b.com")]);
    let (_tx, rx) = oneshot::channel::<Result<HttpResponse, HttpError>>();
    app.pending_response = Some(rx);
    app.pending_request_index = Some(1); // different from current (0)
    assert!(!app.current_request_is_pending());
}

#[test]
fn test_current_jq_filter_default() {
    let app = app_with_requests(vec![make_get("https://a.com")]);
    assert_eq!(app.current_jq_filter(), ".");
}

#[test]
fn test_current_jq_filter_custom() {
    let mut req = make_get("https://a.com");
    req.jq_filter = JqFilter::from(".key");
    let app = app_with_requests(vec![req]);
    assert_eq!(app.current_jq_filter(), ".key");
}

#[test]
fn test_current_jq_filter_no_request() {
    let app = app_with_requests(vec![]);
    assert_eq!(app.current_jq_filter(), ".");
}

#[test]
fn test_current_stream_prefix_regex_default() {
    let app = app_with_requests(vec![make_get("https://a.com")]);
    assert_eq!(app.current_stream_prefix_regex(), r"^\w+:\s*");
}

#[test]
fn test_current_stream_prefix_regex_no_request() {
    let app = app_with_requests(vec![]);
    assert_eq!(app.current_stream_prefix_regex(), r"^\w+:\s*");
}

#[test]
fn test_current_stream_suffix_regex_default() {
    let app = app_with_requests(vec![make_get("https://a.com")]);
    assert_eq!(app.current_stream_suffix_regex(), r"\s*$");
}

#[test]
fn test_current_stream_suffix_regex_no_request() {
    let app = app_with_requests(vec![]);
    assert_eq!(app.current_stream_suffix_regex(), r"\s*$");
}

#[test]
fn test_current_streamed_body_returns_body() {
    let mut app = app_with_requests(vec![make_get("https://a.com")]);
    app.per_request
        .entry(0)
        .or_insert_with(PerRequestState::new)
        .streamed_body = "response body".to_string();
    assert_eq!(app.current_streamed_body(), "response body");
}

#[test]
fn test_current_streamed_body_no_request() {
    let app = app_with_requests(vec![]);
    assert_eq!(app.current_streamed_body(), "");
}

#[test]
fn test_current_streamed_body_no_state() {
    let app = app_with_requests(vec![make_get("https://a.com")]);
    assert_eq!(app.current_streamed_body(), "");
}

#[test]
fn test_scroll_headers_independence() {
    let mut app = app_with_requests(vec![make_get("https://a.com")]);
    app.focused_field = FocusableField::Headers;
    app.scroll_down(5);
    assert_eq!(app.headers_scroll, 5);
    app.scroll_up(2);
    assert_eq!(app.headers_scroll, 3);
}

#[test]
fn test_scroll_events_independence() {
    let mut app = app_with_requests(vec![make_get("https://a.com")]);
    app.focused_field = FocusableField::RequestEvents;
    app.scroll_down(7);
    assert_eq!(app.events_scroll, 7);
    app.scroll_up(3);
    assert_eq!(app.events_scroll, 4);
}

#[test]
fn test_key_context_main_screen() {
    let app = app_with_requests(vec![make_get("https://a.com")]);
    let ctx = app.key_context();
    assert_eq!(ctx.screen, CurrentScreen::Main);
    assert_eq!(ctx.editing, None);
    assert_eq!(ctx.focus, FocusableField::Url);
}

#[test]
fn test_key_context_request_screen_editing_url() {
    let mut app = app_with_requests(vec![make_get("https://a.com")]);
    app.current_screen = CurrentScreen::Request;
    app.editing_field = Some(EditingField::Url);
    let ctx = app.key_context();
    assert_eq!(ctx.screen, CurrentScreen::Request);
    assert_eq!(ctx.editing, Some(EditingField::Url));
}

#[test]
fn test_edit_selected_header_populates_buffers() {
    let req = HttpRequest::new(HttpMethod::GET, "https://a.com")
        .with_header("Content-Type", "application/json");
    let mut app = app_with_requests(vec![req]);
    app.selected_header_index = 0;
    app.edit_selected_header();
    assert_eq!(app.editing_field, Some(EditingField::Headers));
    assert_eq!(app.header_key_buffer, "Content-Type");
    assert_eq!(app.header_value_buffer, "application/json");
    assert_eq!(app.header_field, HeaderField::Key);
    assert!(app.header_autocomplete.is_some());
}

#[test]
fn test_edit_selected_header_no_headers_is_noop() {
    let mut app = app_with_requests(vec![make_get("https://a.com")]);
    app.selected_header_index = 0;
    app.edit_selected_header();
    assert_eq!(app.editing_field, None);
}

#[test]
fn test_edit_selected_header_out_of_bounds_is_noop() {
    let req = HttpRequest::new(HttpMethod::GET, "https://a.com").with_header("X-One", "1");
    let mut app = app_with_requests(vec![req]);
    app.selected_header_index = 5; // out of bounds
    app.edit_selected_header();
    assert_eq!(app.editing_field, None);
}

#[test]
fn test_cycle_to_streamed_json() {
    let mut app = app_with_requests(vec![make_get("https://a.com")]);
    app.per_request
        .entry(0)
        .or_insert_with(PerRequestState::new)
        .last_response = Some(Ok(make_response(200, "plain text")));
    app.streamed_jq_available = true;
    app.response_view_mode = ResponseViewMode::Text;
    // Text -> StreamedJson (not json but streamed available)
    app.cycle_response_view_mode();
    assert_eq!(app.response_view_mode, ResponseViewMode::StreamedJson);
}

#[test]
fn test_cycle_from_json_to_streamed() {
    let mut app = app_with_requests(vec![make_get("https://a.com")]);
    app.per_request
        .entry(0)
        .or_insert_with(PerRequestState::new)
        .last_response = Some(Ok(make_response(200, r#"{"ok":true}"#)));
    app.streamed_jq_available = true;
    app.response_view_mode = ResponseViewMode::Json;
    // Json -> StreamedJson
    app.cycle_response_view_mode();
    assert_eq!(app.response_view_mode, ResponseViewMode::StreamedJson);
}

#[test]
fn test_cycle_from_streamed_to_text() {
    let mut app = app_with_requests(vec![make_get("https://a.com")]);
    app.response_view_mode = ResponseViewMode::StreamedJson;
    app.cycle_response_view_mode();
    assert_eq!(app.response_view_mode, ResponseViewMode::Text);
}

#[test]
fn test_select_next_autocomplete_when_none_is_noop() {
    let mut app = app_with_requests(vec![make_get("https://a.com")]);
    app.header_autocomplete = None;
    app.select_next_autocomplete(5);
    assert!(app.header_autocomplete.is_none());
}

#[test]
fn test_select_previous_autocomplete_when_none_is_noop() {
    let mut app = app_with_requests(vec![make_get("https://a.com")]);
    app.header_autocomplete = None;
    app.select_previous_autocomplete();
    assert!(app.header_autocomplete.is_none());
}

#[test]
fn test_current_streamed_jq_output_empty() {
    let app = app_with_requests(vec![make_get("https://a.com")]);
    assert_eq!(app.current_streamed_jq_output(), "");
}

#[test]
fn test_current_streamed_jq_output_joins_lines() {
    let mut app = app_with_requests(vec![make_get("https://a.com")]);
    let state = app
        .per_request
        .entry(0)
        .or_insert_with(PerRequestState::new);
    state.jq_output.push("line1".to_string());
    state.jq_output.push("line2".to_string());
    assert_eq!(app.current_streamed_jq_output(), "line1\nline2");
}

#[test]
fn test_current_streamed_jq_output_no_request() {
    let app = app_with_requests(vec![]);
    assert_eq!(app.current_streamed_jq_output(), "");
}
