use imhottep::actions::{KeyMeaning, Outcome};
use imhottep::app::{
    App, AutocompleteState, CurrentScreen, EditingField, FocusableField, HeaderField,
    ResponseViewMode, SCROLL_TO_END,
};
use imhottep::http_client::{HttpMethod, HttpRequest};
use imhottep::keymap::{Action, KeyCode, KeyEvent, KeyEventKind, KeyModifiers};

fn app() -> App {
    let mut app = App::new(vec![HttpRequest::new(HttpMethod::GET, "https://a")]);
    app.current_screen = CurrentScreen::Request;
    app
}

fn act(app: &mut App, action: Action) {
    assert!(app.is_defined(action));
    assert!(matches!(app.execute_action(action), Outcome::Continue));
}

fn type_text(app: &mut App, text: &str) {
    for c in text.chars() {
        assert!(app.can_type());
        app.type_char(c);
    }
}

fn pressed(code: KeyCode, modifiers: KeyModifiers) -> KeyEvent {
    KeyEvent {
        code,
        modifiers,
        kind: KeyEventKind::Press,
    }
}

#[test]
fn a_confirmed_address_is_kept() {
    let mut app = app();
    act(&mut app, Action::JumpToUrl);
    assert_eq!(app.editing_field, Some(EditingField::Url));
    type_text(&mut app, "/b");
    assert_eq!(app.url_h_scroll, SCROLL_TO_END);
    act(&mut app, Action::ConfirmEdit);
    assert_eq!(&*app.requests[0].url, "https://a/b");
    assert_eq!(app.editing_field, None);
    assert_eq!(app.input_buffer, "");
}

#[test]
fn a_cancelled_edit_changes_no_request() {
    let mut app = app();
    act(&mut app, Action::JumpToUrl);
    type_text(&mut app, "xyz");
    act(&mut app, Action::DeleteWordBackward);
    act(&mut app, Action::CancelEdit);
    assert_eq!(&*app.requests[0].url, "https://a");
    assert_eq!(app.editing_field, None);
    assert_eq!(app.cursor_pos, 0);
}

#[test]
fn a_saved_body_is_kept() {
    let mut app = app();
    act(&mut app, Action::JumpToBody);
    type_text(&mut app, "a");
    act(&mut app, Action::InsertNewline);
    type_text(&mut app, "b");
    act(&mut app, Action::SaveBody);
    assert_eq!(app.requests[0].body, Some("a\nb".to_string()));
}

#[test]
fn a_header_is_typed_and_saved() {
    let mut app = app();
    act(&mut app, Action::FocusHeaders);
    act(&mut app, Action::AddHeader);
    type_text(&mut app, "content-ty");
    assert_eq!(app.headers_scroll, SCROLL_TO_END);
    act(&mut app, Action::ConfirmEdit);
    assert_eq!(app.header_key_buffer, "content-type");
    assert_eq!(app.header_field, HeaderField::Value);
    assert!(app.header_autocomplete.is_none());
    type_text(&mut app, "text");
    act(&mut app, Action::ConfirmEdit);
    assert_eq!(app.editing_field, None);
    assert_eq!(
        app.requests[0].headers.get("content-type").map(|v| v.as_str()),
        Some("text")
    );
}

#[test]
fn an_edited_header_replaces_the_old_one() {
    let mut app = app();
    app.requests[0].add_header("Old", "1");
    act(&mut app, Action::EditSelectedHeader);
    app.header_autocomplete = None;
    act(&mut app, Action::CursorHome);
    type_text(&mut app, "x");
    act(&mut app, Action::ConfirmEdit);
    assert_eq!(app.header_field, HeaderField::Value);
    act(&mut app, Action::ConfirmEdit);
    assert_eq!(app.requests[0].headers.len(), 1);
    assert!(app.requests[0].headers.contains_key("xOld"));
}

#[test]
fn an_empty_name_is_not_saved() {
    let mut app = app();
    app.requests[0].add_header("Old", "1");
    act(&mut app, Action::EditSelectedHeader);
    app.header_autocomplete = None;
    act(&mut app, Action::DeleteWordBackward);
    act(&mut app, Action::ConfirmEdit);
    act(&mut app, Action::ConfirmEdit);
    assert!(app.requests[0].headers.contains_key("Old"));
}

#[test]
fn the_cursor_moves_within_the_text() {
    let mut app = app();
    act(&mut app, Action::JumpToUrl);
    assert_eq!(app.cursor_pos, 9);
    act(&mut app, Action::CursorRight);
    assert_eq!(app.cursor_pos, 9);
    act(&mut app, Action::CursorLeft);
    assert_eq!(app.cursor_pos, 8);
    act(&mut app, Action::CursorWordLeft);
    assert_eq!(app.cursor_pos, 5);
    act(&mut app, Action::CursorWordRight);
    assert_eq!(app.cursor_pos, 8);
    act(&mut app, Action::CursorHome);
    act(&mut app, Action::CursorLeft);
    assert_eq!(app.cursor_pos, 0);
    act(&mut app, Action::DeleteNextChar);
    assert_eq!(app.input_buffer, "ttps://a");
    act(&mut app, Action::DeleteWordForward);
    assert_eq!(app.input_buffer, "://a");
    act(&mut app, Action::CursorEnd);
    act(&mut app, Action::DeleteChar);
    assert_eq!(app.input_buffer, "://");
    assert_eq!(app.cursor_pos, 3);
}

#[test]
fn a_cursor_inside_a_character_is_noticed() {
    let mut app = app();
    act(&mut app, Action::JumpToBody);
    type_text(&mut app, "é");
    assert_eq!(app.cursor_pos, 1);
    assert!(!app.can_type());
    assert!(app.is_defined(Action::DeleteChar));
    assert!(!app.is_defined(Action::DeleteNextChar));
    assert!(!app.is_defined(Action::CursorWordLeft));
    assert!(app.is_defined(Action::CursorHome));
}

#[test]
fn only_confirming_ends_the_application() {
    let mut app = app();
    assert!(matches!(app.execute_action(Action::ConfirmExit), Outcome::Exit));
    assert!(matches!(
        app.execute_action(Action::SaveRequests),
        Outcome::SaveRequests
    ));
    assert!(matches!(
        app.execute_action(Action::SendRequest),
        Outcome::SendRequest
    ));
    act(&mut app, Action::TriggerExit);
    assert_eq!(app.current_screen, CurrentScreen::Exiting);
    act(&mut app, Action::CancelExit);
    assert_eq!(app.current_screen, CurrentScreen::Main);
}

#[test]
fn requests_are_made_chosen_and_deleted() {
    let mut app = App::new(Vec::new());
    assert_eq!(app.current_request_index, None);
    act(&mut app, Action::EditRequest);
    assert_eq!(app.current_screen, CurrentScreen::Main);
    act(&mut app, Action::NewRequest);
    act(&mut app, Action::NewRequest);
    assert_eq!(app.current_request_index, Some(1));
    act(&mut app, Action::SelectNextRequest);
    assert_eq!(app.current_request_index, Some(1));
    act(&mut app, Action::SelectPreviousRequest);
    assert_eq!(app.current_request_index, Some(0));
    act(&mut app, Action::EditRequest);
    assert_eq!(app.current_screen, CurrentScreen::Request);
    act(&mut app, Action::DeleteRequest);
    act(&mut app, Action::DeleteRequest);
    assert_eq!(app.current_request_index, None);
    act(&mut app, Action::GoBack);
    assert_eq!(app.current_screen, CurrentScreen::Main);
}

#[test]
fn filters_are_edited_where_they_are_shown() {
    let mut app = app();
    act(&mut app, Action::EditJqFilter);
    assert_eq!(app.editing_field, None);
    app.focused_field = FocusableField::Response;
    app.response_view_mode = ResponseViewMode::StreamedJson;
    act(&mut app, Action::EditJqFilter);
    assert_eq!(app.editing_field, Some(EditingField::JsonFilter));
    assert_eq!(app.input_buffer, ".");
    type_text(&mut app, "x");
    assert_eq!(app.filter_h_scroll, SCROLL_TO_END);
    match app.execute_action(Action::ConfirmEdit) {
        Outcome::RunBatch(batch) => assert_eq!(batch.filter, ".x"),
        _ => panic!("expected a batch"),
    }
    assert_eq!(app.current_jq_filter(), ".x");
    act(&mut app, Action::EditStreamPrefixRegex);
    assert_eq!(app.input_buffer, r"^\w+:\s*");
    act(&mut app, Action::CancelEdit);
    act(&mut app, Action::EditStreamSuffixRegex);
    assert_eq!(app.input_buffer, r"\s*$");
    app.response_view_mode = ResponseViewMode::Text;
    assert!(matches!(
        app.execute_action(Action::ConfirmEdit),
        Outcome::RunBatch(_)
    ));
}

#[test]
fn a_filter_is_not_applied_to_lines_that_are_not_shown() {
    let mut app = app();
    app.focused_field = FocusableField::Response;
    app.response_view_mode = ResponseViewMode::Json;
    act(&mut app, Action::EditJqFilter);
    app.response_scroll = 5;
    act(&mut app, Action::ConfirmEdit);
    assert_eq!(app.response_scroll, 0);
}

#[test]
fn suggestions_are_walked() {
    let mut app = app();
    act(&mut app, Action::FocusHeaders);
    act(&mut app, Action::EditFocusedField);
    act(&mut app, Action::AutocompleteDown);
    act(&mut app, Action::AutocompleteDown);
    act(&mut app, Action::AutocompleteUp);
    assert_eq!(app.header_autocomplete.as_ref().map(|a| a.selected), Some(1));
    type_text(&mut app, "a");
    assert_eq!(app.header_autocomplete.as_ref().map(|a| a.selected), Some(0));
    act(&mut app, Action::ToggleHeaderKeyValue);
    assert_eq!(app.header_field, HeaderField::Value);
    assert!(app.header_autocomplete.is_none());
    act(&mut app, Action::ToggleHeaderKeyValue);
    assert_eq!(app.header_field, HeaderField::Key);
    assert!(matches!(
        app.header_autocomplete,
        Some(AutocompleteState { selected: 0 })
    ));
}

#[test]
fn scrolling_stops_at_the_ends() {
    let mut app = app();
    app.focused_field = FocusableField::Response;
    act(&mut app, Action::ScrollUp);
    assert_eq!(app.response_scroll, 0);
    act(&mut app, Action::PageDown);
    act(&mut app, Action::ScrollDown);
    assert_eq!(app.response_scroll, 31);
    act(&mut app, Action::PageUp);
    assert_eq!(app.response_scroll, 1);
    app.response_scroll = u16::MAX;
    act(&mut app, Action::ScrollDown);
    assert_eq!(app.response_scroll, u16::MAX);
}

#[test]
fn typed_keys_go_into_the_text() {
    let mut app = app();
    let q = pressed(KeyCode::Char('q'), KeyModifiers::none());
    assert!(matches!(app.meaning(&q), KeyMeaning::Act(_)));
    act(&mut app, Action::JumpToUrl);
    assert_eq!(app.meaning(&q), KeyMeaning::Typed('q'));
    let upper = pressed(KeyCode::Char('Q'), KeyModifiers::shift());
    assert_eq!(app.meaning(&upper), KeyMeaning::Typed('Q'));
    let enter = pressed(KeyCode::Enter, KeyModifiers::none());
    assert_eq!(app.meaning(&enter), KeyMeaning::Act(Action::ConfirmEdit));
    let released = KeyEvent {
        kind: KeyEventKind::Release,
        ..q
    };
    assert_eq!(app.meaning(&released), KeyMeaning::Nothing);
    let unknown = pressed(KeyCode::F(12), KeyModifiers::none());
    assert_eq!(app.meaning(&unknown), KeyMeaning::Nothing);
}

#[test]
fn keys_are_taken_one_after_the_other() {
    let mut app = app();
    let press = |app: &mut App, code: KeyCode| app.take_key(&pressed(code, KeyModifiers::none()));
    assert!(matches!(press(&mut app, KeyCode::Char('u')), Some(Outcome::Continue)));
    assert_eq!(app.editing_field, Some(EditingField::Url));
    assert!(matches!(press(&mut app, KeyCode::Char('u')), Some(Outcome::Continue)));
    assert_eq!(app.input_buffer, "https://au");
    assert!(matches!(press(&mut app, KeyCode::Enter), Some(Outcome::Continue)));
    assert_eq!(&*app.requests[0].url, "https://au");
    assert!(matches!(press(&mut app, KeyCode::Char('s')), Some(Outcome::SendRequest)));
}

#[test]
fn a_key_that_cannot_be_taken_changes_nothing() {
    let mut app = app();
    act(&mut app, Action::JumpToBody);
    type_text(&mut app, "é");
    let key = pressed(KeyCode::Char('x'), KeyModifiers::none());
    assert!(app.take_key(&key).is_none());
    assert_eq!(app.input_buffer, "é");
    let released = KeyEvent {
        kind: KeyEventKind::Release,
        ..key
    };
    assert!(matches!(app.take_key(&released), Some(Outcome::Continue)));
    assert_eq!(app.cursor_pos, 1);
}

#[test]
fn nothing_comes_in_by_itself_at_first() {
    assert!(!app().has_async_work());
}

#[test]
fn saving_is_reported() {
    let mut app = app();
    app.save_requests(Ok("/x/y.json".to_string()));
    assert_eq!(app.last_save_status, Some("Saved to /x/y.json".to_string()));
    app.save_requests(Err("disk full".to_string()));
    assert_eq!(app.last_save_status, Some("Save failed: disk full".to_string()));
}
