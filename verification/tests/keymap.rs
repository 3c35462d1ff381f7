use imhottep::app::{CurrentScreen, EditingField, FocusableField};
use imhottep::keymap::{Action, KeyCode, KeyContext, KeyEvent, KeyEventKind, KeyModifiers, Keymap};

fn key(code: KeyCode) -> KeyEvent {
    KeyEvent {
        code,
        modifiers: KeyModifiers::none(),
        kind: KeyEventKind::Press,
    }
}

fn ctrl(c: char) -> KeyEvent {
    KeyEvent {
        code: KeyCode::Char(c),
        modifiers: KeyModifiers::control(),
        kind: KeyEventKind::Press,
    }
}

fn char_key(c: char) -> KeyEvent {
    key(KeyCode::Char(c))
}

fn nav_ctx(screen: CurrentScreen, focus: FocusableField) -> KeyContext {
    KeyContext {
        screen,
        editing: None,
        focus,
    }
}

fn editing_ctx(field: EditingField) -> KeyContext {
    KeyContext {
        screen: CurrentScreen::Request,
        editing: Some(field),
        focus: FocusableField::Url,
    }
}

fn exiting_ctx() -> KeyContext {
    KeyContext {
        screen: CurrentScreen::Exiting,
        editing: None,
        focus: FocusableField::Url,
    }
}

#[test]
fn main_j_selects_next() {
    let km = Keymap::default();
    let ctx = nav_ctx(CurrentScreen::Main, FocusableField::Url);
    assert_eq!(
        km.resolve(&ctx, &char_key('j')),
        Some(Action::SelectNextRequest)
    );
    assert_eq!(
        km.resolve(&ctx, &key(KeyCode::Down)),
        Some(Action::SelectNextRequest)
    );
}

#[test]
fn main_k_selects_previous() {
    let km = Keymap::default();
    let ctx = nav_ctx(CurrentScreen::Main, FocusableField::Url);
    assert_eq!(
        km.resolve(&ctx, &char_key('k')),
        Some(Action::SelectPreviousRequest)
    );
    assert_eq!(
        km.resolve(&ctx, &key(KeyCode::Up)),
        Some(Action::SelectPreviousRequest)
    );
}

#[test]
fn main_pagedown_selects_next() {
    let km = Keymap::default();
    let ctx = nav_ctx(CurrentScreen::Main, FocusableField::Url);
    assert_eq!(
        km.resolve(&ctx, &key(KeyCode::PageDown)),
        Some(Action::SelectNextRequest)
    );
}

#[test]
fn main_pageup_selects_previous() {
    let km = Keymap::default();
    let ctx = nav_ctx(CurrentScreen::Main, FocusableField::Url);
    assert_eq!(
        km.resolve(&ctx, &key(KeyCode::PageUp)),
        Some(Action::SelectPreviousRequest)
    );
}

#[test]
fn main_q_triggers_exit() {
    let km = Keymap::default();
    let ctx = nav_ctx(CurrentScreen::Main, FocusableField::Url);
    assert_eq!(km.resolve(&ctx, &char_key('q')), Some(Action::TriggerExit));
}

#[test]
fn main_backspace_triggers_exit() {
    let km = Keymap::default();
    let ctx = nav_ctx(CurrentScreen::Main, FocusableField::Url);
    assert_eq!(
        km.resolve(&ctx, &key(KeyCode::Backspace)),
        Some(Action::TriggerExit)
    );
}

#[test]
fn main_ctrl_c_triggers_exit() {
    let km = Keymap::default();
    let ctx = nav_ctx(CurrentScreen::Main, FocusableField::Url);
    assert_eq!(km.resolve(&ctx, &ctrl('c')), Some(Action::TriggerExit));
}

#[test]
fn exiting_y_confirms() {
    let km = Keymap::default();
    assert_eq!(
        km.resolve(&exiting_ctx(), &char_key('y')),
        Some(Action::ConfirmExit)
    );
}

#[test]
fn exiting_enter_confirms() {
    let km = Keymap::default();
    assert_eq!(
        km.resolve(&exiting_ctx(), &key(KeyCode::Enter)),
        Some(Action::ConfirmExit)
    );
}

#[test]
fn exiting_ctrl_c_confirms() {
    let km = Keymap::default();
    assert_eq!(
        km.resolve(&exiting_ctx(), &ctrl('c')),
        Some(Action::ConfirmExit)
    );
}

#[test]
fn exiting_n_cancels() {
    let km = Keymap::default();
    assert_eq!(
        km.resolve(&exiting_ctx(), &char_key('n')),
        Some(Action::CancelExit)
    );
}

#[test]
fn exiting_backspace_cancels() {
    let km = Keymap::default();
    assert_eq!(
        km.resolve(&exiting_ctx(), &key(KeyCode::Backspace)),
        Some(Action::CancelExit)
    );
}

#[test]
fn exiting_esc_cancels() {
    let km = Keymap::default();
    assert_eq!(
        km.resolve(&exiting_ctx(), &key(KeyCode::Esc)),
        Some(Action::CancelExit)
    );
}

#[test]
fn request_tab_focuses_next() {
    let km = Keymap::default();
    let ctx = nav_ctx(CurrentScreen::Request, FocusableField::Url);
    assert_eq!(
        km.resolve(&ctx, &key(KeyCode::Tab)),
        Some(Action::FocusNextField)
    );
}

#[test]
fn request_backtab_focuses_previous() {
    let km = Keymap::default();
    let ctx = nav_ctx(CurrentScreen::Request, FocusableField::Url);
    assert_eq!(
        km.resolve(&ctx, &key(KeyCode::BackTab)),
        Some(Action::FocusPreviousField)
    );
}

#[test]
fn request_shift_backtab_focuses_previous() {
    let km = Keymap::default();
    let ctx = nav_ctx(CurrentScreen::Request, FocusableField::Url);
    let event = KeyEvent {
        code: KeyCode::BackTab,
        modifiers: KeyModifiers::shift(),
        kind: KeyEventKind::Press,
    };
    assert_eq!(
        km.resolve(&ctx, &event),
        Some(Action::FocusPreviousField)
    );
}

#[test]
fn request_q_goes_back() {
    let km = Keymap::default();
    let ctx = nav_ctx(CurrentScreen::Request, FocusableField::Body);
    assert_eq!(km.resolve(&ctx, &char_key('q')), Some(Action::GoBack));
}

#[test]
fn request_esc_goes_back() {
    let km = Keymap::default();
    let ctx = nav_ctx(CurrentScreen::Request, FocusableField::Body);
    assert_eq!(km.resolve(&ctx, &key(KeyCode::Esc)), Some(Action::GoBack));
}

#[test]
fn request_backspace_goes_back() {
    let km = Keymap::default();
    let ctx = nav_ctx(CurrentScreen::Request, FocusableField::Body);
    assert_eq!(
        km.resolve(&ctx, &key(KeyCode::Backspace)),
        Some(Action::GoBack)
    );
}

#[test]
fn request_ctrl_c_triggers_exit() {
    let km = Keymap::default();
    let ctx = nav_ctx(CurrentScreen::Request, FocusableField::Body);
    assert_eq!(km.resolve(&ctx, &ctrl('c')), Some(Action::TriggerExit));
}

#[test]
fn body_j_scrolls_down() {
    let km = Keymap::default();
    let ctx = nav_ctx(CurrentScreen::Request, FocusableField::Body);
    assert_eq!(km.resolve(&ctx, &char_key('j')), Some(Action::ScrollDown));
    assert_eq!(
        km.resolve(&ctx, &key(KeyCode::Down)),
        Some(Action::ScrollDown)
    );
}

#[test]
fn body_k_scrolls_up() {
    let km = Keymap::default();
    let ctx = nav_ctx(CurrentScreen::Request, FocusableField::Body);
    assert_eq!(km.resolve(&ctx, &char_key('k')), Some(Action::ScrollUp));
}

#[test]
fn body_pagedown_pages() {
    let km = Keymap::default();
    let ctx = nav_ctx(CurrentScreen::Request, FocusableField::Body);
    assert_eq!(
        km.resolve(&ctx, &key(KeyCode::PageDown)),
        Some(Action::PageDown)
    );
}

#[test]
fn response_j_scrolls_down() {
    let km = Keymap::default();
    let ctx = nav_ctx(CurrentScreen::Request, FocusableField::Response);
    assert_eq!(km.resolve(&ctx, &char_key('j')), Some(Action::ScrollDown));
}

#[test]
fn headers_j_selects_next_header() {
    let km = Keymap::default();
    let ctx = nav_ctx(CurrentScreen::Request, FocusableField::Headers);
    assert_eq!(
        km.resolve(&ctx, &char_key('j')),
        Some(Action::SelectNextHeader)
    );
    assert_eq!(
        km.resolve(&ctx, &key(KeyCode::Down)),
        Some(Action::SelectNextHeader)
    );
}

#[test]
fn headers_k_selects_prev_header() {
    let km = Keymap::default();
    let ctx = nav_ctx(CurrentScreen::Request, FocusableField::Headers);
    assert_eq!(
        km.resolve(&ctx, &char_key('k')),
        Some(Action::SelectPreviousHeader)
    );
}

#[test]
fn headers_a_adds_header() {
    let km = Keymap::default();
    let ctx = nav_ctx(CurrentScreen::Request, FocusableField::Headers);
    assert_eq!(km.resolve(&ctx, &char_key('a')), Some(Action::AddHeader));
}

#[test]
fn headers_d_deletes_header() {
    let km = Keymap::default();
    let ctx = nav_ctx(CurrentScreen::Request, FocusableField::Headers);
    assert_eq!(km.resolve(&ctx, &char_key('d')), Some(Action::DeleteHeader));
}

#[test]
fn headers_enter_edits_selected() {
    let km = Keymap::default();
    let ctx = nav_ctx(CurrentScreen::Request, FocusableField::Headers);
    assert_eq!(
        km.resolve(&ctx, &key(KeyCode::Enter)),
        Some(Action::EditSelectedHeader)
    );
}

#[test]
fn response_f_edits_jq_filter() {
    let km = Keymap::default();
    let ctx = nav_ctx(CurrentScreen::Request, FocusableField::Response);
    assert_eq!(km.resolve(&ctx, &char_key('f')), Some(Action::EditJqFilter));
}

#[test]
fn editing_esc_cancels() {
    let km = Keymap::default();
    assert_eq!(
        km.resolve(&editing_ctx(EditingField::Url), &key(KeyCode::Esc)),
        Some(Action::CancelEdit)
    );
}

#[test]
fn editing_ctrl_c_cancels() {
    let km = Keymap::default();
    assert_eq!(
        km.resolve(&editing_ctx(EditingField::Body), &ctrl('c')),
        Some(Action::CancelEdit)
    );
}

#[test]
fn editing_backspace_deletes_char() {
    let km = Keymap::default();
    assert_eq!(
        km.resolve(&editing_ctx(EditingField::Url), &key(KeyCode::Backspace)),
        Some(Action::DeleteChar)
    );
}

#[test]
fn url_enter_confirms() {
    let km = Keymap::default();
    assert_eq!(
        km.resolve(&editing_ctx(EditingField::Url), &key(KeyCode::Enter)),
        Some(Action::ConfirmEdit)
    );
}

#[test]
fn body_enter_inserts_newline() {
    let km = Keymap::default();
    assert_eq!(
        km.resolve(&editing_ctx(EditingField::Body), &key(KeyCode::Enter)),
        Some(Action::InsertNewline)
    );
}

#[test]
fn body_ctrl_s_saves() {
    let km = Keymap::default();
    assert_eq!(
        km.resolve(&editing_ctx(EditingField::Body), &ctrl('s')),
        Some(Action::SaveBody)
    );
}

#[test]
fn headers_tab_toggles_key_value() {
    let km = Keymap::default();
    assert_eq!(
        km.resolve(&editing_ctx(EditingField::Headers), &key(KeyCode::Tab)),
        Some(Action::ToggleHeaderKeyValue)
    );
}

#[test]
fn headers_down_autocomplete() {
    let km = Keymap::default();
    assert_eq!(
        km.resolve(&editing_ctx(EditingField::Headers), &key(KeyCode::Down)),
        Some(Action::AutocompleteDown)
    );
}

#[test]
fn bindings_for_body_no_duplicate_scroll_actions() {
    let km = Keymap::default();
    let ctx = nav_ctx(CurrentScreen::Request, FocusableField::Body);
    let bindings = km.bindings_for(&ctx);
    let scroll_down_count = bindings
        .iter()
        .filter(|b| b.action == Action::ScrollDown)
        .count();
    assert_eq!(scroll_down_count, 1, "ScrollDown should appear only once");
}

#[test]
fn hint_line_for_main_includes_quit() {
    let km = Keymap::default();
    let ctx = nav_ctx(CurrentScreen::Main, FocusableField::Url);
    let hints = km.format_hint_line(&ctx);
    assert!(hints.contains("quit"), "expected 'quit' in: {hints}");
}

#[test]
fn hint_line_for_request_body_includes_scroll() {
    let km = Keymap::default();
    let ctx = nav_ctx(CurrentScreen::Request, FocusableField::Body);
    let hints = km.format_hint_line(&ctx);
    assert!(hints.contains("scroll"), "expected 'scroll' in: {hints}");
}

#[test]
fn focus_shortcut_for_url() {
    let km = Keymap::default();
    let shortcuts = km.focus_shortcut_for_field(FocusableField::Url);
    assert!(!shortcuts.is_empty());
    assert!(shortcuts.iter().any(|(hint, _)| hint.contains('u')));
}

#[test]
fn focus_shortcut_for_headers() {
    let km = Keymap::default();
    let shortcuts = km.focus_shortcut_for_field(FocusableField::Headers);
    assert!(!shortcuts.is_empty());
    assert!(shortcuts.iter().any(|(hint, _)| hint.contains('h')));
}

#[test]
fn focus_shortcut_for_events_is_empty() {
    let km = Keymap::default();
    let shortcuts = km.focus_shortcut_for_field(FocusableField::RequestEvents);
    assert!(shortcuts.is_empty());
}

#[test]
fn field_bindings_for_body_includes_scroll_not_global() {
    let km = Keymap::default();
    let ctx = nav_ctx(CurrentScreen::Request, FocusableField::Body);
    let bindings = km.field_bindings_for(&ctx);
    let actions: Vec<Action> = bindings.iter().map(|b| b.action).collect();
    assert!(
        actions.contains(&Action::ScrollDown),
        "expected ScrollDown in field bindings for Body"
    );
    assert!(
        !actions.contains(&Action::FocusNextField),
        "Tab (FocusNextField) should not appear in field-only bindings"
    );
    assert!(
        !actions.contains(&Action::GoBack),
        "GoBack should not appear in field-only bindings"
    );
}

#[test]
fn field_bindings_for_headers_includes_header_actions_not_global() {
    let km = Keymap::default();
    let ctx = nav_ctx(CurrentScreen::Request, FocusableField::Headers);
    let bindings = km.field_bindings_for(&ctx);
    let actions: Vec<Action> = bindings.iter().map(|b| b.action).collect();
    assert!(
        actions.contains(&Action::AddHeader),
        "expected AddHeader in field bindings for Headers"
    );
    assert!(
        actions.contains(&Action::DeleteHeader),
        "expected DeleteHeader in field bindings for Headers"
    );
    assert!(
        !actions.contains(&Action::FocusNextField),
        "Tab should not appear in field-only bindings"
    );
}

#[test]
fn field_bindings_for_url_nav_has_edit_not_global() {
    let km = Keymap::default();
    let ctx = nav_ctx(CurrentScreen::Request, FocusableField::Url);
    let bindings = km.field_bindings_for(&ctx);
    let actions: Vec<Action> = bindings.iter().map(|b| b.action).collect();
    assert!(
        actions.contains(&Action::EditFocusedField),
        "expected EditFocusedField in URL nav field bindings, got: {actions:?}"
    );
    assert!(
        !actions.contains(&Action::FocusNextField),
        "Tab (FocusNextField) should not appear in field-only bindings"
    );
    assert!(
        !actions.contains(&Action::GoBack),
        "GoBack should not appear in field-only bindings"
    );
}

#[test]
fn field_bindings_for_editing_body_includes_save_and_newline() {
    let km = Keymap::default();
    let ctx = editing_ctx(EditingField::Body);
    let bindings = km.field_bindings_for(&ctx);
    let actions: Vec<Action> = bindings.iter().map(|b| b.action).collect();
    assert!(
        actions.contains(&Action::SaveBody),
        "expected SaveBody in editing Body field bindings"
    );
    assert!(
        actions.contains(&Action::InsertNewline),
        "expected InsertNewline in editing Body field bindings"
    );
}
