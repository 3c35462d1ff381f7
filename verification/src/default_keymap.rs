//! The key table that the application starts with.

use vstd::prelude::*;

use crate::app::{CurrentScreen, EditingField, FocusableField};
use crate::keymap::{
    binding_models, first_action, lemma_bound_alike, lemma_unbound, none_fires, ranked, rule_models,
    triggers_of, Action, Binding, BindingModel, ContextRule, EditingMatch, KeyCode, KeyContext, KeyEvent,
    KeyModifiers, KeyTrigger, RuleModel, TriggerList,
};

verus! {

/// A binding of these triggers.
pub open spec fn bound(
    triggers: Seq<KeyTrigger>,
    action: Action,
    hint: Seq<char>,
    description: Seq<char>,
) -> BindingModel {
    BindingModel { triggers, action, hint, description }
}

fn bind1(
    t1: KeyTrigger,
    action: Action,
    hint: &'static str,
    description: &'static str,
) -> (b: Binding)
    ensures
        b@ == bound(seq![t1], action, hint@, description@),
{
    let mut triggers = TriggerList::new();
    triggers.push(t1);
    proof {
        assert(triggers_of(triggers) =~= seq![t1]);
    }
    Binding { triggers, action, hint, description }
}

fn bind2(
    t1: KeyTrigger,
    t2: KeyTrigger,
    action: Action,
    hint: &'static str,
    description: &'static str,
) -> (b: Binding)
    ensures
        b@ == bound(seq![t1, t2], action, hint@, description@),
{
    let mut triggers = TriggerList::new();
    triggers.push(t1);
    triggers.push(t2);
    proof {
        assert(triggers_of(triggers) =~= seq![t1, t2]);
    }
    Binding { triggers, action, hint, description }
}

fn bind3(
    t1: KeyTrigger,
    t2: KeyTrigger,
    t3: KeyTrigger,
    action: Action,
    hint: &'static str,
    description: &'static str,
) -> (b: Binding)
    ensures
        b@ == bound(seq![t1, t2, t3], action, hint@, description@),
{
    let mut triggers = TriggerList::new();
    triggers.push(t1);
    triggers.push(t2);
    triggers.push(t3);
    proof {
        assert(triggers_of(triggers) =~= seq![t1, t2, t3]);
    }
    Binding { triggers, action, hint, description }
}

fn bind4(
    t1: KeyTrigger,
    t2: KeyTrigger,
    t3: KeyTrigger,
    t4: KeyTrigger,
    action: Action,
    hint: &'static str,
    description: &'static str,
) -> (b: Binding)
    ensures
        b@ == bound(seq![t1, t2, t3, t4], action, hint@, description@),
{
    let mut triggers = TriggerList::new();
    triggers.push(t1);
    triggers.push(t2);
    triggers.push(t3);
    triggers.push(t4);
    proof {
        assert(triggers_of(triggers) =~= seq![t1, t2, t3, t4]);
    }
    Binding { triggers, action, hint, description }
}

/// The bindings of a text that is edited, for moving in it and deleting.
pub open spec fn cursor_bindings() -> Seq<BindingModel> {
    seq![
        bound(seq![KeyTrigger::Code(KeyCode::Left)], Action::CursorLeft, "←"@, "cursor left"@),
        bound(seq![KeyTrigger::Code(KeyCode::Right)], Action::CursorRight, "→"@, "cursor right"@),
        bound(seq![KeyTrigger::Modified(KeyModifiers::control(), KeyCode::Left), KeyTrigger::Modified(KeyModifiers::alt(), KeyCode::Left)], Action::CursorWordLeft, "^←/M←"@, "word left"@),
        bound(seq![KeyTrigger::Modified(KeyModifiers::control(), KeyCode::Right), KeyTrigger::Modified(KeyModifiers::alt(), KeyCode::Right)], Action::CursorWordRight, "^→/M→"@, "word right"@),
        bound(seq![KeyTrigger::Code(KeyCode::Home)], Action::CursorHome, "home"@, "line start"@),
        bound(seq![KeyTrigger::Code(KeyCode::End)], Action::CursorEnd, "end"@, "line end"@),
        bound(seq![KeyTrigger::Code(KeyCode::Delete)], Action::DeleteNextChar, "del"@, "delete next"@),
        bound(seq![KeyTrigger::Modified(KeyModifiers::control(), KeyCode::Backspace), KeyTrigger::Modified(KeyModifiers::alt(), KeyCode::Backspace), KeyTrigger::Modified(KeyModifiers::control(), KeyCode::Char('h'))], Action::DeleteWordBackward, "^⌫/M⌫"@, "delete word"@),
        bound(seq![KeyTrigger::Modified(KeyModifiers::control(), KeyCode::Delete), KeyTrigger::Modified(KeyModifiers::alt(), KeyCode::Delete)], Action::DeleteWordForward, "^⌦/M⌦"@, "delete word forward"@),
    ]
}

fn make_cursor_bindings() -> (r: Vec<Binding>)
    ensures
        binding_models(r@) == cursor_bindings(),
{
    let mut r: Vec<Binding> = Vec::new();
    r.push(bind1(KeyTrigger::Code(KeyCode::Left), Action::CursorLeft, "←", "cursor left"));
    r.push(bind1(KeyTrigger::Code(KeyCode::Right), Action::CursorRight, "→", "cursor right"));
    r.push(bind2(KeyTrigger::Modified(KeyModifiers::control(), KeyCode::Left), KeyTrigger::Modified(KeyModifiers::alt(), KeyCode::Left), Action::CursorWordLeft, "^←/M←", "word left"));
    r.push(bind2(KeyTrigger::Modified(KeyModifiers::control(), KeyCode::Right), KeyTrigger::Modified(KeyModifiers::alt(), KeyCode::Right), Action::CursorWordRight, "^→/M→", "word right"));
    r.push(bind1(KeyTrigger::Code(KeyCode::Home), Action::CursorHome, "home", "line start"));
    r.push(bind1(KeyTrigger::Code(KeyCode::End), Action::CursorEnd, "end", "line end"));
    r.push(bind1(KeyTrigger::Code(KeyCode::Delete), Action::DeleteNextChar, "del", "delete next"));
    r.push(bind3(KeyTrigger::Modified(KeyModifiers::control(), KeyCode::Backspace), KeyTrigger::Modified(KeyModifiers::alt(), KeyCode::Backspace), KeyTrigger::Modified(KeyModifiers::control(), KeyCode::Char('h')), Action::DeleteWordBackward, "^⌫/M⌫", "delete word"));
    r.push(bind2(KeyTrigger::Modified(KeyModifiers::control(), KeyCode::Delete), KeyTrigger::Modified(KeyModifiers::alt(), KeyCode::Delete), Action::DeleteWordForward, "^⌦/M⌦", "delete word forward"));
    proof {
        assert(binding_models(r@) =~= cursor_bindings());
    }
    r
}

/// The bindings of the main screen.
pub open spec fn main_bindings() -> Seq<BindingModel> {
    seq![
        bound(seq![KeyTrigger::Char('j'), KeyTrigger::Code(KeyCode::Down)], Action::SelectNextRequest, "↓/j"@, "next"@),
        bound(seq![KeyTrigger::Char('k'), KeyTrigger::Code(KeyCode::Up)], Action::SelectPreviousRequest, "↑/k"@, "prev"@),
        bound(seq![KeyTrigger::Code(KeyCode::PageDown)], Action::SelectNextRequest, "PgDn"@, "next"@),
        bound(seq![KeyTrigger::Code(KeyCode::PageUp)], Action::SelectPreviousRequest, "PgUp"@, "prev"@),
        bound(seq![KeyTrigger::Char('n')], Action::NewRequest, "n"@, "new"@),
        bound(seq![KeyTrigger::Char('d')], Action::DeleteRequest, "d"@, "delete"@),
        bound(seq![KeyTrigger::Char('e'), KeyTrigger::Code(KeyCode::Enter)], Action::EditRequest, "e/enter"@, "edit"@),
        bound(seq![KeyTrigger::Char('s')], Action::SaveRequests, "s"@, "save"@),
        bound(seq![KeyTrigger::Char('q'), KeyTrigger::Code(KeyCode::Backspace), KeyTrigger::Modified(KeyModifiers::control(), KeyCode::Char('c'))], Action::TriggerExit, "q/⌫/^C"@, "quit"@),
    ]
}

fn make_main_bindings() -> (r: Vec<Binding>)
    ensures
        binding_models(r@) == main_bindings(),
{
    let mut r: Vec<Binding> = Vec::new();
    r.push(bind2(KeyTrigger::Char('j'), KeyTrigger::Code(KeyCode::Down), Action::SelectNextRequest, "↓/j", "next"));
    r.push(bind2(KeyTrigger::Char('k'), KeyTrigger::Code(KeyCode::Up), Action::SelectPreviousRequest, "↑/k", "prev"));
    r.push(bind1(KeyTrigger::Code(KeyCode::PageDown), Action::SelectNextRequest, "PgDn", "next"));
    r.push(bind1(KeyTrigger::Code(KeyCode::PageUp), Action::SelectPreviousRequest, "PgUp", "prev"));
    r.push(bind1(KeyTrigger::Char('n'), Action::NewRequest, "n", "new"));
    r.push(bind1(KeyTrigger::Char('d'), Action::DeleteRequest, "d", "delete"));
    r.push(bind2(KeyTrigger::Char('e'), KeyTrigger::Code(KeyCode::Enter), Action::EditRequest, "e/enter", "edit"));
    r.push(bind1(KeyTrigger::Char('s'), Action::SaveRequests, "s", "save"));
    r.push(bind3(KeyTrigger::Char('q'), KeyTrigger::Code(KeyCode::Backspace), KeyTrigger::Modified(KeyModifiers::control(), KeyCode::Char('c')), Action::TriggerExit, "q/⌫/^C", "quit"));
    proof {
        assert(binding_models(r@) =~= main_bindings());
    }
    r
}

/// The bindings of the exit confirmation.
pub open spec fn exit_bindings() -> Seq<BindingModel> {
    seq![
        bound(seq![KeyTrigger::Char('y'), KeyTrigger::Code(KeyCode::Enter), KeyTrigger::Modified(KeyModifiers::control(), KeyCode::Char('c'))], Action::ConfirmExit, "y/enter/^C"@, "yes"@),
        bound(seq![KeyTrigger::Char('n'), KeyTrigger::Char('q'), KeyTrigger::Code(KeyCode::Esc), KeyTrigger::Code(KeyCode::Backspace)], Action::CancelExit, "n/q/esc/⌫"@, "no"@),
    ]
}

fn make_exit_bindings() -> (r: Vec<Binding>)
    ensures
        binding_models(r@) == exit_bindings(),
{
    let mut r: Vec<Binding> = Vec::new();
    r.push(bind3(KeyTrigger::Char('y'), KeyTrigger::Code(KeyCode::Enter), KeyTrigger::Modified(KeyModifiers::control(), KeyCode::Char('c')), Action::ConfirmExit, "y/enter/^C", "yes"));
    r.push(bind4(KeyTrigger::Char('n'), KeyTrigger::Char('q'), KeyTrigger::Code(KeyCode::Esc), KeyTrigger::Code(KeyCode::Backspace), Action::CancelExit, "n/q/esc/⌫", "no"));
    proof {
        assert(binding_models(r@) =~= exit_bindings());
    }
    r
}

/// The bindings of the request screen, whatever has the focus.
pub open spec fn request_bindings() -> Seq<BindingModel> {
    seq![
        bound(seq![KeyTrigger::Code(KeyCode::Tab)], Action::FocusNextField, "tab"@, "next field"@),
        bound(seq![KeyTrigger::Code(KeyCode::BackTab), KeyTrigger::Modified(KeyModifiers::shift(), KeyCode::BackTab)], Action::FocusPreviousField, "⇧tab"@, "prev field"@),
        bound(seq![KeyTrigger::Char('q'), KeyTrigger::Code(KeyCode::Esc), KeyTrigger::Code(KeyCode::Backspace)], Action::GoBack, "q/esc/⌫"@, "back"@),
        bound(seq![KeyTrigger::Modified(KeyModifiers::control(), KeyCode::Char('c'))], Action::TriggerExit, "^C"@, "quit"@),
        bound(seq![KeyTrigger::Char('m')], Action::ToggleMethod, "m"@, "method"@),
        bound(seq![KeyTrigger::Char('s')], Action::SendRequest, "s"@, "send"@),
        bound(seq![KeyTrigger::Char('v')], Action::CycleViewMode, "v"@, "view mode"@),
        bound(seq![KeyTrigger::Char('u')], Action::JumpToUrl, "u"@, "edit URL"@),
        bound(seq![KeyTrigger::Char('h')], Action::FocusHeaders, "h"@, "headers"@),
        bound(seq![KeyTrigger::Char('b')], Action::JumpToBody, "b"@, "edit body"@),
    ]
}

fn make_request_bindings() -> (r: Vec<Binding>)
    ensures
        binding_models(r@) == request_bindings(),
{
    let mut r: Vec<Binding> = Vec::new();
    r.push(bind1(KeyTrigger::Code(KeyCode::Tab), Action::FocusNextField, "tab", "next field"));
    r.push(bind2(KeyTrigger::Code(KeyCode::BackTab), KeyTrigger::Modified(KeyModifiers::shift(), KeyCode::BackTab), Action::FocusPreviousField, "⇧tab", "prev field"));
    r.push(bind3(KeyTrigger::Char('q'), KeyTrigger::Code(KeyCode::Esc), KeyTrigger::Code(KeyCode::Backspace), Action::GoBack, "q/esc/⌫", "back"));
    r.push(bind1(KeyTrigger::Modified(KeyModifiers::control(), KeyCode::Char('c')), Action::TriggerExit, "^C", "quit"));
    r.push(bind1(KeyTrigger::Char('m'), Action::ToggleMethod, "m", "method"));
    r.push(bind1(KeyTrigger::Char('s'), Action::SendRequest, "s", "send"));
    r.push(bind1(KeyTrigger::Char('v'), Action::CycleViewMode, "v", "view mode"));
    r.push(bind1(KeyTrigger::Char('u'), Action::JumpToUrl, "u", "edit URL"));
    r.push(bind1(KeyTrigger::Char('h'), Action::FocusHeaders, "h", "headers"));
    r.push(bind1(KeyTrigger::Char('b'), Action::JumpToBody, "b", "edit body"));
    proof {
        assert(binding_models(r@) =~= request_bindings());
    }
    r
}

/// The bindings of a field that scrolls.
pub open spec fn scroll_bindings() -> Seq<BindingModel> {
    seq![
        bound(seq![KeyTrigger::Char('j'), KeyTrigger::Code(KeyCode::Down)], Action::ScrollDown, "↓/j"@, "scroll down"@),
        bound(seq![KeyTrigger::Char('k'), KeyTrigger::Code(KeyCode::Up)], Action::ScrollUp, "↑/k"@, "scroll up"@),
        bound(seq![KeyTrigger::Code(KeyCode::PageDown)], Action::PageDown, "PgDn"@, "page down"@),
        bound(seq![KeyTrigger::Code(KeyCode::PageUp)], Action::PageUp, "PgUp"@, "page up"@),
    ]
}

fn make_scroll_bindings() -> (r: Vec<Binding>)
    ensures
        binding_models(r@) == scroll_bindings(),
{
    let mut r: Vec<Binding> = Vec::new();
    r.push(bind2(KeyTrigger::Char('j'), KeyTrigger::Code(KeyCode::Down), Action::ScrollDown, "↓/j", "scroll down"));
    r.push(bind2(KeyTrigger::Char('k'), KeyTrigger::Code(KeyCode::Up), Action::ScrollUp, "↑/k", "scroll up"));
    r.push(bind1(KeyTrigger::Code(KeyCode::PageDown), Action::PageDown, "PgDn", "page down"));
    r.push(bind1(KeyTrigger::Code(KeyCode::PageUp), Action::PageUp, "PgUp", "page up"));
    proof {
        assert(binding_models(r@) =~= scroll_bindings());
    }
    r
}

/// The bindings of a field whose text can be edited.
pub open spec fn open_bindings() -> Seq<BindingModel> {
    seq![
        bound(seq![KeyTrigger::Char('e'), KeyTrigger::Code(KeyCode::Enter)], Action::EditFocusedField, "e/enter"@, "edit"@),
    ]
}

fn make_open_bindings() -> (r: Vec<Binding>)
    ensures
        binding_models(r@) == open_bindings(),
{
    let mut r: Vec<Binding> = Vec::new();
    r.push(bind2(KeyTrigger::Char('e'), KeyTrigger::Code(KeyCode::Enter), Action::EditFocusedField, "e/enter", "edit"));
    proof {
        assert(binding_models(r@) =~= open_bindings());
    }
    r
}

/// The bindings of the headers.
pub open spec fn headers_bindings() -> Seq<BindingModel> {
    seq![
        bound(seq![KeyTrigger::Char('j'), KeyTrigger::Code(KeyCode::Down)], Action::SelectNextHeader, "↓/j"@, "next header"@),
        bound(seq![KeyTrigger::Char('k'), KeyTrigger::Code(KeyCode::Up)], Action::SelectPreviousHeader, "↑/k"@, "prev header"@),
        bound(seq![KeyTrigger::Code(KeyCode::PageDown)], Action::SelectNextHeader, "PgDn"@, "next header"@),
        bound(seq![KeyTrigger::Code(KeyCode::PageUp)], Action::SelectPreviousHeader, "PgUp"@, "prev header"@),
        bound(seq![KeyTrigger::Char('e'), KeyTrigger::Code(KeyCode::Enter)], Action::EditSelectedHeader, "e/enter"@, "edit"@),
        bound(seq![KeyTrigger::Char('a')], Action::AddHeader, "a"@, "add"@),
        bound(seq![KeyTrigger::Char('d')], Action::DeleteHeader, "d"@, "delete"@),
    ]
}

fn make_headers_bindings() -> (r: Vec<Binding>)
    ensures
        binding_models(r@) == headers_bindings(),
{
    let mut r: Vec<Binding> = Vec::new();
    r.push(bind2(KeyTrigger::Char('j'), KeyTrigger::Code(KeyCode::Down), Action::SelectNextHeader, "↓/j", "next header"));
    r.push(bind2(KeyTrigger::Char('k'), KeyTrigger::Code(KeyCode::Up), Action::SelectPreviousHeader, "↑/k", "prev header"));
    r.push(bind1(KeyTrigger::Code(KeyCode::PageDown), Action::SelectNextHeader, "PgDn", "next header"));
    r.push(bind1(KeyTrigger::Code(KeyCode::PageUp), Action::SelectPreviousHeader, "PgUp", "prev header"));
    r.push(bind2(KeyTrigger::Char('e'), KeyTrigger::Code(KeyCode::Enter), Action::EditSelectedHeader, "e/enter", "edit"));
    r.push(bind1(KeyTrigger::Char('a'), Action::AddHeader, "a", "add"));
    r.push(bind1(KeyTrigger::Char('d'), Action::DeleteHeader, "d", "delete"));
    proof {
        assert(binding_models(r@) =~= headers_bindings());
    }
    r
}

/// The bindings of the response.
pub open spec fn response_bindings() -> Seq<BindingModel> {
    seq![
        bound(seq![KeyTrigger::Char('f')], Action::EditJqFilter, "f"@, "jq filter"@),
        bound(seq![KeyTrigger::Char('p')], Action::EditStreamPrefixRegex, "p"@, "prefix regex"@),
        bound(seq![KeyTrigger::Char('x')], Action::EditStreamSuffixRegex, "x"@, "suffix regex"@),
    ]
}

fn make_response_bindings() -> (r: Vec<Binding>)
    ensures
        binding_models(r@) == response_bindings(),
{
    let mut r: Vec<Binding> = Vec::new();
    r.push(bind1(KeyTrigger::Char('f'), Action::EditJqFilter, "f", "jq filter"));
    r.push(bind1(KeyTrigger::Char('p'), Action::EditStreamPrefixRegex, "p", "prefix regex"));
    r.push(bind1(KeyTrigger::Char('x'), Action::EditStreamSuffixRegex, "x", "suffix regex"));
    proof {
        assert(binding_models(r@) =~= response_bindings());
    }
    r
}

/// The bindings of every text that is edited.
pub open spec fn editing_bindings() -> Seq<BindingModel> {
    seq![
        bound(seq![KeyTrigger::Code(KeyCode::Esc), KeyTrigger::Modified(KeyModifiers::control(), KeyCode::Char('c'))], Action::CancelEdit, "esc/^C"@, "cancel"@),
        bound(seq![KeyTrigger::Code(KeyCode::Backspace)], Action::DeleteChar, "⌫"@, "delete char"@),
    ]
}

fn make_editing_bindings() -> (r: Vec<Binding>)
    ensures
        binding_models(r@) == editing_bindings(),
{
    let mut r: Vec<Binding> = Vec::new();
    r.push(bind2(KeyTrigger::Code(KeyCode::Esc), KeyTrigger::Modified(KeyModifiers::control(), KeyCode::Char('c')), Action::CancelEdit, "esc/^C", "cancel"));
    r.push(bind1(KeyTrigger::Code(KeyCode::Backspace), Action::DeleteChar, "⌫", "delete char"));
    proof {
        assert(binding_models(r@) =~= editing_bindings());
    }
    r
}

/// The bindings of the URL while it is edited.
pub open spec fn url_editing_bindings() -> Seq<BindingModel> {
    seq![
        bound(seq![KeyTrigger::Code(KeyCode::Enter)], Action::ConfirmEdit, "enter"@, "confirm"@),
    ] + cursor_bindings()
}

fn make_url_editing_bindings() -> (r: Vec<Binding>)
    ensures
        binding_models(r@) == url_editing_bindings(),
{
    let mut r: Vec<Binding> = Vec::new();
    r.push(bind1(KeyTrigger::Code(KeyCode::Enter), Action::ConfirmEdit, "enter", "confirm"));
    let mut cursor = make_cursor_bindings();
    r.append(&mut cursor);
    proof {
        assert(binding_models(r@) =~= url_editing_bindings());
    }
    r
}

/// The bindings of the body while it is edited.
pub open spec fn body_editing_bindings() -> Seq<BindingModel> {
    seq![
        bound(seq![KeyTrigger::Code(KeyCode::Enter)], Action::InsertNewline, "enter"@, "newline"@),
        bound(seq![KeyTrigger::Modified(KeyModifiers::control(), KeyCode::Char('s'))], Action::SaveBody, "^S"@, "save"@),
    ] + cursor_bindings()
}

fn make_body_editing_bindings() -> (r: Vec<Binding>)
    ensures
        binding_models(r@) == body_editing_bindings(),
{
    let mut r: Vec<Binding> = Vec::new();
    r.push(bind1(KeyTrigger::Code(KeyCode::Enter), Action::InsertNewline, "enter", "newline"));
    r.push(bind1(KeyTrigger::Modified(KeyModifiers::control(), KeyCode::Char('s')), Action::SaveBody, "^S", "save"));
    let mut cursor = make_cursor_bindings();
    r.append(&mut cursor);
    proof {
        assert(binding_models(r@) =~= body_editing_bindings());
    }
    r
}

/// The bindings of a filter or pattern while it is edited.
pub open spec fn filter_editing_bindings() -> Seq<BindingModel> {
    seq![
        bound(seq![KeyTrigger::Code(KeyCode::Enter)], Action::ConfirmEdit, "enter"@, "apply"@),
    ] + cursor_bindings()
}

fn make_filter_editing_bindings() -> (r: Vec<Binding>)
    ensures
        binding_models(r@) == filter_editing_bindings(),
{
    let mut r: Vec<Binding> = Vec::new();
    r.push(bind1(KeyTrigger::Code(KeyCode::Enter), Action::ConfirmEdit, "enter", "apply"));
    let mut cursor = make_cursor_bindings();
    r.append(&mut cursor);
    proof {
        assert(binding_models(r@) =~= filter_editing_bindings());
    }
    r
}

/// The bindings of the headers while they are edited.
pub open spec fn headers_editing_bindings() -> Seq<BindingModel> {
    seq![
        bound(seq![KeyTrigger::Code(KeyCode::Tab), KeyTrigger::Code(KeyCode::BackTab), KeyTrigger::Modified(KeyModifiers::shift(), KeyCode::BackTab)], Action::ToggleHeaderKeyValue, "tab/⇧tab"@, "toggle key/value"@),
        bound(seq![KeyTrigger::Code(KeyCode::Enter)], Action::ConfirmEdit, "enter"@, "confirm"@),
        bound(seq![KeyTrigger::Code(KeyCode::Down)], Action::AutocompleteDown, "↓"@, "next suggestion"@),
        bound(seq![KeyTrigger::Code(KeyCode::Up)], Action::AutocompleteUp, "↑"@, "prev suggestion"@),
    ] + cursor_bindings() + seq![
        bound(seq![KeyTrigger::Code(KeyCode::PageUp)], Action::ScrollUp, "⇞"@, "scroll up"@),
        bound(seq![KeyTrigger::Code(KeyCode::PageDown)], Action::ScrollDown, "⇟"@, "scroll down"@),
    ]
}

fn make_headers_editing_bindings() -> (r: Vec<Binding>)
    ensures
        binding_models(r@) == headers_editing_bindings(),
{
    let mut r: Vec<Binding> = Vec::new();
    r.push(bind3(KeyTrigger::Code(KeyCode::Tab), KeyTrigger::Code(KeyCode::BackTab), KeyTrigger::Modified(KeyModifiers::shift(), KeyCode::BackTab), Action::ToggleHeaderKeyValue, "tab/⇧tab", "toggle key/value"));
    r.push(bind1(KeyTrigger::Code(KeyCode::Enter), Action::ConfirmEdit, "enter", "confirm"));
    r.push(bind1(KeyTrigger::Code(KeyCode::Down), Action::AutocompleteDown, "↓", "next suggestion"));
    r.push(bind1(KeyTrigger::Code(KeyCode::Up), Action::AutocompleteUp, "↑", "prev suggestion"));
    let mut cursor = make_cursor_bindings();
    r.append(&mut cursor);
    r.push(bind1(KeyTrigger::Code(KeyCode::PageUp), Action::ScrollUp, "⇞", "scroll up"));
    r.push(bind1(KeyTrigger::Code(KeyCode::PageDown), Action::ScrollDown, "⇟", "scroll down"));
    proof {
        assert(binding_models(r@) =~= headers_editing_bindings());
    }
    r
}

/// The whole table.
pub open spec fn default_table() -> Seq<RuleModel> {
    seq![
        RuleModel { screen: CurrentScreen::Main, editing: EditingMatch::Navigation, focus: None, bindings: main_bindings() },
        RuleModel { screen: CurrentScreen::Exiting, editing: EditingMatch::Navigation, focus: None, bindings: exit_bindings() },
        RuleModel { screen: CurrentScreen::Request, editing: EditingMatch::Navigation, focus: None, bindings: request_bindings() },
        RuleModel { screen: CurrentScreen::Request, editing: EditingMatch::Navigation, focus: Some(FocusableField::Body), bindings: scroll_bindings() },
        RuleModel { screen: CurrentScreen::Request, editing: EditingMatch::Navigation, focus: Some(FocusableField::RequestEvents), bindings: scroll_bindings() },
        RuleModel { screen: CurrentScreen::Request, editing: EditingMatch::Navigation, focus: Some(FocusableField::Response), bindings: scroll_bindings() },
        RuleModel { screen: CurrentScreen::Request, editing: EditingMatch::Navigation, focus: Some(FocusableField::Url), bindings: open_bindings() },
        RuleModel { screen: CurrentScreen::Request, editing: EditingMatch::Navigation, focus: Some(FocusableField::Body), bindings: open_bindings() },
        RuleModel { screen: CurrentScreen::Request, editing: EditingMatch::Navigation, focus: Some(FocusableField::Headers), bindings: headers_bindings() },
        RuleModel { screen: CurrentScreen::Request, editing: EditingMatch::Navigation, focus: Some(FocusableField::Response), bindings: response_bindings() },
        RuleModel { screen: CurrentScreen::Request, editing: EditingMatch::AnyField, focus: None, bindings: editing_bindings() },
        RuleModel { screen: CurrentScreen::Request, editing: EditingMatch::SpecificField(EditingField::Url), focus: None, bindings: url_editing_bindings() },
        RuleModel { screen: CurrentScreen::Request, editing: EditingMatch::SpecificField(EditingField::Body), focus: None, bindings: body_editing_bindings() },
        RuleModel { screen: CurrentScreen::Request, editing: EditingMatch::SpecificField(EditingField::JsonFilter), focus: None, bindings: filter_editing_bindings() },
        RuleModel { screen: CurrentScreen::Request, editing: EditingMatch::SpecificField(EditingField::StreamPrefixRegex), focus: None, bindings: filter_editing_bindings() },
        RuleModel { screen: CurrentScreen::Request, editing: EditingMatch::SpecificField(EditingField::StreamSuffixRegex), focus: None, bindings: filter_editing_bindings() },
        RuleModel { screen: CurrentScreen::Request, editing: EditingMatch::SpecificField(EditingField::Headers), focus: None, bindings: headers_editing_bindings() },
    ]
}

/// Builds the whole table.
pub(crate) fn default_rules() -> (r: Vec<ContextRule>)
    ensures
        rule_models(r@) == default_table(),
{
    let mut r: Vec<ContextRule> = Vec::new();
    r.push(ContextRule { screen: CurrentScreen::Main, editing: EditingMatch::Navigation, focus: None, bindings: make_main_bindings() });
    r.push(ContextRule { screen: CurrentScreen::Exiting, editing: EditingMatch::Navigation, focus: None, bindings: make_exit_bindings() });
    r.push(ContextRule { screen: CurrentScreen::Request, editing: EditingMatch::Navigation, focus: None, bindings: make_request_bindings() });
    r.push(ContextRule { screen: CurrentScreen::Request, editing: EditingMatch::Navigation, focus: Some(FocusableField::Body), bindings: make_scroll_bindings() });
    r.push(ContextRule { screen: CurrentScreen::Request, editing: EditingMatch::Navigation, focus: Some(FocusableField::RequestEvents), bindings: make_scroll_bindings() });
    r.push(ContextRule { screen: CurrentScreen::Request, editing: EditingMatch::Navigation, focus: Some(FocusableField::Response), bindings: make_scroll_bindings() });
    r.push(ContextRule { screen: CurrentScreen::Request, editing: EditingMatch::Navigation, focus: Some(FocusableField::Url), bindings: make_open_bindings() });
    r.push(ContextRule { screen: CurrentScreen::Request, editing: EditingMatch::Navigation, focus: Some(FocusableField::Body), bindings: make_open_bindings() });
    r.push(ContextRule { screen: CurrentScreen::Request, editing: EditingMatch::Navigation, focus: Some(FocusableField::Headers), bindings: make_headers_bindings() });
    r.push(ContextRule { screen: CurrentScreen::Request, editing: EditingMatch::Navigation, focus: Some(FocusableField::Response), bindings: make_response_bindings() });
    r.push(ContextRule { screen: CurrentScreen::Request, editing: EditingMatch::AnyField, focus: None, bindings: make_editing_bindings() });
    r.push(ContextRule { screen: CurrentScreen::Request, editing: EditingMatch::SpecificField(EditingField::Url), focus: None, bindings: make_url_editing_bindings() });
    r.push(ContextRule { screen: CurrentScreen::Request, editing: EditingMatch::SpecificField(EditingField::Body), focus: None, bindings: make_body_editing_bindings() });
    r.push(ContextRule { screen: CurrentScreen::Request, editing: EditingMatch::SpecificField(EditingField::JsonFilter), focus: None, bindings: make_filter_editing_bindings() });
    r.push(ContextRule { screen: CurrentScreen::Request, editing: EditingMatch::SpecificField(EditingField::StreamPrefixRegex), focus: None, bindings: make_filter_editing_bindings() });
    r.push(ContextRule { screen: CurrentScreen::Request, editing: EditingMatch::SpecificField(EditingField::StreamSuffixRegex), focus: None, bindings: make_filter_editing_bindings() });
    r.push(ContextRule { screen: CurrentScreen::Request, editing: EditingMatch::SpecificField(EditingField::Headers), focus: None, bindings: make_headers_editing_bindings() });
    proof {
        assert(rule_models(r@) =~= default_table());
    }
    r
}

// ── Laws ──────────────────────────────────────────────────────────────────────

/// Whether the event is a typed character: one without modifiers other than
/// shift.
pub open spec fn is_typed(event: KeyEvent) -> bool {
    &&& event.code is Char
    &&& event.modifiers == KeyModifiers::none() || event.modifiers == KeyModifiers::shift()
}

proof fn lemma_typed_cursor(event: KeyEvent)
    requires
        is_typed(event),
    ensures
        none_fires(cursor_bindings(), event),
        none_fires(editing_bindings(), event),
{
}

proof fn lemma_typed_fields(event: KeyEvent)
    requires
        is_typed(event),
    ensures
        none_fires(url_editing_bindings(), event),
        none_fires(body_editing_bindings(), event),
        none_fires(filter_editing_bindings(), event),
        none_fires(headers_editing_bindings(), event),
{
    lemma_typed_cursor(event);
    let cursor = cursor_bindings();
    assert(none_fires(url_editing_bindings(), event)) by {
        let all = url_editing_bindings();
        assert forall|i: int| 0 <= i < all.len() implies !(#[trigger] all[i]).fires(event) by {
            if 1 <= i {
                assert(all[i] == cursor[i - 1]);
            }
        }
    }
    assert(none_fires(body_editing_bindings(), event)) by {
        let all = body_editing_bindings();
        assert forall|i: int| 0 <= i < all.len() implies !(#[trigger] all[i]).fires(event) by {
            if 2 <= i {
                assert(all[i] == cursor[i - 2]);
            }
        }
    }
    assert(none_fires(filter_editing_bindings(), event)) by {
        let all = filter_editing_bindings();
        assert forall|i: int| 0 <= i < all.len() implies !(#[trigger] all[i]).fires(event) by {
            if 1 <= i {
                assert(all[i] == cursor[i - 1]);
            }
        }
    }
    assert(none_fires(headers_editing_bindings(), event)) by {
        let all = headers_editing_bindings();
        assert forall|i: int| 0 <= i < all.len() implies !(#[trigger] all[i]).fires(event) by {
            if 4 <= i < 13 {
                assert(all[i] == cursor[i - 4]);
            }
        }
    }
}

/// While a field is edited no typed character is bound, so all of them can go
/// into the text.
pub proof fn lemma_typed_is_unbound(ctx: KeyContext, event: KeyEvent)
    requires
        ctx.editing is Some,
        is_typed(event),
    ensures
        first_action(ranked(default_table(), ctx), event) is None,
{
    lemma_typed_cursor(event);
    lemma_typed_fields(event);
    let rules = default_table();
    assert forall|i: int| 0 <= i < rules.len() && (#[trigger] rules[i]).covers(
        ctx,
    ) implies none_fires(rules[i].bindings, event) by {}
    lemma_unbound(rules, ctx, event);
}

/// Whether every binding of a list that a key fires has an action.
pub open spec fn fires_alike(bindings: Seq<BindingModel>, event: KeyEvent, action: Action) -> bool {
    forall|i: int|
        0 <= i < bindings.len() && (#[trigger] bindings[i]).fires(event) ==> bindings[i].action
            == action
}

/// Whether some binding of a list is fired by a key.
pub open spec fn some_fires(bindings: Seq<BindingModel>, event: KeyEvent) -> bool {
    exists|i: int| 0 <= i < bindings.len() && (#[trigger] bindings[i]).fires(event)
}

/// What a key does in a context of the default table.
pub open spec fn default_action(ctx: KeyContext, event: KeyEvent) -> Option<Action> {
    first_action(ranked(default_table(), ctx), event)
}

proof fn lemma_covered_alike(ctx: KeyContext, event: KeyEvent, action: Action, at: int)
    requires
        0 <= at < default_table().len(),
        default_table()[at].covers(ctx),
        some_fires(default_table()[at].bindings, event),
        forall|r: int|
            0 <= r < default_table().len() && (#[trigger] default_table()[r]).covers(ctx)
                ==> fires_alike(default_table()[r].bindings, event, action),
    ensures
        default_action(ctx, event) == Some(action),
{
    let rules = default_table();
    let b = rules[at].bindings;
    let i = choose|i: int| 0 <= i < b.len() && (#[trigger] b[i]).fires(event);
    assert(rules[at].bindings[i].fires(event));
    assert forall|r: int, i: int|
        0 <= r < rules.len() && rules[r].covers(ctx) && 0 <= i < rules[r].bindings.len()
            && #[trigger] rules[r].bindings[i].fires(event) implies rules[r].bindings[i].action
        == action by {
        assert(fires_alike(rules[r].bindings, event, action));
    }
    lemma_bound_alike(rules, ctx, event, action);
}

proof fn lemma_list_covers(ctx: KeyContext)
    requires
        ctx.screen == CurrentScreen::Main || ctx.screen == CurrentScreen::Exiting,
        ctx.editing is None,
    ensures
        ctx.screen == CurrentScreen::Main ==> default_table()[0].covers(ctx),
        ctx.screen == CurrentScreen::Exiting ==> default_table()[1].covers(ctx),
        forall|r: int|
            0 <= r < default_table().len() && (#[trigger] default_table()[r]).covers(ctx) ==> r == (
            if ctx.screen == CurrentScreen::Main {
                0int
            } else {
                1int
            }),
        default_table()[0].bindings == main_bindings(),
        default_table()[1].bindings == exit_bindings(),
{
}

proof fn lemma_main_list(event: KeyEvent)
    requires
        event.modifiers == KeyModifiers::none(),
    ensures
        event.code == KeyCode::Char('q') ==> some_fires(main_bindings(), event) && fires_alike(
            main_bindings(),
            event,
            Action::TriggerExit,
        ),
        event.code == KeyCode::Char('n') ==> some_fires(main_bindings(), event) && fires_alike(
            main_bindings(),
            event,
            Action::NewRequest,
        ),
        event.code == KeyCode::Char('d') ==> some_fires(main_bindings(), event) && fires_alike(
            main_bindings(),
            event,
            Action::DeleteRequest,
        ),
        event.code == KeyCode::Char('e') || event.code == KeyCode::Enter ==> some_fires(
            main_bindings(),
            event,
        ) && fires_alike(main_bindings(), event, Action::EditRequest),
        event.code == KeyCode::Char('s') ==> some_fires(main_bindings(), event) && fires_alike(
            main_bindings(),
            event,
            Action::SaveRequests,
        ),
        event.code == KeyCode::Char('j') || event.code == KeyCode::Down ==> some_fires(
            main_bindings(),
            event,
        ) && fires_alike(main_bindings(), event, Action::SelectNextRequest),
        event.code == KeyCode::Char('k') || event.code == KeyCode::Up ==> some_fires(
            main_bindings(),
            event,
        ) && fires_alike(main_bindings(), event, Action::SelectPreviousRequest),
{
    let b = main_bindings();
    assert(b[8].triggers[0] == KeyTrigger::Char('q'));
    assert(b[4].triggers[0] == KeyTrigger::Char('n'));
    assert(b[5].triggers[0] == KeyTrigger::Char('d'));
    assert(b[6].triggers[0] == KeyTrigger::Char('e'));
    assert(b[6].triggers[1] == KeyTrigger::Code(KeyCode::Enter));
    assert(b[7].triggers[0] == KeyTrigger::Char('s'));
    assert(b[0].triggers[0] == KeyTrigger::Char('j'));
    assert(b[0].triggers[1] == KeyTrigger::Code(KeyCode::Down));
    assert(b[1].triggers[0] == KeyTrigger::Char('k'));
    assert(b[1].triggers[1] == KeyTrigger::Code(KeyCode::Up));
    if event.code == KeyCode::Char('q') {
        assert(b[8].triggers[0].fires(event));
        assert(b[8].fires(event));
    }
    if event.code == KeyCode::Char('n') {
        assert(b[4].triggers[0].fires(event));
        assert(b[4].fires(event));
    }
    if event.code == KeyCode::Char('d') {
        assert(b[5].triggers[0].fires(event));
        assert(b[5].fires(event));
    }
    if event.code == KeyCode::Char('e') {
        assert(b[6].triggers[0].fires(event));
        assert(b[6].fires(event));
    }
    if event.code == KeyCode::Enter {
        assert(b[6].triggers[1].fires(event));
        assert(b[6].fires(event));
    }
    if event.code == KeyCode::Char('s') {
        assert(b[7].triggers[0].fires(event));
        assert(b[7].fires(event));
    }
    if event.code == KeyCode::Char('j') {
        assert(b[0].triggers[0].fires(event));
        assert(b[0].fires(event));
    }
    if event.code == KeyCode::Down {
        assert(b[0].triggers[1].fires(event));
        assert(b[0].fires(event));
    }
    if event.code == KeyCode::Char('k') {
        assert(b[1].triggers[0].fires(event));
        assert(b[1].fires(event));
    }
    if event.code == KeyCode::Up {
        assert(b[1].triggers[1].fires(event));
        assert(b[1].fires(event));
    }
}

/// On the list of requests, whatever has the focus, the keys that the footer
/// names do what it says of them.
pub proof fn lemma_keys_of_the_list(ctx: KeyContext, event: KeyEvent)
    requires
        ctx.screen == CurrentScreen::Main,
        ctx.editing is None,
        event.modifiers == KeyModifiers::none(),
    ensures
        event.code == KeyCode::Char('q') ==> default_action(ctx, event) == Some(
            Action::TriggerExit,
        ),
        event.code == KeyCode::Char('n') ==> default_action(ctx, event) == Some(Action::NewRequest),
        event.code == KeyCode::Char('d') ==> default_action(ctx, event) == Some(
            Action::DeleteRequest,
        ),
        event.code == KeyCode::Char('e') || event.code == KeyCode::Enter ==> default_action(
            ctx,
            event,
        ) == Some(Action::EditRequest),
        event.code == KeyCode::Char('s') ==> default_action(ctx, event) == Some(
            Action::SaveRequests,
        ),
        event.code == KeyCode::Char('j') || event.code == KeyCode::Down ==> default_action(
            ctx,
            event,
        ) == Some(Action::SelectNextRequest),
        event.code == KeyCode::Char('k') || event.code == KeyCode::Up ==> default_action(
            ctx,
            event,
        ) == Some(Action::SelectPreviousRequest),
{
    lemma_list_covers(ctx);
    lemma_main_list(event);
    if event.code == KeyCode::Char('q') {
        lemma_covered_alike(ctx, event, Action::TriggerExit, 0);
    }
    if event.code == KeyCode::Char('n') {
        lemma_covered_alike(ctx, event, Action::NewRequest, 0);
    }
    if event.code == KeyCode::Char('d') {
        lemma_covered_alike(ctx, event, Action::DeleteRequest, 0);
    }
    if event.code == KeyCode::Char('e') || event.code == KeyCode::Enter {
        lemma_covered_alike(ctx, event, Action::EditRequest, 0);
    }
    if event.code == KeyCode::Char('s') {
        lemma_covered_alike(ctx, event, Action::SaveRequests, 0);
    }
    if event.code == KeyCode::Char('j') || event.code == KeyCode::Down {
        lemma_covered_alike(ctx, event, Action::SelectNextRequest, 0);
    }
    if event.code == KeyCode::Char('k') || event.code == KeyCode::Up {
        lemma_covered_alike(ctx, event, Action::SelectPreviousRequest, 0);
    }
}

proof fn lemma_request_list(event: KeyEvent)
    requires
        event.modifiers == KeyModifiers::none(),
    ensures
        event.code == KeyCode::Tab ==> some_fires(request_bindings(), event) && fires_alike(request_bindings(), event, Action::FocusNextField),
        event.code == KeyCode::BackTab ==> some_fires(request_bindings(), event) && fires_alike(request_bindings(), event, Action::FocusPreviousField),
        event.code == KeyCode::Char('q') || event.code == KeyCode::Esc || event.code == KeyCode::Backspace ==> some_fires(request_bindings(), event) && fires_alike(request_bindings(), event, Action::GoBack),
        event.code == KeyCode::Char('m') ==> some_fires(request_bindings(), event) && fires_alike(request_bindings(), event, Action::ToggleMethod),
        event.code == KeyCode::Char('s') ==> some_fires(request_bindings(), event) && fires_alike(request_bindings(), event, Action::SendRequest),
        event.code == KeyCode::Char('v') ==> some_fires(request_bindings(), event) && fires_alike(request_bindings(), event, Action::CycleViewMode),
        event.code == KeyCode::Char('u') ==> some_fires(request_bindings(), event) && fires_alike(request_bindings(), event, Action::JumpToUrl),
        event.code == KeyCode::Char('h') ==> some_fires(request_bindings(), event) && fires_alike(request_bindings(), event, Action::FocusHeaders),
        event.code == KeyCode::Char('b') ==> some_fires(request_bindings(), event) && fires_alike(request_bindings(), event, Action::JumpToBody),
        event.code != KeyCode::Tab && event.code != KeyCode::BackTab && event.code != KeyCode::Char('q') && event.code != KeyCode::Esc && event.code != KeyCode::Backspace && event.code != KeyCode::Char('m') && event.code != KeyCode::Char('s') && event.code != KeyCode::Char('v') && event.code != KeyCode::Char('u') && event.code != KeyCode::Char('h') && event.code != KeyCode::Char('b') ==> none_fires(request_bindings(), event),
{
    let b = request_bindings();
    assert(b[0].triggers[0] == KeyTrigger::Code(KeyCode::Tab));
    assert(b[1].triggers[0] == KeyTrigger::Code(KeyCode::BackTab));
    assert(b[2].triggers[0] == KeyTrigger::Char('q'));
    assert(b[2].triggers[1] == KeyTrigger::Code(KeyCode::Esc));
    assert(b[2].triggers[2] == KeyTrigger::Code(KeyCode::Backspace));
    assert(b[4].triggers[0] == KeyTrigger::Char('m'));
    assert(b[5].triggers[0] == KeyTrigger::Char('s'));
    assert(b[6].triggers[0] == KeyTrigger::Char('v'));
    assert(b[7].triggers[0] == KeyTrigger::Char('u'));
    assert(b[8].triggers[0] == KeyTrigger::Char('h'));
    assert(b[9].triggers[0] == KeyTrigger::Char('b'));
    if event.code == KeyCode::Tab {
        assert(b[0].triggers[0].fires(event));
        assert(b[0].fires(event));
    }
    if event.code == KeyCode::BackTab {
        assert(b[1].triggers[0].fires(event));
        assert(b[1].fires(event));
    }
    if event.code == KeyCode::Char('q') {
        assert(b[2].triggers[0].fires(event));
        assert(b[2].fires(event));
    }
    if event.code == KeyCode::Esc {
        assert(b[2].triggers[1].fires(event));
        assert(b[2].fires(event));
    }
    if event.code == KeyCode::Backspace {
        assert(b[2].triggers[2].fires(event));
        assert(b[2].fires(event));
    }
    if event.code == KeyCode::Char('m') {
        assert(b[4].triggers[0].fires(event));
        assert(b[4].fires(event));
    }
    if event.code == KeyCode::Char('s') {
        assert(b[5].triggers[0].fires(event));
        assert(b[5].fires(event));
    }
    if event.code == KeyCode::Char('v') {
        assert(b[6].triggers[0].fires(event));
        assert(b[6].fires(event));
    }
    if event.code == KeyCode::Char('u') {
        assert(b[7].triggers[0].fires(event));
        assert(b[7].fires(event));
    }
    if event.code == KeyCode::Char('h') {
        assert(b[8].triggers[0].fires(event));
        assert(b[8].fires(event));
    }
    if event.code == KeyCode::Char('b') {
        assert(b[9].triggers[0].fires(event));
        assert(b[9].fires(event));
    }
}

proof fn lemma_scroll_list(event: KeyEvent)
    requires
        event.modifiers == KeyModifiers::none(),
    ensures
        event.code == KeyCode::Char('j') || event.code == KeyCode::Down ==> some_fires(scroll_bindings(), event) && fires_alike(scroll_bindings(), event, Action::ScrollDown),
        event.code == KeyCode::Char('k') || event.code == KeyCode::Up ==> some_fires(scroll_bindings(), event) && fires_alike(scroll_bindings(), event, Action::ScrollUp),
        event.code == KeyCode::PageDown ==> some_fires(scroll_bindings(), event) && fires_alike(scroll_bindings(), event, Action::PageDown),
        event.code == KeyCode::PageUp ==> some_fires(scroll_bindings(), event) && fires_alike(scroll_bindings(), event, Action::PageUp),
        event.code != KeyCode::Char('j') && event.code != KeyCode::Down && event.code != KeyCode::Char('k') && event.code != KeyCode::Up && event.code != KeyCode::PageDown && event.code != KeyCode::PageUp ==> none_fires(scroll_bindings(), event),
{
    let b = scroll_bindings();
    assert(b[0].triggers[0] == KeyTrigger::Char('j'));
    assert(b[0].triggers[1] == KeyTrigger::Code(KeyCode::Down));
    assert(b[1].triggers[0] == KeyTrigger::Char('k'));
    assert(b[1].triggers[1] == KeyTrigger::Code(KeyCode::Up));
    assert(b[2].triggers[0] == KeyTrigger::Code(KeyCode::PageDown));
    assert(b[3].triggers[0] == KeyTrigger::Code(KeyCode::PageUp));
    if event.code == KeyCode::Char('j') {
        assert(b[0].triggers[0].fires(event));
        assert(b[0].fires(event));
    }
    if event.code == KeyCode::Down {
        assert(b[0].triggers[1].fires(event));
        assert(b[0].fires(event));
    }
    if event.code == KeyCode::Char('k') {
        assert(b[1].triggers[0].fires(event));
        assert(b[1].fires(event));
    }
    if event.code == KeyCode::Up {
        assert(b[1].triggers[1].fires(event));
        assert(b[1].fires(event));
    }
    if event.code == KeyCode::PageDown {
        assert(b[2].triggers[0].fires(event));
        assert(b[2].fires(event));
    }
    if event.code == KeyCode::PageUp {
        assert(b[3].triggers[0].fires(event));
        assert(b[3].fires(event));
    }
}

proof fn lemma_open_list(event: KeyEvent)
    requires
        event.modifiers == KeyModifiers::none(),
    ensures
        event.code == KeyCode::Char('e') || event.code == KeyCode::Enter ==> some_fires(open_bindings(), event) && fires_alike(open_bindings(), event, Action::EditFocusedField),
        event.code != KeyCode::Char('e') && event.code != KeyCode::Enter ==> none_fires(open_bindings(), event),
{
    let b = open_bindings();
    assert(b[0].triggers[0] == KeyTrigger::Char('e'));
    assert(b[0].triggers[1] == KeyTrigger::Code(KeyCode::Enter));
    if event.code == KeyCode::Char('e') {
        assert(b[0].triggers[0].fires(event));
        assert(b[0].fires(event));
    }
    if event.code == KeyCode::Enter {
        assert(b[0].triggers[1].fires(event));
        assert(b[0].fires(event));
    }
}

proof fn lemma_headers_list(event: KeyEvent)
    requires
        event.modifiers == KeyModifiers::none(),
    ensures
        event.code == KeyCode::Char('j') || event.code == KeyCode::Down || event.code == KeyCode::PageDown ==> some_fires(headers_bindings(), event) && fires_alike(headers_bindings(), event, Action::SelectNextHeader),
        event.code == KeyCode::Char('k') || event.code == KeyCode::Up || event.code == KeyCode::PageUp ==> some_fires(headers_bindings(), event) && fires_alike(headers_bindings(), event, Action::SelectPreviousHeader),
        event.code == KeyCode::Char('e') || event.code == KeyCode::Enter ==> some_fires(headers_bindings(), event) && fires_alike(headers_bindings(), event, Action::EditSelectedHeader),
        event.code == KeyCode::Char('a') ==> some_fires(headers_bindings(), event) && fires_alike(headers_bindings(), event, Action::AddHeader),
        event.code == KeyCode::Char('d') ==> some_fires(headers_bindings(), event) && fires_alike(headers_bindings(), event, Action::DeleteHeader),
        event.code != KeyCode::Char('j') && event.code != KeyCode::Down && event.code != KeyCode::Char('k') && event.code != KeyCode::Up && event.code != KeyCode::PageDown && event.code != KeyCode::PageUp && event.code != KeyCode::Char('e') && event.code != KeyCode::Enter && event.code != KeyCode::Char('a') && event.code != KeyCode::Char('d') ==> none_fires(headers_bindings(), event),
{
    let b = headers_bindings();
    assert(b[0].triggers[0] == KeyTrigger::Char('j'));
    assert(b[0].triggers[1] == KeyTrigger::Code(KeyCode::Down));
    assert(b[1].triggers[0] == KeyTrigger::Char('k'));
    assert(b[1].triggers[1] == KeyTrigger::Code(KeyCode::Up));
    assert(b[2].triggers[0] == KeyTrigger::Code(KeyCode::PageDown));
    assert(b[3].triggers[0] == KeyTrigger::Code(KeyCode::PageUp));
    assert(b[4].triggers[0] == KeyTrigger::Char('e'));
    assert(b[4].triggers[1] == KeyTrigger::Code(KeyCode::Enter));
    assert(b[5].triggers[0] == KeyTrigger::Char('a'));
    assert(b[6].triggers[0] == KeyTrigger::Char('d'));
    if event.code == KeyCode::Char('j') {
        assert(b[0].triggers[0].fires(event));
        assert(b[0].fires(event));
    }
    if event.code == KeyCode::Down {
        assert(b[0].triggers[1].fires(event));
        assert(b[0].fires(event));
    }
    if event.code == KeyCode::Char('k') {
        assert(b[1].triggers[0].fires(event));
        assert(b[1].fires(event));
    }
    if event.code == KeyCode::Up {
        assert(b[1].triggers[1].fires(event));
        assert(b[1].fires(event));
    }
    if event.code == KeyCode::PageDown {
        assert(b[2].triggers[0].fires(event));
        assert(b[2].fires(event));
    }
    if event.code == KeyCode::PageUp {
        assert(b[3].triggers[0].fires(event));
        assert(b[3].fires(event));
    }
    if event.code == KeyCode::Char('e') {
        assert(b[4].triggers[0].fires(event));
        assert(b[4].fires(event));
    }
    if event.code == KeyCode::Enter {
        assert(b[4].triggers[1].fires(event));
        assert(b[4].fires(event));
    }
    if event.code == KeyCode::Char('a') {
        assert(b[5].triggers[0].fires(event));
        assert(b[5].fires(event));
    }
    if event.code == KeyCode::Char('d') {
        assert(b[6].triggers[0].fires(event));
        assert(b[6].fires(event));
    }
}

proof fn lemma_response_list(event: KeyEvent)
    requires
        event.modifiers == KeyModifiers::none(),
    ensures
        event.code == KeyCode::Char('f') ==> some_fires(response_bindings(), event) && fires_alike(response_bindings(), event, Action::EditJqFilter),
        event.code == KeyCode::Char('p') ==> some_fires(response_bindings(), event) && fires_alike(response_bindings(), event, Action::EditStreamPrefixRegex),
        event.code == KeyCode::Char('x') ==> some_fires(response_bindings(), event) && fires_alike(response_bindings(), event, Action::EditStreamSuffixRegex),
        event.code != KeyCode::Char('f') && event.code != KeyCode::Char('p') && event.code != KeyCode::Char('x') ==> none_fires(response_bindings(), event),
{
    let b = response_bindings();
    assert(b[0].triggers[0] == KeyTrigger::Char('f'));
    assert(b[1].triggers[0] == KeyTrigger::Char('p'));
    assert(b[2].triggers[0] == KeyTrigger::Char('x'));
    if event.code == KeyCode::Char('f') {
        assert(b[0].triggers[0].fires(event));
        assert(b[0].fires(event));
    }
    if event.code == KeyCode::Char('p') {
        assert(b[1].triggers[0].fires(event));
        assert(b[1].fires(event));
    }
    if event.code == KeyCode::Char('x') {
        assert(b[2].triggers[0].fires(event));
        assert(b[2].fires(event));
    }
}

proof fn lemma_request_covers(ctx: KeyContext)
    requires
        ctx.screen == CurrentScreen::Request,
        ctx.editing is None,
    ensures
        default_table()[2].covers(ctx),
        default_table()[2].bindings == request_bindings(),
        default_table()[3].covers(ctx) <==> ctx.focus == FocusableField::Body,
        default_table()[4].covers(ctx) <==> ctx.focus == FocusableField::RequestEvents,
        default_table()[5].covers(ctx) <==> ctx.focus == FocusableField::Response,
        default_table()[6].covers(ctx) <==> ctx.focus == FocusableField::Url,
        default_table()[7].covers(ctx) <==> ctx.focus == FocusableField::Body,
        default_table()[8].covers(ctx) <==> ctx.focus == FocusableField::Headers,
        default_table()[9].covers(ctx) <==> ctx.focus == FocusableField::Response,
        default_table()[3].bindings == scroll_bindings(),
        default_table()[4].bindings == scroll_bindings(),
        default_table()[5].bindings == scroll_bindings(),
        default_table()[6].bindings == open_bindings(),
        default_table()[7].bindings == open_bindings(),
        default_table()[8].bindings == headers_bindings(),
        default_table()[9].bindings == response_bindings(),
        forall|r: int|
            0 <= r < default_table().len() && (#[trigger] default_table()[r]).covers(ctx) ==> 2 <= r
                <= 9,
{
}

/// On the screen of a request with nothing edited, whatever has the focus, the
/// keys that lead on, send, go back and jump do so.
pub proof fn lemma_keys_of_the_request(ctx: KeyContext, event: KeyEvent)
    requires
        ctx.screen == CurrentScreen::Request,
        ctx.editing is None,
        event.modifiers == KeyModifiers::none(),
    ensures
        event.code == KeyCode::Tab ==> default_action(ctx, event) == Some(Action::FocusNextField),
        event.code == KeyCode::BackTab ==> default_action(ctx, event) == Some(Action::FocusPreviousField),
        event.code == KeyCode::Char('q') || event.code == KeyCode::Esc || event.code == KeyCode::Backspace ==> default_action(ctx, event) == Some(Action::GoBack),
        event.code == KeyCode::Char('m') ==> default_action(ctx, event) == Some(Action::ToggleMethod),
        event.code == KeyCode::Char('s') ==> default_action(ctx, event) == Some(Action::SendRequest),
        event.code == KeyCode::Char('v') ==> default_action(ctx, event) == Some(Action::CycleViewMode),
        event.code == KeyCode::Char('u') ==> default_action(ctx, event) == Some(Action::JumpToUrl),
        event.code == KeyCode::Char('h') ==> default_action(ctx, event) == Some(Action::FocusHeaders),
        event.code == KeyCode::Char('b') ==> default_action(ctx, event) == Some(Action::JumpToBody),
{
    lemma_request_covers(ctx);
    lemma_request_list(event);
    lemma_scroll_list(event);
    lemma_open_list(event);
    lemma_headers_list(event);
    lemma_response_list(event);
    let at: int = 2;
    if event.code == KeyCode::Tab {
        lemma_covered_alike(ctx, event, Action::FocusNextField, at);
    }
    if event.code == KeyCode::BackTab {
        lemma_covered_alike(ctx, event, Action::FocusPreviousField, at);
    }
    if event.code == KeyCode::Char('q') || event.code == KeyCode::Esc || event.code == KeyCode::Backspace {
        lemma_covered_alike(ctx, event, Action::GoBack, at);
    }
    if event.code == KeyCode::Char('m') {
        lemma_covered_alike(ctx, event, Action::ToggleMethod, at);
    }
    if event.code == KeyCode::Char('s') {
        lemma_covered_alike(ctx, event, Action::SendRequest, at);
    }
    if event.code == KeyCode::Char('v') {
        lemma_covered_alike(ctx, event, Action::CycleViewMode, at);
    }
    if event.code == KeyCode::Char('u') {
        lemma_covered_alike(ctx, event, Action::JumpToUrl, at);
    }
    if event.code == KeyCode::Char('h') {
        lemma_covered_alike(ctx, event, Action::FocusHeaders, at);
    }
    if event.code == KeyCode::Char('b') {
        lemma_covered_alike(ctx, event, Action::JumpToBody, at);
    }
}

/// With the focus on the body, the events or the answer, the keys that scroll
/// do so.
pub proof fn lemma_keys_of_the_scrolled(ctx: KeyContext, event: KeyEvent)
    requires
        ctx.screen == CurrentScreen::Request,
        ctx.editing is None,
        ctx.focus == FocusableField::Body || ctx.focus == FocusableField::RequestEvents || ctx.focus
            == FocusableField::Response,
        event.modifiers == KeyModifiers::none(),
    ensures
        event.code == KeyCode::Char('j') || event.code == KeyCode::Down ==> default_action(ctx, event) == Some(Action::ScrollDown),
        event.code == KeyCode::Char('k') || event.code == KeyCode::Up ==> default_action(ctx, event) == Some(Action::ScrollUp),
        event.code == KeyCode::PageDown ==> default_action(ctx, event) == Some(Action::PageDown),
        event.code == KeyCode::PageUp ==> default_action(ctx, event) == Some(Action::PageUp),
{
    lemma_request_covers(ctx);
    lemma_request_list(event);
    lemma_scroll_list(event);
    lemma_open_list(event);
    lemma_headers_list(event);
    lemma_response_list(event);
    let at: int = if ctx.focus == FocusableField::Body {
        3
    } else if ctx.focus == FocusableField::RequestEvents {
        4
    } else {
        5
    };
    if event.code == KeyCode::Char('j') || event.code == KeyCode::Down {
        lemma_covered_alike(ctx, event, Action::ScrollDown, at);
    }
    if event.code == KeyCode::Char('k') || event.code == KeyCode::Up {
        lemma_covered_alike(ctx, event, Action::ScrollUp, at);
    }
    if event.code == KeyCode::PageDown {
        lemma_covered_alike(ctx, event, Action::PageDown, at);
    }
    if event.code == KeyCode::PageUp {
        lemma_covered_alike(ctx, event, Action::PageUp, at);
    }
}

/// With the focus on the headers, the keys that select, edit, add and delete
/// them do so.
pub proof fn lemma_keys_of_the_headers(ctx: KeyContext, event: KeyEvent)
    requires
        ctx.screen == CurrentScreen::Request,
        ctx.editing is None,
        ctx.focus == FocusableField::Headers,
        event.modifiers == KeyModifiers::none(),
    ensures
        event.code == KeyCode::Char('j') || event.code == KeyCode::Down || event.code == KeyCode::PageDown ==> default_action(ctx, event) == Some(Action::SelectNextHeader),
        event.code == KeyCode::Char('k') || event.code == KeyCode::Up || event.code == KeyCode::PageUp ==> default_action(ctx, event) == Some(Action::SelectPreviousHeader),
        event.code == KeyCode::Char('e') || event.code == KeyCode::Enter ==> default_action(ctx, event) == Some(Action::EditSelectedHeader),
        event.code == KeyCode::Char('a') ==> default_action(ctx, event) == Some(Action::AddHeader),
        event.code == KeyCode::Char('d') ==> default_action(ctx, event) == Some(Action::DeleteHeader),
{
    lemma_request_covers(ctx);
    lemma_request_list(event);
    lemma_scroll_list(event);
    lemma_open_list(event);
    lemma_headers_list(event);
    lemma_response_list(event);
    let at: int = 8;
    if event.code == KeyCode::Char('j') || event.code == KeyCode::Down || event.code == KeyCode::PageDown {
        lemma_covered_alike(ctx, event, Action::SelectNextHeader, at);
    }
    if event.code == KeyCode::Char('k') || event.code == KeyCode::Up || event.code == KeyCode::PageUp {
        lemma_covered_alike(ctx, event, Action::SelectPreviousHeader, at);
    }
    if event.code == KeyCode::Char('e') || event.code == KeyCode::Enter {
        lemma_covered_alike(ctx, event, Action::EditSelectedHeader, at);
    }
    if event.code == KeyCode::Char('a') {
        lemma_covered_alike(ctx, event, Action::AddHeader, at);
    }
    if event.code == KeyCode::Char('d') {
        lemma_covered_alike(ctx, event, Action::DeleteHeader, at);
    }
}

/// With the focus on the answer, the keys that edit its filter and patterns do
/// so.
pub proof fn lemma_keys_of_the_answer(ctx: KeyContext, event: KeyEvent)
    requires
        ctx.screen == CurrentScreen::Request,
        ctx.editing is None,
        ctx.focus == FocusableField::Response,
        event.modifiers == KeyModifiers::none(),
    ensures
        event.code == KeyCode::Char('f') ==> default_action(ctx, event) == Some(Action::EditJqFilter),
        event.code == KeyCode::Char('p') ==> default_action(ctx, event) == Some(Action::EditStreamPrefixRegex),
        event.code == KeyCode::Char('x') ==> default_action(ctx, event) == Some(Action::EditStreamSuffixRegex),
{
    lemma_request_covers(ctx);
    lemma_request_list(event);
    lemma_scroll_list(event);
    lemma_open_list(event);
    lemma_headers_list(event);
    lemma_response_list(event);
    let at: int = 9;
    if event.code == KeyCode::Char('f') {
        lemma_covered_alike(ctx, event, Action::EditJqFilter, at);
    }
    if event.code == KeyCode::Char('p') {
        lemma_covered_alike(ctx, event, Action::EditStreamPrefixRegex, at);
    }
    if event.code == KeyCode::Char('x') {
        lemma_covered_alike(ctx, event, Action::EditStreamSuffixRegex, at);
    }
}

/// With the focus on the address or the body, the keys that edit it do so.
pub proof fn lemma_keys_that_open(ctx: KeyContext, event: KeyEvent)
    requires
        ctx.screen == CurrentScreen::Request,
        ctx.editing is None,
        ctx.focus == FocusableField::Url || ctx.focus == FocusableField::Body,
        event.modifiers == KeyModifiers::none(),
    ensures
        event.code == KeyCode::Char('e') || event.code == KeyCode::Enter ==> default_action(ctx, event) == Some(Action::EditFocusedField),
{
    lemma_request_covers(ctx);
    lemma_request_list(event);
    lemma_scroll_list(event);
    lemma_open_list(event);
    lemma_headers_list(event);
    lemma_response_list(event);
    let at: int = if ctx.focus == FocusableField::Url {
        6
    } else {
        7
    };
    if event.code == KeyCode::Char('e') || event.code == KeyCode::Enter {
        lemma_covered_alike(ctx, event, Action::EditFocusedField, at);
    }
}

proof fn lemma_exit_list(event: KeyEvent)
    requires
        event.modifiers == KeyModifiers::none(),
    ensures
        event.code == KeyCode::Char('y') || event.code == KeyCode::Enter ==> some_fires(exit_bindings(), event) && fires_alike(exit_bindings(), event, Action::ConfirmExit),
        event.code == KeyCode::Char('n') || event.code == KeyCode::Char('q') || event.code == KeyCode::Esc ==> some_fires(exit_bindings(), event) && fires_alike(exit_bindings(), event, Action::CancelExit),
        event.code != KeyCode::Char('y') && event.code != KeyCode::Enter ==> !some_fires(exit_bindings(), event) || fires_alike(exit_bindings(), event, Action::CancelExit),
{
    let b = exit_bindings();
    assert(b[0].triggers[0] == KeyTrigger::Char('y'));
    assert(b[0].triggers[1] == KeyTrigger::Code(KeyCode::Enter));
    assert(b[1].triggers[0] == KeyTrigger::Char('n'));
    assert(b[1].triggers[1] == KeyTrigger::Char('q'));
    assert(b[1].triggers[2] == KeyTrigger::Code(KeyCode::Esc));
    if event.code == KeyCode::Char('y') {
        assert(b[0].triggers[0].fires(event));
        assert(b[0].fires(event));
    }
    if event.code == KeyCode::Enter {
        assert(b[0].triggers[1].fires(event));
        assert(b[0].fires(event));
    }
    if event.code == KeyCode::Char('n') {
        assert(b[1].triggers[0].fires(event));
        assert(b[1].fires(event));
    }
    if event.code == KeyCode::Char('q') {
        assert(b[1].triggers[1].fires(event));
        assert(b[1].fires(event));
    }
    if event.code == KeyCode::Esc {
        assert(b[1].triggers[2].fires(event));
        assert(b[1].fires(event));
    }
}

/// Asked whether to leave, only yes leaves, and no goes back.
pub proof fn lemma_keys_of_the_question(ctx: KeyContext, event: KeyEvent)
    requires
        ctx.screen == CurrentScreen::Exiting,
        ctx.editing is None,
        event.modifiers == KeyModifiers::none(),
    ensures
        event.code == KeyCode::Char('y') || event.code == KeyCode::Enter ==> default_action(ctx, event) == Some(Action::ConfirmExit),
        event.code == KeyCode::Char('n') || event.code == KeyCode::Char('q') || event.code == KeyCode::Esc ==> default_action(ctx, event) == Some(Action::CancelExit),
{
    lemma_list_covers(ctx);
    lemma_exit_list(event);
    if event.code == KeyCode::Char('y') || event.code == KeyCode::Enter {
        lemma_covered_alike(ctx, event, Action::ConfirmExit, 1);
    }
    if event.code == KeyCode::Char('n') || event.code == KeyCode::Char('q') || event.code == KeyCode::Esc {
        lemma_covered_alike(ctx, event, Action::CancelExit, 1);
    }
}

proof fn lemma_editing_lists(event: KeyEvent)
    requires
        event.modifiers == KeyModifiers::none(),
    ensures
        event.code == KeyCode::Esc ==> some_fires(editing_bindings(), event) && fires_alike(editing_bindings(), event, Action::CancelEdit) && none_fires(cursor_bindings(), event),
        event.code == KeyCode::Backspace ==> some_fires(editing_bindings(), event) && fires_alike(editing_bindings(), event, Action::DeleteChar) && none_fires(cursor_bindings(), event),
        event.code == KeyCode::Enter ==> none_fires(editing_bindings(), event) && none_fires(cursor_bindings(), event),
        event.code == KeyCode::Left ==> none_fires(editing_bindings(), event) && cursor_bindings()[0].fires(event) && fires_alike(cursor_bindings(), event, Action::CursorLeft),
        event.code == KeyCode::Right ==> none_fires(editing_bindings(), event) && cursor_bindings()[1].fires(event) && fires_alike(cursor_bindings(), event, Action::CursorRight),
        event.code == KeyCode::Home ==> none_fires(editing_bindings(), event) && cursor_bindings()[4].fires(event) && fires_alike(cursor_bindings(), event, Action::CursorHome),
        event.code == KeyCode::End ==> none_fires(editing_bindings(), event) && cursor_bindings()[5].fires(event) && fires_alike(cursor_bindings(), event, Action::CursorEnd),
        event.code == KeyCode::Delete ==> none_fires(editing_bindings(), event) && cursor_bindings()[6].fires(event) && fires_alike(cursor_bindings(), event, Action::DeleteNextChar),
{
    let e = editing_bindings();
    let c = cursor_bindings();
    assert(e[0].triggers[0] == KeyTrigger::Code(KeyCode::Esc));
    assert(e[1].triggers[0] == KeyTrigger::Code(KeyCode::Backspace));
    assert(c[0].triggers[0] == KeyTrigger::Code(KeyCode::Left));
    assert(c[1].triggers[0] == KeyTrigger::Code(KeyCode::Right));
    assert(c[4].triggers[0] == KeyTrigger::Code(KeyCode::Home));
    assert(c[5].triggers[0] == KeyTrigger::Code(KeyCode::End));
    assert(c[6].triggers[0] == KeyTrigger::Code(KeyCode::Delete));
    if event.code == KeyCode::Esc {
        assert(e[0].triggers[0].fires(event));
        assert(e[0].fires(event));
    }
    if event.code == KeyCode::Backspace {
        assert(e[1].triggers[0].fires(event));
        assert(e[1].fires(event));
    }
    if event.code == KeyCode::Left {
        assert(c[0].triggers[0].fires(event));
    }
    if event.code == KeyCode::Right {
        assert(c[1].triggers[0].fires(event));
    }
    if event.code == KeyCode::Home {
        assert(c[4].triggers[0].fires(event));
    }
    if event.code == KeyCode::End {
        assert(c[5].triggers[0].fires(event));
    }
    if event.code == KeyCode::Delete {
        assert(c[6].triggers[0].fires(event));
    }
}

proof fn lemma_alike_behind(
    front: Seq<BindingModel>,
    behind: Seq<BindingModel>,
    event: KeyEvent,
    action: Action,
)
    requires
        fires_alike(front, event, action),
        fires_alike(behind, event, action),
    ensures
        fires_alike(front + behind, event, action),
        some_fires(front, event) || some_fires(behind, event) ==> some_fires(front + behind, event),
{
    let all = front + behind;
    assert forall|i: int| 0 <= i < all.len() && (#[trigger] all[i]).fires(event) implies all[i].action
        == action by {
        if i < front.len() {
            assert(all[i] == front[i]);
        } else {
            assert(all[i] == behind[i - front.len()]);
        }
    }
    if some_fires(front, event) {
        let i = choose|i: int| 0 <= i < front.len() && (#[trigger] front[i]).fires(event);
        assert(all[i].fires(event));
    }
    if some_fires(behind, event) {
        let i = choose|i: int| 0 <= i < behind.len() && (#[trigger] behind[i]).fires(event);
        assert(all[front.len() + i].fires(event));
    }
}

proof fn lemma_edited_covers(ctx: KeyContext, field: EditingField)
    requires
        ctx.screen == CurrentScreen::Request,
        ctx.editing == Some(field),
    ensures
        default_table()[10].covers(ctx),
        default_table()[10].bindings == editing_bindings(),
        default_table()[11].covers(ctx) <==> field == EditingField::Url,
        default_table()[11].bindings == url_editing_bindings(),
        default_table()[12].covers(ctx) <==> field == EditingField::Body,
        default_table()[12].bindings == body_editing_bindings(),
        default_table()[13].covers(ctx) <==> field == EditingField::JsonFilter,
        default_table()[13].bindings == filter_editing_bindings(),
        default_table()[14].covers(ctx) <==> field == EditingField::StreamPrefixRegex,
        default_table()[14].bindings == filter_editing_bindings(),
        default_table()[15].covers(ctx) <==> field == EditingField::StreamSuffixRegex,
        default_table()[15].bindings == filter_editing_bindings(),
        default_table()[16].covers(ctx) <==> field == EditingField::Headers,
        default_table()[16].bindings == headers_editing_bindings(),
        forall|r: int|
            0 <= r < default_table().len() && (#[trigger] default_table()[r]).covers(ctx) ==> 10
                <= r <= 16,
{
}

proof fn lemma_edited_lists(event: KeyEvent, action: Action)
    requires
        event.modifiers == KeyModifiers::none(),
        event.code == KeyCode::Esc || event.code == KeyCode::Backspace || event.code
            == KeyCode::Left || event.code == KeyCode::Right || event.code == KeyCode::Home
            || event.code == KeyCode::End || event.code == KeyCode::Delete,
        fires_alike(cursor_bindings(), event, action),
    ensures
        fires_alike(url_editing_bindings(), event, action),
        fires_alike(body_editing_bindings(), event, action),
        fires_alike(filter_editing_bindings(), event, action),
        fires_alike(headers_editing_bindings(), event, action),
        some_fires(cursor_bindings(), event) ==> some_fires(url_editing_bindings(), event)
            && some_fires(body_editing_bindings(), event) && some_fires(
            filter_editing_bindings(),
            event,
        ) && some_fires(headers_editing_bindings(), event),
{
    let c = cursor_bindings();
    let url = url_editing_bindings();
    let body = body_editing_bindings();
    let filter = filter_editing_bindings();
    let headers = headers_editing_bindings();
    assert(url =~= url.take(1) + c);
    assert(body =~= body.take(2) + c);
    assert(filter =~= filter.take(1) + c);
    assert(headers =~= headers.take(4) + c + headers.skip(13));
    assert(fires_alike(url.take(1), event, action));
    assert(fires_alike(body.take(2), event, action));
    assert(fires_alike(filter.take(1), event, action));
    assert(fires_alike(headers.take(4), event, action));
    assert(fires_alike(headers.skip(13), event, action));
    lemma_alike_behind(url.take(1), c, event, action);
    lemma_alike_behind(body.take(2), c, event, action);
    lemma_alike_behind(filter.take(1), c, event, action);
    lemma_alike_behind(headers.take(4), c, event, action);
    lemma_alike_behind(headers.take(4) + c, headers.skip(13), event, action);
}

/// Whatever is edited, the escape key cancels, backspace deletes, and the keys
/// of the cursor move it.
pub proof fn lemma_keys_of_every_edit(ctx: KeyContext, event: KeyEvent, field: EditingField)
    requires
        ctx.screen == CurrentScreen::Request,
        ctx.editing == Some(field),
        event.modifiers == KeyModifiers::none(),
    ensures
        event.code == KeyCode::Esc ==> default_action(ctx, event) == Some(Action::CancelEdit),
        event.code == KeyCode::Backspace ==> default_action(ctx, event) == Some(Action::DeleteChar),
        event.code == KeyCode::Left ==> default_action(ctx, event) == Some(Action::CursorLeft),
        event.code == KeyCode::Right ==> default_action(ctx, event) == Some(Action::CursorRight),
        event.code == KeyCode::Home ==> default_action(ctx, event) == Some(Action::CursorHome),
        event.code == KeyCode::End ==> default_action(ctx, event) == Some(Action::CursorEnd),
        event.code == KeyCode::Delete ==> default_action(ctx, event) == Some(Action::DeleteNextChar),
{
    lemma_edited_covers(ctx, field);
    lemma_editing_lists(event);
    let at: int = match field {
        EditingField::Url => 11,
        EditingField::Body => 12,
        EditingField::JsonFilter => 13,
        EditingField::StreamPrefixRegex => 14,
        EditingField::StreamSuffixRegex => 15,
        EditingField::Headers => 16,
    };
    if event.code == KeyCode::Esc {
        lemma_edited_lists(event, Action::CancelEdit);
        lemma_covered_alike(ctx, event, Action::CancelEdit, 10);
    }
    if event.code == KeyCode::Backspace {
        lemma_edited_lists(event, Action::DeleteChar);
        lemma_covered_alike(ctx, event, Action::DeleteChar, 10);
    }
    if event.code == KeyCode::Left {
        lemma_edited_lists(event, Action::CursorLeft);
        lemma_covered_alike(ctx, event, Action::CursorLeft, at);
    }
    if event.code == KeyCode::Right {
        lemma_edited_lists(event, Action::CursorRight);
        lemma_covered_alike(ctx, event, Action::CursorRight, at);
    }
    if event.code == KeyCode::Home {
        lemma_edited_lists(event, Action::CursorHome);
        lemma_covered_alike(ctx, event, Action::CursorHome, at);
    }
    if event.code == KeyCode::End {
        lemma_edited_lists(event, Action::CursorEnd);
        lemma_covered_alike(ctx, event, Action::CursorEnd, at);
    }
    if event.code == KeyCode::Delete {
        lemma_edited_lists(event, Action::DeleteNextChar);
        lemma_covered_alike(ctx, event, Action::DeleteNextChar, at);
    }
}

/// The enter key confirms what is edited, but in the body it begins a line.
pub proof fn lemma_enter_confirms(ctx: KeyContext, event: KeyEvent, field: EditingField)
    requires
        ctx.screen == CurrentScreen::Request,
        ctx.editing == Some(field),
        event.modifiers == KeyModifiers::none(),
        event.code == KeyCode::Enter,
    ensures
        field != EditingField::Body ==> default_action(ctx, event) == Some(Action::ConfirmEdit),
        field == EditingField::Body ==> default_action(ctx, event) == Some(Action::InsertNewline),
{
    lemma_edited_covers(ctx, field);
    lemma_editing_lists(event);
    let c = cursor_bindings();
    let url = url_editing_bindings();
    let body = body_editing_bindings();
    let filter = filter_editing_bindings();
    let headers = headers_editing_bindings();
    let confirm = Action::ConfirmEdit;
    let newline = Action::InsertNewline;
    assert(url =~= url.take(1) + c);
    assert(body =~= body.take(2) + c);
    assert(filter =~= filter.take(1) + c);
    assert(headers =~= headers.take(4) + c + headers.skip(13));
    assert(url.take(1)[0].triggers[0].fires(event));
    assert(url.take(1)[0].fires(event));
    assert(body.take(2)[0].triggers[0].fires(event));
    assert(body.take(2)[0].fires(event));
    assert(filter.take(1)[0].triggers[0].fires(event));
    assert(filter.take(1)[0].fires(event));
    assert(headers.take(4)[1].triggers[0].fires(event));
    assert(headers.take(4)[1].fires(event));
    assert(fires_alike(url.take(1), event, confirm));
    assert(fires_alike(body.take(2), event, newline));
    assert(fires_alike(filter.take(1), event, confirm));
    assert(fires_alike(headers.take(4), event, confirm));
    assert(fires_alike(headers.skip(13), event, confirm));
    lemma_alike_behind(url.take(1), c, event, confirm);
    lemma_alike_behind(body.take(2), c, event, newline);
    lemma_alike_behind(filter.take(1), c, event, confirm);
    lemma_alike_behind(headers.take(4), c, event, confirm);
    lemma_alike_behind(headers.take(4) + c, headers.skip(13), event, confirm);
    match field {
        EditingField::Url => lemma_covered_alike(ctx, event, confirm, 11),
        EditingField::Body => lemma_covered_alike(ctx, event, newline, 12),
        EditingField::JsonFilter => lemma_covered_alike(ctx, event, confirm, 13),
        EditingField::StreamPrefixRegex => lemma_covered_alike(ctx, event, confirm, 14),
        EditingField::StreamSuffixRegex => lemma_covered_alike(ctx, event, confirm, 15),
        EditingField::Headers => lemma_covered_alike(ctx, event, confirm, 16),
    }
}
} // verus!
