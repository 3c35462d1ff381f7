//! What the user's keys do.

use vstd::prelude::*;
use vstd::utf8::is_ascii_chars;

use crate::app::{
    scrolled_down, scrolled_up, App, AppModel, AutocompleteState, CurrentScreen, EditingField,
    FocusableField, HeaderField, ResponseViewMode, SCROLL_TO_END,
};
use crate::default_keymap::is_typed;
use crate::editing::{
    can_delete_backward, can_delete_forward, delete_word_backward, delete_word_forward,
    insert_char, left_of_word, remove_char, right_of_word, with_inserted, with_removed,
    word_deleted_backward, word_deleted_forward, word_left, word_right,
};
use crate::headers::{value_of, with_field, without_field};
use crate::http_client::{JqFilter, RegexPattern, RequestModel, UrlString};
use crate::jq::{fresh_batch, BatchModel, JqBatch};
use crate::keymap::{
    first_action, ranked, Action, KeyCode, KeyEvent, KeyEventKind, KeyModifiers,
};
use crate::streaming::batch_model;
use crate::text::{at_boundary, byte_len, chars_of, is_boundary, length};

verus! {

// ── The text that is edited ───────────────────────────────────────────────────

/// Which of the texts of the application is edited.
#[derive(Debug, Clone, Copy, PartialEq, Eq, Structural)]
pub enum TextTarget {
    Input,
    HeaderKey,
    HeaderValue,
}

/// The suggestions with the first one selected, if they are shown.
pub open spec fn first_selected(ac: Option<AutocompleteState>) -> Option<AutocompleteState> {
    match ac {
        Some(_) => Some(AutocompleteState { selected: 0 }),
        None => None,
    }
}

impl AppModel {
    /// The text that keys go to.
    pub open spec fn target(self) -> TextTarget {
        if self.editing_field == Some(EditingField::Headers) {
            if self.header_field == HeaderField::Key {
                TextTarget::HeaderKey
            } else {
                TextTarget::HeaderValue
            }
        } else {
            TextTarget::Input
        }
    }

    /// The text that keys go to.
    pub open spec fn target_text(self) -> Seq<char> {
        match self.target() {
            TextTarget::Input => self.input_buffer,
            TextTarget::HeaderKey => self.header_key_buffer,
            TextTarget::HeaderValue => self.header_value_buffer,
        }
    }

    /// The byte cursor in that text.
    pub open spec fn target_cursor(self) -> int {
        match self.target() {
            TextTarget::Input => self.cursor_pos as int,
            TextTarget::HeaderKey => self.header_key_cursor as int,
            TextTarget::HeaderValue => self.header_value_cursor as int,
        }
    }

    /// The application with that text and its cursor replaced.
    pub open spec fn with_target(self, text: Seq<char>, cursor: int) -> AppModel {
        match self.target() {
            TextTarget::Input => AppModel {
                input_buffer: text,
                cursor_pos: cursor as usize,
                ..self
            },
            TextTarget::HeaderKey => AppModel {
                header_key_buffer: text,
                header_key_cursor: cursor as usize,
                ..self
            },
            TextTarget::HeaderValue => AppModel {
                header_value_buffer: text,
                header_value_cursor: cursor as usize,
                ..self
            },
        }
    }

    /// The application with the field that is edited scrolled to its end.
    pub open spec fn with_target_in_view(self) -> AppModel {
        match self.editing_field {
            Some(EditingField::Headers) => AppModel { headers_scroll: SCROLL_TO_END, ..self },
            Some(EditingField::Url) => AppModel { url_h_scroll: SCROLL_TO_END, ..self },
            Some(EditingField::JsonFilter) => AppModel { filter_h_scroll: SCROLL_TO_END, ..self },
            Some(EditingField::StreamPrefixRegex) => AppModel {
                filter_h_scroll: SCROLL_TO_END,
                ..self
            },
            Some(EditingField::StreamSuffixRegex) => AppModel {
                filter_h_scroll: SCROLL_TO_END,
                ..self
            },
            Some(EditingField::Body) => self,
            None => self,
        }
    }

    /// The application with the headers scrolled to their end, if they are
    /// edited.
    pub open spec fn with_headers_in_view(self) -> AppModel {
        if self.editing_field == Some(EditingField::Headers) {
            AppModel { headers_scroll: SCROLL_TO_END, ..self }
        } else {
            self
        }
    }

    /// The application with the first suggestion selected, if the name of a
    /// header was changed.
    pub open spec fn with_first_suggestion(self) -> AppModel {
        if self.target() == TextTarget::HeaderKey {
            AppModel { header_autocomplete: first_selected(self.header_autocomplete), ..self }
        } else {
            self
        }
    }

    /// The application after a character was typed into the field that is
    /// edited.
    pub open spec fn typed(self, c: char) -> AppModel {
        if self.editing_field is None {
            self
        } else {
            self.with_target(
                with_inserted(self.target_text(), self.target_cursor(), c),
                self.target_cursor() + 1,
            ).with_first_suggestion().with_target_in_view()
        }
    }

    /// The application after the character before the cursor was deleted.
    pub open spec fn char_deleted(self) -> AppModel {
        if self.editing_field is None {
            self
        } else if self.target_cursor() > 0 {
            self.with_target(
                with_removed(self.target_text(), self.target_cursor() - 1),
                self.target_cursor() - 1,
            ).with_first_suggestion().with_target_in_view()
        } else {
            self.with_target_in_view()
        }
    }

    /// The application after the character at the cursor was deleted.
    pub open spec fn next_char_deleted(self) -> AppModel {
        if self.editing_field is Some && self.target_cursor() < byte_len(self.target_text()) {
            self.with_target(
                with_removed(self.target_text(), self.target_cursor()),
                self.target_cursor(),
            )
        } else {
            self
        }
    }

    /// The application after the word before the cursor was deleted.
    pub open spec fn word_deleted_backward(self) -> AppModel {
        if self.editing_field is None {
            self
        } else {
            self.with_target(
                word_deleted_backward(self.target_text(), self.target_cursor()),
                left_of_word(self.target_text(), self.target_cursor()),
            ).with_headers_in_view()
        }
    }

    /// The application after the word after the cursor was deleted.
    pub open spec fn word_deleted_forward(self) -> AppModel {
        if self.editing_field is None {
            self
        } else {
            self.with_target(
                word_deleted_forward(self.target_text(), self.target_cursor()),
                self.target_cursor(),
            ).with_headers_in_view()
        }
    }

    /// The application with the cursor moved, if a field is edited.
    pub open spec fn with_cursor(self, cursor: int) -> AppModel {
        if self.editing_field is None {
            self
        } else {
            self.with_target(self.target_text(), cursor)
        }
    }
}

impl App {
    /// Which of the texts keys go to.
    fn target(&self) -> (r: TextTarget)
        ensures
            r == self@.target(),
    {
        match self.editing_field {
            Some(EditingField::Headers) => if self.header_field == HeaderField::Key {
                TextTarget::HeaderKey
            } else {
                TextTarget::HeaderValue
            },
            _ => TextTarget::Input,
        }
    }

    /// The text that keys go to.
    fn target_text(&self) -> (r: &str)
        ensures
            r@ == self@.target_text(),
    {
        match self.target() {
            TextTarget::Input => self.input_buffer.as_str(),
            TextTarget::HeaderKey => self.header_key_buffer.as_str(),
            TextTarget::HeaderValue => self.header_value_buffer.as_str(),
        }
    }

    /// The byte cursor in that text.
    fn target_cursor(&self) -> (r: usize)
        ensures
            r == self@.target_cursor(),
    {
        match self.target() {
            TextTarget::Input => self.cursor_pos,
            TextTarget::HeaderKey => self.header_key_cursor,
            TextTarget::HeaderValue => self.header_value_cursor,
        }
    }

    /// Moves the cursor in the text that keys go to.
    fn set_cursor(&mut self, cursor: usize)
        ensures
            final(self)@ == old(self)@.with_target(old(self)@.target_text(), cursor as int),
    {
        match self.target() {
            TextTarget::Input => {
                self.cursor_pos = cursor;
            },
            TextTarget::HeaderKey => {
                self.header_key_cursor = cursor;
            },
            TextTarget::HeaderValue => {
                self.header_value_cursor = cursor;
            },
        }
    }

    /// Scrolls the field that is edited to its end.
    fn bring_target_in_view(&mut self)
        ensures
            final(self)@ == old(self)@.with_target_in_view(),
    {
        match self.editing_field {
            Some(EditingField::Headers) => {
                self.headers_scroll = SCROLL_TO_END;
            },
            Some(EditingField::Url) => {
                self.url_h_scroll = SCROLL_TO_END;
            },
            Some(EditingField::JsonFilter) => {
                self.filter_h_scroll = SCROLL_TO_END;
            },
            Some(EditingField::StreamPrefixRegex) => {
                self.filter_h_scroll = SCROLL_TO_END;
            },
            Some(EditingField::StreamSuffixRegex) => {
                self.filter_h_scroll = SCROLL_TO_END;
            },
            Some(EditingField::Body) => {},
            None => {},
        }
    }

    /// Scrolls the headers to their end, if they are edited.
    fn bring_headers_in_view(&mut self)
        ensures
            final(self)@ == old(self)@.with_headers_in_view(),
    {
        if let Some(EditingField::Headers) = self.editing_field {
            self.headers_scroll = SCROLL_TO_END;
        }
    }

    /// Selects the first suggestion, if keys go to the name of a header.
    fn select_first_suggestion(&mut self)
        ensures
            final(self)@ == old(self)@.with_first_suggestion(),
    {
        if self.target() == TextTarget::HeaderKey && self.header_autocomplete.is_some() {
            self.header_autocomplete = Some(AutocompleteState { selected: 0 });
        }
    }

    /// Types a character into the field that is edited.
    pub fn type_char(&mut self, c: char)
        requires
            old(self)@.editing_field is Some ==> at_boundary(
                old(self)@.target_text(),
                old(self)@.target_cursor(),
            ),
        ensures
            final(self)@ == old(self)@.typed(c),
    {
        if self.editing_field.is_none() {
            return;
        }
        match self.target() {
            TextTarget::Input => {
                self.cursor_pos = insert_char(&mut self.input_buffer, self.cursor_pos, c);
            },
            TextTarget::HeaderKey => {
                self.header_key_cursor = insert_char(
                    &mut self.header_key_buffer,
                    self.header_key_cursor,
                    c,
                );
            },
            TextTarget::HeaderValue => {
                self.header_value_cursor = insert_char(
                    &mut self.header_value_buffer,
                    self.header_value_cursor,
                    c,
                );
            },
        }
        self.select_first_suggestion();
        self.bring_target_in_view();
    }

    /// Removes the character that starts at a byte offset of the text that
    /// keys go to, and puts the cursor there.
    fn remove_at(&mut self, i: usize)
        requires
            at_boundary(old(self)@.target_text(), i as int),
            i < byte_len(old(self)@.target_text()),
        ensures
            final(self)@ == old(self)@.with_target(
                with_removed(old(self)@.target_text(), i as int),
                i as int,
            ),
    {
        match self.target() {
            TextTarget::Input => {
                remove_char(&mut self.input_buffer, i);
            },
            TextTarget::HeaderKey => {
                remove_char(&mut self.header_key_buffer, i);
            },
            TextTarget::HeaderValue => {
                remove_char(&mut self.header_value_buffer, i);
            },
        }
        self.set_cursor(i);
    }

    /// Deletes the character before the cursor.
    fn delete_char(&mut self)
        requires
            old(self)@.can_delete_char(),
        ensures
            final(self)@ == old(self)@.char_deleted(),
    {
        if self.editing_field.is_none() {
            return;
        }
        let cursor = self.target_cursor();
        if cursor > 0 {
            self.remove_at(cursor - 1);
            self.select_first_suggestion();
        }
        self.bring_target_in_view();
    }

    /// Deletes the character at the cursor.
    fn delete_next_char(&mut self)
        requires
            old(self)@.can_delete_next_char(),
        ensures
            final(self)@ == old(self)@.next_char_deleted(),
    {
        if self.editing_field.is_none() {
            return;
        }
        let cursor = self.target_cursor();
        if cursor < length(self.target_text()) {
            self.remove_at(cursor);
        }
    }

    /// Deletes the word before the cursor.
    fn delete_word_before(&mut self)
        requires
            old(self)@.editing_field is Some ==> can_delete_backward(
                old(self)@.target_text(),
                old(self)@.target_cursor(),
            ),
        ensures
            final(self)@ == old(self)@.word_deleted_backward(),
    {
        if self.editing_field.is_none() {
            return;
        }
        match self.target() {
            TextTarget::Input => {
                self.cursor_pos = delete_word_backward(&mut self.input_buffer, self.cursor_pos);
            },
            TextTarget::HeaderKey => {
                self.header_key_cursor = delete_word_backward(
                    &mut self.header_key_buffer,
                    self.header_key_cursor,
                );
            },
            TextTarget::HeaderValue => {
                self.header_value_cursor = delete_word_backward(
                    &mut self.header_value_buffer,
                    self.header_value_cursor,
                );
            },
        }
        self.bring_headers_in_view();
    }

    /// Deletes the word after the cursor.
    fn delete_word_after(&mut self)
        requires
            old(self)@.editing_field is Some ==> can_delete_forward(
                old(self)@.target_text(),
                old(self)@.target_cursor(),
            ),
        ensures
            final(self)@ == old(self)@.word_deleted_forward(),
    {
        if self.editing_field.is_none() {
            return;
        }
        match self.target() {
            TextTarget::Input => {
                delete_word_forward(&mut self.input_buffer, self.cursor_pos);
            },
            TextTarget::HeaderKey => {
                delete_word_forward(&mut self.header_key_buffer, self.header_key_cursor);
            },
            TextTarget::HeaderValue => {
                delete_word_forward(&mut self.header_value_buffer, self.header_value_cursor);
            },
        }
        self.bring_headers_in_view();
    }
}

// ── Which actions are defined ─────────────────────────────────────────────────

impl AppModel {
    /// Whether the character before the cursor, if there is one, can be
    /// deleted: it starts one byte before.
    pub open spec fn can_delete_char(self) -> bool {
        self.editing_field is Some && self.target_cursor() > 0 ==> at_boundary(
            self.target_text(),
            self.target_cursor() - 1,
        ) && self.target_cursor() - 1 < byte_len(self.target_text())
    }

    /// Whether the character at the cursor, if there is one, can be deleted.
    pub open spec fn can_delete_next_char(self) -> bool {
        self.editing_field is Some && self.target_cursor() < byte_len(self.target_text())
            ==> at_boundary(self.target_text(), self.target_cursor())
    }

    /// Whether an action is defined: the cursor is where a character starts
    /// wherever that matters.
    pub open spec fn is_defined(self, action: Action) -> bool {
        match action {
            Action::InsertNewline => at_boundary(self.input_buffer, self.cursor_pos as int),
            Action::DeleteChar => self.can_delete_char(),
            Action::DeleteNextChar => self.can_delete_next_char(),
            Action::DeleteWordBackward => self.editing_field is Some ==> can_delete_backward(
                self.target_text(),
                self.target_cursor(),
            ),
            Action::DeleteWordForward => self.editing_field is Some ==> can_delete_forward(
                self.target_text(),
                self.target_cursor(),
            ),
            Action::CursorWordLeft => self.editing_field is Some && self.target_cursor() > 0
                ==> at_boundary(self.target_text(), self.target_cursor()),
            Action::CursorWordRight => self.editing_field is Some && self.target_cursor()
                < byte_len(self.target_text()) ==> at_boundary(
                self.target_text(),
                self.target_cursor(),
            ),
            Action::SelectNextHeader => self.has_current() && self.current().headers.len() > 0
                ==> self.selected_header_index < usize::MAX,
            _ => true,
        }
    }
}

/// Whether the word before the cursor can be deleted.
fn check_delete_backward(text: &str, cursor: usize) -> (r: bool)
    ensures
        r == can_delete_backward(text@, cursor as int),
{
    if cursor == 0 {
        return true;
    }
    if !is_boundary(text, cursor) {
        return false;
    }
    let end = word_left(text, cursor);
    proof {
        crate::text::lemma_ends(text@);
    }
    is_boundary(text, end)
}

/// Whether the word after the cursor can be deleted.
fn check_delete_forward(text: &str, cursor: usize) -> (r: bool)
    ensures
        r == can_delete_forward(text@, cursor as int),
{
    if cursor >= length(text) {
        return true;
    }
    if !is_boundary(text, cursor) {
        return false;
    }
    let end = word_right(text, cursor);
    proof {
        crate::text::lemma_ends(text@);
    }
    is_boundary(text, end)
}

impl App {
    /// Whether a character can be typed: the cursor is where a character
    /// starts, or nothing is edited.
    pub fn can_type(&self) -> (r: bool)
        ensures
            r == (self@.editing_field is Some ==> at_boundary(
                self@.target_text(),
                self@.target_cursor(),
            )),
    {
        self.editing_field.is_none() || is_boundary(self.target_text(), self.target_cursor())
    }

    /// Whether an action is defined: the cursor is where a character starts
    /// wherever that matters.
    pub fn is_defined(&self, action: Action) -> (r: bool)
        ensures
            r == self@.is_defined(action),
    {
        let text = self.target_text();
        let cursor = self.target_cursor();
        let editing = self.editing_field.is_some();
        match action {
            Action::InsertNewline => is_boundary(self.input_buffer.as_str(), self.cursor_pos),
            Action::DeleteChar => !editing || cursor == 0 || (is_boundary(text, cursor - 1) && cursor
                - 1 < length(text)),
            Action::DeleteNextChar => !editing || cursor >= length(text) || is_boundary(
                text,
                cursor,
            ),
            Action::DeleteWordBackward => !editing || check_delete_backward(text, cursor),
            Action::DeleteWordForward => !editing || check_delete_forward(text, cursor),
            Action::CursorWordLeft => !editing || cursor == 0 || is_boundary(text, cursor),
            Action::CursorWordRight => !editing || cursor >= length(text) || is_boundary(
                text,
                cursor,
            ),
            Action::SelectNextHeader => match self.get_current_request() {
                Some(request) => request.headers.len() == 0 || self.selected_header_index
                    < usize::MAX,
                None => true,
            },
            _ => true,
        }
    }
}

// ── Confirming and cancelling ─────────────────────────────────────────────────

impl AppModel {
    /// The application after editing was given up.
    pub open spec fn edit_cancelled(self) -> AppModel {
        AppModel {
            editing_field: None,
            input_buffer: ""@,
            cursor_pos: 0,
            header_key_buffer: ""@,
            header_key_cursor: 0,
            header_value_buffer: ""@,
            header_value_cursor: 0,
            header_field: HeaderField::Key,
            editing_existing_header: None,
            header_autocomplete: None,
            ..self
        }
    }

    /// The application after a text was confirmed.
    pub open spec fn text_confirmed(self) -> AppModel {
        AppModel { editing_field: None, input_buffer: ""@, ..self }
    }

    /// The headers of the selected request with the edited one in them: a
    /// header without a name is not taken, and one that was there under
    /// another name is replaced.
    pub open spec fn headers_confirmed(self) -> Seq<(Seq<char>, Seq<char>)> {
        let headers = self.current().headers;
        if self.header_key_buffer.len() == 0 {
            headers
        } else {
            with_field(
                match self.editing_existing_header {
                    Some(name) => without_field(headers, name),
                    None => headers,
                },
                self.header_key_buffer,
                self.header_value_buffer,
            )
        }
    }

    /// The application after the edited header was saved.
    pub open spec fn header_saved(self) -> AppModel {
        AppModel {
            editing_field: None,
            header_key_buffer: ""@,
            header_value_buffer: ""@,
            header_field: HeaderField::Key,
            editing_existing_header: None,
            header_autocomplete: None,
            ..self.with_current(
                RequestModel { headers: self.headers_confirmed(), ..self.current() },
            )
        }
    }

    /// The application after what is edited was confirmed, but for what jq is
    /// to do then.
    pub open spec fn edit_confirmed(self) -> AppModel {
        match self.editing_field {
            Some(EditingField::Url) => self.with_current(
                RequestModel { url: self.input_buffer, ..self.current() },
            ).text_confirmed(),
            Some(EditingField::JsonFilter) => AppModel {
                response_scroll: 0,
                ..self.with_current(
                    RequestModel { jq_filter: self.input_buffer, ..self.current() },
                ).text_confirmed()
            },
            Some(EditingField::StreamPrefixRegex) => AppModel {
                response_scroll: 0,
                ..self.with_current(
                    RequestModel { stream_prefix_regex: self.input_buffer, ..self.current() },
                ).text_confirmed()
            },
            Some(EditingField::StreamSuffixRegex) => AppModel {
                response_scroll: 0,
                ..self.with_current(
                    RequestModel { stream_suffix_regex: self.input_buffer, ..self.current() },
                ).text_confirmed()
            },
            Some(EditingField::Headers) => if self.header_autocomplete is Some {
                self.with_suggestion(self.suggestions())
            } else if self.header_field == HeaderField::Key {
                AppModel { header_field: HeaderField::Value, ..self }
            } else {
                self.header_saved()
            },
            Some(EditingField::Body) => self,
            None => self,
        }
    }

    /// Whether the streamed lines are to be cut out anew once what is edited
    /// is confirmed.
    pub open spec fn confirming_reprocesses(self) -> bool {
        match self.editing_field {
            Some(EditingField::JsonFilter) => self.response_view_mode
                == ResponseViewMode::StreamedJson,
            Some(EditingField::StreamPrefixRegex) => true,
            Some(EditingField::StreamSuffixRegex) => true,
            _ => false,
        }
    }

    /// The batch for jq when the streamed lines are cut out anew.
    pub open spec fn batch(self) -> Option<BatchModel> {
        match self.current_request_index {
            Some(idx) => Some(
                fresh_batch(idx, self.jq_filter(), self.reprocessed().state(idx).stripped_lines),
            ),
            None => None,
        }
    }

    /// The application with a text of the selected request to be edited.
    pub open spec fn editing_text(self, text: Seq<char>, field: EditingField) -> AppModel {
        AppModel {
            input_buffer: text,
            cursor_pos: byte_len(text) as usize,
            editing_field: Some(field),
            ..self
        }
    }
}

impl App {
    /// Gives editing up.
    fn cancel_edit(&mut self)
        ensures
            final(self)@ == old(self)@.edit_cancelled(),
    {
        self.editing_field = None;
        self.input_buffer = "".to_owned();
        self.cursor_pos = 0;
        self.header_key_buffer = "".to_owned();
        self.header_key_cursor = 0;
        self.header_value_buffer = "".to_owned();
        self.header_value_cursor = 0;
        self.header_field = HeaderField::Key;
        self.editing_existing_header = None;
        self.header_autocomplete = None;
    }

    /// Starts to edit a text.
    fn start_editing(&mut self, text: String, field: EditingField)
        ensures
            final(self)@ == old(self)@.editing_text(text@, field),
    {
        self.cursor_pos = length(text.as_str());
        self.input_buffer = text;
        self.editing_field = Some(field);
    }

    /// Saves the edited header.
    fn save_header(&mut self)
        ensures
            final(self)@ == old(self)@.header_saved(),
    {
        let key = self.header_key_buffer.clone();
        let value = self.header_value_buffer.clone();
        let old_key = crate::http_client::copy_text(&self.editing_existing_header);
        let named = chars_of(key.as_str()).len() > 0;
        if let Some(request) = self.get_current_request_mut() {
            if named {
                if let Some(name) = &old_key {
                    request.remove_header(name.as_str());
                }
                request.add_header(key, value);
            }
        }
        self.editing_field = None;
        self.header_key_buffer = "".to_owned();
        self.header_value_buffer = "".to_owned();
        self.header_field = HeaderField::Key;
        self.editing_existing_header = None;
        self.header_autocomplete = None;
    }

    /// Takes the edited address over.
    fn confirm_url(&mut self)
        requires
            old(self)@.editing_field == Some(EditingField::Url),
        ensures
            final(self)@ == old(self)@.edit_confirmed(),
    {
        let text = self.input_buffer.clone();
        if let Some(request) = self.get_current_request_mut() {
            request.url = UrlString::new(text);
        }
        self.editing_field = None;
        self.input_buffer = "".to_owned();
    }

    /// Takes the edited filter over.
    fn confirm_filter(&mut self)
        requires
            old(self)@.editing_field == Some(EditingField::JsonFilter),
        ensures
            final(self)@ == old(self)@.edit_confirmed(),
    {
        let text = self.input_buffer.clone();
        if let Some(request) = self.get_current_request_mut() {
            request.jq_filter = JqFilter::new(text);
        }
        self.editing_field = None;
        self.input_buffer = "".to_owned();
        self.response_scroll = 0;
    }

    /// Takes the edited prefix pattern over.
    fn confirm_prefix(&mut self)
        requires
            old(self)@.editing_field == Some(EditingField::StreamPrefixRegex),
        ensures
            final(self)@ == old(self)@.edit_confirmed(),
    {
        let text = self.input_buffer.clone();
        if let Some(request) = self.get_current_request_mut() {
            request.stream_prefix_regex = RegexPattern::new(text);
        }
        self.editing_field = None;
        self.input_buffer = "".to_owned();
        self.response_scroll = 0;
    }

    /// Takes the edited suffix pattern over.
    fn confirm_suffix(&mut self)
        requires
            old(self)@.editing_field == Some(EditingField::StreamSuffixRegex),
        ensures
            final(self)@ == old(self)@.edit_confirmed(),
    {
        let text = self.input_buffer.clone();
        if let Some(request) = self.get_current_request_mut() {
            request.stream_suffix_regex = RegexPattern::new(text);
        }
        self.editing_field = None;
        self.input_buffer = "".to_owned();
        self.response_scroll = 0;
    }

    /// Takes the selected suggestion over, or goes on to the value, or saves
    /// the edited header.
    fn confirm_header(&mut self)
        requires
            old(self)@.editing_field == Some(EditingField::Headers),
        ensures
            final(self)@ == old(self)@.edit_confirmed(),
    {
        if self.header_autocomplete.is_some() {
            let names = self.get_filtered_header_suggestions();
            self.apply_autocomplete_selection(names.as_slice());
        } else if self.header_field == HeaderField::Key {
            self.header_field = HeaderField::Value;
        } else {
            self.save_header();
        }
    }

    /// Takes over what is edited, and returns the batch for jq if the streamed
    /// lines were cut out anew.
    fn confirm_edit(&mut self) -> (r: Option<JqBatch>)
        ensures
            final(self)@ == (if old(self)@.confirming_reprocesses() {
                old(self)@.edit_confirmed().reprocessed()
            } else {
                old(self)@.edit_confirmed()
            }),
            batch_model(r) == (if old(self)@.confirming_reprocesses() {
                old(self)@.edit_confirmed().batch()
            } else {
                None
            }),
    {
        let field = match self.editing_field {
            Some(field) => field,
            None => {
                return None;
            },
        };
        let again = match field {
            EditingField::JsonFilter => self.response_view_mode == ResponseViewMode::StreamedJson,
            EditingField::StreamPrefixRegex => true,
            EditingField::StreamSuffixRegex => true,
            _ => false,
        };
        match field {
            EditingField::Url => {
                self.confirm_url();
            },
            EditingField::JsonFilter => {
                self.confirm_filter();
            },
            EditingField::StreamPrefixRegex => {
                self.confirm_prefix();
            },
            EditingField::StreamSuffixRegex => {
                self.confirm_suffix();
            },
            EditingField::Headers => {
                self.confirm_header();
            },
            EditingField::Body => {},
        }
        if again {
            self.reprocess_streamed_jq()
        } else {
            None
        }
    }
}

// ── Actions ───────────────────────────────────────────────────────────────────

/// What is to be done once an action was taken.
pub enum Outcome {
    /// Nothing.
    Continue,
    /// The application ends.
    Exit,
    /// The requests are to be saved.
    SaveRequests,
    /// The selected request is to be sent.
    SendRequest,
    /// Lines are to be put through jq.
    RunBatch(JqBatch),
}

/// What an outcome says.
#[verifier::ext_equal]
pub ghost enum OutcomeModel {
    Continue,
    Exit,
    SaveRequests,
    SendRequest,
    RunBatch(BatchModel),
}

impl View for Outcome {
    type V = OutcomeModel;

    open spec fn view(&self) -> OutcomeModel {
        match self {
            Outcome::Continue => OutcomeModel::Continue,
            Outcome::Exit => OutcomeModel::Exit,
            Outcome::SaveRequests => OutcomeModel::SaveRequests,
            Outcome::SendRequest => OutcomeModel::SendRequest,
            Outcome::RunBatch(batch) => OutcomeModel::RunBatch(batch@),
        }
    }
}

/// What an action has to do with.
#[derive(Debug, Clone, Copy, PartialEq, Eq, Structural)]
pub enum ActionKind {
    /// Moving the cursor in the text that is edited.
    Move,
    /// Deleting from the text that is edited.
    Deletion,
    /// Anything else that is done with what is edited.
    Edit,
    /// The requests and the screens.
    Choice,
    /// Scrolling, and which field has the focus.
    Scroll,
    /// The headers of a request.
    Header,
    /// Starting to edit a text.
    Start,
    /// What is done outside.
    Outside,
}

/// What an action has to do with.
pub open spec fn action_kind(action: Action) -> ActionKind {
    match action {
        Action::CursorLeft => ActionKind::Move,
        Action::CursorRight => ActionKind::Move,
        Action::CursorWordLeft => ActionKind::Move,
        Action::CursorWordRight => ActionKind::Move,
        Action::CursorHome => ActionKind::Move,
        Action::CursorEnd => ActionKind::Move,
        Action::DeleteChar => ActionKind::Deletion,
        Action::DeleteNextChar => ActionKind::Deletion,
        Action::DeleteWordBackward => ActionKind::Deletion,
        Action::DeleteWordForward => ActionKind::Deletion,
        Action::CancelEdit => ActionKind::Edit,
        Action::ConfirmEdit => ActionKind::Edit,
        Action::ToggleHeaderKeyValue => ActionKind::Edit,
        Action::InsertNewline => ActionKind::Edit,
        Action::SaveBody => ActionKind::Edit,
        Action::AutocompleteDown => ActionKind::Edit,
        Action::AutocompleteUp => ActionKind::Edit,
        Action::TriggerExit => ActionKind::Choice,
        Action::NewRequest => ActionKind::Choice,
        Action::DeleteRequest => ActionKind::Choice,
        Action::SelectNextRequest => ActionKind::Choice,
        Action::SelectPreviousRequest => ActionKind::Choice,
        Action::EditRequest => ActionKind::Choice,
        Action::CancelExit => ActionKind::Choice,
        Action::GoBack => ActionKind::Choice,
        Action::ToggleMethod => ActionKind::Choice,
        Action::ScrollDown => ActionKind::Scroll,
        Action::ScrollUp => ActionKind::Scroll,
        Action::PageDown => ActionKind::Scroll,
        Action::PageUp => ActionKind::Scroll,
        Action::FocusNextField => ActionKind::Scroll,
        Action::FocusPreviousField => ActionKind::Scroll,
        Action::FocusHeaders => ActionKind::Scroll,
        Action::CycleViewMode => ActionKind::Scroll,
        Action::AddHeader => ActionKind::Header,
        Action::DeleteHeader => ActionKind::Header,
        Action::SelectNextHeader => ActionKind::Header,
        Action::SelectPreviousHeader => ActionKind::Header,
        Action::EditSelectedHeader => ActionKind::Header,
        Action::EditFocusedField => ActionKind::Start,
        Action::JumpToUrl => ActionKind::Start,
        Action::JumpToBody => ActionKind::Start,
        Action::EditJqFilter => ActionKind::Start,
        Action::EditStreamPrefixRegex => ActionKind::Start,
        Action::EditStreamSuffixRegex => ActionKind::Start,
        Action::SaveRequests => ActionKind::Outside,
        Action::ConfirmExit => ActionKind::Outside,
        Action::SendRequest => ActionKind::Outside,
    }
}

/// What an action has to do with.
fn kind_of(action: Action) -> (r: ActionKind)
    ensures
        r == action_kind(action),
{
    match action {
        Action::CursorLeft => ActionKind::Move,
        Action::CursorRight => ActionKind::Move,
        Action::CursorWordLeft => ActionKind::Move,
        Action::CursorWordRight => ActionKind::Move,
        Action::CursorHome => ActionKind::Move,
        Action::CursorEnd => ActionKind::Move,
        Action::DeleteChar => ActionKind::Deletion,
        Action::DeleteNextChar => ActionKind::Deletion,
        Action::DeleteWordBackward => ActionKind::Deletion,
        Action::DeleteWordForward => ActionKind::Deletion,
        Action::CancelEdit => ActionKind::Edit,
        Action::ConfirmEdit => ActionKind::Edit,
        Action::ToggleHeaderKeyValue => ActionKind::Edit,
        Action::InsertNewline => ActionKind::Edit,
        Action::SaveBody => ActionKind::Edit,
        Action::AutocompleteDown => ActionKind::Edit,
        Action::AutocompleteUp => ActionKind::Edit,
        Action::TriggerExit => ActionKind::Choice,
        Action::NewRequest => ActionKind::Choice,
        Action::DeleteRequest => ActionKind::Choice,
        Action::SelectNextRequest => ActionKind::Choice,
        Action::SelectPreviousRequest => ActionKind::Choice,
        Action::EditRequest => ActionKind::Choice,
        Action::CancelExit => ActionKind::Choice,
        Action::GoBack => ActionKind::Choice,
        Action::ToggleMethod => ActionKind::Choice,
        Action::ScrollDown => ActionKind::Scroll,
        Action::ScrollUp => ActionKind::Scroll,
        Action::PageDown => ActionKind::Scroll,
        Action::PageUp => ActionKind::Scroll,
        Action::FocusNextField => ActionKind::Scroll,
        Action::FocusPreviousField => ActionKind::Scroll,
        Action::FocusHeaders => ActionKind::Scroll,
        Action::CycleViewMode => ActionKind::Scroll,
        Action::AddHeader => ActionKind::Header,
        Action::DeleteHeader => ActionKind::Header,
        Action::SelectNextHeader => ActionKind::Header,
        Action::SelectPreviousHeader => ActionKind::Header,
        Action::EditSelectedHeader => ActionKind::Header,
        Action::EditFocusedField => ActionKind::Start,
        Action::JumpToUrl => ActionKind::Start,
        Action::JumpToBody => ActionKind::Start,
        Action::EditJqFilter => ActionKind::Start,
        Action::EditStreamPrefixRegex => ActionKind::Start,
        Action::EditStreamSuffixRegex => ActionKind::Start,
        Action::SaveRequests => ActionKind::Outside,
        Action::ConfirmExit => ActionKind::Outside,
        Action::SendRequest => ActionKind::Outside,
    }
}

impl AppModel {
    /// Whether a filter of the response is there to be edited.
    pub open spec fn shows_json(self) -> bool {
        self.focused_field == FocusableField::Response && (self.response_view_mode
            == ResponseViewMode::Json || self.response_view_mode == ResponseViewMode::StreamedJson)
    }

    /// Whether a pattern of the streamed lines is there to be edited.
    pub open spec fn shows_stream(self) -> bool {
        self.focused_field == FocusableField::Response && self.response_view_mode
            == ResponseViewMode::StreamedJson
    }

    /// The application after moving the cursor.
    #[verifier::opaque]
    pub open spec fn after_move(self, action: Action) -> AppModel {
        match action {
            Action::CursorLeft => self.with_cursor(
                if self.target_cursor() > 0 {
                    self.target_cursor() - 1
                } else {
                    0
                },
            ),
            Action::CursorRight => self.with_cursor(
                if self.target_cursor() < byte_len(self.target_text()) {
                    self.target_cursor() + 1
                } else {
                    self.target_cursor()
                },
            ),
            Action::CursorWordLeft => self.with_cursor(
                left_of_word(self.target_text(), self.target_cursor()),
            ),
            Action::CursorWordRight => self.with_cursor(
                right_of_word(self.target_text(), self.target_cursor()),
            ),
            Action::CursorHome => self.with_cursor(0),
            Action::CursorEnd => self.with_cursor(byte_len(self.target_text()) as int),
            _ => self,
        }
    }

    /// The application after deleting from the text that is edited.
    #[verifier::opaque]
    pub open spec fn after_deletion(self, action: Action) -> AppModel {
        match action {
            Action::DeleteChar => self.char_deleted(),
            Action::DeleteNextChar => self.next_char_deleted(),
            Action::DeleteWordBackward => self.word_deleted_backward(),
            Action::DeleteWordForward => self.word_deleted_forward(),
            _ => self,
        }
    }

    /// The application after another action on what is edited.
    #[verifier::opaque]
    pub open spec fn after_edit(self, action: Action) -> AppModel {
        match action {
            Action::CancelEdit => self.edit_cancelled(),
            Action::ConfirmEdit => if self.confirming_reprocesses() {
                self.edit_confirmed().reprocessed()
            } else {
                self.edit_confirmed()
            },
            Action::ToggleHeaderKeyValue => if self.editing_field == Some(EditingField::Headers) {
                if self.header_field == HeaderField::Key {
                    AppModel {
                        header_field: HeaderField::Value,
                        header_autocomplete: None,
                        ..self
                    }
                } else {
                    AppModel {
                        header_field: HeaderField::Key,
                        header_autocomplete: Some(AutocompleteState { selected: 0 }),
                        ..self
                    }
                }
            } else {
                self
            },
            Action::InsertNewline => AppModel {
                input_buffer: with_inserted(self.input_buffer, self.cursor_pos as int, '\n'),
                cursor_pos: (self.cursor_pos + 1) as usize,
                ..self
            },
            Action::SaveBody => self.with_current(
                RequestModel { body: Some(self.input_buffer), ..self.current() },
            ).text_confirmed(),
            Action::AutocompleteDown => if self.editing_field == Some(EditingField::Headers) {
                self.with_next_suggestion(self.suggestions().len() as int)
            } else {
                self
            },
            Action::AutocompleteUp => if self.editing_field == Some(EditingField::Headers) {
                self.with_previous_suggestion()
            } else {
                self
            },
            _ => self,
        }
    }

    /// The application after an action on the requests or on the screen.
    #[verifier::opaque]
    pub open spec fn after_choice(self, action: Action) -> AppModel {
        match action {
            Action::TriggerExit => AppModel { current_screen: CurrentScreen::Exiting, ..self },
            Action::NewRequest => AppModel {
                requests: self.requests.push(
                    crate::http_client::bare_request("GET"@, "https://"@),
                ),
                current_request_index: Some(self.requests.len() as usize),
                ..self
            },
            Action::DeleteRequest => self.without_current(),
            Action::SelectNextRequest => AppModel {
                current_request_index: if self.requests.len() == 0 {
                    self.current_request_index
                } else {
                    match self.current_request_index {
                        Some(idx) => if idx < self.requests.len() - 1 {
                            Some((idx + 1) as usize)
                        } else {
                            Some(idx)
                        },
                        None => Some(0),
                    }
                },
                ..self
            },
            Action::SelectPreviousRequest => AppModel {
                current_request_index: if self.requests.len() == 0 {
                    self.current_request_index
                } else {
                    match self.current_request_index {
                        Some(idx) => if idx > 0 {
                            Some((idx - 1) as usize)
                        } else {
                            Some(idx)
                        },
                        None => Some(0),
                    }
                },
                ..self
            },
            Action::EditRequest => if self.has_current() {
                AppModel { current_screen: CurrentScreen::Request, editing_field: None, ..self }
            } else {
                self
            },
            Action::CancelExit => AppModel { current_screen: CurrentScreen::Main, ..self },
            Action::GoBack => AppModel {
                current_screen: CurrentScreen::Main,
                ..self.with_fresh_request_screen()
            },
            Action::ToggleMethod => self.with_current(
                RequestModel {
                    method: crate::http_client::next_method(self.current().method),
                    ..self.current()
                },
            ),
            _ => self,
        }
    }

    /// The application after scrolling or moving the focus.
    #[verifier::opaque]
    pub open spec fn after_scroll(self, action: Action) -> AppModel {
        match action {
            Action::ScrollDown => self.with_scroll(|scroll: u16| scrolled_down(scroll, 1)),
            Action::ScrollUp => self.with_scroll(|scroll: u16| scrolled_up(scroll, 1)),
            Action::PageDown => self.with_scroll(|scroll: u16| scrolled_down(scroll, 30)),
            Action::PageUp => self.with_scroll(|scroll: u16| scrolled_up(scroll, 30)),
            Action::FocusNextField => AppModel {
                focused_field: crate::app::field_after(self.focused_field),
                ..self
            },
            Action::FocusPreviousField => AppModel {
                focused_field: crate::app::field_before(self.focused_field),
                ..self
            },
            Action::FocusHeaders => AppModel { focused_field: FocusableField::Headers, ..self },
            Action::CycleViewMode => AppModel {
                response_view_mode: self.next_view_mode(),
                response_scroll: 0,
                ..self
            },
            _ => self,
        }
    }

    /// The application after an action on the headers.
    #[verifier::opaque]
    pub open spec fn after_header(self, action: Action) -> AppModel {
        match action {
            Action::AddHeader => if self.focused_field == FocusableField::Headers {
                self.editing_focused()
            } else {
                self
            },
            Action::DeleteHeader => if self.focused_field == FocusableField::Headers {
                self.without_selected_header()
            } else {
                self
            },
            Action::SelectNextHeader => self.with_next_header(),
            Action::SelectPreviousHeader => self.with_previous_header(),
            Action::EditSelectedHeader => self.editing_selected_header(),
            _ => self,
        }
    }

    /// The application after starting to edit a text.
    #[verifier::opaque]
    pub open spec fn after_start(self, action: Action) -> AppModel {
        match action {
            Action::EditFocusedField => self.editing_focused(),
            Action::JumpToUrl => AppModel {
                focused_field: FocusableField::Url,
                ..self
            }.editing_focused(),
            Action::JumpToBody => AppModel {
                focused_field: FocusableField::Body,
                ..self
            }.editing_focused(),
            Action::EditJqFilter => if self.shows_json() {
                self.editing_text(self.jq_filter(), EditingField::JsonFilter)
            } else {
                self
            },
            Action::EditStreamPrefixRegex => if self.shows_stream() {
                self.editing_text(self.stream_prefix_regex(), EditingField::StreamPrefixRegex)
            } else {
                self
            },
            Action::EditStreamSuffixRegex => if self.shows_stream() {
                self.editing_text(self.stream_suffix_regex(), EditingField::StreamSuffixRegex)
            } else {
                self
            },
            _ => self,
        }
    }

    /// The application after an action.
    pub open spec fn after_action(self, action: Action) -> AppModel {
        match action_kind(action) {
            ActionKind::Move => self.after_move(action),
            ActionKind::Deletion => self.after_deletion(action),
            ActionKind::Edit => self.after_edit(action),
            ActionKind::Choice => self.after_choice(action),
            ActionKind::Scroll => self.after_scroll(action),
            ActionKind::Header => self.after_header(action),
            ActionKind::Start => self.after_start(action),
            ActionKind::Outside => self,
        }
    }

    /// What is to be done once an action was taken.
    pub open spec fn outcome_of(self, action: Action) -> OutcomeModel {
        match action {
            Action::ConfirmExit => OutcomeModel::Exit,
            Action::SaveRequests => OutcomeModel::SaveRequests,
            Action::SendRequest => OutcomeModel::SendRequest,
            Action::ConfirmEdit => if self.confirming_reprocesses() {
                match self.edit_confirmed().batch() {
                    Some(batch) => OutcomeModel::RunBatch(batch),
                    None => OutcomeModel::Continue,
                }
            } else {
                OutcomeModel::Continue
            },
            _ => OutcomeModel::Continue,
        }
    }
}

impl App {
    /// Takes an action on the requests or on the screen.
    fn change_screen_or_requests(&mut self, action: Action)
        requires
            old(self)@.is_defined(action),
            action_kind(action) == ActionKind::Choice,
        ensures
            final(self)@ == old(self)@.after_choice(action),
    {
        proof {
            reveal(AppModel::after_choice);
        }
        match action {
            Action::TriggerExit => {
                self.current_screen = CurrentScreen::Exiting;
            },
            Action::NewRequest => {
                self.create_new_request();
            },
            Action::DeleteRequest => {
                self.delete_current_request();
            },
            Action::SelectNextRequest => {
                self.select_next_request();
            },
            Action::SelectPreviousRequest => {
                self.select_previous_request();
            },
            Action::EditRequest => {
                if self.get_current_request().is_some() {
                    self.current_screen = CurrentScreen::Request;
                    self.editing_field = None;
                }
            },
            Action::CancelExit => {
                self.current_screen = CurrentScreen::Main;
            },
            Action::GoBack => {
                self.reset_request_screen_state();
                self.current_screen = CurrentScreen::Main;
            },
            Action::ToggleMethod => {
                self.toggle_method();
            },
            _ => {},
        }
    }

    /// Scrolls, or moves the focus.
    fn scroll_or_focus(&mut self, action: Action)
        requires
            old(self)@.is_defined(action),
            action_kind(action) == ActionKind::Scroll,
        ensures
            final(self)@ == old(self)@.after_scroll(action),
    {
        proof {
            reveal(AppModel::after_scroll);
        }
        match action {
            Action::ScrollDown => {
                self.scroll_down(1);
            },
            Action::ScrollUp => {
                self.scroll_up(1);
            },
            Action::PageDown => {
                self.scroll_down(30);
            },
            Action::PageUp => {
                self.scroll_up(30);
            },
            Action::FocusNextField => {
                self.focus_next_field();
            },
            Action::FocusPreviousField => {
                self.focus_previous_field();
            },
            Action::FocusHeaders => {
                self.focused_field = FocusableField::Headers;
            },
            Action::CycleViewMode => {
                self.cycle_response_view_mode();
                self.response_scroll = 0;
            },
            _ => {},
        }
    }

    /// Takes an action on the headers.
    fn change_headers(&mut self, action: Action)
        requires
            old(self)@.is_defined(action),
            action_kind(action) == ActionKind::Header,
        ensures
            final(self)@ == old(self)@.after_header(action),
    {
        proof {
            reveal(AppModel::after_header);
        }
        match action {
            Action::AddHeader => {
                if self.focused_field == FocusableField::Headers {
                    self.edit_focused_field();
                }
            },
            Action::DeleteHeader => {
                if self.focused_field == FocusableField::Headers {
                    self.delete_selected_header();
                }
            },
            Action::SelectNextHeader => {
                self.select_next_header();
            },
            Action::SelectPreviousHeader => {
                self.select_previous_header();
            },
            Action::EditSelectedHeader => {
                self.edit_selected_header();
            },
            _ => {},
        }
    }

    /// Starts to edit a text.
    fn start(&mut self, action: Action)
        requires
            old(self)@.is_defined(action),
            action_kind(action) == ActionKind::Start,
        ensures
            final(self)@ == old(self)@.after_start(action),
    {
        proof {
            reveal(AppModel::after_start);
        }
        match action {
            Action::EditFocusedField => {
                self.edit_focused_field();
            },
            Action::JumpToUrl => {
                self.focused_field = FocusableField::Url;
                self.edit_focused_field();
            },
            Action::JumpToBody => {
                self.focused_field = FocusableField::Body;
                self.edit_focused_field();
            },
            Action::EditJqFilter => {
                if self.focused_field == FocusableField::Response && (self.response_view_mode
                    == ResponseViewMode::Json || self.response_view_mode
                    == ResponseViewMode::StreamedJson) {
                    let text = self.current_jq_filter().to_owned();
                    self.start_editing(text, EditingField::JsonFilter);
                }
            },
            Action::EditStreamPrefixRegex => {
                if self.focused_field == FocusableField::Response && self.response_view_mode
                    == ResponseViewMode::StreamedJson {
                    let text = self.current_stream_prefix_regex().to_owned();
                    self.start_editing(text, EditingField::StreamPrefixRegex);
                }
            },
            Action::EditStreamSuffixRegex => {
                if self.focused_field == FocusableField::Response && self.response_view_mode
                    == ResponseViewMode::StreamedJson {
                    let text = self.current_stream_suffix_regex().to_owned();
                    self.start_editing(text, EditingField::StreamSuffixRegex);
                }
            },
            _ => {},
        }
    }

    /// Moves the cursor in the text that is edited.
    fn move_cursor(&mut self, action: Action)
        requires
            old(self)@.is_defined(action),
            action_kind(action) == ActionKind::Move,
        ensures
            final(self)@ == old(self)@.after_move(action),
    {
        proof {
            reveal(AppModel::after_move);
        }
        if self.editing_field.is_none() {
            return;
        }
        let cursor = self.target_cursor();
        let to: usize = match action {
            Action::CursorLeft => if cursor > 0 {
                cursor - 1
            } else {
                0
            },
            Action::CursorRight => if cursor < length(self.target_text()) {
                cursor + 1
            } else {
                cursor
            },
            Action::CursorWordLeft => word_left(self.target_text(), cursor),
            Action::CursorWordRight => word_right(self.target_text(), cursor),
            Action::CursorHome => 0,
            _ => length(self.target_text()),
        };
        self.set_cursor(to);
    }

    /// Deletes from the text that is edited.
    fn delete(&mut self, action: Action)
        requires
            old(self)@.is_defined(action),
            action_kind(action) == ActionKind::Deletion,
        ensures
            final(self)@ == old(self)@.after_deletion(action),
    {
        proof {
            reveal(AppModel::after_deletion);
        }
        match action {
            Action::DeleteChar => {
                self.delete_char();
            },
            Action::DeleteNextChar => {
                self.delete_next_char();
            },
            Action::DeleteWordBackward => {
                self.delete_word_before();
            },
            _ => {
                self.delete_word_after();
            },
        }
    }

    /// Saves the edited body.
    fn save_body(&mut self)
        ensures
            final(self)@ == old(self)@.after_edit(Action::SaveBody),
    {
        proof {
            reveal(AppModel::after_edit);
        }
        let body = self.input_buffer.clone();
        if let Some(request) = self.get_current_request_mut() {
            request.set_body(body);
        }
        self.editing_field = None;
        self.input_buffer = "".to_owned();
    }

    /// Takes another action on what is edited.
    fn edit(&mut self, action: Action)
        requires
            old(self)@.is_defined(action),
            action_kind(action) == ActionKind::Edit,
            action != Action::ConfirmEdit,
        ensures
            final(self)@ == old(self)@.after_edit(action),
    {
        proof {
            reveal(AppModel::after_edit);
        }
        match action {
            Action::CancelEdit => {
                self.cancel_edit();
            },
            Action::ToggleHeaderKeyValue => {
                if let Some(EditingField::Headers) = self.editing_field {
                    if self.header_field == HeaderField::Key {
                        self.header_field = HeaderField::Value;
                        self.header_autocomplete = None;
                    } else {
                        self.header_field = HeaderField::Key;
                        self.header_autocomplete = Some(AutocompleteState { selected: 0 });
                    }
                }
            },
            Action::InsertNewline => {
                self.cursor_pos = insert_char(&mut self.input_buffer, self.cursor_pos, '\n');
            },
            Action::SaveBody => {
                self.save_body();
            },
            Action::AutocompleteDown => {
                if let Some(EditingField::Headers) = self.editing_field {
                    let names = self.get_filtered_header_suggestions();
                    self.select_next_autocomplete(names.len());
                }
            },
            _ => {
                if let Some(EditingField::Headers) = self.editing_field {
                    self.select_previous_autocomplete();
                }
            },
        }
    }

    /// Takes an action, and tells what is to be done then.
    pub fn execute_action(&mut self, action: Action) -> (r: Outcome)
        requires
            old(self)@.is_defined(action),
        ensures
            final(self)@ == old(self)@.after_action(action),
            r@ == old(self)@.outcome_of(action),
    {
        match kind_of(action) {
            ActionKind::Outside => match action {
                Action::ConfirmExit => Outcome::Exit,
                Action::SaveRequests => Outcome::SaveRequests,
                _ => Outcome::SendRequest,
            },
            ActionKind::Move => {
                self.move_cursor(action);
                Outcome::Continue
            },
            ActionKind::Deletion => {
                self.delete(action);
                Outcome::Continue
            },
            ActionKind::Edit => if action == Action::ConfirmEdit {
                proof {
                    reveal(AppModel::after_edit);
                }
                match self.confirm_edit() {
                    Some(batch) => Outcome::RunBatch(batch),
                    None => Outcome::Continue,
                }
            } else {
                self.edit(action);
                Outcome::Continue
            },
            ActionKind::Choice => {
                self.change_screen_or_requests(action);
                Outcome::Continue
            },
            ActionKind::Scroll => {
                self.scroll_or_focus(action);
                Outcome::Continue
            },
            ActionKind::Header => {
                self.change_headers(action);
                Outcome::Continue
            },
            ActionKind::Start => {
                self.start(action);
                Outcome::Continue
            },
        }
    }
}

// ── Keys ──────────────────────────────────────────────────────────────────────

/// What a key means.
#[derive(Debug, Clone, Copy, PartialEq, Eq, Structural)]
pub enum KeyMeaning {
    /// Nothing.
    Nothing,
    /// A character of the text that is edited.
    Typed(char),
    /// An action.
    Act(Action),
}

impl AppModel {
    /// What a key means: a released key means nothing, a typed character goes
    /// into the field that is edited, and anything else means what the key
    /// table says.
    pub open spec fn meaning(self, key: KeyEvent) -> KeyMeaning {
        if key.kind == KeyEventKind::Release {
            KeyMeaning::Nothing
        } else if self.editing_field is Some && is_typed(key) {
            KeyMeaning::Typed(key.code->Char_0)
        } else {
            match first_action(ranked(self.keymap, self.key_context()), key) {
                Some(action) => KeyMeaning::Act(action),
                None => KeyMeaning::Nothing,
            }
        }
    }
}

impl AppModel {
    /// Whether what a key means can be done.
    pub open spec fn can_take(self, key: KeyEvent) -> bool {
        match self.meaning(key) {
            KeyMeaning::Nothing => true,
            KeyMeaning::Typed(_) => at_boundary(self.target_text(), self.target_cursor()),
            KeyMeaning::Act(action) => self.is_defined(action),
        }
    }

    /// The application after a key, and what is to be done then.
    pub open spec fn after_key(self, key: KeyEvent) -> (AppModel, OutcomeModel) {
        match self.meaning(key) {
            KeyMeaning::Nothing => (self, OutcomeModel::Continue),
            KeyMeaning::Typed(c) => (self.typed(c), OutcomeModel::Continue),
            KeyMeaning::Act(action) => (self.after_action(action), self.outcome_of(action)),
        }
    }
}

impl App {
    /// What a key means.
    pub fn meaning(&self, key: &KeyEvent) -> (r: KeyMeaning)
        ensures
            r == self@.meaning(*key),
    {
        if key.kind == KeyEventKind::Release {
            return KeyMeaning::Nothing;
        }
        if self.editing_field.is_some() {
            if let KeyCode::Char(c) = key.code {
                if key.modifiers == KeyModifiers::none() || key.modifiers
                    == KeyModifiers::shift() {
                    return KeyMeaning::Typed(c);
                }
            }
        }
        match self.keymap.resolve(&self.key_context(), key) {
            Some(action) => KeyMeaning::Act(action),
            None => KeyMeaning::Nothing,
        }
    }

    /// Does what a key means, and tells what is to be done then.  Nothing is
    /// done, and nothing told, where the cursor stands inside a character and
    /// that matters.
    pub fn take_key(&mut self, key: &KeyEvent) -> (r: Option<Outcome>)
        ensures
            r is Some == old(self)@.can_take(*key),
            r matches Some(outcome) ==> (final(self)@, outcome@) == old(self)@.after_key(*key),
            r is None ==> final(self)@ == old(self)@,
    {
        match self.meaning(key) {
            KeyMeaning::Nothing => Some(Outcome::Continue),
            KeyMeaning::Typed(c) => if self.can_type() {
                self.type_char(c);
                Some(Outcome::Continue)
            } else {
                None
            },
            KeyMeaning::Act(action) => if self.is_defined(action) {
                Some(self.execute_action(action))
            } else {
                None
            },
        }
    }

    /// Whether something may come in without a key being pressed.
    pub fn has_async_work(&self) -> (r: bool)
        ensures
            r == (self@.pending_response || self@.event_receiver || self@.streamed_jq_output_rx),
    {
        self.pending_response.is_some() || self.event_receiver.is_some()
            || self.streamed_jq_output_rx.is_some()
    }
}

// ── Laws ──────────────────────────────────────────────────────────────────────

/// Whether a text is ASCII and its cursor is in it.
pub open spec fn is_plain(text: Seq<char>, cursor: int) -> bool {
    is_ascii_chars(text) && 0 <= cursor <= text.len()
}

proof fn lemma_moves_keep_plain(m: AppModel, action: Action)
    requires
        m.editing_field is Some,
        is_plain(m.target_text(), m.target_cursor()),
        m.target_text().len() < usize::MAX,
        action_kind(action) == ActionKind::Move,
    ensures
        m.is_defined(action),
        m.after_action(action).target() == m.target(),
        is_plain(
            m.after_action(action).target_text(),
            m.after_action(action).target_cursor(),
        ),
{
    reveal(AppModel::after_move);
    crate::editing::lemma_ascii_edits(m.target_text(), m.target_cursor(), ' ');
}

/// Putting a text in place of the one that is edited, and showing it.
proof fn lemma_with_target(m: AppModel, text: Seq<char>, cursor: int)
    requires
        0 <= cursor <= usize::MAX,
    ensures
        ({
            let placed = m.with_target(text, cursor);
            &&& placed.target() == m.target()
            &&& placed.editing_field == m.editing_field
            &&& placed.target_text() == text
            &&& placed.target_cursor() == cursor
        }),
{
}

proof fn lemma_in_view(m: AppModel)
    ensures
        m.with_first_suggestion().target() == m.target(),
        m.with_first_suggestion().target_text() == m.target_text(),
        m.with_first_suggestion().target_cursor() == m.target_cursor(),
        m.with_target_in_view().target() == m.target(),
        m.with_target_in_view().target_text() == m.target_text(),
        m.with_target_in_view().target_cursor() == m.target_cursor(),
        m.with_headers_in_view().target() == m.target(),
        m.with_headers_in_view().target_text() == m.target_text(),
        m.with_headers_in_view().target_cursor() == m.target_cursor(),
{
}

proof fn lemma_char_deletions_keep_plain(m: AppModel)
    requires
        m.editing_field is Some,
        is_plain(m.target_text(), m.target_cursor()),
        m.target_text().len() < usize::MAX,
    ensures
        m.can_delete_char(),
        m.char_deleted().target() == m.target(),
        is_plain(m.char_deleted().target_text(), m.char_deleted().target_cursor()),
        m.can_delete_next_char(),
        m.next_char_deleted().target() == m.target(),
        is_plain(m.next_char_deleted().target_text(), m.next_char_deleted().target_cursor()),
{
    let text = m.target_text();
    let cursor = m.target_cursor();
    crate::editing::lemma_ascii_edits(text, cursor, ' ');
    if cursor > 0 {
        crate::editing::lemma_ascii_edits(text, cursor - 1, ' ');
        let removed = m.with_target(with_removed(text, cursor - 1), cursor - 1);
        lemma_with_target(m, with_removed(text, cursor - 1), cursor - 1);
        lemma_in_view(removed);
        lemma_in_view(removed.with_first_suggestion());
    } else {
        lemma_in_view(m);
    }
    lemma_with_target(m, with_removed(text, cursor), cursor);
}

proof fn lemma_word_deletions_keep_plain(m: AppModel)
    requires
        m.editing_field is Some,
        is_plain(m.target_text(), m.target_cursor()),
        m.target_text().len() < usize::MAX,
    ensures
        m.is_defined(Action::DeleteWordBackward),
        m.word_deleted_backward().target() == m.target(),
        is_plain(
            m.word_deleted_backward().target_text(),
            m.word_deleted_backward().target_cursor(),
        ),
        m.is_defined(Action::DeleteWordForward),
        m.word_deleted_forward().target() == m.target(),
        is_plain(
            m.word_deleted_forward().target_text(),
            m.word_deleted_forward().target_cursor(),
        ),
{
    let text = m.target_text();
    let cursor = m.target_cursor();
    crate::editing::lemma_ascii_edits(text, cursor, ' ');
    let back = word_deleted_backward(text, cursor);
    let to = left_of_word(text, cursor);
    lemma_with_target(m, back, to);
    lemma_in_view(m.with_target(back, to));
    let on = word_deleted_forward(text, cursor);
    lemma_with_target(m, on, cursor);
    lemma_in_view(m.with_target(on, cursor));
}

/// In an ASCII text every move and every deletion is defined, and leaves an
/// ASCII text with the cursor in it.
pub proof fn lemma_edits_keep_plain(m: AppModel, action: Action)
    requires
        m.editing_field is Some,
        is_plain(m.target_text(), m.target_cursor()),
        m.target_text().len() < usize::MAX,
        action_kind(action) == ActionKind::Move || action_kind(action) == ActionKind::Deletion,
    ensures
        m.is_defined(action),
        m.after_action(action).target() == m.target(),
        is_plain(
            m.after_action(action).target_text(),
            m.after_action(action).target_cursor(),
        ),
{
    if action_kind(action) == ActionKind::Move {
        lemma_moves_keep_plain(m, action);
    } else {
        reveal(AppModel::after_deletion);
        lemma_char_deletions_keep_plain(m);
        lemma_word_deletions_keep_plain(m);
    }
}

/// In an ASCII text a typed ASCII character is taken, and leaves an ASCII text
/// with the cursor behind it; deleting it gives the text back.
pub proof fn lemma_typing_keeps_plain(m: AppModel, c: char)
    requires
        m.editing_field is Some,
        is_plain(m.target_text(), m.target_cursor()),
        m.target_text().len() < usize::MAX - 1,
        c < '\u{80}',
    ensures
        at_boundary(m.target_text(), m.target_cursor()),
        m.typed(c).target() == m.target(),
        is_plain(m.typed(c).target_text(), m.typed(c).target_cursor()),
        m.typed(c).char_deleted().target_text() == m.target_text(),
        m.typed(c).char_deleted().target_cursor() == m.target_cursor(),
{
    crate::editing::lemma_ascii_edits(m.target_text(), m.target_cursor(), c);
    crate::editing::lemma_insert_then_remove(m.target_text(), m.target_cursor(), c);
}

/// While all the text is ASCII with the cursor in it, every key can be taken.
pub proof fn lemma_plain_text_takes_every_key(m: AppModel, key: KeyEvent)
    requires
        is_plain(m.input_buffer, m.cursor_pos as int),
        is_plain(m.target_text(), m.target_cursor()),
        m.target_text().len() < usize::MAX,
        m.selected_header_index < usize::MAX,
    ensures
        m.can_take(key),
{
    crate::editing::lemma_ascii_edits(m.input_buffer, m.cursor_pos as int, ' ');
    crate::editing::lemma_ascii_edits(m.target_text(), m.target_cursor(), ' ');
    if let KeyMeaning::Act(action) = m.meaning(key) {
        if m.editing_field is Some && (action_kind(action) == ActionKind::Move || action_kind(
            action,
        ) == ActionKind::Deletion) {
            lemma_edits_keep_plain(m, action);
        }
    }
}

/// A key that is released changes nothing.
pub proof fn lemma_released_keys_change_nothing(m: AppModel, key: KeyEvent)
    requires
        key.kind == KeyEventKind::Release,
    ensures
        m.can_take(key),
        m.after_key(key) == (m, OutcomeModel::Continue),
{
}

/// Giving editing up changes no request.
pub proof fn lemma_cancel_changes_no_request(m: AppModel)
    ensures
        m.after_action(Action::CancelEdit).requests == m.requests,
        m.after_action(Action::CancelEdit).editing_field is None,
{
    reveal(AppModel::after_edit);
}

/// What was confirmed as the address is the address, and editing it again
/// starts from it.
pub proof fn lemma_confirmed_url_is_kept(m: AppModel)
    requires
        m.editing_field == Some(EditingField::Url),
        m.has_current(),
    ensures
        m.after_action(Action::ConfirmEdit).current().url == m.input_buffer,
        m.after_action(Action::ConfirmEdit).after_action(Action::JumpToUrl).input_buffer
            == m.input_buffer,
{
    reveal(AppModel::after_edit);
    reveal(AppModel::after_start);
}

/// What was saved as the body is the body, and editing it again starts from
/// it.
pub proof fn lemma_saved_body_is_kept(m: AppModel)
    requires
        m.has_current(),
    ensures
        m.after_action(Action::SaveBody).current().body == Some(m.input_buffer),
        m.after_action(Action::SaveBody).after_action(Action::JumpToBody).input_buffer
            == m.input_buffer,
{
    reveal(AppModel::after_edit);
    reveal(AppModel::after_start);
}

/// A header that was confirmed with its value is among the headers of the
/// request, with that value.
pub proof fn lemma_confirmed_header_is_kept(m: AppModel)
    requires
        m.editing_field == Some(EditingField::Headers),
        m.header_autocomplete is None,
        m.header_field == HeaderField::Value,
        m.header_key_buffer.len() > 0,
        m.has_current(),
    ensures
        value_of(m.after_action(Action::ConfirmEdit).current().headers, m.header_key_buffer)
            == Some(m.header_value_buffer),
        m.after_action(Action::ConfirmEdit).editing_field is None,
{
    reveal(AppModel::after_edit);
    let left = match m.editing_existing_header {
        Some(name) => without_field(m.current().headers, name),
        None => m.current().headers,
    };
    crate::headers::lemma_set_is_read_back(
        left,
        m.header_key_buffer,
        m.header_value_buffer,
        m.header_key_buffer,
    );
}

/// Exactly one action ends the application.
pub proof fn lemma_only_confirming_ends(m: AppModel, action: Action)
    ensures
        m.outcome_of(action) is Exit <==> action == Action::ConfirmExit,
{
}

/// Asking to quit and taking it back leads to the main screen and changes
/// nothing else.
pub proof fn lemma_exit_can_be_taken_back(m: AppModel)
    ensures
        m.after_action(Action::TriggerExit).after_action(Action::CancelExit) == (AppModel {
            current_screen: CurrentScreen::Main,
            ..m
        }),
{
    reveal(AppModel::after_choice);
}

/// Whether the selected request, if there is one, is in the list.
pub open spec fn selection_is_valid(m: AppModel) -> bool {
    m.current_request_index matches Some(i) ==> i < m.requests.len()
}

proof fn lemma_choices_keep_selection(m: AppModel, action: Action)
    requires
        selection_is_valid(m),
        m.requests.len() < usize::MAX,
    ensures
        selection_is_valid(m.after_choice(action)),
{
    reveal(AppModel::after_choice);
}

proof fn lemma_edits_keep_selection(m: AppModel, action: Action)
    requires
        selection_is_valid(m),
    ensures
        selection_is_valid(m.after_edit(action)),
{
    reveal(AppModel::after_edit);
    let confirmed = m.edit_confirmed();
    assert(confirmed.requests.len() == m.requests.len());
    assert(confirmed.current_request_index == m.current_request_index);
}

proof fn lemma_others_keep_selection(m: AppModel, action: Action)
    requires
        selection_is_valid(m),
    ensures
        selection_is_valid(m.after_move(action)),
        selection_is_valid(m.after_deletion(action)),
        selection_is_valid(m.after_scroll(action)),
{
    reveal(AppModel::after_move);
    reveal(AppModel::after_deletion);
    reveal(AppModel::after_scroll);
}

proof fn lemma_headers_keep_selection(m: AppModel, action: Action)
    requires
        selection_is_valid(m),
    ensures
        selection_is_valid(m.after_header(action)),
        selection_is_valid(m.after_start(action)),
{
    reveal(AppModel::after_header);
    reveal(AppModel::after_start);
}

/// Whatever is done, the selected request is one of the list.
pub proof fn lemma_selection_stays_valid(m: AppModel, action: Action)
    requires
        selection_is_valid(m),
        m.requests.len() < usize::MAX,
    ensures
        selection_is_valid(m.after_action(action)),
{
    lemma_choices_keep_selection(m, action);
    lemma_edits_keep_selection(m, action);
    lemma_others_keep_selection(m, action);
    lemma_headers_keep_selection(m, action);
}

} // verus!
