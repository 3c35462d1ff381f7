//! What each action of the user does, and what it leaves alone.

use vstd::prelude::*;

use crate::actions::{action_kind, is_plain, ActionKind, OutcomeModel};
use crate::app::{
    AppModel, AutocompleteState, CurrentScreen, EditingField, FocusableField, HeaderField,
    ResponseViewMode,
};
use crate::default_keymap::is_typed;
use crate::editing::{
    lemma_ascii_edits, lemma_ascii_word_deletions, lemma_edits_between, word_end, word_start,
};
use crate::headers::{lemma_set_is_read_back, value_of, with_field, without_field};
use crate::http_client::RequestModel;
use crate::jq::effective_filter;
use crate::keymap::{first_action, jump_action, ranked, Action, KeyEvent, KeyEventKind};
use crate::text::{byte_len, is_space};

verus! {

/// Whether two states of the application differ at most in the text that is
/// edited, its cursor, the suggestion that is selected and what is scrolled.
pub open spec fn differs_in_typing(a: AppModel, b: AppModel) -> bool {
    b == (AppModel {
        input_buffer: b.input_buffer,
        cursor_pos: b.cursor_pos,
        header_key_buffer: b.header_key_buffer,
        header_key_cursor: b.header_key_cursor,
        header_value_buffer: b.header_value_buffer,
        header_value_cursor: b.header_value_cursor,
        header_autocomplete: b.header_autocomplete,
        headers_scroll: b.headers_scroll,
        url_h_scroll: b.url_h_scroll,
        filter_h_scroll: b.filter_h_scroll,
        ..a
    })
}

/// Whether two states differ at most in the text that is edited and its cursor,
/// and only in the one that is edited.
pub open spec fn differs_in_target(a: AppModel, b: AppModel) -> bool {
    &&& differs_in_typing(a, b)
    &&& a.editing_field is None || a.editing_field == Some(EditingField::Headers) ==> b.input_buffer
        == a.input_buffer && b.cursor_pos == a.cursor_pos
    &&& a.editing_field != Some(EditingField::Headers) || a.header_field != HeaderField::Key
        ==> b.header_key_buffer == a.header_key_buffer && b.header_key_cursor
        == a.header_key_cursor
    &&& a.editing_field != Some(EditingField::Headers) || a.header_field != HeaderField::Value
        ==> b.header_value_buffer == a.header_value_buffer && b.header_value_cursor
        == a.header_value_cursor
}

/// The text that is edited is the header's name or value while a header is
/// edited, and the input else.
pub proof fn lemma_target_is_what_is_edited(m: AppModel)
    ensures
        m.editing_field != Some(EditingField::Headers) ==> m.target_text() == m.input_buffer
            && m.target_cursor() == m.cursor_pos,
        m.editing_field == Some(EditingField::Headers) && m.header_field == HeaderField::Key
            ==> m.target_text() == m.header_key_buffer && m.target_cursor() == m.header_key_cursor,
        m.editing_field == Some(EditingField::Headers) && m.header_field == HeaderField::Value
            ==> m.target_text() == m.header_value_buffer && m.target_cursor()
            == m.header_value_cursor,
{
}

/// A character that is typed stands at the cursor of the text that is edited,
/// between what was before the cursor and what was behind it, and the cursor
/// goes on by one.  Nothing else that matters changes; with nothing edited,
/// nothing at all.
pub proof fn lemma_typed_stands_at_the_cursor(
    m: AppModel,
    before: Seq<char>,
    behind: Seq<char>,
    c: char,
)
    requires
        m.editing_field is Some,
        m.target_text() == before + behind,
        m.target_cursor() == byte_len(before),
        m.target_cursor() < usize::MAX,
    ensures
        m.typed(c).target_text() == before + seq![c] + behind,
        m.typed(c).target_cursor() == m.target_cursor() + 1,
        differs_in_target(m, m.typed(c)),
        m.typed(c).header_autocomplete is Some <==> m.header_autocomplete is Some,
{
    lemma_edits_between(before, behind, c, before);
}

/// With nothing edited, no key edits anything.
pub proof fn lemma_nothing_edited_nothing_changed(m: AppModel, action: Action, c: char)
    requires
        m.editing_field is None,
        action_kind(action) == ActionKind::Move || action_kind(action) == ActionKind::Deletion,
    ensures
        m.typed(c) == m,
        m.after_action(action) == m,
{
    reveal(AppModel::after_move);
    reveal(AppModel::after_deletion);
}

/// In a plain text the cursor goes one character to the left or right while
/// there is one, to either end, or past a word.  The text stays, and so does
/// all else.
pub proof fn lemma_cursor_moves(m: AppModel)
    requires
        m.editing_field is Some,
        is_plain(m.target_text(), m.target_cursor()),
        m.target_text().len() < usize::MAX,
    ensures
        ({
            let text = m.target_text();
            let at = m.target_cursor();
            let moved = |action: Action, to: int|
                {
                    let after = m.after_action(action);
                    &&& after.target_text() == text
                    &&& after.target_cursor() == to
                    &&& differs_in_target(m, after)
                    &&& after.header_autocomplete == m.header_autocomplete
                    &&& after.headers_scroll == m.headers_scroll
                    &&& after.url_h_scroll == m.url_h_scroll
                    &&& after.filter_h_scroll == m.filter_h_scroll
                };
            &&& at > 0 ==> moved(Action::CursorLeft, at - 1)
            &&& at == 0 ==> moved(Action::CursorLeft, 0)
            &&& at < text.len() ==> moved(Action::CursorRight, at + 1)
            &&& at == text.len() ==> moved(Action::CursorRight, at)
            &&& moved(Action::CursorHome, 0)
            &&& moved(Action::CursorEnd, text.len() as int)
            &&& (exists|j: int| 0 <= j < at && !is_space(#[trigger] text[j])) ==> moved(
                Action::CursorWordLeft,
                word_start(text, at),
            )
            &&& (exists|j: int| at <= j < text.len() && !is_space(#[trigger] text[j])) ==> moved(
                Action::CursorWordRight,
                word_end(text, at),
            )
        }),
{
    reveal(AppModel::after_move);
    lemma_ascii_edits(m.target_text(), m.target_cursor(), ' ');
    lemma_ascii_word_deletions(m.target_text(), m.target_cursor());
}

/// Whether an action leaves a text in place of the one that is edited, with the
/// cursor at a place in it, and nothing else that matters changed.
pub open spec fn leaves(m: AppModel, action: Action, text: Seq<char>, to: int) -> bool {
    let after = m.after_action(action);
    &&& after.target_text() == text
    &&& after.target_cursor() == to
    &&& differs_in_target(m, after)
}

proof fn lemma_placed_text(m: AppModel, text: Seq<char>, to: int)
    requires
        m.editing_field is Some,
        0 <= to <= usize::MAX,
    ensures
        ({
            let placed = m.with_target(text, to);
            let first = placed.with_first_suggestion().with_target_in_view();
            let headers = placed.with_headers_in_view();
            &&& placed.target_text() == text && placed.target_cursor() == to
            &&& differs_in_target(m, placed)
            &&& first.target_text() == text && first.target_cursor() == to
            &&& differs_in_target(m, first)
            &&& headers.target_text() == text && headers.target_cursor() == to
            &&& differs_in_target(m, headers)
        }),
{
}

/// In a plain text, deleting takes away the character before the cursor or the
/// one behind it, and leaves the cursor where the gap was.  With nothing on that
/// side the text stays.
pub proof fn lemma_characters_are_deleted(m: AppModel)
    requires
        m.editing_field is Some,
        is_plain(m.target_text(), m.target_cursor()),
        m.target_text().len() < usize::MAX,
    ensures
        ({
            let text = m.target_text();
            let at = m.target_cursor();
            &&& at > 0 ==> leaves(
                m,
                Action::DeleteChar,
                text.take(at - 1) + text.skip(at),
                at - 1,
            )
            &&& at == 0 ==> leaves(m, Action::DeleteChar, text, 0)
            &&& at < text.len() ==> leaves(
                m,
                Action::DeleteNextChar,
                text.take(at) + text.skip(at + 1),
                at,
            )
            &&& at == text.len() ==> leaves(m, Action::DeleteNextChar, text, at)
        }),
{
    reveal(AppModel::after_deletion);
    let text = m.target_text();
    let at = m.target_cursor();
    lemma_ascii_edits(text, at, ' ');
    crate::text::lemma_ascii_boundary(text, at);
    if at > 0 {
        crate::text::lemma_ascii_boundary(text, at - 1);
        assert(text.remove(at - 1) =~= text.take(at - 1) + text.skip(at));
        lemma_placed_text(m, text.remove(at - 1), at - 1);
    }
    if at < text.len() {
        assert(text.remove(at) =~= text.take(at) + text.skip(at + 1));
        lemma_placed_text(m, text.remove(at), at);
    }
}

/// In a plain text, deleting a word takes away all between the cursor and the
/// far end of the word on that side, and leaves the cursor where the gap was.
pub proof fn lemma_words_are_deleted(m: AppModel)
    requires
        m.editing_field is Some,
        is_plain(m.target_text(), m.target_cursor()),
        m.target_text().len() < usize::MAX,
    ensures
        ({
            let text = m.target_text();
            let at = m.target_cursor();
            &&& (exists|j: int| 0 <= j < at && !is_space(#[trigger] text[j])) ==> leaves(
                m,
                Action::DeleteWordBackward,
                text.take(word_start(text, at)) + text.skip(at),
                word_start(text, at),
            )
            &&& (exists|j: int| at <= j < text.len() && !is_space(#[trigger] text[j])) ==> leaves(
                m,
                Action::DeleteWordForward,
                text.take(at) + text.skip(word_end(text, at)),
                at,
            )
        }),
{
    reveal(AppModel::after_deletion);
    let text = m.target_text();
    let at = m.target_cursor();
    lemma_ascii_edits(text, at, ' ');
    lemma_ascii_word_deletions(text, at);
    crate::editing::lemma_word_start_range(text, at);
    lemma_placed_text(
        m,
        crate::editing::word_deleted_backward(text, at),
        crate::editing::left_of_word(text, at),
    );
    lemma_placed_text(m, crate::editing::word_deleted_forward(text, at), at);
}

/// Whether the requests, all that is known of them, and what is on its way are
/// the same in two states.
pub open spec fn requests_are_kept(a: AppModel, b: AppModel) -> bool {
    &&& b.requests == a.requests
    &&& b.per_request == a.per_request
    &&& b.pending_request_index == a.pending_request_index
    &&& b.pending_response == a.pending_response
    &&& b.event_receiver == a.event_receiver
    &&& b.jq_queue == a.jq_queue
    &&& b.jq_phase == a.jq_phase
    &&& b.keymap == a.keymap
    &&& b.last_save_status == a.last_save_status
}

proof fn lemma_moves_keep_requests(m: AppModel, action: Action)
    ensures
        requests_are_kept(m, m.after_move(action)),
{
    reveal(AppModel::after_move);
}

proof fn lemma_deletions_keep_requests(m: AppModel, action: Action)
    ensures
        requests_are_kept(m, m.after_deletion(action)),
{
    reveal(AppModel::after_deletion);
    match action {
        Action::DeleteChar => {},
        Action::DeleteNextChar => {},
        Action::DeleteWordBackward => {},
        Action::DeleteWordForward => {},
        _ => {},
    }
}

proof fn lemma_edits_keep_requests(m: AppModel, action: Action)
    requires
        action != Action::ConfirmEdit,
        action != Action::SaveBody,
    ensures
        requests_are_kept(m, m.after_edit(action)),
{
    reveal(AppModel::after_edit);
}

proof fn lemma_choices_keep_requests(m: AppModel, action: Action)
    requires
        action != Action::NewRequest,
        action != Action::DeleteRequest,
        action != Action::ToggleMethod,
    ensures
        requests_are_kept(m, m.after_choice(action)),
{
    reveal(AppModel::after_choice);
}

proof fn lemma_scrolls_keep_requests(m: AppModel, action: Action)
    ensures
        requests_are_kept(m, m.after_scroll(action)),
{
    reveal(AppModel::after_scroll);
}

proof fn lemma_starts_keep_requests(m: AppModel, action: Action)
    requires
        action != Action::DeleteHeader,
    ensures
        requests_are_kept(m, m.after_header(action)),
        requests_are_kept(m, m.after_start(action)),
{
    reveal(AppModel::after_header);
    reveal(AppModel::after_start);
}

/// The requests are changed only where something is confirmed or saved, a
/// request is made or deleted, its method is changed, or a header is deleted.
pub proof fn lemma_few_actions_change_requests(m: AppModel, action: Action)
    requires
        action != Action::ConfirmEdit,
        action != Action::SaveBody,
        action != Action::NewRequest,
        action != Action::DeleteRequest,
        action != Action::ToggleMethod,
        action != Action::DeleteHeader,
    ensures
        requests_are_kept(m, m.after_action(action)),
{
    match action_kind(action) {
        ActionKind::Move => lemma_moves_keep_requests(m, action),
        ActionKind::Deletion => lemma_deletions_keep_requests(m, action),
        ActionKind::Edit => lemma_edits_keep_requests(m, action),
        ActionKind::Choice => lemma_choices_keep_requests(m, action),
        ActionKind::Scroll => lemma_scrolls_keep_requests(m, action),
        ActionKind::Header => lemma_starts_keep_requests(m, action),
        ActionKind::Start => lemma_starts_keep_requests(m, action),
        ActionKind::Outside => {},
    }
}

/// Whether only the selected request may differ between two states.
pub open spec fn others_are_kept(a: AppModel, b: AppModel) -> bool {
    &&& b.requests.len() == a.requests.len()
    &&& b.current_request_index == a.current_request_index
    &&& forall|r: int|
        0 <= r < a.requests.len() && r != a.current_request_index->0 ==> #[trigger] b.requests[r]
            == a.requests[r]
}

/// A confirmed address, filter or pattern is kept as it was typed, in the
/// selected request and in no other, and changes nothing else of it.  Editing
/// ends.
pub proof fn lemma_confirmed_text_is_kept(m: AppModel)
    requires
        m.has_current(),
    ensures
        ({
            let after = m.after_action(Action::ConfirmEdit);
            &&& m.editing_field == Some(EditingField::Url) ==> after.current() == (RequestModel {
                url: m.input_buffer,
                ..m.current()
            })
            &&& m.editing_field == Some(EditingField::JsonFilter) ==> after.current() == (
            RequestModel { jq_filter: m.input_buffer, ..m.current() })
            &&& m.editing_field == Some(EditingField::StreamPrefixRegex) ==> after.current() == (
            RequestModel { stream_prefix_regex: m.input_buffer, ..m.current() })
            &&& m.editing_field == Some(EditingField::StreamSuffixRegex) ==> after.current() == (
            RequestModel { stream_suffix_regex: m.input_buffer, ..m.current() })
            &&& m.editing_field is Some && m.editing_field != Some(EditingField::Headers)
                && m.editing_field != Some(EditingField::Body) ==> {
                &&& after.editing_field is None
                &&& after.input_buffer.len() == 0
                &&& others_are_kept(m, after)
                &&& m.editing_field != Some(EditingField::Url) ==> after.response_scroll == 0
                &&& m.editing_field == Some(EditingField::Url) ==> after.response_scroll
                    == m.response_scroll
            }
            &&& m.editing_field is None || m.editing_field == Some(EditingField::Body) ==> after
                == m
        }),
{
    reveal_strlit("");
    reveal(AppModel::after_edit);
}

proof fn lemma_suggestion_keeps_states(m: AppModel, names: Seq<Seq<char>>)
    ensures
        m.with_suggestion(names).per_request == m.per_request,
        m.with_suggestion(names).current_request_index == m.current_request_index,
{
}

proof fn lemma_header_keeps_states(m: AppModel, request: RequestModel)
    ensures
        m.with_current(request).per_request == m.per_request,
        m.with_current(request).current_request_index == m.current_request_index,
{
}

#[verifier::rlimit(40)]
proof fn lemma_confirming_keeps_states(m: AppModel)
    ensures
        m.edit_confirmed().per_request == m.per_request,
        m.edit_confirmed().current_request_index == m.current_request_index,
{
    if m.editing_field == Some(EditingField::Headers) {
        if m.header_autocomplete is Some {
            lemma_suggestion_keeps_states(m, m.suggestions());
        } else if m.header_field == HeaderField::Value {
            lemma_header_keeps_states(
                m,
                RequestModel { headers: m.headers_confirmed(), ..m.current() },
            );
        }
    }
}

/// A confirmed pattern has the body gone over again with it, and so has a
/// confirmed filter while the stream is shown; jq is then run on every line that
/// is kept, with the filter of the selected request.  Nothing else has.
pub proof fn lemma_confirmed_pattern_is_used(m: AppModel, idx: usize)
    requires
        m.current_request_index == Some(idx),
    ensures
        ({
            let again = m.editing_field == Some(EditingField::StreamPrefixRegex) || m.editing_field
                == Some(EditingField::StreamSuffixRegex) || (m.editing_field == Some(
                EditingField::JsonFilter,
            ) && m.response_view_mode == ResponseViewMode::StreamedJson);
            let after = m.after_action(Action::ConfirmEdit);
            let outcome = m.outcome_of(Action::ConfirmEdit);
            &&& again ==> (outcome matches OutcomeModel::RunBatch(batch) && batch.idx == idx
                && batch.lines == after.state(idx).stripped_lines && batch.filter
                == effective_filter(after.jq_filter()) && batch.next == 0 && batch.output.len()
                == 0 && !batch.stopped)
            &&& !again ==> outcome is Continue
            &&& again ==> after.reprocessed() == after
            &&& !again ==> after.per_request == m.per_request
            &&& after.state(idx).streamed_body == m.state(idx).streamed_body
            &&& after.state(idx).last_response == m.state(idx).last_response
            &&& forall|j: usize| j != idx ==> #[trigger] after.state(j) == m.state(j)
        }),
{
    reveal(AppModel::after_edit);
    let typed = m.edit_confirmed();
    lemma_confirming_keeps_states(m);
    crate::streaming::lemma_reprocessing_keeps_the_body(typed, idx);
    let after = m.after_action(Action::ConfirmEdit);
    if m.confirming_reprocesses() {
        assert(after == typed.reprocessed());
        assert(after.jq_filter() == typed.jq_filter());
        assert forall|j: usize| j != idx implies #[trigger] after.state(j) == m.state(j) by {
            assert(typed.state(j) == m.state(j));
        }
    } else {
        assert(after == typed);
    }
}

/// A saved body is kept as it was typed, in the selected request and in no
/// other, and changes nothing else of it.  Editing ends.
pub proof fn lemma_saved_body_changes_the_body(m: AppModel)
    requires
        m.has_current(),
    ensures
        ({
            let after = m.after_action(Action::SaveBody);
            &&& after.current() == (RequestModel { body: Some(m.input_buffer), ..m.current() })
            &&& others_are_kept(m, after)
            &&& after.editing_field is None
            &&& after.per_request == m.per_request
        }),
{
    reveal(AppModel::after_edit);
}

/// A confirmed header is there with its value; the one that it was edited from
/// is gone where its name was changed; every other header keeps its value, and
/// nothing else of any request changes.  An empty name changes no header.
pub proof fn lemma_confirmed_header_takes_its_place(m: AppModel, other: Seq<char>)
    requires
        m.has_current(),
        m.editing_field == Some(EditingField::Headers),
        m.header_autocomplete is None,
        m.header_field == HeaderField::Value,
    ensures
        ({
            let before = m.current().headers;
            let after = m.after_action(Action::ConfirmEdit);
            let now = after.current().headers;
            &&& after.current() == (RequestModel { headers: now, ..m.current() })
            &&& others_are_kept(m, after)
            &&& after.editing_field is None
            &&& after.header_key_buffer.len() == 0 && after.header_value_buffer.len() == 0
            &&& after.editing_existing_header is None
            &&& m.header_key_buffer.len() == 0 ==> now == before
            &&& m.header_key_buffer.len() > 0 ==> value_of(now, m.header_key_buffer) == Some(
                m.header_value_buffer,
            )
            &&& m.header_key_buffer.len() > 0 && m.editing_existing_header is None && other
                != m.header_key_buffer ==> value_of(now, other) == value_of(before, other)
            &&& m.header_key_buffer.len() > 0 && m.editing_existing_header is Some ==> now
                == with_field(
                without_field(before, m.editing_existing_header->0),
                m.header_key_buffer,
                m.header_value_buffer,
            )
        }),
{
    reveal_strlit("");
    reveal(AppModel::after_edit);
    let before = m.current().headers;
    let base = match m.editing_existing_header {
        Some(name) => without_field(before, name),
        None => before,
    };
    lemma_set_is_read_back(base, m.header_key_buffer, m.header_value_buffer, other);
}

/// While a header is edited, confirming its name goes on to its value, and with
/// suggestions shown the selected one becomes the name.  No request changes.
pub proof fn lemma_confirmed_name_leads_to_value(m: AppModel)
    requires
        m.editing_field == Some(EditingField::Headers),
    ensures
        ({
            let after = m.after_action(Action::ConfirmEdit);
            &&& m.header_autocomplete is None && m.header_field == HeaderField::Key ==> after == (
            AppModel { header_field: HeaderField::Value, ..m })
            &&& m.header_autocomplete is Some ==> after.requests == m.requests
                && after.editing_field == m.editing_field
            &&& m.header_autocomplete is Some && m.header_autocomplete->0.selected
                < m.suggestions().len() ==> after.header_key_buffer
                == m.suggestions()[m.header_autocomplete->0.selected as int] && after.header_field
                == HeaderField::Value && after.header_autocomplete is None
        }),
{
    reveal(AppModel::after_edit);
}

/// Cancelling forgets what was typed and changes nothing else.
pub proof fn lemma_cancel_forgets_typing(m: AppModel)
    ensures
        ({
            let after = m.after_action(Action::CancelEdit);
            &&& after.editing_field is None
            &&& after.input_buffer.len() == 0 && after.cursor_pos == 0
            &&& after.header_key_buffer.len() == 0 && after.header_key_cursor == 0
            &&& after.header_value_buffer.len() == 0 && after.header_value_cursor == 0
            &&& after.header_field == HeaderField::Key
            &&& after.editing_existing_header is None
            &&& after.header_autocomplete is None
            &&& after.requests == m.requests && after.per_request == m.per_request
            &&& after.current_request_index == m.current_request_index
            &&& after.current_screen == m.current_screen
            &&& after.focused_field == m.focused_field
            &&& after.response_view_mode == m.response_view_mode
            &&& after.selected_header_index == m.selected_header_index
            &&& after.body_scroll == m.body_scroll && after.response_scroll == m.response_scroll
        }),
{
    reveal_strlit("");
    reveal(AppModel::after_edit);
}

/// Within a header, the other part is edited, with suggestions shown for the
/// name alone; twice leads back.  Typing is not lost.
pub proof fn lemma_header_parts_take_turns(m: AppModel)
    ensures
        ({
            let after = m.after_action(Action::ToggleHeaderKeyValue);
            &&& m.editing_field == Some(EditingField::Headers) ==> {
                &&& after.header_field != m.header_field
                &&& after.header_autocomplete is Some <==> after.header_field == HeaderField::Key
                &&& after.header_autocomplete matches Some(ac) ==> ac.selected == 0
                &&& after.after_action(Action::ToggleHeaderKeyValue).header_field == m.header_field
            }
            &&& m.editing_field != Some(EditingField::Headers) ==> after == m
            &&& after == (AppModel {
                header_field: after.header_field,
                header_autocomplete: after.header_autocomplete,
                ..m
            })
        }),
{
    reveal(AppModel::after_edit);
}

/// A line break is inserted at the cursor of the input, which goes on behind it.
pub proof fn lemma_newline_stands_at_the_cursor(
    m: AppModel,
    before: Seq<char>,
    behind: Seq<char>,
)
    requires
        m.input_buffer == before + behind,
        m.cursor_pos == byte_len(before),
        m.cursor_pos < usize::MAX,
    ensures
        m.after_action(Action::InsertNewline) == (AppModel {
            input_buffer: before + seq!['\n'] + behind,
            cursor_pos: (m.cursor_pos + 1) as usize,
            ..m
        }),
{
    reveal(AppModel::after_edit);
    lemma_edits_between(before, behind, '\n', before);
}

/// The suggestion below or above is selected while a header is edited, and only
/// then.
pub proof fn lemma_suggestions_are_walked(m: AppModel, at: usize)
    requires
        m.header_autocomplete == Some(AutocompleteState { selected: at }),
        m.suggestions().len() <= usize::MAX,
    ensures
        m.editing_field == Some(EditingField::Headers) && at + 1 < m.suggestions().len()
            ==> m.after_action(Action::AutocompleteDown) == (AppModel {
            header_autocomplete: Some(AutocompleteState { selected: (at + 1) as usize }),
            ..m
        }),
        m.editing_field == Some(EditingField::Headers) && at > 0 ==> m.after_action(
            Action::AutocompleteUp,
        ) == (AppModel {
            header_autocomplete: Some(AutocompleteState { selected: (at - 1) as usize }),
            ..m
        }),
        m.editing_field == Some(EditingField::Headers) && at + 1 >= m.suggestions().len()
            ==> m.after_action(Action::AutocompleteDown) == m,
        m.editing_field == Some(EditingField::Headers) && at == 0 ==> m.after_action(
            Action::AutocompleteUp,
        ) == m,
        m.editing_field != Some(EditingField::Headers) ==> m.after_action(Action::AutocompleteDown)
            == m && m.after_action(Action::AutocompleteUp) == m,
{
    reveal(AppModel::after_edit);
}

/// A new request stands behind all the others, is selected, and asks for an
/// address; the others stay as they are and where they are.
pub proof fn lemma_new_request_is_last(m: AppModel)
    requires
        m.requests.len() <= usize::MAX,
    ensures
        ({
            let after = m.after_action(Action::NewRequest);
            &&& after.requests.len() == m.requests.len() + 1
            &&& after.requests.drop_last() == m.requests
            &&& after.current_request_index == Some(m.requests.len() as usize)
            &&& after.requests.last().method == "GET"@
            &&& after.requests.last().url == "https://"@
            &&& after.requests.last().headers.len() == 0
            &&& after.requests.last().body is None
            &&& after.requests.last().jq_filter == "."@
            &&& after == (AppModel {
                requests: after.requests,
                current_request_index: after.current_request_index,
                ..m
            })
        }),
{
    reveal(AppModel::after_choice);
    assert(m.after_action(Action::NewRequest).requests.drop_last() =~= m.requests);
}

/// The request below or above is selected while there is one; the selection
/// stays at the ends, and begins with the first.  Nothing else changes.
pub proof fn lemma_next_request_is_below(m: AppModel)
    requires
        m.requests.len() <= usize::MAX,
    ensures
        ({
            let next = m.after_action(Action::SelectNextRequest);
            let previous = m.after_action(Action::SelectPreviousRequest);
            &&& m.current_request_index matches Some(i) ==> {
                &&& i + 1 < m.requests.len() ==> next.current_request_index == Some(
                    (i + 1) as usize,
                )
                &&& i + 1 >= m.requests.len() ==> next.current_request_index == Some(i)
                &&& m.requests.len() > 0 && i > 0 ==> previous.current_request_index == Some(
                    (i - 1) as usize,
                )
                &&& i == 0 ==> previous.current_request_index == Some(i)
            }
            &&& m.current_request_index is None && m.requests.len() > 0
                ==> next.current_request_index == Some(0usize) && previous.current_request_index
                == Some(0usize)
            &&& m.requests.len() == 0 ==> next == m && previous == m
            &&& next == (AppModel { current_request_index: next.current_request_index, ..m })
            &&& previous == (AppModel {
                current_request_index: previous.current_request_index,
                ..m
            })
        }),
{
    reveal(AppModel::after_choice);
}

/// The screens: a selected request is opened without editing anything, going
/// back leads to the list and forgets what was typed, leaving is asked about and
/// can be taken back.
pub proof fn lemma_screens_are_changed(m: AppModel)
    ensures
        m.has_current() ==> m.after_action(Action::EditRequest) == (AppModel {
            current_screen: CurrentScreen::Request,
            editing_field: None,
            ..m
        }),
        !m.has_current() ==> m.after_action(Action::EditRequest) == m,
        m.after_action(Action::TriggerExit) == (AppModel {
            current_screen: CurrentScreen::Exiting,
            ..m
        }),
        m.after_action(Action::CancelExit).current_screen == CurrentScreen::Main,
        ({
            let back = m.after_action(Action::GoBack);
            &&& back.current_screen == CurrentScreen::Main
            &&& back.editing_field is None
            &&& back.requests == m.requests && back.per_request == m.per_request
            &&& back.current_request_index == m.current_request_index
            &&& back.input_buffer.len() == 0
            &&& back.focused_field == FocusableField::Url
            &&& back.response_scroll == 0 && back.body_scroll == 0
        }),
{
    reveal_strlit("");
    reveal(AppModel::after_choice);
}

/// The method of the selected request is changed, and nothing else of any.
pub proof fn lemma_method_is_changed(m: AppModel)
    requires
        m.has_current(),
    ensures
        ({
            let after = m.after_action(Action::ToggleMethod);
            &&& after.current() == (RequestModel { method: after.current().method, ..m.current() })
            &&& others_are_kept(m, after)
            &&& m.current().method == "GET"@ ==> after.current().method == "POST"@
            &&& after == (AppModel { requests: after.requests, ..m })
        }),
{
    reveal(AppModel::after_choice);
}

/// The focused part is scrolled by one row, or by a page of thirty, and not past
/// its first row.
pub proof fn lemma_focused_part_scrolls(m: AppModel)
    requires
        m.focused_field == FocusableField::Response,
    ensures
        m.response_scroll < u16::MAX ==> m.after_action(Action::ScrollDown) == (AppModel {
            response_scroll: (m.response_scroll + 1) as u16,
            ..m
        }),
        m.response_scroll > 0 ==> m.after_action(Action::ScrollUp) == (AppModel {
            response_scroll: (m.response_scroll - 1) as u16,
            ..m
        }),
        m.response_scroll <= u16::MAX - 30 ==> m.after_action(Action::PageDown) == (AppModel {
            response_scroll: (m.response_scroll + 30) as u16,
            ..m
        }),
        m.response_scroll >= 30 ==> m.after_action(Action::PageUp) == (AppModel {
            response_scroll: (m.response_scroll - 30) as u16,
            ..m
        }),
        m.response_scroll < 30 ==> m.after_action(Action::PageUp).response_scroll == 0,
        m.response_scroll == 0 ==> m.after_action(Action::ScrollUp) == m,
{
    reveal(AppModel::after_scroll);
}

proof fn lemma_scrolled_back(m: AppModel, by: u16)
    requires
        m.headers_scroll + by <= u16::MAX,
        m.body_scroll + by <= u16::MAX,
        m.events_scroll + by <= u16::MAX,
        m.response_scroll + by <= u16::MAX,
    ensures
        ({
            let down = |scroll: u16| crate::app::scrolled_down(scroll, by);
            let up = |scroll: u16| crate::app::scrolled_up(scroll, by);
            m.with_scroll(down).with_scroll(up) == m
        }),
{
}

/// Scrolling up undoes scrolling down in every part that can be scrolled.
pub proof fn lemma_scrolling_up_undoes_down(m: AppModel)
    requires
        m.headers_scroll < u16::MAX - 30,
        m.body_scroll < u16::MAX - 30,
        m.events_scroll < u16::MAX - 30,
        m.response_scroll < u16::MAX - 30,
    ensures
        m.after_action(Action::ScrollDown).after_action(Action::ScrollUp) == m,
        m.after_action(Action::PageDown).after_action(Action::PageUp) == m,
{
    lemma_scrolled_back(m, 1);
    lemma_scrolled_back(m, 30);
    assert(forall|n: AppModel|
        #![trigger n.after_action(Action::ScrollDown)]
        n.after_action(Action::ScrollDown) == n.with_scroll(
            |scroll: u16| crate::app::scrolled_down(scroll, 1),
        )) by {
        reveal(AppModel::after_scroll);
    }
    assert(forall|n: AppModel|
        #![trigger n.after_action(Action::ScrollUp)]
        n.after_action(Action::ScrollUp) == n.with_scroll(
            |scroll: u16| crate::app::scrolled_up(scroll, 1),
        )) by {
        reveal(AppModel::after_scroll);
    }
    assert(forall|n: AppModel|
        #![trigger n.after_action(Action::PageDown)]
        n.after_action(Action::PageDown) == n.with_scroll(
            |scroll: u16| crate::app::scrolled_down(scroll, 30),
        )) by {
        reveal(AppModel::after_scroll);
    }
    assert(forall|n: AppModel|
        #![trigger n.after_action(Action::PageUp)]
        n.after_action(Action::PageUp) == n.with_scroll(
            |scroll: u16| crate::app::scrolled_up(scroll, 30),
        )) by {
        reveal(AppModel::after_scroll);
    }
}

/// Scrolling down shows the next row of the part that has the focus, and with
/// the focus on the address nothing is scrolled.
pub proof fn lemma_scrolling_follows_the_focus(m: AppModel)
    requires
        m.headers_scroll < u16::MAX,
        m.body_scroll < u16::MAX,
        m.events_scroll < u16::MAX,
        m.response_scroll < u16::MAX,
    ensures
        ({
            let down = m.after_action(Action::ScrollDown);
            let rows = |field: FocusableField|
                if m.focused_field == field {
                    1int
                } else {
                    0int
                };
            &&& down.headers_scroll == m.headers_scroll + rows(FocusableField::Headers)
            &&& down.body_scroll == m.body_scroll + rows(FocusableField::Body)
            &&& down.events_scroll == m.events_scroll + rows(FocusableField::RequestEvents)
            &&& down.response_scroll == m.response_scroll + rows(FocusableField::Response)
        }),
{
    reveal(AppModel::after_scroll);
}

/// The focus goes to the next field, to the one before, or to the headers, and
/// nothing else changes; twice in opposite directions it stays.
pub proof fn lemma_focus_moves(m: AppModel)
    ensures
        m.after_action(Action::FocusNextField) == (AppModel {
            focused_field: crate::app::field_after(m.focused_field),
            ..m
        }),
        m.after_action(Action::FocusNextField).after_action(Action::FocusPreviousField) == m,
        m.after_action(Action::FocusPreviousField).after_action(Action::FocusNextField) == m,
        m.after_action(Action::FocusHeaders) == (AppModel {
            focused_field: FocusableField::Headers,
            ..m
        }),
{
    reveal(AppModel::after_scroll);
}

/// Another view of the answer begins at its first row, and nothing else changes.
pub proof fn lemma_view_begins_at_the_top(m: AppModel)
    ensures
        m.after_action(Action::CycleViewMode) == (AppModel {
            response_view_mode: m.next_view_mode(),
            response_scroll: 0,
            ..m
        }),
{
    reveal(AppModel::after_scroll);
}

/// Headers are added and deleted only where they have the focus.
pub proof fn lemma_headers_need_the_focus(m: AppModel)
    ensures
        m.focused_field != FocusableField::Headers ==> m.after_action(Action::AddHeader) == m
            && m.after_action(Action::DeleteHeader) == m,
        m.focused_field == FocusableField::Headers ==> {
            &&& m.after_action(Action::DeleteHeader) == m.without_selected_header()
            &&& m.after_action(Action::AddHeader).editing_field == Some(EditingField::Headers)
            &&& m.after_action(Action::AddHeader).header_key_buffer.len() == 0
            &&& m.after_action(Action::AddHeader).header_value_buffer.len() == 0
            &&& m.after_action(Action::AddHeader).editing_existing_header is None
        },
        m.after_action(Action::SelectNextHeader) == m.with_next_header(),
        m.after_action(Action::SelectPreviousHeader) == m.with_previous_header(),
        m.after_action(Action::EditSelectedHeader) == m.editing_selected_header(),
{
    reveal_strlit("");
    reveal(AppModel::after_header);
}

/// Deleting a header from the keyboard takes the selected one away and keeps
/// every other, where the names differ but for their case.
pub proof fn lemma_delete_header_takes_the_selected_one(m: AppModel)
    requires
        m.has_current(),
        m.focused_field == FocusableField::Headers,
        m.selected_header_index < m.current().headers.len(),
        forall|i: int, j: int|
            0 <= i < j < m.current().headers.len() ==> crate::text::lowercase(
                (#[trigger] m.current().headers[i]).0,
            ) != crate::text::lowercase((#[trigger] m.current().headers[j]).0),
    ensures
        m.after_action(Action::DeleteHeader).current().headers == m.current().headers.remove(
            m.selected_header_index as int,
        ),
        others_are_kept(m, m.after_action(Action::DeleteHeader)),
{
    reveal(AppModel::after_header);
    crate::app::lemma_deleted_header_is_the_selected_one(m);
    assert(m.without_selected_header().current().headers =~= m.current().headers.remove(
        m.selected_header_index as int,
    ));
}

/// Jumping to the address or the body moves the focus there and begins to edit
/// what the selected request has there.
pub proof fn lemma_jumps_edit_what_is_there(m: AppModel)
    requires
        m.has_current(),
        byte_len(m.current().url) <= usize::MAX,
        m.current().body matches Some(body) ==> byte_len(body) <= usize::MAX,
    ensures
        ({
            let url = m.after_action(Action::JumpToUrl);
            let body = m.after_action(Action::JumpToBody);
            &&& url.focused_field == FocusableField::Url
            &&& url.editing_field == Some(EditingField::Url)
            &&& url.input_buffer == m.current().url
            &&& url.cursor_pos == byte_len(m.current().url)
            &&& body.focused_field == FocusableField::Body
            &&& body.editing_field == Some(EditingField::Body)
            &&& m.current().body matches Some(text) ==> body.input_buffer == text
            &&& m.current().body is None ==> body.input_buffer.len() == 0
            &&& m.after_action(Action::EditFocusedField) == m.editing_focused()
        }),
{
    reveal_strlit("");
    reveal(AppModel::after_start);
}

/// The filter and the patterns of the selected request are edited where they are
/// shown: with the focus on the answer, the filter in either JSON view, the
/// patterns in the view of the stream alone.
pub proof fn lemma_filters_are_edited_where_shown(m: AppModel)
    requires
        byte_len(m.jq_filter()) <= usize::MAX,
        byte_len(m.stream_prefix_regex()) <= usize::MAX,
        byte_len(m.stream_suffix_regex()) <= usize::MAX,
    ensures
        ({
            let focused = m.focused_field == FocusableField::Response;
            let stream = m.response_view_mode == ResponseViewMode::StreamedJson;
            let json = m.response_view_mode == ResponseViewMode::Json;
            let edited = |action: Action, text: Seq<char>, field: EditingField|
                m.after_action(action) == (AppModel {
                    input_buffer: text,
                    cursor_pos: byte_len(text) as usize,
                    editing_field: Some(field),
                    ..m
                });
            &&& focused && (stream || json) ==> edited(
                Action::EditJqFilter,
                m.jq_filter(),
                EditingField::JsonFilter,
            )
            &&& focused && stream ==> edited(
                Action::EditStreamPrefixRegex,
                m.stream_prefix_regex(),
                EditingField::StreamPrefixRegex,
            )
            &&& focused && stream ==> edited(
                Action::EditStreamSuffixRegex,
                m.stream_suffix_regex(),
                EditingField::StreamSuffixRegex,
            )
            &&& !focused || !(stream || json) ==> m.after_action(Action::EditJqFilter) == m
            &&& !focused || !stream ==> m.after_action(Action::EditStreamPrefixRegex) == m
                && m.after_action(Action::EditStreamSuffixRegex) == m
        }),
{
    reveal(AppModel::after_start);
}

/// What an action asks of the caller: to leave, to save, to send, to run jq, each
/// for its own action, and of those that ask for something outside none changes
/// anything by itself.
pub proof fn lemma_actions_ask_for_their_own(m: AppModel, action: Action)
    ensures
        m.outcome_of(action) is Exit <==> action == Action::ConfirmExit,
        m.outcome_of(action) is SaveRequests <==> action == Action::SaveRequests,
        m.outcome_of(action) is SendRequest <==> action == Action::SendRequest,
        m.outcome_of(action) is RunBatch ==> action == Action::ConfirmEdit,
        action == Action::ConfirmExit || action == Action::SaveRequests || action
            == Action::SendRequest ==> m.after_action(action) == m,
{
}

/// A key that is typed while something is edited is typed; every other key that
/// is pressed does what the nearest rule says, or nothing.
pub proof fn lemma_keys_mean_what_is_bound(m: AppModel, key: KeyEvent)
    requires
        key.kind != KeyEventKind::Release,
    ensures
        ({
            let bound = first_action(ranked(m.keymap, m.key_context()), key);
            let types = m.editing_field is Some && key.code is Char && is_typed(key);
            &&& types ==> m.after_key(key) == (m.typed(key.code->Char_0), OutcomeModel::Continue)
            &&& !types && bound is Some ==> m.after_key(key) == (
                m.after_action(bound->0),
                m.outcome_of(bound->0),
            )
            &&& !types && bound is None ==> m.after_key(key) == (m, OutcomeModel::Continue)
            &&& m.key_context().screen == m.current_screen
            &&& m.key_context().editing == m.editing_field
            &&& m.key_context().focus == m.focused_field
        }),
{
}

/// The action that jumps to a field moves the focus there.
pub proof fn lemma_jump_leads_to_its_field(m: AppModel, field: FocusableField)
    requires
        jump_action(field) is Some,
    ensures
        m.after_action(jump_action(field)->0).focused_field == field,
{
    reveal(AppModel::after_start);
    reveal(AppModel::after_scroll);
}

/// While something is typed or deleted, what is edited is kept in view to its
/// end, and nothing else is scrolled; a name that changes has its suggestions
/// walked from the first again.
pub proof fn lemma_typing_keeps_its_end_in_view(m: AppModel, c: char)
    requires
        m.editing_field is Some,
    ensures
        ({
            let in_view = |after: AppModel|
                {
                let headers = m.editing_field == Some(EditingField::Headers);
                let url = m.editing_field == Some(EditingField::Url);
                let filter = m.editing_field == Some(EditingField::JsonFilter) || m.editing_field
                    == Some(EditingField::StreamPrefixRegex) || m.editing_field == Some(
                    EditingField::StreamSuffixRegex,
                );
                &&& headers ==> after.headers_scroll == u16::MAX
                &&& !headers ==> after.headers_scroll == m.headers_scroll
                &&& url ==> after.url_h_scroll == u16::MAX
                &&& !url ==> after.url_h_scroll == m.url_h_scroll
                &&& filter ==> after.filter_h_scroll == u16::MAX
                &&& !filter ==> after.filter_h_scroll == m.filter_h_scroll
                &&& !headers || m.header_field == HeaderField::Value ==> after.header_autocomplete
                    == m.header_autocomplete
                };
            in_view(m.typed(c)) && in_view(m.char_deleted())
        }),
        m.editing_field == Some(EditingField::Headers) && m.header_field == HeaderField::Key
            && m.header_autocomplete is Some ==> m.typed(c).header_autocomplete == Some(
            AutocompleteState { selected: 0 },
        ) && (m.header_key_cursor > 0 ==> m.char_deleted().header_autocomplete == Some(
            AutocompleteState { selected: 0 },
        )),
{
}

} // verus!
