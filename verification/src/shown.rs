//! What is sure to be among what the screens draw.

use vstd::prelude::*;

use crate::actions::{action_kind, ActionKind};
use crate::app::{
    AppModel, CurrentScreen, EditingField, FocusableField, HeaderField, ResponseViewMode,
};
use crate::drawing::{Align, Area, Color, ContentModel, DrawModel, LookModel, PieceModel, TextStyle};
use crate::keymap::{jump_action, Action, BindingModel};
use crate::text::{byte_len, decimal, join_texts};
use crate::ui::{
    body_cursor, body_panel, can_count, cursor_column, edited_headers, events_panel, exit_popup,
    filter_bar, filter_row, filter_title, filters_block, footer, header_cursor, header_items,
    headers_panel, in_group, json_panel, key_lines, line_cursor, line_scroll, main_screen,
    max_scroll, mode_pieces, of_group, popup, popup_area, request_items, request_screen,
    response_look, response_panel, response_style, response_text, rows_of, rows_to_cursor,
    scroll_in_line, scrolled_text, status_color, status_piece, stream_panel, suggestion_items,
    text_panel, url_panel, whole_screen, HintGroup, RequestAreas, ResponseAreas, ScreenAreas,
    ScrollMode,
};

verus! {

/// Whether a text is drawn in an area.
pub open spec fn shows(drawn: Seq<DrawModel>, area: Area, content: ContentModel) -> bool {
    exists|i: int|
        0 <= i < drawn.len() && (#[trigger] drawn[i] matches DrawModel::Text { area: a, paragraph }
            && a == area && paragraph.content == content)
}

/// Whether a list is drawn in an area.
pub open spec fn lists(drawn: Seq<DrawModel>, area: Area, items: Seq<PieceModel>) -> bool {
    exists|i: int|
        0 <= i < drawn.len() && (#[trigger] drawn[i] matches DrawModel::List {
            area: a,
            look,
            items: shown,
        } && a == area && shown == items)
}

/// Whether a cursor is drawn.
pub open spec fn has_cursor(drawn: Seq<DrawModel>) -> bool {
    exists|i: int| 0 <= i < drawn.len() && #[trigger] drawn[i] is Cursor
}

/// What is drawn stays drawn when more is drawn over it.
pub proof fn lemma_drawn_stays(before: Seq<DrawModel>, after: Seq<DrawModel>)
    requires
        before.is_prefix_of(after),
    ensures
        forall|area: Area, content: ContentModel| #[trigger]
            shows(before, area, content) ==> shows(after, area, content),
        forall|area: Area, items: Seq<PieceModel>| #[trigger]
            lists(before, area, items) ==> lists(after, area, items),
        has_cursor(before) ==> has_cursor(after),
{
    assert(forall|i: int| 0 <= i < before.len() ==> #[trigger] before[i] == after[i]);
    assert forall|area: Area, content: ContentModel| #[trigger]
        shows(before, area, content) implies shows(after, area, content) by {
        let i = choose|i: int|
            0 <= i < before.len() && (#[trigger] before[i] matches DrawModel::Text {
                area: a,
                paragraph,
            } && a == area && paragraph.content == content);
        assert(after[i] == before[i]);
    }
    assert forall|area: Area, items: Seq<PieceModel>| #[trigger]
        lists(before, area, items) implies lists(after, area, items) by {
        let i = choose|i: int|
            0 <= i < before.len() && (#[trigger] before[i] matches DrawModel::List {
                area: a,
                look,
                items: shown,
            } && a == area && shown == items);
        assert(after[i] == before[i]);
    }
    if has_cursor(before) {
        let i = choose|i: int| 0 <= i < before.len() && #[trigger] before[i] is Cursor;
        assert(after[i] is Cursor);
    }
}

/// A text that may be longer than its area is drawn whole from the row that it
/// is scrolled to, in the style and border asked for, over what was drawn; a
/// scrollbar stands at its side exactly where it has more rows than the area.
pub proof fn lemma_scrolled_text_is_shown(
    before: Seq<DrawModel>,
    content: ContentModel,
    look: LookModel,
    style: TextStyle,
    area: Area,
    scroll: u16,
)
    ensures
        ({
            let drawn = scrolled_text(before, content, look, style, area, scroll);
            &&& before.is_prefix_of(drawn)
            &&& shows(drawn, area, content)
            &&& drawn[before.len() as int] matches DrawModel::Text { area: a, paragraph } && a
                == area && paragraph.content == content && paragraph.look == Some(look)
                && paragraph.style == style && paragraph.wrap && paragraph.scroll_y == scroll
                && paragraph.scroll_x == 0
            &&& rows_of(content, area) > area.inside().height ==> drawn.len() == before.len() + 2
                && drawn.last() == (DrawModel::Scrollbar {
                area,
                max: max_scroll(rows_of(content, area), area),
                position: scroll,
            })
            &&& rows_of(content, area) <= area.inside().height ==> drawn.len() == before.len() + 1
        }),
{
    let drawn = scrolled_text(before, content, look, style, area, scroll);
    assert(drawn[before.len() as int] is Text);
}

/// The answer of the selected request as text: where the request is not on its
/// way and was answered, with whatever status, exactly the body of the answer;
/// where it failed, the error; where it was never sent, a hint to send it; and
/// while it is on its way, what has come of the body, or that it is awaited.
pub proof fn lemma_answer_is_shown(before: Seq<DrawModel>, m: AppModel, area: Area)
    ensures
        ({
            let pending = m.pending_response && m.pending_request_index == m.current_request_index;
            let shown = |text: Seq<char>|
                can_count(text, area.inside().width) ==> (text_panel(before, m, area) matches Some(
                    (drawn, _),
                ) && before.is_prefix_of(drawn) && shows(drawn, area, ContentModel::Plain(text)));
            &&& !pending && (m.last_response() matches Some(Ok(_))) ==> shown(
                m.last_response()->0->Ok_0.body,
            )
            &&& !pending && (m.last_response() matches Some(Err(_))) ==> shown(
                "Error: "@ + m.last_response()->0->Err_0.text(),
            )
            &&& !pending && m.last_response() is None ==> shown("No response yet (s=send request)"@)
            &&& pending && m.streamed_body().len() > 0 ==> shown(m.streamed_body())
            &&& pending && m.streamed_body().len() == 0 ==> shown("Receiving response..."@)
        }),
{
    let content = ContentModel::Plain(response_text(m));
    let scroll = scroll_in_line(
        m.response_scroll,
        max_scroll(rows_of(content, area), area),
        ScrollMode::Clamp,
    );
    lemma_scrolled_text_is_shown(
        before,
        content,
        response_look(m),
        response_style(m),
        area,
        scroll,
    );
}

/// An answer is shown in green exactly where its status is one of success, in
/// red where it is not, and in cyan while it comes; the focus changes only what
/// is behind it.
pub proof fn lemma_answer_color_tells_success(m: AppModel, status: u16)
    ensures
        ({
            let pending = m.pending_response && m.pending_request_index == m.current_request_index;
            &&& status / 100 == 2 ==> status_color(status) == Color::Green
            &&& status / 100 != 2 ==> status_color(status) == Color::Red
            &&& pending ==> response_style(m).fg == Some(Color::Cyan)
            &&& !pending && (m.last_response() matches Some(Ok(_))) ==> response_style(m).fg
                == Some(status_color(m.last_response()->0->Ok_0.status))
            &&& !pending && !(m.last_response() matches Some(Ok(_))) ==> response_style(m).fg
                is None
            &&& response_style(m).bg is Some <==> m.focused_field == FocusableField::Response
            &&& !response_style(m).bold
        }),
{
}

/// The border of the answer tells its status: the number of the status and what
/// it is called, that the request failed, or that it is on its way.
pub proof fn lemma_status_is_told(m: AppModel)
    ensures
        ({
            let pending = m.pending_response && m.pending_request_index == m.current_request_index;
            let titles = response_look(m).titles;
            &&& titles.len() == 3
            &&& titles[0].piece.text == "Response"@
            &&& titles[1].piece.text == crate::app::mode_label(m.response_view_mode)
            &&& titles[2].align == Align::Right
            &&& titles[2].piece == status_piece(m)
            &&& pending ==> titles[2].piece.text == "..."@
            &&& !pending && (m.last_response() matches Some(Ok(_))) ==> {
                let status = m.last_response()->0->Ok_0.status;
                &&& (decimal(status as nat) + " "@).is_prefix_of(titles[2].piece.text)
                &&& titles[2].piece.style.fg == Some(status_color(status))
                &&& crate::http_client::reason_phrase(status) matches Some(phrase) ==> titles[2].piece.text
                    == decimal(status as nat) + " "@ + phrase
            }
            &&& !pending && (m.last_response() matches Some(Err(_))) ==> titles[2].piece.text
                == "ERR"@ && titles[2].piece.style.fg == Some(Color::Red)
            &&& !pending && m.last_response() is None ==> titles[2].piece.text.len() == 0
        }),
{
    reveal_strlit("");
}

/// The method and the address of the selected request are shown one behind the
/// other; while the address is edited, what is typed stands in its place with a
/// cursor.
pub proof fn lemma_address_is_shown(before: Seq<DrawModel>, m: AppModel, area: Area)
    ensures
        m.editing_field != Some(EditingField::Url) ==> (url_panel(before, m, area) matches Some(
            drawn,
        ) && before.is_prefix_of(drawn) && shows(
            drawn,
            area,
            ContentModel::Plain(m.current().method + " "@ + m.current().url),
        )),
        m.editing_field == Some(EditingField::Url) ==> (url_panel(before, m, area) matches Some(
            drawn,
        ) ==> before.is_prefix_of(drawn) && has_cursor(drawn) && shows(
            drawn,
            area,
            ContentModel::Plain(m.current().method + " "@ + m.input_buffer + " [EDITING]"@),
        )),
{
    if url_panel(before, m, area) is Some {
        let drawn = url_panel(before, m, area)->0;
        assert(drawn[before.len() as int] is Text);
        if m.editing_field == Some(EditingField::Url) {
            assert(drawn[before.len() + 1int] is Cursor);
        }
    }
}

/// Every header of the selected request is listed in order, by its name and its
/// value, and the selected one alone is marked while the headers have the
/// focus.
pub proof fn lemma_headers_are_shown(before: Seq<DrawModel>, m: AppModel, area: Area)
    ensures
        m.editing_field != Some(EditingField::Headers) ==> (headers_panel(
            before,
            m,
            area,
        ) matches Some(drawn) && before.is_prefix_of(drawn) && lists(drawn, area, header_items(m))),
        header_items(m).len() == m.current().headers.len(),
        forall|i: int|
            0 <= i < header_items(m).len() ==> (#[trigger] header_items(m)[i]).text
                == m.current().headers[i].0 + ": "@ + m.current().headers[i].1,
        forall|i: int|
            0 <= i < header_items(m).len() ==> ((#[trigger] header_items(m)[i]).style.bold
                <==> m.focused_field == FocusableField::Headers && i == m.selected_header_index),
        m.editing_field == Some(EditingField::Headers) ==> (headers_panel(
            before,
            m,
            area,
        ) matches Some(drawn) ==> before.is_prefix_of(drawn) && shows(
            drawn,
            area,
            ContentModel::Plain(edited_headers(m)),
        )),
{
    if headers_panel(before, m, area) is Some {
        let drawn = headers_panel(before, m, area)->0;
        if m.editing_field == Some(EditingField::Headers) {
            assert(drawn[before.len() as int] is Text);
        } else {
            assert(drawn[before.len() as int] is List);
        }
    }
}

/// While a header is edited, every header of the request stands on a line of its
/// own, and what is typed of the edited one stands below: its name, and its
/// value once that is what is typed.
pub proof fn lemma_edited_headers_show_typing(m: AppModel)
    ensures
        exists|rows: Seq<Seq<char>>| #[trigger]
            join_texts(rows, "\n"@) == edited_headers(m) && ({
                let n = m.current().headers.len();
                &&& forall|i: int|
                    0 <= i < n ==> #[trigger] rows[i] == m.current().headers[i].0 + ": "@
                        + m.current().headers[i].1
                &&& m.header_field == HeaderField::Key ==> rows.len() == n + 1 && rows[n as int]
                    == "Key: "@ + m.header_key_buffer + " [EDITING]"@
                &&& m.header_field == HeaderField::Value ==> rows.len() == n + 2 && rows[n as int]
                    == "Key: "@ + m.header_key_buffer && rows[n + 1int] == "Value: "@
                    + m.header_value_buffer + " [EDITING]"@
            }),
{
    let lines = crate::ui::header_lines(m.current().headers);
    let rows = if m.header_field == HeaderField::Key {
        lines.push("Key: "@ + m.header_key_buffer + " [EDITING]"@)
    } else {
        lines.push("Key: "@ + m.header_key_buffer).push(
            "Value: "@ + m.header_value_buffer + " [EDITING]"@,
        )
    };
    assert(join_texts(rows, "\n"@) == edited_headers(m));
}

/// The body of the selected request is shown as it is, or that there is none;
/// while it is edited, what is typed stands in its place.
pub proof fn lemma_body_is_shown(before: Seq<DrawModel>, m: AppModel, area: Area)
    ensures
        ({
            let editing = m.editing_field == Some(EditingField::Body);
            let panel = body_panel(before, m, area);
            &&& panel matches Some((drawn, _)) ==> before.is_prefix_of(drawn)
            &&& !editing && m.current().body is Some && can_count(
                m.current().body->0,
                area.inside().width,
            ) ==> (panel matches Some((drawn, _)) && shows(
                drawn,
                area,
                ContentModel::Plain(m.current().body->0),
            ))
            &&& !editing && m.current().body is None && can_count(
                "(no body)"@,
                area.inside().width,
            ) ==> (panel matches Some((drawn, _)) && shows(
                drawn,
                area,
                ContentModel::Plain("(no body)"@),
            ))
            &&& editing ==> (panel matches Some((drawn, _)) ==> shows(
                drawn,
                area,
                ContentModel::Plain(
                    m.input_buffer + " [EDITING - ^S to save, esc to cancel]"@,
                ),
            ))
        }),
{
    let editing = m.editing_field == Some(EditingField::Body);
    let content = ContentModel::Plain(crate::ui::body_text(m));
    let scroll = scroll_in_line(
        m.body_scroll,
        max_scroll(rows_of(content, area), area),
        if editing {
            ScrollMode::End
        } else {
            ScrollMode::Clamp
        },
    );
    let focused = m.focused_field == FocusableField::Body;
    let look = crate::drawing::titled_look(
        m.title("Body"@, FocusableField::Body),
        crate::ui::border_style(focused),
    );
    let style = crate::ui::field_style(editing, focused);
    lemma_scrolled_text_is_shown(before, content, look, style, area, scroll);
    let text = scrolled_text(before, content, look, style, area, scroll);
    if body_panel(before, m, area) is Some {
        let drawn = (body_panel(before, m, area)->0).0;
        assert(text.is_prefix_of(drawn));
        assert(before.is_prefix_of(drawn));
        lemma_drawn_stays(text, drawn);
    }
}

/// The events of the selected request are shown, each on a line of its own in
/// the order in which they came, or that there are none yet.
pub proof fn lemma_events_are_shown(before: Seq<DrawModel>, m: AppModel, area: Area)
    ensures
        ({
            let panel = events_panel(before, m, area);
            &&& panel matches Some(drawn) ==> before.is_prefix_of(drawn)
            &&& m.request_events().len() == 0 && can_count(
                "(no events yet)"@,
                area.inside().width,
            ) ==> (panel matches Some(drawn) && shows(
                drawn,
                area,
                ContentModel::Plain("(no events yet)"@),
            ))
            &&& m.request_events().len() > 0 && can_count(
                join_texts(m.request_events(), "\n"@),
                area.inside().width,
            ) ==> (panel matches Some(drawn) && shows(
                drawn,
                area,
                ContentModel::Plain(join_texts(m.request_events(), "\n"@)),
            ))
        }),
{
    lemma_scrolled_text_is_shown(
        before,
        ContentModel::Plain(crate::ui::events_text(m)),
        crate::drawing::titled_look(
            "Request Events"@,
            crate::ui::border_style(m.focused_field == FocusableField::RequestEvents),
        ),
        crate::ui::events_style(m),
        area,
        crate::ui::events_scroll(m, area),
    );
}

/// A line that is edited is drawn whole with a cursor.
proof fn lemma_filter_row_is_shown(
    before: Seq<DrawModel>,
    m: AppModel,
    label: Seq<char>,
    field: EditingField,
    value: Seq<char>,
    area: Area,
)
    ensures
        filter_row(before, m, label, field, value, area) matches Some(drawn) ==> {
            &&& before.is_prefix_of(drawn)
            &&& m.editing_field != Some(field) ==> shows(
                drawn,
                area,
                ContentModel::Plain(label + ": "@ + value),
            )
            &&& m.editing_field == Some(field) ==> has_cursor(drawn) && shows(
                drawn,
                area,
                ContentModel::Plain(label + ": "@ + (m.input_buffer + " [EDITING]"@)),
            )
        },
        m.editing_field != Some(field) ==> filter_row(before, m, label, field, value, area) is Some,
{
    if filter_row(before, m, label, field, value, area) is Some {
        let drawn = filter_row(before, m, label, field, value, area)->0;
        assert(drawn[before.len() as int] is Text);
        if m.editing_field == Some(field) {
            assert(drawn[before.len() + 1int] is Cursor);
        }
    }
}

/// Shown as JSON, what jq made of the answer is drawn, with its colors, above
/// the filter that made it or the one that is being typed.
pub proof fn lemma_json_is_shown(
    before: Seq<DrawModel>,
    m: AppModel,
    areas: ResponseAreas,
    jq_text: Seq<char>,
)
    ensures
        json_panel(before, m, areas, jq_text) matches Some((drawn, _)) ==> {
            &&& before.is_prefix_of(drawn)
            &&& shows(drawn, areas.output, ContentModel::Ansi(jq_text))
            &&& m.editing_field != Some(EditingField::JsonFilter) ==> shows(
                drawn,
                areas.filters,
                ContentModel::Plain(m.jq_filter()),
            )
            &&& m.editing_field == Some(EditingField::JsonFilter) ==> has_cursor(drawn) && shows(
                drawn,
                areas.filters,
                ContentModel::Plain(m.input_buffer + " [EDITING]"@),
            )
        },
        m.editing_field != Some(EditingField::JsonFilter) && can_count(
            jq_text,
            areas.output.inside().width,
        ) ==> json_panel(before, m, areas, jq_text) is Some,
{
    let content = ContentModel::Ansi(jq_text);
    let scroll = scroll_in_line(
        m.response_scroll,
        max_scroll(rows_of(content, areas.output), areas.output),
        ScrollMode::Clamp,
    );
    lemma_scrolled_text_is_shown(
        before,
        content,
        response_look(m),
        TextStyle::plain(),
        areas.output,
        scroll,
    );
    let text = scrolled_text(
        before,
        content,
        response_look(m),
        TextStyle::plain(),
        areas.output,
        scroll,
    );
    if filter_bar(text, m, areas.filters) is Some {
        let drawn = filter_bar(text, m, areas.filters)->0;
        assert(text.is_prefix_of(drawn));
        assert(before.is_prefix_of(drawn));
        lemma_drawn_stays(text, drawn);
        assert(drawn[text.len() as int] is Text);
        if m.editing_field == Some(EditingField::JsonFilter) {
            assert(drawn[text.len() + 1int] is Cursor);
        }
    }
}

/// Shown as a stream, what jq made of the lines is drawn line by line, above the
/// prefix, the suffix and the filter of the selected request.
pub proof fn lemma_stream_is_shown(before: Seq<DrawModel>, m: AppModel, areas: ResponseAreas)
    ensures
        stream_panel(before, m, areas) matches Some((drawn, _)) ==> {
            &&& before.is_prefix_of(drawn)
            &&& shows(
                drawn,
                areas.output,
                ContentModel::Ansi(join_texts(m.streamed_jq_output(), "\n"@)),
            )
            &&& m.editing_field != Some(EditingField::StreamPrefixRegex) ==> shows(
                drawn,
                areas.prefix_row,
                ContentModel::Plain("prefix"@ + ": "@ + m.stream_prefix_regex()),
            )
            &&& m.editing_field != Some(EditingField::StreamSuffixRegex) ==> shows(
                drawn,
                areas.suffix_row,
                ContentModel::Plain("suffix"@ + ": "@ + m.stream_suffix_regex()),
            )
            &&& m.editing_field != Some(EditingField::JsonFilter) ==> shows(
                drawn,
                areas.jq_row,
                ContentModel::Plain("jq   "@ + ": "@ + m.jq_filter()),
            )
            &&& m.editing_field == Some(EditingField::StreamPrefixRegex) ==> shows(
                drawn,
                areas.prefix_row,
                ContentModel::Plain("prefix"@ + ": "@ + (m.input_buffer + " [EDITING]"@)),
            )
            &&& m.editing_field == Some(EditingField::StreamSuffixRegex) ==> shows(
                drawn,
                areas.suffix_row,
                ContentModel::Plain("suffix"@ + ": "@ + (m.input_buffer + " [EDITING]"@)),
            )
            &&& m.editing_field == Some(EditingField::JsonFilter) ==> shows(
                drawn,
                areas.jq_row,
                ContentModel::Plain("jq   "@ + ": "@ + (m.input_buffer + " [EDITING]"@)),
            )
            &&& m.editing_field == Some(EditingField::StreamPrefixRegex) || m.editing_field == Some(
                EditingField::StreamSuffixRegex,
            ) || m.editing_field == Some(EditingField::JsonFilter) ==> has_cursor(drawn)
        },
        m.editing_field is None && can_count(
            join_texts(m.streamed_jq_output(), "\n"@),
            areas.output.inside().width,
        ) ==> stream_panel(before, m, areas) is Some,
{
    let content = ContentModel::Ansi(join_texts(m.streamed_jq_output(), "\n"@));
    let scroll = scroll_in_line(
        m.response_scroll,
        max_scroll(rows_of(content, areas.output), areas.output),
        if m.is_pending() {
            ScrollMode::End
        } else {
            ScrollMode::Clamp
        },
    );
    lemma_scrolled_text_is_shown(
        before,
        content,
        response_look(m),
        TextStyle::plain(),
        areas.output,
        scroll,
    );
    let text = scrolled_text(
        before,
        content,
        response_look(m),
        TextStyle::plain(),
        areas.output,
        scroll,
    );
    let framed = text.push(filters_block(m, areas.filters));
    assert(text.is_prefix_of(framed));
    lemma_drawn_stays(text, framed);
    lemma_filter_row_is_shown(
        framed,
        m,
        "prefix"@,
        EditingField::StreamPrefixRegex,
        m.stream_prefix_regex(),
        areas.prefix_row,
    );
    let one = filter_row(
        framed,
        m,
        "prefix"@,
        EditingField::StreamPrefixRegex,
        m.stream_prefix_regex(),
        areas.prefix_row,
    );
    if one is Some {
        let first = one->0;
        lemma_drawn_stays(framed, first);
        lemma_filter_row_is_shown(
            first,
            m,
            "suffix"@,
            EditingField::StreamSuffixRegex,
            m.stream_suffix_regex(),
            areas.suffix_row,
        );
        let two = filter_row(
            first,
            m,
            "suffix"@,
            EditingField::StreamSuffixRegex,
            m.stream_suffix_regex(),
            areas.suffix_row,
        );
        if two is Some {
            let second = two->0;
            lemma_drawn_stays(first, second);
            lemma_filter_row_is_shown(
                second,
                m,
                "jq   "@,
                EditingField::JsonFilter,
                m.jq_filter(),
                areas.jq_row,
            );
            let three = filter_row(
                second,
                m,
                "jq   "@,
                EditingField::JsonFilter,
                m.jq_filter(),
                areas.jq_row,
            );
            if three is Some {
                lemma_drawn_stays(second, three->0);
                assert(before.is_prefix_of(three->0));
            }
        }
    }
}

/// How the answer is shown: as JSON where that is chosen and a result has come
/// and none is awaited, as a stream where that is chosen, and as text else.
pub proof fn lemma_chosen_view_is_shown(
    before: Seq<DrawModel>,
    m: AppModel,
    areas: ResponseAreas,
    jq_text: Seq<char>,
)
    ensures
        ({
            let pending = m.pending_response && m.pending_request_index == m.current_request_index;
            let panel = response_panel(before, m, areas, jq_text);
            &&& m.response_view_mode == ResponseViewMode::Json && m.last_response() is Some
                && !pending ==> panel == json_panel(before, m, areas, jq_text)
            &&& m.response_view_mode == ResponseViewMode::StreamedJson ==> panel == stream_panel(
                before,
                m,
                areas,
            )
            &&& m.response_view_mode == ResponseViewMode::Text || m.response_view_mode
                == ResponseViewMode::Json && (m.last_response() is None || pending) ==> panel
                == text_panel(before, m, areas.output)
        }),
{
}

/// The suggested names are listed over the screen, all of them in their order,
/// the selected one marked; with no room for them nothing is drawn.
pub proof fn lemma_suggestions_are_shown(before: Seq<DrawModel>, m: AppModel, area: Area)
    ensures
        popup(before, m, None) == before,
        ({
            let drawn = popup(before, m, Some(area));
            &&& before.is_prefix_of(drawn)
            &&& drawn.len() == before.len() + 2
            &&& drawn[before.len() as int] == (DrawModel::Clear { area })
            &&& drawn[before.len() + 1int] matches DrawModel::List { area: a, look, items } && a
                == area && items == suggestion_items(m)
            &&& lists(drawn, area, suggestion_items(m))
        }),
        suggestion_items(m).len() == m.suggestions().len(),
        forall|i: int|
            0 <= i < m.suggestions().len() ==> (#[trigger] suggestion_items(m)[i]).text
                == m.suggestions()[i],
        forall|i: int|
            0 <= i < m.suggestions().len() ==> ((#[trigger] suggestion_items(m)[i]).style.bold
                <==> (m.header_autocomplete matches Some(ac) && ac.selected == i)),
{
    let drawn = popup(before, m, Some(area));
    assert(drawn[before.len() + 1int] is List);
}

/// Names are suggested only while a header's name is typed and only where they
/// fit on the screen: below the headers that are there, as wide as the headers
/// leave room for, and with a row for each of up to eight of them.
pub proof fn lemma_suggestions_fit(m: AppModel, headers: Area, screen_height: u16)
    ensures
        popup_area(m, headers, screen_height) matches Some(Some(area)) ==> {
            &&& m.editing_field == Some(EditingField::Headers)
            &&& m.header_field == HeaderField::Key
            &&& m.suggestions().len() > 0
            &&& area.y + area.height <= screen_height
            &&& area.x == headers.x + 2
            &&& area.y > headers.y + 2
            &&& area.width <= 40
            &&& area.width <= headers.width
            &&& headers.width >= 44 ==> area.width == 40
            &&& m.suggestions().len() <= 8 ==> area.height == m.suggestions().len() + 2
            &&& m.suggestions().len() > 8 ==> area.height == 10
        },
        m.editing_field != Some(EditingField::Headers) || m.header_field == HeaderField::Value
            || m.suggestions().len() == 0 ==> popup_area(m, headers, screen_height) == Some(
            None::<Area>,
        ),
        m.editing_field == Some(EditingField::Headers) && m.header_field == HeaderField::Key
            && m.suggestions().len() > 0 && m.current().headers.len() + headers.y + 13
            <= screen_height && headers.x < 65535 - 2 ==> (popup_area(
            m,
            headers,
            screen_height,
        ) matches Some(Some(area)) && area.y == headers.y + m.current().headers.len() + 3),
{
}

/// Every request is listed in order by its method and its address, and the
/// selected one alone is marked.
pub proof fn lemma_requests_are_listed(before: Seq<DrawModel>, m: AppModel, area: Area)
    ensures
        before.is_prefix_of(main_screen(before, m, area)),
        lists(main_screen(before, m, area), area, request_items(m)),
        request_items(m).len() == m.requests.len(),
        forall|i: int|
            0 <= i < m.requests.len() ==> (#[trigger] request_items(m)[i]).text
                == m.requests[i].method + " "@ + m.requests[i].url,
        forall|i: int|
            0 <= i < m.requests.len() <= usize::MAX ==> ((#[trigger] request_items(
                m,
            )[i]).style.bold <==> (m.current_request_index matches Some(at) && at == i)),
{
    let drawn = main_screen(before, m, area);
    assert(drawn[before.len() as int] is List);
}

/// The whole request screen shows the method and address, the headers, the body,
/// the events and the answer of the selected request, each in its area.
pub proof fn lemma_request_is_shown(
    before: Seq<DrawModel>,
    m: AppModel,
    areas: RequestAreas,
    screen_height: u16,
    jq_text: Seq<char>,
)
    requires
        m.has_current(),
        request_screen(before, m, areas, screen_height, jq_text) is Some,
    ensures
        ({
            let drawn = (request_screen(before, m, areas, screen_height, jq_text)->0).0;
            let pending = m.pending_response && m.pending_request_index == m.current_request_index;
            &&& before.is_prefix_of(drawn)
            &&& m.editing_field != Some(EditingField::Url) ==> shows(
                drawn,
                areas.url,
                ContentModel::Plain(m.current().method + " "@ + m.current().url),
            )
            &&& m.editing_field != Some(EditingField::Headers) ==> lists(
                drawn,
                areas.headers,
                header_items(m),
            )
            &&& m.editing_field != Some(EditingField::Body) && m.current().body is Some ==> shows(
                drawn,
                areas.body,
                ContentModel::Plain(m.current().body->0),
            )
            &&& m.request_events().len() > 0 ==> shows(
                drawn,
                areas.events,
                ContentModel::Plain(join_texts(m.request_events(), "\n"@)),
            )
            &&& m.response_view_mode == ResponseViewMode::Text && !pending && (
            m.last_response() matches Some(Ok(_))) ==> shows(
                drawn,
                areas.response.output,
                ContentModel::Plain(m.last_response()->0->Ok_0.body),
            )
            &&& m.response_view_mode == ResponseViewMode::Text && !pending && (
            m.last_response() matches Some(Err(_))) ==> shows(
                drawn,
                areas.response.output,
                ContentModel::Plain("Error: "@ + m.last_response()->0->Err_0.text()),
            )
            &&& m.response_view_mode == ResponseViewMode::Text && pending && m.streamed_body().len()
                > 0 ==> shows(
                drawn,
                areas.response.output,
                ContentModel::Plain(m.streamed_body()),
            )
            &&& m.response_view_mode == ResponseViewMode::Json && !pending && m.last_response()
                is Some ==> shows(drawn, areas.response.output, ContentModel::Ansi(jq_text))
            &&& m.response_view_mode == ResponseViewMode::StreamedJson ==> shows(
                drawn,
                areas.response.output,
                ContentModel::Ansi(join_texts(m.streamed_jq_output(), "\n"@)),
            )
        }),
{
    let url = url_panel(before, m, areas.url)->0;
    lemma_address_is_shown(before, m, areas.url);
    let headers = headers_panel(url, m, areas.headers)->0;
    lemma_headers_are_shown(url, m, areas.headers);
    let body = (body_panel(headers, m, areas.body)->0).0;
    lemma_body_is_shown(headers, m, areas.body);
    let events = events_panel(body, m, areas.events)->0;
    lemma_events_are_shown(body, m, areas.events);
    let response = (response_panel(events, m, areas.response, jq_text)->0).0;
    lemma_chosen_view_is_shown(events, m, areas.response, jq_text);
    lemma_answer_is_shown(events, m, areas.response.output);
    lemma_json_is_shown(events, m, areas.response, jq_text);
    lemma_stream_is_shown(events, m, areas.response);
    let over = popup_area(m, areas.headers, screen_height)->0;
    let drawn = popup(response, m, over);
    assert(events.is_prefix_of(response));
    assert(response.is_prefix_of(drawn));
    lemma_drawn_stays(url, headers);
    lemma_drawn_stays(headers, body);
    lemma_drawn_stays(body, events);
    lemma_drawn_stays(events, response);
    lemma_drawn_stays(response, drawn);
    assert(before.is_prefix_of(drawn));
}

/// On the screen of a request its answer is shown, whatever is drawn around it:
/// where the selected request is not on its way, was answered with any status
/// and is shown as text, exactly the body of the answer is among what is drawn.
pub proof fn lemma_answer_is_on_the_screen(
    m: AppModel,
    areas: ScreenAreas,
    request: RequestAreas,
    middle: Area,
    screen_height: u16,
    jq_text: Seq<char>,
)
    requires
        m.current_screen == CurrentScreen::Request,
        m.has_current(),
        m.last_response() matches Some(Ok(_)),
        !m.pending_response || m.pending_request_index != m.current_request_index,
        whole_screen(m, areas, request, middle, screen_height, jq_text) is Some,
    ensures
        ({
            let drawn = (whole_screen(
                m,
                areas,
                request,
                middle,
                screen_height,
                jq_text,
            )->0).0;
            &&& m.response_view_mode == ResponseViewMode::Text ==> shows(
                drawn,
                request.response.output,
                ContentModel::Plain(m.last_response()->0->Ok_0.body),
            )
            &&& m.response_view_mode == ResponseViewMode::Json ==> shows(
                drawn,
                request.response.output,
                ContentModel::Ansi(jq_text),
            )
        }),
{
    let top = Seq::empty().push(crate::ui::title_bar(areas.title));
    lemma_request_is_shown(top, m, request, screen_height, jq_text);
    let (drawn, after) = request_screen(top, m, request, screen_height, jq_text)->0;
    let all = footer(drawn, after, areas.mode, areas.keys);
    assert(drawn.is_prefix_of(all));
    lemma_drawn_stays(drawn, all);
}

/// Every screen shows its own part: the list of requests, the selected request,
/// or the question whether to leave; and each of them has the footer.
pub proof fn lemma_screen_shows_its_part(
    m: AppModel,
    areas: ScreenAreas,
    request: RequestAreas,
    middle: Area,
    screen_height: u16,
    jq_text: Seq<char>,
)
    requires
        whole_screen(m, areas, request, middle, screen_height, jq_text) is Some,
    ensures
        ({
            let drawn = (whole_screen(
                m,
                areas,
                request,
                middle,
                screen_height,
                jq_text,
            )->0).0;
            &&& m.current_screen == CurrentScreen::Main ==> lists(
                drawn,
                areas.content,
                request_items(m),
            )
            &&& exists|keys: Seq<crate::drawing::LineModel>| #[trigger]
                shows(drawn, areas.keys, ContentModel::Lines(keys)) && keys == key_lines(m)
            &&& m.current_screen == CurrentScreen::Request && !m.has_current() ==> shows(
                drawn,
                request.whole,
                ContentModel::Plain("No request selected"@),
            )
        }),
        m.current_screen == CurrentScreen::Main ==> whole_screen(
            m,
            areas,
            request,
            middle,
            screen_height,
            jq_text,
        ) is Some,
{
    let top = Seq::empty().push(crate::ui::title_bar(areas.title));
    let whole = (whole_screen(m, areas, request, middle, screen_height, jq_text)->0).0;
    match m.current_screen {
        CurrentScreen::Main => {
            let drawn = main_screen(top, m, areas.content);
            lemma_requests_are_listed(top, m, areas.content);
            assert(drawn.is_prefix_of(whole));
            lemma_drawn_stays(drawn, whole);
            assert(whole[drawn.len() + 1int] is Text);
            assert(shows(whole, areas.keys, ContentModel::Lines(key_lines(m))));
        },
        CurrentScreen::Request => {
            let (drawn, after) = request_screen(top, m, request, screen_height, jq_text)->0;
            assert(drawn.is_prefix_of(whole));
            lemma_drawn_stays(drawn, whole);
            assert(key_lines(after) == key_lines(m));
            assert(whole[drawn.len() + 1int] is Text);
            assert(shows(whole, areas.keys, ContentModel::Lines(key_lines(m))));
            if !m.has_current() {
                assert(drawn[1] is Text);
            }
        },
        CurrentScreen::Exiting => {
            assert(whole[2] is Text);
            assert(shows(whole, areas.keys, ContentModel::Lines(key_lines(m))));
        },
    }
}

/// The question whether to leave is drawn over the middle, and last.
pub proof fn lemma_exit_is_asked(before: Seq<DrawModel>, area: Area)
    ensures
        ({
            let drawn = exit_popup(before, area);
            &&& before.is_prefix_of(drawn)
            &&& drawn.len() == before.len() + 1
            &&& drawn.last() matches DrawModel::Text { area: a, paragraph } && a == area
                && paragraph.align == Align::Center && (
            paragraph.content matches ContentModel::Lines(lines) && lines.len() == 2
                && lines[1].pieces.len() == 1 && lines[1].pieces[0].text
                == "Do you really want to exit? [y|n]"@)
        }),
{
}

/// The footer says where one is and how many requests there are, and on the list
/// of requests how saving went.
pub proof fn lemma_footer_tells_the_state(m: AppModel)
    ensures
        mode_pieces(m).len() == 3,
        mode_pieces(m)[2].text == decimal(m.requests.len()) + " requests"@,
        m.current_screen == CurrentScreen::Main ==> mode_pieces(m)[0].text == "Choose a request"@,
        m.current_screen == CurrentScreen::Request ==> mode_pieces(m)[0].text
            == "Editing request"@,
        m.current_screen == CurrentScreen::Exiting ==> mode_pieces(m)[0].text == "Exiting"@,
        m.current_screen == CurrentScreen::Main && m.last_save_status is Some ==> key_lines(m).len()
            == 2 && key_lines(m)[1] == crate::drawing::centered_line(m.last_save_status->0),
        m.current_screen == CurrentScreen::Main && m.last_save_status is None ==> key_lines(m).len()
            == 1,
        m.current_screen == CurrentScreen::Request && m.editing_field is None ==> key_lines(m).len()
            == 3,
        m.current_screen == CurrentScreen::Request && m.editing_field is Some ==> key_lines(
            m,
        ).len() == 1,
{
}

/// A title always begins with what it is a title of; of a field that is neither
/// edited nor focused and that no key jumps to, it says no more.
pub proof fn lemma_title_begins_with_its_name(
    m: AppModel,
    base: Seq<char>,
    field: FocusableField,
)
    ensures
        base.is_prefix_of(m.title(base, field)),
        !m.edits(field) && m.focused_field != field && jump_action(field) is None ==> m.title(
            base,
            field,
        ) == base,
        "jq filter"@.is_prefix_of(filter_title(m)),
        m.editing_field is None && m.focused_field != FocusableField::Response ==> filter_title(m)
            == "jq filter"@,
        crate::ui::with_hints(base, Seq::empty()) == base,
{
    reveal_strlit("jq filter");
    reveal_strlit("jq filter (");
}

/// A hint of the request screen stands in at most one group, and a group holds
/// the hints that belong to it in their order and no others.
pub proof fn lemma_groups_share_out_hints(bindings: Seq<BindingModel>, group: HintGroup, i: int)
    ensures
        0 <= i < of_group(bindings, group).len() ==> in_group(
            group,
            of_group(bindings, group)[i].action,
        ) && bindings.contains(of_group(bindings, group)[i]),
        0 <= i < bindings.len() && in_group(group, bindings[i].action) ==> of_group(
            bindings,
            group,
        ).contains(bindings[i]),
        forall|action: Action|
            !(#[trigger] in_group(HintGroup::Navigation, action) && in_group(
                HintGroup::Field,
                action,
            )) && !(in_group(HintGroup::Navigation, action) && in_group(HintGroup::Global, action))
                && !(in_group(HintGroup::Field, action) && in_group(HintGroup::Global, action)),
    decreases bindings.len(),
{
    if bindings.len() > 0 {
        let before = of_group(bindings.drop_last(), group);
        let after = of_group(bindings, group);
        if 0 <= i < before.len() {
            lemma_groups_share_out_hints(bindings.drop_last(), group, i);
            let k = choose|k: int|
                0 <= k < bindings.drop_last().len() && bindings.drop_last()[k] == before[i];
            assert(bindings[k] == before[i]);
            assert(after[i] == before[i]);
        }
        assert(bindings[bindings.len() - 1] == bindings.last());
        if 0 <= i < bindings.len() && in_group(group, bindings[i].action) {
            if i < bindings.len() - 1 {
                lemma_groups_share_out_hints(bindings.drop_last(), group, i);
                assert(bindings.drop_last()[i] == bindings[i]);
                let k = choose|k: int| 0 <= k < before.len() && before[k] == bindings[i];
                assert(after[k] == bindings[i]);
            } else {
                assert(after[before.len() as int] == bindings[i]);
            }
        }
    }
}

/// A line is scrolled no farther than its cursor, not at all where all of it or
/// all up to the cursor fits, and far enough that a cursor on one of its
/// characters is seen.
pub proof fn lemma_cursor_is_in_view(cursor: u16, bytes: nat, width: u16)
    requires
        bytes <= u16::MAX,
        width > 0,
    ensures
        line_scroll(cursor, bytes, width) <= cursor,
        bytes <= width ==> line_scroll(cursor, bytes, width) == 0,
        cursor < width ==> line_scroll(cursor, bytes, width) == 0,
        cursor < bytes ==> cursor - line_scroll(cursor, bytes, width) < width,
{
}

/// The cursor of a line stands in its area, as far from its start as it is
/// behind what is scrolled away.
pub proof fn lemma_line_cursor_follows(area: Area, cursor: int, scroll: u16)
    requires
        0 <= scroll <= cursor,
        area.x + 1 + cursor <= u16::MAX,
        area.y + 1 <= u16::MAX,
    ensures
        line_cursor(area, cursor, scroll) matches Some(DrawModel::Cursor { x, y }) && x - area.x
            == 1 + cursor - scroll && y == area.y + 1,
{
}

/// Scrolled no farther than there is to see, a part stays where it is; a part
/// that grows is kept at its end.
pub proof fn lemma_scroll_stays(scroll: u16, max: u16)
    ensures
        scroll <= max ==> scroll_in_line(scroll, max, ScrollMode::Clamp) == scroll,
        scroll > max ==> scroll_in_line(scroll, max, ScrollMode::Clamp) == max,
        scroll_in_line(scroll, max, ScrollMode::End) == max,
{
}

/// The cursor of the body stands behind what is typed, at the start of a row
/// behind a line break, and in the body's area; the body is scrolled so that its
/// row is seen.
pub proof fn lemma_body_cursor_is_in_view(
    before: Seq<DrawModel>,
    typed: Seq<char>,
    area: Area,
    scroll: u16,
)
    requires
        body_cursor(before, typed, area, scroll) is Some,
    ensures
        ({
            let (drawn, shown) = body_cursor(before, typed, area, scroll)->0;
            let inner = area.inside();
            let width = if inner.width > 1 {
                inner.width
            } else {
                1u16
            };
            let rows = rows_to_cursor(typed, width);
            &&& before.is_prefix_of(drawn)
            &&& drawn.len() <= before.len() + 1
            &&& drawn.len() == before.len() + 1 ==> (drawn.last() matches DrawModel::Cursor { x, y }
                && inner.x <= x && y <= inner.bottom() && (inner.height > 0 ==> inner.y <= y) && (
                if typed.len() > 0
                && typed.last() == '\n' {
                x == inner.x
            } else {
                x == inner.x + cursor_column(typed, width)
            }))
            &&& 0 < rows <= u16::MAX && inner.height > 0 ==> shown < rows <= shown + inner.height
            &&& scroll < rows <= scroll + inner.height && rows <= u16::MAX ==> shown == scroll
        }),
{
    crate::ui::lemma_column_is_within(
        typed,
        if area.inside().width > 1 {
            area.inside().width
        } else {
            1u16
        },
    );
}

/// The cursor of an edited header stands behind what is typed of its name or of
/// its value, in the last row.
pub proof fn lemma_header_cursor_follows(
    before: Seq<DrawModel>,
    m: AppModel,
    rows: nat,
    scroll: u16,
    area: Area,
)
    requires
        rows > scroll,
        area.inside().y + (rows - 1 - scroll) <= area.inside().bottom(),
        area.inside().x + 7 + m.header_key_cursor <= area.inside().right(),
        area.inside().x + 7 + m.header_value_cursor <= area.inside().right(),
    ensures
        header_cursor(before, m, rows, scroll, area) == Some(
            before.push(
                DrawModel::Cursor {
                    x: (area.inside().x + (if m.header_field == HeaderField::Key {
                        "Key: "@.len() + m.header_key_cursor
                    } else {
                        "Value: "@.len() + m.header_value_cursor
                    })) as u16,
                    y: (area.inside().y + (rows - 1 - scroll)) as u16,
                },
            ),
        ),
{
    reveal_strlit("Key: ");
    reveal_strlit("Value: ");
}

/// The focus is seen: the border of the field that has it is cyan and that of
/// every other is plain; what is edited is bold, and nothing else of a field is.
pub proof fn lemma_focus_is_seen(m: AppModel, before: Seq<DrawModel>, area: Area)
    ensures
        crate::ui::border_style(true).fg == Some(Color::Cyan),
        crate::ui::border_style(false).fg is None,
        url_panel(before, m, area) matches Some(drawn) ==> (
        drawn[before.len() as int] matches DrawModel::Text { area: a, paragraph }
            && paragraph.look is Some && (paragraph.look->0.border.fg == Some(Color::Cyan)
            <==> m.focused_field == FocusableField::Url) && (paragraph.style.bold
            <==> m.editing_field == Some(EditingField::Url))),
        response_look(m).border.fg == Some(Color::Cyan) <==> m.focused_field
            == FocusableField::Response,
        events_panel(before, m, area) matches Some(drawn) ==> (
        drawn[before.len() as int] matches DrawModel::Text { area: a, paragraph }
            && paragraph.look is Some && (paragraph.look->0.border.fg == Some(Color::Cyan)
            <==> m.focused_field == FocusableField::RequestEvents)),
        m.editing_field != Some(EditingField::Headers) ==> (headers_panel(
            before,
            m,
            area,
        ) matches Some(drawn) && (drawn[before.len() as int] matches DrawModel::List {
            area: a,
            look,
            items,
        } && (look.border.fg == Some(Color::Cyan) <==> m.focused_field == FocusableField::Headers))),
{
}

/// How the parts of a screen are marked: an edited line is yellow and bold, a
/// line of filters is lit while the answer has the focus, and the events are lit
/// while the request is on its way.
pub proof fn lemma_marks_tell_the_state(m: AppModel, editing: bool, focused: bool)
    ensures
        crate::ui::field_style(editing, focused).bold <==> editing,
        editing ==> crate::ui::field_style(editing, focused).fg == Some(Color::Yellow),
        !editing && focused ==> crate::ui::field_style(editing, focused).bg == Some(
            Color::DarkGray,
        ),
        !editing && !focused ==> crate::ui::field_style(editing, focused) == TextStyle::plain(),
        crate::ui::filter_style(editing, focused).bold <==> editing,
        !editing && focused ==> crate::ui::filter_style(editing, focused).fg == Some(Color::Cyan),
        !editing && !focused ==> crate::ui::filter_style(editing, focused).fg == Some(
            Color::DarkGray,
        ),
        crate::ui::filter_border(editing).fg == Some(Color::Cyan) <==> editing,
        !editing ==> crate::ui::filter_border(editing).fg == Some(Color::DarkGray),
        crate::ui::header_style(editing, focused).bold <==> editing && focused,
        crate::ui::suggestion_style(editing).bold <==> editing,
        crate::ui::suggestion_style(true).bg == Some(Color::Cyan),
        crate::ui::suggestion_style(false).bg == Some(Color::DarkGray),
        crate::ui::events_style(m).fg == Some(Color::Cyan) <==> m.pending_response
            && m.pending_request_index == m.current_request_index,
        crate::ui::key_style(m).fg == Some(Color::Cyan) <==> m.current_screen
            == CurrentScreen::Request && m.editing_field is Some,
        !(m.current_screen == CurrentScreen::Request && m.editing_field is Some)
            ==> crate::ui::key_style(m).fg == Some(Color::Yellow),
        crate::ui::selected_style().bold && crate::ui::selected_style().fg == Some(Color::Yellow)
            && crate::ui::selected_style().bg == Some(Color::DarkGray),
{
}

/// The name of each view of the answer, as it stands in its border.
pub proof fn lemma_view_is_named(m: AppModel)
    ensures
        m.response_view_mode == ResponseViewMode::Text ==> response_look(m).titles[1].piece.text
            == "text"@,
        m.response_view_mode == ResponseViewMode::Json ==> response_look(m).titles[1].piece.text
            == "json"@,
        m.response_view_mode == ResponseViewMode::StreamedJson ==> response_look(
            m,
        ).titles[1].piece.text == "streamed json"@,
{
}

/// Drawing leaves every part scrolled no farther than there is to see: what
/// grows while the request is on its way stands at its end, and what does not
/// stays where it was scrolled to.
pub proof fn lemma_drawing_keeps_scroll_in_line(
    before: Seq<DrawModel>,
    m: AppModel,
    areas: RequestAreas,
    screen_height: u16,
    jq_text: Seq<char>,
)
    requires
        m.has_current(),
        request_screen(before, m, areas, screen_height, jq_text) is Some,
    ensures
        ({
            let after = (request_screen(before, m, areas, screen_height, jq_text)->0).1;
            let pending = m.pending_response && m.pending_request_index == m.current_request_index;
            let events = max_scroll(
                rows_of(ContentModel::Plain(crate::ui::events_text(m)), areas.events),
                areas.events,
            );
            let answer = max_scroll(
                rows_of(ContentModel::Plain(response_text(m)), areas.response.output),
                areas.response.output,
            );
            &&& after.events_scroll <= events
            &&& pending ==> after.events_scroll == events
            &&& !pending && m.events_scroll <= events ==> after.events_scroll == m.events_scroll
            &&& m.response_view_mode == ResponseViewMode::Text ==> after.response_scroll <= answer
            &&& m.response_view_mode == ResponseViewMode::Text && m.response_scroll <= answer
                ==> after.response_scroll == m.response_scroll
        }),
{
}

/// The rows of a text are those that it takes inside the border of its area.
pub proof fn lemma_rows_are_counted_inside(text: Seq<char>, area: Area)
    ensures
        rows_of(ContentModel::Plain(text), area) == crate::ui::wrapped_rows(
            text,
            area.inside().width,
        ),
        crate::ui::ansi_rows(text, area.inside().width) matches Some(n) ==> rows_of(
            ContentModel::Ansi(text),
            area,
        ) == n,
        crate::ui::ansi_rows(text, area.inside().width) is None ==> rows_of(
            ContentModel::Ansi(text),
            area,
        ) == rows_of(ContentModel::Plain(text), area),
{
}

/// The footer names the keys of where one is: those that are bound there, each
/// action once.
pub proof fn lemma_footer_names_the_keys(m: AppModel)
    ensures
        ({
            let bound = crate::keymap::first_of_each(
                crate::keymap::ranked(m.keymap, m.key_context()),
            );
            let line = |shown: Seq<BindingModel>|
                crate::drawing::centered_line(
                    join_texts(crate::keymap::hint_texts(shown), " | "@),
                );
            &&& m.current_screen != CurrentScreen::Request || m.editing_field is Some ==> key_lines(
                m,
            )[0] == line(bound)
            &&& m.current_screen == CurrentScreen::Request && m.editing_field is None ==> key_lines(
                m,
            )[0] == line(of_group(bound, HintGroup::Navigation)) && key_lines(m)[1] == line(
                of_group(bound, HintGroup::Field),
            ) && key_lines(m)[2] == line(of_group(bound, HintGroup::Global))
        }),
{
}

/// A title names the keys of its field: those for editing it while it is edited,
/// those for it while it has the focus, and else the key that leads there.
pub proof fn lemma_title_names_the_keys(m: AppModel, base: Seq<char>, field: FocusableField)
    ensures
        m.edits(field) && m.field_hints(m.editing_field, field).len() > 0 ==> m.title(base, field)
            == base + " ("@ + m.field_hints(m.editing_field, field) + ")"@,
        !m.edits(field) && m.focused_field == field && m.field_hints(None, field).len() > 0
            ==> m.title(base, field) == base + " ("@ + m.field_hints(None, field) + ")"@,
        m.edits(FocusableField::Url) <==> m.editing_field == Some(EditingField::Url),
        m.edits(FocusableField::Headers) <==> m.editing_field == Some(EditingField::Headers),
        m.edits(FocusableField::Body) <==> m.editing_field == Some(EditingField::Body),
        !m.edits(FocusableField::RequestEvents),
        m.edits(FocusableField::Response) <==> m.editing_field is Some && !m.edits(
            FocusableField::Url,
        ) && !m.edits(FocusableField::Headers) && !m.edits(FocusableField::Body),
{
    match m.editing_field {
        Some(EditingField::Url) => {},
        Some(EditingField::Headers) => {},
        Some(EditingField::Body) => {},
        Some(EditingField::JsonFilter) => {},
        Some(EditingField::StreamPrefixRegex) => {},
        Some(EditingField::StreamSuffixRegex) => {},
        None => {},
    }
}

/// Every screen begins with the name of the application.
pub proof fn lemma_screen_begins_with_the_name(
    m: AppModel,
    areas: ScreenAreas,
    request: RequestAreas,
    middle: Area,
    screen_height: u16,
    jq_text: Seq<char>,
)
    requires
        m.current_screen != CurrentScreen::Request,
    ensures
        whole_screen(m, areas, request, middle, screen_height, jq_text) matches Some((drawn, after))
            && after == m && (drawn[0] matches DrawModel::Block { area, look } && area
            == areas.title && look.titles.len() == 1 && look.titles[0].piece.text == "ImHoTTeP"@),
{
}

/// The cursor of the address stands behind the method, the space and what is
/// typed up to it, less what is scrolled away.
pub proof fn lemma_address_cursor_follows(before: Seq<DrawModel>, m: AppModel, area: Area)
    requires
        m.editing_field == Some(EditingField::Url),
        area.x + 1 + byte_len(m.current().method + " "@) + m.cursor_pos <= u16::MAX,
        area.y < u16::MAX,
    ensures
        ({
            let cursor = byte_len(m.current().method + " "@) + m.cursor_pos;
            let scroll = line_scroll(
                cursor as u16,
                byte_len(m.current().method + " "@ + m.input_buffer + " [EDITING]"@),
                area.inside().width,
            );
            url_panel(before, m, area) matches Some(drawn) && drawn.last() == (DrawModel::Cursor {
                x: (area.x + 1 + cursor - scroll) as u16,
                y: (area.y + 1) as u16,
            }) && (drawn[before.len() as int] matches DrawModel::Text { area: a, paragraph }
                && paragraph.scroll_x == scroll)
        }),
{
}

/// The cursor of a line of filters stands behind its name, the colon, the space
/// and what is typed up to it, less what is scrolled away.
pub proof fn lemma_filter_cursor_follows(
    before: Seq<DrawModel>,
    m: AppModel,
    label: Seq<char>,
    field: EditingField,
    value: Seq<char>,
    area: Area,
)
    requires
        m.editing_field == Some(field),
        area.x + byte_len(label) + 2 + m.cursor_pos <= u16::MAX,
        area.width > 0,
    ensures
        ({
            let cursor = byte_len(label) + 2 + m.cursor_pos;
            let scroll = line_scroll(
                cursor as u16,
                byte_len(label + ": "@ + (m.input_buffer + " [EDITING]"@)),
                area.width,
            );
            filter_row(before, m, label, field, value, area) matches Some(drawn) && drawn.last()
                == (DrawModel::Cursor { x: (area.x + cursor - scroll) as u16, y: area.y })
        }),
{
}

/// Where the hints of an action stand: what has to do with a header, with a field
/// or with the filters of the answer among those of the field, what leads from
/// field to field in the first group, and what is for the whole request in the
/// last.
pub proof fn lemma_hints_stand_in_their_group(action: Action)
    ensures
        action_kind(action) == ActionKind::Header ==> in_group(HintGroup::Field, action),
        action_kind(action) == ActionKind::Start && action != Action::JumpToUrl && action
            != Action::JumpToBody ==> in_group(HintGroup::Field, action),
        action_kind(action) == ActionKind::Scroll && action != Action::FocusHeaders ==> in_group(
            HintGroup::Navigation,
            action,
        ) || in_group(HintGroup::Field, action) || action == Action::CycleViewMode && in_group(
            HintGroup::Global,
            action,
        ),
        in_group(HintGroup::Navigation, action) <==> action == Action::FocusNextField || action
            == Action::FocusPreviousField,
        in_group(HintGroup::Global, action) <==> action == Action::ToggleMethod || action
            == Action::SendRequest || action == Action::CycleViewMode || action == Action::GoBack
            || action == Action::TriggerExit,
        action_kind(action) == ActionKind::Move || action_kind(action) == ActionKind::Deletion
            || action_kind(action) == ActionKind::Edit ==> !in_group(HintGroup::Navigation, action)
            && !in_group(HintGroup::Field, action) && !in_group(HintGroup::Global, action),
{
}

/// jq is run for the screen exactly where its output is shown: on the screen of
/// a selected request whose result has come, while JSON is chosen and nothing is
/// awaited.
pub proof fn lemma_jq_is_run_where_json_is_shown(m: AppModel)
    ensures
        m.needs_jq_text() <==> m.current_screen == CurrentScreen::Request && m.has_current()
            && m.response_view_mode == ResponseViewMode::Json && m.last_response() is Some && !(
        m.pending_response && m.pending_request_index == m.current_request_index),
        m.response_layout() is Stream <==> m.response_view_mode == ResponseViewMode::StreamedJson,
        m.response_view_mode == ResponseViewMode::Text ==> m.response_layout() is Text,
{
}

} // verus!
