use imhottep::app::{
    App, CurrentScreen, EditingField, FocusableField, PerRequestState, ResponseViewMode,
    SCROLL_TO_END,
};
use imhottep::drawing::{Align, Area, Color, Content, DrawOp, Look, TextStyle};
use imhottep::headers::Headers;
use imhottep::http_client::{HttpMethod, HttpRequest, HttpResponse, StatusCode};
use imhottep::keymap::Keymap;
use imhottep::suggestions::{get_standard_headers, suggest};
use imhottep::ui::{
    can_count_rows, centered_rect, lay_out_request, lay_out_screen, needs_jq_text,
    render_scrollable_paragraph, render_scrollable_text, response_layout, ui, widget_title, wrapped_cursor_column,
    ResponseLayout, ScrollMode,
};

const SCREEN: Area = Area {
    x: 0,
    y: 0,
    width: 120,
    height: 40,
};

fn app() -> App {
    App::new(vec![
        HttpRequest::new(HttpMethod::GET, "https://a"),
        HttpRequest::new(HttpMethod::POST, "https://b"),
    ])
}

fn plain_look() -> Look {
    Look {
        titles: Vec::new(),
        border: TextStyle::plain(),
        fill: TextStyle::plain(),
        all_sides: true,
    }
}

fn draw(app: &mut App, jq_text: &str) -> Vec<DrawOp> {
    ui(app, SCREEN, jq_text).expect("a screen")
}

/// The plain texts that are drawn.
fn texts(ops: &[DrawOp]) -> Vec<String> {
    ops.iter()
        .filter_map(|op| match op {
            DrawOp::Text { paragraph, .. } => match &paragraph.content {
                Content::Plain(text) | Content::Ansi(text) => Some(text.clone()),
                Content::Lines(_) => None,
            },
            _ => None,
        })
        .collect()
}

/// The titles that are drawn.
fn titles(ops: &[DrawOp]) -> Vec<String> {
    ops.iter()
        .filter_map(|op| match op {
            DrawOp::Block { look, .. } | DrawOp::List { look, .. } => Some(look),
            DrawOp::Text { paragraph, .. } => paragraph.look.as_ref(),
            _ => None,
        })
        .flat_map(|look| look.titles.iter().map(|t| t.piece.text.clone()))
        .collect()
}

fn within(inner: Area, outer: Area) -> bool {
    inner.x >= outer.x
        && inner.y >= outer.y
        && inner.x + inner.width <= outer.x + outer.width
        && inner.y + inner.height <= outer.y + outer.height
}

fn answer(app: &mut App, body: &str) {
    let mut state = PerRequestState::new();
    state.streamed_body = body.to_string();
    state.last_response = Some(Ok(HttpResponse {
        status_code: StatusCode::from_u16(200).unwrap(),
        headers: Headers::new(),
        body: body.to_string(),
    }));
    app.per_request.insert(0, state);
}

#[test]
fn the_main_screen_lists_the_requests() {
    let mut app = app();
    let ops = draw(&mut app, "");
    let items: Vec<(String, bool)> = ops
        .iter()
        .filter_map(|op| match op {
            DrawOp::List { items, .. } => Some(items),
            _ => None,
        })
        .flatten()
        .map(|item| (item.text.clone(), item.style.bold))
        .collect();
    assert_eq!(
        items,
        vec![
            ("GET https://a".to_string(), true),
            ("POST https://b".to_string(), false)
        ]
    );
    assert_eq!(titles(&ops), vec!["ImHoTTeP", "Requests"]);
}

#[test]
fn the_number_of_requests_is_shown() {
    let mut app = app();
    let ops = draw(&mut app, "");
    let pieces: Vec<String> = ops
        .iter()
        .filter_map(|op| match op {
            DrawOp::Text { paragraph, .. } => match &paragraph.content {
                Content::Lines(lines) => Some(lines),
                _ => None,
            },
            _ => None,
        })
        .flatten()
        .flat_map(|line| line.pieces.iter().map(|p| p.text.clone()))
        .collect();
    assert_eq!(&pieces[..3], ["Choose a request", " | ", "2 requests"]);
}

#[test]
fn the_question_is_drawn_last() {
    let mut app = app();
    app.current_screen = CurrentScreen::Exiting;
    let ops = draw(&mut app, "");
    match ops.last() {
        Some(DrawOp::Text { area, paragraph }) => {
            assert!(within(*area, SCREEN));
            assert_eq!(paragraph.align, Align::Center);
            assert!(paragraph.wrap);
            let look = paragraph.look.as_ref().unwrap();
            assert_eq!(look.titles[0].piece.text, "Exit app");
            assert_eq!(look.fill.bg, Some(Color::DarkGray));
            match &paragraph.content {
                Content::Lines(lines) => {
                    assert_eq!(lines[1].pieces[0].text, "Do you really want to exit? [y|n]")
                }
                _ => panic!("expected lines"),
            }
        }
        _ => panic!("expected a paragraph"),
    }
}

#[test]
fn the_request_screen_shows_the_request() {
    let mut app = app();
    app.current_screen = CurrentScreen::Request;
    app.requests[0].set_body("body text".to_string());
    let ops = draw(&mut app, "");
    let texts = texts(&ops);
    assert!(texts.contains(&"GET https://a".to_string()));
    assert!(texts.contains(&"body text".to_string()));
    assert!(texts.contains(&"No response yet (s=send request)".to_string()));
}

#[test]
fn no_request_is_said_to_be_none() {
    let mut app = App::new(Vec::new());
    app.current_screen = CurrentScreen::Request;
    let ops = draw(&mut app, "");
    assert!(texts(&ops).contains(&"No request selected".to_string()));
}

#[test]
fn an_edited_address_has_a_cursor() {
    let mut app = app();
    app.current_screen = CurrentScreen::Request;
    app.edit_focused_field();
    let ops = draw(&mut app, "");
    assert!(texts(&ops).contains(&"GET https://a [EDITING]".to_string()));
    let cursors: Vec<(u16, u16)> = ops
        .iter()
        .filter_map(|op| match op {
            DrawOp::Cursor { x, y } => Some((*x, *y)),
            _ => None,
        })
        .collect();
    assert_eq!(cursors, vec![(14, 2)]);
}

#[test]
fn the_body_cannot_be_drawn_with_a_cursor_inside_a_character() {
    let mut app = app();
    app.current_screen = CurrentScreen::Request;
    app.editing_field = Some(EditingField::Body);
    app.input_buffer = "é".to_string();
    app.cursor_pos = 1;
    assert!(ui(&mut app, SCREEN, "").is_none());
    app.cursor_pos = 2;
    assert!(ui(&mut app, SCREEN, "").is_some());
}

#[test]
fn a_response_is_shown_as_text_or_as_json() {
    let mut app = app();
    app.current_screen = CurrentScreen::Request;
    answer(&mut app, "{\"a\":1}");
    assert_eq!(response_layout(&app), ResponseLayout::Text);
    assert!(!needs_jq_text(&app));
    assert!(texts(&draw(&mut app, "jq")).contains(&"{\"a\":1}".to_string()));
    app.cycle_response_view_mode();
    assert_eq!(app.response_view_mode, ResponseViewMode::Json);
    assert_eq!(response_layout(&app), ResponseLayout::Json);
    assert!(needs_jq_text(&app));
    let shown = texts(&draw(&mut app, "jq"));
    assert!(shown.contains(&"jq".to_string()));
    assert!(!shown.contains(&"{\"a\":1}".to_string()));
    app.response_view_mode = ResponseViewMode::StreamedJson;
    assert_eq!(response_layout(&app), ResponseLayout::Stream);
}

#[test]
fn drawing_changes_scroll_values_only() {
    let mut app = app();
    app.current_screen = CurrentScreen::Request;
    answer(&mut app, "line\n".repeat(100).as_str());
    app.response_scroll = SCROLL_TO_END;
    app.headers_scroll = 7;
    draw(&mut app, "");
    assert!(app.response_scroll < 100);
    assert!(app.response_scroll > 50);
    assert_eq!(app.headers_scroll, 7);
    let before = app.response_scroll;
    draw(&mut app, "");
    assert_eq!(app.response_scroll, before);
}

#[test]
fn long_texts_have_a_scroll_bar() {
    let area = Area {
        x: 0,
        y: 0,
        width: 12,
        height: 5,
    };
    let mut ops = Vec::new();
    let text = "one two three four five six".to_string();
    let scroll = render_scrollable_paragraph(
        &mut ops,
        text.clone(),
        plain_look(),
        TextStyle::plain(),
        area,
        9,
        ScrollMode::Clamp,
    );
    assert_eq!(scroll, 0);
    assert_eq!(ops.len(), 1);
    let low = Area { height: 4, ..area };
    let scroll = render_scrollable_paragraph(
        &mut ops,
        text,
        plain_look(),
        TextStyle::plain(),
        low,
        0,
        ScrollMode::End,
    );
    assert_eq!(scroll, 1);
    assert!(matches!(
        ops.last(),
        Some(DrawOp::Scrollbar {
            max: 1,
            position: 1,
            ..
        })
    ));
}

#[test]
fn escape_sequences_take_no_room() {
    let area = Area {
        x: 0,
        y: 0,
        width: 12,
        height: 3,
    };
    let mut ops = Vec::new();
    let text = "\u{1b}[31mred text\u{1b}[0m".to_string();
    let scroll =
        render_scrollable_text(&mut ops, text, plain_look(), area, 5, ScrollMode::Clamp);
    assert_eq!(scroll, 0);
    assert_eq!(ops.len(), 1);
    let text = "\u{1b}[31ma\nb\nc\u{1b}[0m".to_string();
    let scroll =
        render_scrollable_text(&mut ops, text, plain_look(), area, 5, ScrollMode::Clamp);
    assert_eq!(scroll, 2);
}

#[test]
fn cursor_columns_follow_the_wrapping() {
    assert_eq!(wrapped_cursor_column("", 10), 0);
    assert_eq!(wrapped_cursor_column("abc", 0), 0);
    assert_eq!(wrapped_cursor_column("漢字", 10), 4);
    assert_eq!(wrapped_cursor_column("hello world", 8), 5);
    assert_eq!(wrapped_cursor_column("ab\ncde", 8), 3);
    assert_eq!(wrapped_cursor_column("abcdefghijk", 5), 5);
    assert_eq!(wrapped_cursor_column("a    ", 3), 1);
}

#[test]
fn very_long_words_fill_a_row() {
    assert_eq!(wrapped_cursor_column(&"a".repeat(65540), 80), 80);
    assert_eq!(wrapped_cursor_column(&"a".repeat(65540), u16::MAX), u16::MAX);
    let spaces = format!("ab{}", " ".repeat(65540));
    assert_eq!(wrapped_cursor_column(&spaces, 80), 2);
}

#[test]
fn only_the_last_line_fixes_the_cursor_column() {
    for last in ["", "x", "hello world", "   ", "漢字 a"] {
        for width in [0, 1, 4, 8, 80] {
            let text = format!("first line\n{last}");
            assert_eq!(
                wrapped_cursor_column(&text, width),
                wrapped_cursor_column(last, width)
            );
        }
    }
}

#[test]
fn the_last_of_very_many_rows_is_reached() {
    let area = Area {
        x: 0,
        y: 0,
        width: 12,
        height: 22,
    };
    let text = "a\n".repeat(65540);
    for mode in [ScrollMode::End, ScrollMode::Clamp] {
        let mut ops = Vec::new();
        let scroll = render_scrollable_paragraph(
            &mut ops,
            text.clone(),
            plain_look(),
            TextStyle::plain(),
            area,
            SCROLL_TO_END,
            mode,
        );
        assert_eq!(scroll, 65520);
        assert!(matches!(
            ops.last(),
            Some(DrawOp::Scrollbar {
                max: 65520,
                position: 65520,
                ..
            })
        ));
        let scroll = render_scrollable_text(
            &mut ops,
            text.clone(),
            plain_look(),
            area,
            SCROLL_TO_END,
            mode,
        );
        assert_eq!(scroll, 65520);
    }
}

/// A row that is nearly full, and three symbols that are nearly as wide.
fn overflowing(width: usize) -> String {
    let symbol = format!("あ{}", "\u{ff9e}".repeat(width - 3));
    format!("{} {}", "a".repeat(width - 3), symbol.repeat(3))
}

#[test]
fn wide_screens_are_drawn() {
    let wide = Area {
        width: u16::MAX,
        ..SCREEN
    };
    let mut app = app();
    app.current_screen = CurrentScreen::Request;
    answer(&mut app, &"a b".repeat(40000));
    assert!(ui(&mut app, wide, "").is_some());
    answer(&mut app, &"漢字 ".repeat(10000));
    assert!(ui(&mut app, wide, "").is_some());
    answer(&mut app, &"漢".repeat(21845));
    assert!(ui(&mut app, wide, "").is_some());
    answer(&mut app, &overflowing(32765));
    assert!(ui(&mut app, wide, "").is_none());
    assert!(ui(&mut app, SCREEN, "").is_some());
}

#[test]
fn rows_are_counted_where_columns_can_be_added_up() {
    assert!(can_count_rows(&overflowing(32765), 0x4000));
    assert!(!can_count_rows(&overflowing(32765), 32765));
    assert!(can_count_rows("漢字", 0xffff));
    assert!(can_count_rows(&"a".repeat(70000), 65533));
    assert!(!can_count_rows(&"a".repeat(70000), 65534));
    assert!(can_count_rows(&"漢字 ".repeat(10000), 65533 - 36));
    assert!(can_count_rows(&format!("{}\n{}", "a".repeat(70000), "漢字"), 0xfffd));
    let widest = Area {
        width: u16::MAX,
        ..SCREEN
    };
    let mut ops = Vec::new();
    let scroll = render_scrollable_paragraph(
        &mut ops,
        "a".repeat(65533 * 40),
        plain_look(),
        TextStyle::plain(),
        widest,
        SCROLL_TO_END,
        ScrollMode::Clamp,
    );
    assert_eq!(scroll, 2);
    let scroll = render_scrollable_paragraph(
        &mut ops,
        "漢".repeat(21845),
        plain_look(),
        TextStyle::plain(),
        widest,
        SCROLL_TO_END,
        ScrollMode::Clamp,
    );
    assert_eq!(scroll, 0);
}

#[test]
fn titles_tell_how_to_reach_a_field() {
    let mut app = app();
    app.current_screen = CurrentScreen::Request;
    let elsewhere = widget_title("Headers", &app, FocusableField::Headers);
    assert!(elsewhere.starts_with("Headers ("), "{elsewhere}");
    assert!(elsewhere.contains('='), "{elsewhere}");
    let focused = widget_title("Method & URL", &app, FocusableField::Url);
    assert!(focused.contains(" - "), "{focused}");
    app.edit_focused_field();
    let edited = widget_title("Method & URL", &app, FocusableField::Url);
    assert_ne!(edited, focused);
}

#[test]
fn hints_join_keys_and_descriptions() {
    let app = app();
    let line = app.keymap.format_hint_line(&app.key_context());
    let bindings = Keymap::default();
    let listed = bindings.bindings_for(&app.key_context());
    let expected: Vec<String> = listed.iter().map(|b| b.hint_text()).collect();
    assert_eq!(line, expected.join(" | "));
    assert!(line.contains(" - "));
}

#[test]
fn areas_lie_on_the_screen() {
    let areas = lay_out_screen(SCREEN);
    assert_eq!(areas.title.height, 1);
    assert_eq!(areas.content.height, 34);
    assert_eq!(areas.mode.width + areas.keys.width, 120);
    for area in [areas.title, areas.content, areas.mode, areas.keys] {
        assert!(within(area, SCREEN));
    }
    for layout in [ResponseLayout::Text, ResponseLayout::Json, ResponseLayout::Stream] {
        let request = lay_out_request(layout, areas.content);
        for area in [
            request.url,
            request.headers,
            request.body,
            request.events,
            request.response.output,
            request.response.filters,
        ] {
            assert!(within(area, areas.content));
        }
        assert_eq!(request.url.height, 3);
        assert_eq!(request.headers.height, 8);
    }
    assert!(within(centered_rect(60, 25, SCREEN), SCREEN));
}

#[test]
fn suggestions_are_ranked() {
    let names = suggest("ACC");
    assert_eq!(names[0], "accept");
    let starting = names.iter().take_while(|n| n.starts_with("acc")).count();
    assert!(starting > 1);
    assert!(names[starting..].iter().all(|n| !n.starts_with("acc")));
    assert!(names[..starting].windows(2).all(|w| w[0].len() <= w[1].len()));
    assert!(names[starting..].windows(2).all(|w| w[0].len() <= w[1].len()));
    assert_eq!(suggest("").len(), get_standard_headers().len());
    assert_eq!(suggest("zzz").len(), 0);
    assert_eq!(suggest("X-X"), vec!["x-xss-protection"]);
    for name in get_standard_headers() {
        assert!(suggest(name).contains(&name));
    }
}
