use imhottep::drawing::{Area, Color};
use imhottep::ui::{
    centered_rect, focused_border_style, selected_item_style, wrapped_cursor_column, FocusState,
};

#[test]
fn test_centered_rect_is_within_parent() {
    let parent = Area { x: 0, y: 0, width: 100, height: 50 };
    let result = centered_rect(60, 25, parent);
    assert!(result.x >= parent.x);
    assert!(result.y >= parent.y);
    assert!(result.x + result.width <= parent.x + parent.width);
    assert!(result.y + result.height <= parent.y + parent.height);
}

#[test]
fn test_centered_rect_width_is_proportional() {
    let parent = Area { x: 0, y: 0, width: 100, height: 100 };
    let result = centered_rect(60, 50, parent);
    // 60% of 100 = 60; ratatui layout may round, allow ±2
    assert!(
        (result.width as i32 - 60).abs() <= 2,
        "width was {}",
        result.width
    );
}

#[test]
fn test_centered_rect_height_is_proportional() {
    let parent = Area { x: 0, y: 0, width: 100, height: 100 };
    let result = centered_rect(60, 50, parent);
    assert!(
        (result.height as i32 - 50).abs() <= 2,
        "height was {}",
        result.height
    );
}

#[test]
fn test_centered_rect_is_horizontally_centered() {
    let parent = Area { x: 0, y: 0, width: 100, height: 100 };
    let result = centered_rect(60, 50, parent);
    let left_margin = result.x;
    let right_margin = parent.width - result.x - result.width;
    // Margins should be roughly equal (rounding may differ by 1)
    assert!(
        (left_margin as i32 - right_margin as i32).abs() <= 1,
        "left={left_margin} right={right_margin}"
    );
}

#[test]
fn test_centered_rect_full_size() {
    let parent = Area { x: 0, y: 0, width: 80, height: 40 };
    let result = centered_rect(100, 100, parent);
    // 100% → entire area (ratatui may leave 0 for the margin percentages)
    assert!(result.width > 0);
    assert!(result.height > 0);
}

#[test]
fn test_focused_border_style_when_focused_is_cyan() {
    let style = focused_border_style(FocusState::Focused);
    assert_eq!(style.fg, Some(Color::Cyan));
}

#[test]
fn test_focused_border_style_when_not_focused_is_default() {
    let style = focused_border_style(FocusState::Unfocused);
    // Default style has no foreground colour set
    assert_eq!(style.fg, None);
}

#[test]
fn test_selected_item_style_colors() {
    let style = selected_item_style();
    assert_eq!(style.fg, Some(Color::Yellow));
    assert_eq!(style.bg, Some(Color::DarkGray));
}

#[test]
fn test_selected_item_style_is_bold() {
    let style = selected_item_style();
    assert!(style.bold);
}

#[test]
fn test_wrapped_cursor_column_simple() {
    assert_eq!(wrapped_cursor_column("hello", 10), 5);
    assert_eq!(wrapped_cursor_column("", 10), 0);
    assert_eq!(wrapped_cursor_column("  ", 10), 2);
    assert_eq!(wrapped_cursor_column("  hello", 10), 7);
}

#[test]
fn test_wrapped_cursor_column_overflow() {
    // "hello world" with width 10: "hello" line 1, "world" line 2
    assert_eq!(wrapped_cursor_column("hello world", 10), 5);
    // "hello world foo" with width 10: "hello" line 1, "world foo" line 2
    assert_eq!(wrapped_cursor_column("hello world foo", 10), 9);
    // "hello world foo bar" with width 10: "hello" l1, "world foo" l2 (flush at 9+1≥10), "bar" l3
    assert_eq!(wrapped_cursor_column("hello world foo bar", 10), 3);
}

#[test]
fn test_wrapped_cursor_column_fits_on_one_line() {
    assert_eq!(wrapped_cursor_column("hello world", 80), 11);
    assert_eq!(wrapped_cursor_column("a b c d e f g", 80), 13);
}

#[test]
fn test_wrapped_cursor_column_long_word_exceeds_width() {
    // Words longer than max_width are capped at max_width
    assert_eq!(wrapped_cursor_column("abcdefghijklmnop", 5), 5);
}

#[test]
fn test_wrapped_cursor_column_newlines() {
    assert_eq!(wrapped_cursor_column("hello\nworld", 80), 5);
    assert_eq!(wrapped_cursor_column("hello\nworld\nfoo", 10), 3);
}
