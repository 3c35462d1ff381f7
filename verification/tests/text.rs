use imhottep::editing::{
    delete_word_backward, delete_word_forward, insert_char, remove_char, word_left, word_right,
};
use imhottep::text::{decimal_string, join, lines, split_lines, trim, trim_end_cr};

fn strings(parts: &[&str]) -> Vec<String> {
    parts.iter().map(|p| p.to_string()).collect()
}

#[test]
fn splitting_and_joining_are_inverse() {
    for text in ["", "a", "a\nb", "\n", "a\n\nb\n", "é\n漢字"] {
        assert_eq!(join(&split_lines(text), "\n"), text);
    }
    assert_eq!(split_lines("a\n\nb\n"), strings(&["a", "", "b", ""]));
    assert_eq!(split_lines(""), strings(&[""]));
}

#[test]
fn lines_leave_out_their_ends() {
    assert_eq!(lines("a\r\nb\nc"), strings(&["a", "b", "c"]));
    assert_eq!(lines("a\n"), strings(&["a"]));
    assert_eq!(lines("a\r\r\nb\r"), strings(&["a\r", "b\r"]));
    assert_eq!(lines(""), strings(&[]));
}

#[test]
fn joining_nothing_gives_nothing() {
    assert_eq!(join(&strings(&[]), ", "), "");
    assert_eq!(join(&strings(&["a"]), ", "), "a");
    assert_eq!(join(&strings(&["a", "b", ""]), ", "), "a, b, ");
}

#[test]
fn numbers_are_written_in_decimal() {
    assert_eq!(decimal_string(0), "0");
    assert_eq!(decimal_string(7), "7");
    assert_eq!(decimal_string(1090), "1090");
    assert_eq!(decimal_string(usize::MAX), usize::MAX.to_string());
}

#[test]
fn trimming_follows_unicode() {
    assert_eq!(trim(" \t a b\u{a0}\u{2003}\n"), "a b");
    assert_eq!(trim("\u{2003}"), "");
    assert_eq!(trim("x"), "x");
    assert_eq!(trim_end_cr("a\r\r"), "a");
    assert_eq!(trim_end_cr("\ra\n"), "\ra\n");
}

#[test]
fn inserting_moves_the_cursor_by_one_byte() {
    let mut buf = "ab".to_string();
    assert_eq!(insert_char(&mut buf, 1, 'x'), 2);
    assert_eq!(buf, "axb");
    assert_eq!(insert_char(&mut buf, 3, 'é'), 4);
    assert_eq!(buf, "axbé");
}

#[test]
fn removing_undoes_inserting() {
    for c in ['x', 'é', '漢'] {
        let mut buf = "a漢b".to_string();
        insert_char(&mut buf, 4, c);
        remove_char(&mut buf, 4);
        assert_eq!(buf, "a漢b");
    }
}

#[test]
fn words_are_walked_by_category() {
    assert_eq!(word_left("foo bar", 7), 4);
    assert_eq!(word_left("foo bar  ", 9), 4);
    assert_eq!(word_left("foo.bar", 4), 3);
    assert_eq!(word_left("   ", 3), 0);
    assert_eq!(word_left("abc", 0), 0);
    assert_eq!(word_right("foo bar", 0), 3);
    assert_eq!(word_right("foo bar", 3), 7);
    assert_eq!(word_right("foo  ", 3), 5);
    assert_eq!(word_right("a=b", 1), 2);
    assert_eq!(word_right("abc", 3), 3);
}

#[test]
fn words_are_counted_in_characters() {
    assert_eq!(word_left("éé", 4), 2);
    assert_eq!(word_right("éé a", 0), 2);
}

#[test]
fn words_are_deleted() {
    let mut buf = "foo bar baz".to_string();
    assert_eq!(delete_word_backward(&mut buf, 7), 4);
    assert_eq!(buf, "foo  baz");
    delete_word_forward(&mut buf, 4);
    assert_eq!(buf, "foo ");
    assert_eq!(delete_word_backward(&mut buf, 0), 0);
    assert_eq!(buf, "foo ");
}

#[test]
fn white_space_alone_is_not_deleted() {
    let mut buf = "   ".to_string();
    assert_eq!(delete_word_backward(&mut buf, 2), 0);
    assert_eq!(buf, "   ");
    delete_word_forward(&mut buf, 1);
    assert_eq!(buf, "   ");
}
