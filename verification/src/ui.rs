//! What the screens show.

use ratatui::layout::{Constraint, Direction, Layout, Rect};
use unicode_width::UnicodeWidthStr;
use vstd::prelude::*;

use crate::app::{
    App, AppModel, CurrentScreen, EditingField, FocusableField, HeaderField, ResponseViewMode,
};
use crate::drawing::{
    add_line, add_piece, bare_look, centered_line, draw, draw_models, larger, line_models,
    make_bare_look, make_centered_line, make_paragraph, make_titled_look, max_of,
    min_of, near_difference, piece_models, simple_paragraph, smaller, titled_look, Align, Area,
    Color, Content, ContentModel, DrawModel, DrawOp, LineModel, Look, LookModel, Paragraph,
    ParagraphModel, Piece, PieceModel, StyledLine, TextStyle, TitleModel,
};
use crate::http_client::joined;
use crate::keymap::{
    first_of_each, hint_texts, jump_action, navigation_context, of_field, ranked, shortcuts,
    shortcut_texts, shown_models, Action, Binding, BindingModel, KeyContext,
};
use crate::text::{
    at_boundary, byte_len, char_index, char_is_space, chars_of, decimal, decimal_string,
    from_chars, is_boundary, is_space, join, join_texts, length, pieces, split_at, split_lines,
    views,
};

verus! {

// ── Styles ────────────────────────────────────────────────────────────────────

/// Whether a field has the focus.
#[derive(Debug, Clone, Copy, PartialEq, Eq, Structural)]
pub enum FocusState {
    Focused,
    Unfocused,
}

/// The look of a border.
pub open spec fn border_style(focused: bool) -> TextStyle {
    if focused {
        TextStyle::fg(Color::Cyan)
    } else {
        TextStyle::plain()
    }
}

pub fn focused_border_style(state: FocusState) -> (r: TextStyle)
    ensures
        r == border_style(state == FocusState::Focused),
{
    match state {
        FocusState::Focused => TextStyle::fg(Color::Cyan),
        FocusState::Unfocused => TextStyle::plain(),
    }
}

fn border_of(focused: bool) -> (r: TextStyle)
    ensures
        r == border_style(focused),
{
    if focused {
        focused_border_style(FocusState::Focused)
    } else {
        focused_border_style(FocusState::Unfocused)
    }
}

/// The look of a selected item: bold yellow on dark gray.
pub open spec fn selected_style() -> TextStyle {
    TextStyle { fg: Some(Color::Yellow), bg: Some(Color::DarkGray), bold: true }
}

pub fn selected_item_style() -> (r: TextStyle)
    ensures
        r == selected_style(),
{
    TextStyle { fg: Some(Color::Yellow), bg: Some(Color::DarkGray), bold: true }
}

/// The look of a text that is edited: bold yellow.
pub open spec fn editing_style() -> TextStyle {
    TextStyle { fg: Some(Color::Yellow), bg: None, bold: true }
}

fn make_editing_style() -> (r: TextStyle)
    ensures
        r == editing_style(),
{
    TextStyle { fg: Some(Color::Yellow), bg: None, bold: true }
}

// ── Widths and counts ─────────────────────────────────────────────────────────

/// The number of columns that unicode_width gives a text.
pub uninterp spec fn unicode_columns(s: Seq<char>) -> nat;

/// Whether a text has no characters but those from the space to the tilde.
pub open spec fn is_printable_ascii(s: Seq<char>) -> bool {
    forall|i: int| 0 <= i < s.len() ==> ' ' <= #[trigger] s[i] <= '~'
}

/// The number of columns that a text takes.
pub open spec fn display_width(s: Seq<char>) -> nat {
    if is_printable_ascii(s) {
        s.len()
    } else {
        unicode_columns(s)
    }
}

/// `unicode_width`'s width of a string: the number of columns that it takes,
/// named [`unicode_columns`].  The characters from the space to the tilde take
/// one each.
#[verifier::external_body]
fn width_of(s: &str) -> (n: usize)
    ensures
        n == display_width(s@),
        !is_printable_ascii(s@) ==> n == unicode_columns(s@),
{
    s.width()
}

/// The number of rows of a text that is wrapped at words to a width.
pub uninterp spec fn wrapped_rows(text: Seq<char>, width: u16) -> nat;

/// The number of rows of a text whose escape sequences are read, and that is
/// wrapped at words to a width, or nothing where they cannot be read.
pub uninterp spec fn ansi_rows(text: Seq<char>, width: u16) -> Option<usize>;

/// The widest that any text can be wrapped to.  On the way the columns of a row,
/// of the white space and the word behind it and of one more symbol are added
/// up in sixteen bits, and each of the four is no wider than the row.
pub const MAX_WRAP_WIDTH: u16 = 0x4000;

/// The number of characters at the end of a line that are not ASCII.
pub open spec fn last_run(line: Seq<char>) -> nat
    decreases line.len(),
{
    if line.len() == 0 || line.last() <= '\u{7f}' {
        0
    } else {
        last_run(line.drop_last()) + 1
    }
}

/// The largest number of characters one after the other that are not ASCII.
pub open spec fn longest_run(line: Seq<char>) -> nat
    decreases line.len(),
{
    if line.len() == 0 {
        0
    } else if last_run(line) > longest_run(line.drop_last()) {
        last_run(line)
    } else {
        longest_run(line.drop_last())
    }
}

/// Whether the columns of a line that is wrapped to a width can be added up in
/// sixteen bits.  They can in a short line, as no symbol takes more columns
/// than it has bytes.  In any other line the sums exceed the width by less than
/// three symbols, and a symbol is made of one ASCII character at most, with
/// others on both sides that take three columns each at most.
pub open spec fn is_countable_line(line: Seq<char>, width: u16) -> bool {
    byte_len(line) <= u16::MAX || width + 18 * longest_run(line) <= u16::MAX - 2
}

/// Whether the rows of a text that is wrapped to a width can be counted.
pub open spec fn can_count(text: Seq<char>, width: u16) -> bool {
    width <= MAX_WRAP_WIDTH || forall|i: int|
        0 <= i < pieces(text).len() ==> is_countable_line(#[trigger] pieces(text)[i], width)
}

/// The largest number of characters one after the other that are not ASCII.
fn find_longest_run(line: &str) -> (r: usize)
    ensures
        r == longest_run(line@),
{
    let v = chars_of(line);
    let mut last: usize = 0;
    let mut longest: usize = 0;
    let mut i: usize = 0;
    while i < v.len()
        invariant
            v@ == line@,
            i <= v@.len(),
            last == last_run(line@.take(i as int)),
            longest == longest_run(line@.take(i as int)),
            last <= i,
            longest <= i,
        decreases v@.len() - i,
    {
        proof {
            assert(line@.take(i + 1).drop_last() =~= line@.take(i as int));
        }
        let c: char = v[i];
        if c <= '\u{7f}' {
            last = 0;
        } else {
            last = last + 1;
        }
        if last > longest {
            longest = last;
        }
        i = i + 1;
    }
    proof {
        assert(line@.take(i as int) =~= line@);
    }
    longest
}

/// Whether the rows of a text that is wrapped to a width can be counted.
pub fn can_count_rows(text: &str, width: u16) -> (r: bool)
    ensures
        r == can_count(text@, width),
{
    if width <= MAX_WRAP_WIDTH {
        return true;
    }
    let lines = split_lines(text);
    let ghost all = pieces(text@);
    let mut i: usize = 0;
    while i < lines.len()
        invariant
            i <= lines@.len(),
            all == views(lines@),
            all == pieces(text@),
            width > MAX_WRAP_WIDTH,
            forall|j: int| 0 <= j < i ==> is_countable_line(#[trigger] all[j], width),
        decreases lines@.len() - i,
    {
        proof {
            assert(all[i as int] == lines@[i as int]@);
        }
        let line = lines[i].as_str();
        if length(line) > u16::MAX as usize {
            let run: usize = find_longest_run(line);
            if width as u128 + 18 * (run as u128) > 65533 {
                assert(!is_countable_line(pieces(text@)[i as int], width));
                return false;
            }
        }
        i = i + 1;
    }
    true
}

/// ratatui's `Paragraph::line_count` of a wrapped text.
#[verifier::external_body]
fn count_rows(text: &str, width: u16) -> (n: usize)
    requires
        can_count(text@, width),
    ensures
        n == wrapped_rows(text@, width),
{
    ratatui::widgets::Paragraph::new(text)
        .wrap(ratatui::widgets::Wrap { trim: false })
        .line_count(width)
}

/// ratatui's `Paragraph::line_count` of a wrapped text whose escape sequences
/// ansi_to_tui's `into_text` has read, or nothing where it cannot read them.
#[verifier::external_body]
fn try_ansi_rows(text: &str, width: u16) -> (n: Option<usize>)
    requires
        can_count(text@, width),
    ensures
        n == ansi_rows(text@, width),
{
    match ansi_to_tui::IntoText::into_text(&text.as_bytes()) {
        Ok(styled) => Some(
            ratatui::widgets::Paragraph::new(styled)
                .wrap(ratatui::widgets::Wrap { trim: false })
                .line_count(width),
        ),
        Err(_) => None,
    }
}

/// The number of rows of a text with escape sequences.  A text whose sequences
/// cannot be read is taken as it is.
pub open spec fn colored_rows(text: Seq<char>, width: u16) -> nat {
    match ansi_rows(text, width) {
        Some(n) => n as nat,
        None => wrapped_rows(text, width),
    }
}

fn count_colored_rows(text: &str, width: u16) -> (n: usize)
    requires
        can_count(text@, width),
    ensures
        n == colored_rows(text@, width),
{
    match try_ansi_rows(text, width) {
        Some(n) => n,
        None => count_rows(text, width),
    }
}

/// A number as far as sixteen bits hold it.
pub open spec fn low_bits(n: nat) -> u16 {
    (n % 0x1_0000) as u16
}

fn truncated(n: usize) -> (r: u16)
    ensures
        r == low_bits(n as nat),
{
    assert(n as u16 == n % 0x1_0000) by (bit_vector);
    #[verifier::truncate]
    let r = n as u16;
    r
}

// ── The column of the cursor in a wrapped text ────────────────────────────────

/// The end of the run of white space, or of anything else, that goes on at
/// `k`.
pub open spec fn run_end(s: Seq<char>, k: int, spaces: bool) -> int
    decreases s.len() - k,
{
    if k >= s.len() || is_space(s[k]) != spaces {
        k
    } else {
        run_end(s, k + 1, spaces)
    }
}

/// The column after a run of this width: white space is dropped where it does
/// not fit, a word that does not fit goes to the next row, and one that never
/// fits fills a row.
pub open spec fn column_after(col: int, width: int, spaces: bool, max_width: int) -> int {
    if col + width <= max_width {
        col + width
    } else if spaces {
        col
    } else if width <= max_width {
        width
    } else {
        max_width
    }
}

/// The column at the end of a line whose part from `k` on starts at a column.
pub open spec fn line_column(s: Seq<char>, k: int, col: int, max_width: int) -> int
    decreases s.len() - k,
{
    if k >= s.len() {
        col
    } else {
        let end = run_end(s, k, is_space(s[k]));
        let width = display_width(s.subrange(k, end)) as int;
        proof {
            lemma_run_end(s, k, is_space(s[k]));
        }
        line_column(s, end, column_after(col, width, is_space(s[k]), max_width), max_width)
    }
}

/// The column of the cursor behind a text that is wrapped at words to a width.
pub open spec fn cursor_column(text: Seq<char>, max_width: u16) -> int {
    if max_width == 0 || text.len() == 0 {
        0
    } else {
        line_column(pieces(text).last(), 0, 0, max_width as int)
    }
}

/// A run does not end before it began, nor behind the text.
pub proof fn lemma_run_end(s: Seq<char>, k: int, spaces: bool)
    requires
        k <= s.len(),
    ensures
        k <= run_end(s, k, spaces) <= s.len(),
        k < s.len() && is_space(s[k]) == spaces ==> k < run_end(s, k, spaces),
    decreases s.len() - k,
{
    if k < s.len() && is_space(s[k]) == spaces {
        lemma_run_end(s, k + 1, spaces);
    }
}

/// The column at the end of one line.
fn column_of_line(line: &str, max_width: u16) -> (col: u16)
    ensures
        col == line_column(line@, 0, 0, max_width as int),
        col <= max_width,
{
    let v = chars_of(line);
    let mut k: usize = 0;
    let mut col: u16 = 0;
    while k < v.len()
        invariant
            v@ == line@,
            k <= v@.len(),
            col <= max_width,
            line_column(line@, 0, 0, max_width as int) == line_column(
                line@,
                k as int,
                col as int,
                max_width as int,
            ),
        decreases v@.len() - k,
    {
        let spaces = char_is_space(v[k]);
        let mut end: usize = k;
        proof {
            lemma_run_end(v@, k as int, spaces);
        }
        while end < v.len() && char_is_space(v[end]) == spaces
            invariant
                v@ == line@,
                k <= end <= v@.len(),
                run_end(v@, end as int, spaces) == run_end(v@, k as int, spaces),
            ensures
                k <= end <= v@.len(),
                end == run_end(v@, k as int, spaces),
            decreases v@.len() - end,
        {
            end = end + 1;
        }
        let run = from_chars(&v, k, end);
        let width: usize = width_of(run.as_str());
        if width <= (max_width - col) as usize {
            col = col + width as u16;
        } else if !spaces {
            if width <= max_width as usize {
                col = width as u16;
            } else {
                col = max_width;
            }
        }
        k = end;
    }
    col
}

/// A text without bytes is empty.
proof fn lemma_no_bytes(s: Seq<char>)
    ensures
        byte_len(s) == 0 <==> s.len() == 0,
{
    crate::text::lemma_offset_monotone(s, 0, s.len() as int);
    assert(s.take(0) =~= Seq::<char>::empty());
    assert(s.take(s.len() as int) =~= s);
    assert(byte_len(Seq::<char>::empty()) == 0);
}

/// The column of the cursor at the end of `text` after word-wrapping to
/// `max_width`, as a paragraph is wrapped that keeps its white space.
pub fn wrapped_cursor_column(text: &str, max_width: u16) -> (r: u16)
    ensures
        r == cursor_column(text@, max_width),
        r <= max_width,
{
    proof {
        lemma_no_bytes(text@);
        crate::text::lemma_pieces_nonempty(text@);
    }
    if max_width == 0 || length(text) == 0 {
        return 0;
    }
    let lines = split_lines(text);
    proof {
        assert(views(lines@).len() == lines@.len());
    }
    let last = lines.len() - 1;
    proof {
        assert(views(lines@)[last as int] == lines@[last as int]@);
    }
    column_of_line(lines[last].as_str(), max_width)
}

// ── Titles ────────────────────────────────────────────────────────────────────

/// A title with hints behind it, if there are any.
pub open spec fn with_hints(base: Seq<char>, hints: Seq<char>) -> Seq<char> {
    if hints.len() == 0 {
        base
    } else {
        base + " ("@ + hints + ")"@
    }
}

/// The hints of some bindings.
pub open spec fn hint_line(bindings: Seq<BindingModel>) -> Seq<char> {
    join_texts(hint_texts(bindings), " | "@)
}

/// How a shortcut is shown.
pub open spec fn shortcut_line(pairs: Seq<(Seq<char>, Seq<char>)>) -> Seq<char> {
    join_texts(
        Seq::new(pairs.len(), |i: int| pairs[i].0 + "="@ + pairs[i].1),
        ", "@,
    )
}

impl AppModel {
    /// Whether a field of the request screen is edited.
    pub open spec fn edits(self, field: FocusableField) -> bool {
        match field {
            FocusableField::Url => self.editing_field == Some(EditingField::Url),
            FocusableField::Headers => self.editing_field == Some(EditingField::Headers),
            FocusableField::Body => self.editing_field == Some(EditingField::Body),
            FocusableField::Response => self.editing_field == Some(EditingField::JsonFilter)
                || self.editing_field == Some(EditingField::StreamPrefixRegex)
                || self.editing_field == Some(EditingField::StreamSuffixRegex),
            FocusableField::RequestEvents => false,
        }
    }

    /// The hints for a field.
    pub open spec fn field_hints(self, editing: Option<EditingField>, field: FocusableField) -> Seq<
        char,
    > {
        hint_line(
            first_of_each(
                of_field(
                    self.keymap,
                    KeyContext { screen: CurrentScreen::Request, editing, focus: field },
                ),
            ),
        )
    }

    /// The title of a field: while it is edited with what can be done then,
    /// while it has the focus with what can be done there, and otherwise with
    /// how to get there.
    pub open spec fn title(self, base: Seq<char>, field: FocusableField) -> Seq<char> {
        if self.edits(field) {
            with_hints(base, self.field_hints(self.editing_field, field))
        } else if self.focused_field == field {
            with_hints(base, self.field_hints(None, field))
        } else {
            match jump_action(field) {
                None => base,
                Some(action) => {
                    let pairs = shortcuts(
                        first_of_each(ranked(self.keymap, navigation_context())),
                        action,
                    );
                    if pairs.len() == 0 {
                        base
                    } else {
                        base + " ("@ + shortcut_line(pairs) + ")"@
                    }
                },
            }
        }
    }
}

/// The hints of some bindings.
fn make_hint_line(bindings: &Vec<&Binding>) -> (r: String)
    ensures
        r@ == hint_line(shown_models(bindings@)),
{
    let ghost models = shown_models(bindings@);
    let mut parts: Vec<String> = Vec::new();
    let mut i: usize = 0;
    while i < bindings.len()
        invariant
            i <= bindings@.len(),
            models == shown_models(bindings@),
            views(parts@) =~= hint_texts(models.take(i as int)),
        decreases bindings@.len() - i,
    {
        let ghost done = parts@;
        let part = bindings[i].hint_text();
        proof {
            assert(part@ == models[i as int].hint_text());
            assert(views(done.push(part)) =~= views(done).push(part@));
            assert(hint_texts(models.take(i + 1)) =~= hint_texts(models.take(i as int)).push(
                models[i as int].hint_text(),
            ));
        }
        parts.push(part);
        i = i + 1;
    }
    proof {
        assert(models.take(i as int) =~= models);
    }
    join(&parts, " | ")
}

/// A title with hints behind it, if there are any.
fn add_hints(base: &str, hints: &str) -> (r: String)
    ensures
        r@ == with_hints(base@, hints@),
{
    proof {
        lemma_no_bytes(hints@);
    }
    if length(hints) == 0 {
        base.to_owned()
    } else {
        let mut r = joined(base, " (");
        r.append(hints);
        r.append(")");
        r
    }
}

/// How shortcuts are shown.
fn make_shortcut_line(pairs: &Vec<(&'static str, &'static str)>) -> (r: String)
    ensures
        r@ == shortcut_line(shortcut_texts(pairs@)),
{
    let ghost all = shortcut_texts(pairs@);
    let ghost shown = Seq::new(all.len(), |i: int| all[i].0 + "="@ + all[i].1);
    let mut parts: Vec<String> = Vec::new();
    let mut i: usize = 0;
    while i < pairs.len()
        invariant
            i <= pairs@.len(),
            all == shortcut_texts(pairs@),
            shown == Seq::new(all.len(), |i: int| all[i].0 + "="@ + all[i].1),
            views(parts@) =~= shown.take(i as int),
        decreases pairs@.len() - i,
    {
        let ghost done = parts@;
        let mut part = joined(pairs[i].0, "=");
        part.append(pairs[i].1);
        proof {
            assert(part@ == shown[i as int]);
            assert(views(done.push(part)) =~= views(done).push(part@));
        }
        parts.push(part);
        i = i + 1;
    }
    proof {
        assert(shown.take(i as int) =~= shown);
    }
    join(&parts, ", ")
}

/// Whether a field of the request screen is edited.
fn edits_field(app: &App, field: FocusableField) -> (r: bool)
    ensures
        r == app@.edits(field),
{
    match (field, app.editing_field) {
        (FocusableField::Url, Some(EditingField::Url)) => true,
        (FocusableField::Headers, Some(EditingField::Headers)) => true,
        (FocusableField::Body, Some(EditingField::Body)) => true,
        (FocusableField::Response, Some(EditingField::JsonFilter)) => true,
        (FocusableField::Response, Some(EditingField::StreamPrefixRegex)) => true,
        (FocusableField::Response, Some(EditingField::StreamSuffixRegex)) => true,
        _ => false,
    }
}

/// The title of a field, with hints.
pub fn widget_title(base: &str, app: &App, field: FocusableField) -> (r: String)
    ensures
        r@ == app@.title(base@, field),
{
    if edits_field(app, field) {
        let ctx = KeyContext {
            screen: CurrentScreen::Request,
            editing: app.editing_field,
            focus: field,
        };
        let bindings = app.keymap.field_bindings_for(&ctx);
        add_hints(base, make_hint_line(&bindings).as_str())
    } else if app.focused_field == field {
        let ctx = KeyContext { screen: CurrentScreen::Request, editing: None, focus: field };
        let bindings = app.keymap.field_bindings_for(&ctx);
        add_hints(base, make_hint_line(&bindings).as_str())
    } else {
        let pairs = app.keymap.focus_shortcut_for_field(field);
        proof {
            assert(shortcut_texts(pairs@).len() == pairs@.len());
        }
        if pairs.len() == 0 {
            base.to_owned()
        } else {
            let mut r = joined(base, " (");
            r.append(make_shortcut_line(&pairs).as_str());
            r.append(")");
            r
        }
    }
}

// ── Scrolling ─────────────────────────────────────────────────────────────────

/// How the scroll value of a text is brought in line with it.
#[derive(Debug, Clone, Copy, PartialEq, Eq, Structural)]
pub enum ScrollMode {
    /// To the last row, following new content.
    End,
    /// No further than the last row.
    Clamp,
}

/// A number of rows as a scroll value, as far as there are scroll values.
pub open spec fn as_scroll(rows: int) -> u16 {
    if rows <= 0 {
        0
    } else if rows <= u16::MAX {
        rows as u16
    } else {
        u16::MAX
    }
}

/// What is left of so many rows without some of them, as a scroll value.
fn rows_without(rows: u128, fewer: u16) -> (r: u16)
    ensures
        r == as_scroll(rows - fewer),
{
    if rows <= fewer as u128 {
        0
    } else if rows - fewer as u128 <= u16::MAX as u128 {
        (rows - fewer as u128) as u16
    } else {
        u16::MAX
    }
}

/// The largest scroll value of so many rows in an area.
pub open spec fn max_scroll(rows: nat, area: Area) -> u16 {
    as_scroll(rows - area.inside().height)
}

/// A scroll value brought in line with a text.
pub open spec fn scroll_in_line(scroll: u16, max: u16, mode: ScrollMode) -> u16 {
    match mode {
        ScrollMode::End => max,
        ScrollMode::Clamp => smaller(scroll, max),
    }
}

/// The number of rows of a text in an area.
pub open spec fn rows_of(content: ContentModel, area: Area) -> nat {
    match content {
        ContentModel::Plain(text) => wrapped_rows(text, area.inside().width),
        ContentModel::Ansi(text) => colored_rows(text, area.inside().width),
        ContentModel::Lines(_) => 0,
    }
}

/// A wrapped text at a scroll value, with a scroll bar if it has more rows than
/// there is room for.
pub open spec fn scrolled_text(
    before: Seq<DrawModel>,
    content: ContentModel,
    look: LookModel,
    style: TextStyle,
    area: Area,
    scroll: u16,
) -> Seq<DrawModel> {
    let rows = rows_of(content, area);
    let drawn = before.push(
        DrawModel::Text {
            area,
            paragraph: ParagraphModel {
                wrap: true,
                scroll_y: scroll,
                ..simple_paragraph(content, Some(look), style)
            },
        },
    );
    if rows > area.inside().height {
        drawn.push(
            DrawModel::Scrollbar { area, max: max_scroll(rows, area), position: scroll },
        )
    } else {
        drawn
    }
}

/// Draws a wrapped text with a scroll bar if it needs one, and returns the
/// scroll value in line with it.
pub fn render_scrollable_paragraph(
    ops: &mut Vec<DrawOp>,
    text: String,
    look: Look,
    style: TextStyle,
    area: Area,
    scroll: u16,
    mode: ScrollMode,
) -> (r: u16)
    requires
        can_count(text@, area.inside().width),
    ensures
        r == scroll_in_line(
            scroll,
            max_scroll(rows_of(ContentModel::Plain(text@), area), area),
            mode,
        ),
        draw_models(final(ops)@) == scrolled_text(
            draw_models(old(ops)@),
            ContentModel::Plain(text@),
            look@,
            style,
            area,
            r,
        ),
{
    let rows: usize = count_rows(text.as_str(), area.inner().width);
    draw_scrolled(ops, Content::Plain(text), look, style, area, rows, scroll, mode)
}

/// Draws a wrapped text with escape sequences, with a scroll bar if it needs
/// one, and returns the scroll value in line with it.
pub fn render_scrollable_text(
    ops: &mut Vec<DrawOp>,
    text: String,
    look: Look,
    area: Area,
    scroll: u16,
    mode: ScrollMode,
) -> (r: u16)
    requires
        can_count(text@, area.inside().width),
    ensures
        r == scroll_in_line(
            scroll,
            max_scroll(rows_of(ContentModel::Ansi(text@), area), area),
            mode,
        ),
        draw_models(final(ops)@) == scrolled_text(
            draw_models(old(ops)@),
            ContentModel::Ansi(text@),
            look@,
            TextStyle::plain(),
            area,
            r,
        ),
{
    let rows: usize = count_colored_rows(text.as_str(), area.inner().width);
    draw_scrolled(ops, Content::Ansi(text), look, TextStyle::plain(), area, rows, scroll, mode)
}

fn draw_scrolled(
    ops: &mut Vec<DrawOp>,
    content: Content,
    look: Look,
    style: TextStyle,
    area: Area,
    rows: usize,
    scroll: u16,
    mode: ScrollMode,
) -> (r: u16)
    requires
        rows == rows_of(content@, area),
    ensures
        r == scroll_in_line(scroll, max_scroll(rows as nat, area), mode),
        draw_models(final(ops)@) == scrolled_text(
            draw_models(old(ops)@),
            content@,
            look@,
            style,
            area,
            r,
        ),
{
    let visible = area.inner().height;
    let max: u16 = rows_without(rows as u128, visible);
    let position: u16 = match mode {
        ScrollMode::End => max,
        ScrollMode::Clamp => min_of(scroll, max),
    };
    let mut paragraph = make_paragraph(content, Some(look), style);
    paragraph.wrap = true;
    paragraph.scroll_y = position;
    draw(ops, DrawOp::Text { area, paragraph });
    if rows > visible as usize {
        draw(ops, DrawOp::Scrollbar { area, max, position });
    }
    position
}

// ── A line that is edited ─────────────────────────────────────────────────────

/// How far a line is scrolled to the left so that its cursor can be seen.
pub open spec fn line_scroll(cursor: u16, bytes: nat, width: u16) -> u16 {
    smaller(
        near_difference(cursor, near_difference(width, 1)),
        near_difference(low_bits(bytes), width),
    )
}

fn find_line_scroll(cursor: u16, bytes: usize, width: u16) -> (r: u16)
    ensures
        r == line_scroll(cursor, bytes as nat, width),
{
    min_of(
        cursor.saturating_sub(width.saturating_sub(1)),
        truncated(bytes).saturating_sub(width),
    )
}

/// Where the cursor of an edited line in a bordered area is, as far as the
/// terminal reaches.
pub open spec fn line_cursor(area: Area, cursor: int, scroll: u16) -> Option<DrawModel> {
    if cursor <= u16::MAX && area.x + 1 + cursor <= u16::MAX && area.y + 1 <= u16::MAX {
        Some(
            DrawModel::Cursor {
                x: (area.x + 1 + cursor - scroll) as u16,
                y: (area.y + 1) as u16,
            },
        )
    } else {
        None
    }
}

/// Draws an edited line in a bordered area with the cursor in it.  There is
/// nothing to be drawn where the cursor is beyond what the terminal reaches.
fn draw_edited_line(
    ops: &mut Vec<DrawOp>,
    text: String,
    look: Look,
    style: TextStyle,
    area: Area,
    cursor: u16,
) -> (r: bool)
    ensures
        edited_line(draw_models(old(ops)@), text@, look@, style, area, cursor as int) is Some == r,
        r ==> Some(draw_models(final(ops)@)) == edited_line(
            draw_models(old(ops)@),
            text@,
            look@,
            style,
            area,
            cursor as int,
        ),
{
    let inner = area.inner();
    let scroll = find_line_scroll(cursor, length(text.as_str()), inner.width);
    let mut paragraph = make_paragraph(Content::Plain(text), Some(look), style);
    paragraph.scroll_x = scroll;
    draw(ops, DrawOp::Text { area, paragraph });
    if area.x == u16::MAX || cursor > u16::MAX - (area.x + 1) || area.y == u16::MAX {
        return false;
    }
    draw(ops, DrawOp::Cursor { x: area.x + 1 + cursor - scroll, y: area.y + 1 });
    true
}

/// An edited line in a bordered area with the cursor in it.
pub open spec fn edited_line(
    before: Seq<DrawModel>,
    text: Seq<char>,
    look: LookModel,
    style: TextStyle,
    area: Area,
    cursor: int,
) -> Option<Seq<DrawModel>> {
    let scroll = line_scroll(cursor as u16, byte_len(text), area.inside().width);
    match line_cursor(area, cursor, scroll) {
        Some(shown) => Some(
            before.push(
                DrawModel::Text {
                    area,
                    paragraph: ParagraphModel {
                        scroll_x: scroll,
                        ..simple_paragraph(ContentModel::Plain(text), Some(look), style)
                    },
                },
            ).push(shown),
        ),
        None => None,
    }
}

// ── Method and URL ────────────────────────────────────────────────────────────

/// The look of a field's text.
pub open spec fn field_style(editing: bool, focused: bool) -> TextStyle {
    if editing {
        editing_style()
    } else if focused {
        TextStyle::bg(Color::DarkGray)
    } else {
        TextStyle::plain()
    }
}

fn make_field_style(editing: bool, focused: bool) -> (r: TextStyle)
    ensures
        r == field_style(editing, focused),
{
    if editing {
        make_editing_style()
    } else if focused {
        TextStyle::bg(Color::DarkGray)
    } else {
        TextStyle::plain()
    }
}

/// The panel with the method and the address of the selected request.
pub open spec fn url_panel(before: Seq<DrawModel>, m: AppModel, area: Area) -> Option<
    Seq<DrawModel>,
> {
    let focused = m.focused_field == FocusableField::Url;
    let editing = m.editing_field == Some(EditingField::Url);
    let look = titled_look(m.title("Method & URL"@, FocusableField::Url), border_style(focused));
    let style = field_style(editing, focused);
    let start = m.current().method + " "@;
    if editing {
        let cursor = low_bits(byte_len(start)) + low_bits(m.cursor_pos as nat);
        if cursor > u16::MAX {
            None
        } else {
            edited_line(
                before,
                start + m.input_buffer + " [EDITING]"@,
                look,
                style,
                area,
                cursor,
            )
        }
    } else {
        Some(
            before.push(
                DrawModel::Text {
                    area,
                    paragraph: simple_paragraph(
                        ContentModel::Plain(start + m.current().url),
                        Some(look),
                        style,
                    ),
                },
            ),
        )
    }
}

fn draw_url_panel(ops: &mut Vec<DrawOp>, app: &App, area: Area) -> (r: bool)
    requires
        app@.has_current(),
    ensures
        url_panel(draw_models(old(ops)@), app@, area) is Some == r,
        r ==> Some(draw_models(final(ops)@)) == url_panel(draw_models(old(ops)@), app@, area),
{
    let focused = app.focused_field == FocusableField::Url;
    let editing = match app.editing_field {
        Some(EditingField::Url) => true,
        _ => false,
    };
    let look = make_titled_look(
        widget_title("Method & URL", app, FocusableField::Url),
        border_of(focused),
    );
    let style = make_field_style(editing, focused);
    match app.get_current_request() {
        None => false,
        Some(request) => {
            let start = joined(request.method.as_str(), " ");
            if editing {
                let before_url = truncated(length(start.as_str()));
                let in_url = truncated(app.cursor_pos);
                if in_url > u16::MAX - before_url {
                    return false;
                }
                let mut text = joined(start.as_str(), app.input_buffer.as_str());
                text.append(" [EDITING]");
                draw_edited_line(ops, text, look, style, area, before_url + in_url)
            } else {
                let text = joined(start.as_str(), request.url.as_str());
                let paragraph = make_paragraph(Content::Plain(text), Some(look), style);
                draw(ops, DrawOp::Text { area, paragraph });
                true
            }
        },
    }
}

// ── Headers ───────────────────────────────────────────────────────────────────

/// How a header is shown.
pub open spec fn header_line(header: (Seq<char>, Seq<char>)) -> Seq<char> {
    header.0 + ": "@ + header.1
}

/// How some headers are shown.
pub open spec fn header_lines(headers: Seq<(Seq<char>, Seq<char>)>) -> Seq<Seq<char>> {
    Seq::new(headers.len(), |i: int| header_line(headers[i]))
}

/// The headers of the selected request with the one that is edited.
pub open spec fn edited_headers(m: AppModel) -> Seq<char> {
    let lines = header_lines(m.current().headers);
    join_texts(
        if m.header_field == HeaderField::Key {
            lines.push("Key: "@ + m.header_key_buffer + " [EDITING]"@)
        } else {
            lines.push("Key: "@ + m.header_key_buffer).push(
                "Value: "@ + m.header_value_buffer + " [EDITING]"@,
            )
        },
        "\n"@,
    )
}

/// The column of the cursor in the header that is edited, if it can be
/// counted.
pub open spec fn header_column(m: AppModel) -> int {
    if m.header_field == HeaderField::Key {
        5 + m.header_key_cursor
    } else {
        7 + m.header_value_cursor
    }
}

/// The cursor in the header that is edited: nothing where the terminal does
/// not reach, and no cursor where its row is below the area.
pub open spec fn header_cursor(
    before: Seq<DrawModel>,
    m: AppModel,
    rows: nat,
    scroll: u16,
    area: Area,
) -> Option<Seq<DrawModel>> {
    let inner = area.inside();
    if header_column(m) > usize::MAX || rows == 0 {
        None
    } else {
        let row = inner.y + (if rows - 1 > scroll {
            rows - 1 - scroll
        } else {
            0
        });
        if row > inner.bottom() {
            Some(before)
        } else if inner.x + low_bits(header_column(m) as nat) > u16::MAX {
            None
        } else {
            Some(
                before.push(
                    DrawModel::Cursor {
                        x: smaller(
                            (inner.x + low_bits(header_column(m) as nat)) as u16,
                            inner.right(),
                        ),
                        y: row as u16,
                    },
                ),
            )
        }
    }
}

/// The look of a header in the list.
pub open spec fn header_style(selected: bool, focused: bool) -> TextStyle {
    if selected && focused {
        selected_style()
    } else if focused {
        TextStyle::bg(Color::DarkGray)
    } else {
        TextStyle::plain()
    }
}

/// The headers of the selected request as a list.
pub open spec fn header_items(m: AppModel) -> Seq<PieceModel> {
    let focused = m.focused_field == FocusableField::Headers;
    Seq::new(
        m.current().headers.len(),
        |i: int|
            PieceModel {
                text: header_line(m.current().headers[i]),
                style: header_style(i == m.selected_header_index, focused),
            },
    )
}

/// The panel with the headers of the selected request.
pub open spec fn headers_panel(before: Seq<DrawModel>, m: AppModel, area: Area) -> Option<
    Seq<DrawModel>,
> {
    let focused = m.focused_field == FocusableField::Headers;
    let title = m.title("Headers"@, FocusableField::Headers);
    if m.editing_field == Some(EditingField::Headers) {
        let content = ContentModel::Plain(edited_headers(m));
        let countable = can_count(edited_headers(m), area.inside().width);
        let rows = rows_of(content, area);
        let max = max_scroll(rows, area);
        let scroll = smaller(m.headers_scroll, max);
        let drawn = before.push(
            DrawModel::Text {
                area,
                paragraph: ParagraphModel {
                    wrap: true,
                    scroll_y: scroll,
                    ..simple_paragraph(
                        content,
                        Some(titled_look(title, TextStyle::fg(Color::Cyan))),
                        editing_style(),
                    )
                },
            },
        );
        match header_cursor(drawn, m, rows, scroll, area) {
            None => None,
            Some(_) if !countable => None,
            Some(shown) => if rows > area.inside().height {
                Some(shown.push(DrawModel::Scrollbar { area, max, position: scroll }))
            } else {
                Some(shown)
            },
        }
    } else {
        Some(
            before.push(
                DrawModel::List {
                    area,
                    look: titled_look(title, border_style(focused)),
                    items: header_items(m),
                },
            ),
        )
    }
}

/// How the headers of the selected request are shown.
fn make_header_lines(app: &App) -> (r: Vec<String>)
    requires
        app@.has_current(),
    ensures
        views(r@) == header_lines(app@.current().headers),
{
    let mut r: Vec<String> = Vec::new();
    proof {
        assert(views(r@) =~= Seq::<Seq<char>>::empty());
    }
    if let Some(request) = app.get_current_request() {
        let ghost all = header_lines(app@.current().headers);
        let n: usize = request.headers.len();
        let mut i: usize = 0;
        while i < n
            invariant
                i <= n,
                n == request.headers@.len(),
                request.headers@ == app@.current().headers,
                all == header_lines(app@.current().headers),
                views(r@) =~= all.take(i as int),
            decreases n - i,
        {
            let ghost done = r@;
            let mut line = joined(request.headers.name_at(i).as_str(), ": ");
            line.append(request.headers.value_at(i).as_str());
            proof {
                assert(line@ == all[i as int]);
                assert(views(done.push(line)) =~= views(done).push(line@));
            }
            r.push(line);
            i = i + 1;
        }
        proof {
            assert(all.take(i as int) =~= all);
        }
    }
    r
}

fn make_edited_headers(app: &App) -> (r: String)
    requires
        app@.has_current(),
    ensures
        r@ == edited_headers(app@),
{
    let mut lines = make_header_lines(app);
    let ghost before = lines@;
    let mut key = joined("Key: ", app.header_key_buffer.as_str());
    if app.header_field == HeaderField::Key {
        key.append(" [EDITING]");
        proof {
            assert(views(before.push(key)) =~= views(before).push(key@));
        }
        lines.push(key);
    } else {
        let mut value = joined("Value: ", app.header_value_buffer.as_str());
        value.append(" [EDITING]");
        proof {
            assert(views(before.push(key).push(value)) =~= views(before).push(key@).push(value@));
        }
        lines.push(key);
        lines.push(value);
    }
    join(&lines, "\n")
}

fn draw_header_cursor(
    ops: &mut Vec<DrawOp>,
    app: &App,
    rows: usize,
    scroll: u16,
    area: Area,
) -> (r: bool)
    ensures
        header_cursor(draw_models(old(ops)@), app@, rows as nat, scroll, area) is Some == r,
        r ==> Some(draw_models(final(ops)@)) == header_cursor(
            draw_models(old(ops)@),
            app@,
            rows as nat,
            scroll,
            area,
        ),
{
    let inner = area.inner();
    let (label, cursor): (usize, usize) = if app.header_field == HeaderField::Key {
        (5, app.header_key_cursor)
    } else {
        (7, app.header_value_cursor)
    };
    if cursor > usize::MAX - label || rows == 0 {
        return false;
    }
    let column = truncated(label + cursor);
    let down: usize = (rows - 1).saturating_sub(scroll as usize);
    let row: u128 = inner.y as u128 + down as u128;
    if row > inner.y.saturating_add(inner.height) as u128 {
        return true;
    }
    if column > u16::MAX - inner.x {
        return false;
    }
    let x = min_of(inner.x + column, inner.x.saturating_add(inner.width));
    draw(ops, DrawOp::Cursor { x, y: row as u16 });
    true
}

fn make_header_items(app: &App) -> (r: Vec<Piece>)
    requires
        app@.has_current(),
    ensures
        piece_models(r@) == header_items(app@),
{
    let focused = app.focused_field == FocusableField::Headers;
    let lines = make_header_lines(app);
    let ghost all = header_items(app@);
    let mut r: Vec<Piece> = Vec::new();
    let mut i: usize = 0;
    proof {
        assert(piece_models(r@) =~= all.take(0));
        assert(views(lines@).len() == lines@.len());
    }
    while i < lines.len()
        invariant
            i <= lines@.len(),
            lines@.len() == app@.current().headers.len(),
            views(lines@) == header_lines(app@.current().headers),
            focused == (app@.focused_field == FocusableField::Headers),
            all == header_items(app@),
            piece_models(r@) == all.take(i as int),
        decreases lines@.len() - i,
    {
        let style = if i == app.selected_header_index && focused {
            selected_item_style()
        } else if focused {
            TextStyle::bg(Color::DarkGray)
        } else {
            TextStyle::plain()
        };
        let text = lines[i].clone();
        proof {
            assert(views(lines@)[i as int] == lines@[i as int]@);
            assert(all.take(i + 1) =~= all.take(i as int).push(all[i as int]));
        }
        add_piece(&mut r, Piece { text, style });
        i = i + 1;
    }
    proof {
        assert(all.take(i as int) =~= all);
    }
    r
}

fn draw_headers_panel(ops: &mut Vec<DrawOp>, app: &App, area: Area) -> (r: bool)
    requires
        app@.has_current(),
    ensures
        headers_panel(draw_models(old(ops)@), app@, area) is Some == r,
        r ==> Some(draw_models(final(ops)@)) == headers_panel(draw_models(old(ops)@), app@, area),
{
    let focused = app.focused_field == FocusableField::Headers;
    let title = widget_title("Headers", app, FocusableField::Headers);
    let editing = match app.editing_field {
        Some(EditingField::Headers) => true,
        _ => false,
    };
    if editing {
        let text = make_edited_headers(app);
        let inner = area.inner();
        if !can_count_rows(text.as_str(), inner.width) {
            return false;
        }
        let rows: usize = count_rows(text.as_str(), inner.width);
        let max: u16 = rows_without(rows as u128, inner.height);
        let scroll = min_of(app.headers_scroll, max);
        let mut paragraph = make_paragraph(
            Content::Plain(text),
            Some(make_titled_look(title, TextStyle::fg(Color::Cyan))),
            make_editing_style(),
        );
        paragraph.wrap = true;
        paragraph.scroll_y = scroll;
        draw(ops, DrawOp::Text { area, paragraph });
        if !draw_header_cursor(ops, app, rows, scroll, area) {
            return false;
        }
        if rows > inner.height as usize {
            draw(ops, DrawOp::Scrollbar { area, max, position: scroll });
        }
    } else {
        let items = make_header_items(app);
        let look = make_titled_look(title, border_of(focused));
        draw(ops, DrawOp::List { area, look, items });
    }
    true
}

// ── Suggestions ───────────────────────────────────────────────────────────────

/// Where the suggestions are shown: nothing where the terminal does not reach,
/// and no area where there are none or there is no room for them.
pub open spec fn popup_area(m: AppModel, headers: Area, screen_height: u16) -> Option<
    Option<Area>,
> {
    if m.editing_field == Some(EditingField::Headers) && m.header_field == HeaderField::Key
        && m.suggestions().len() > 0 {
        let x = headers.x + 2;
        let y = headers.y + low_bits(m.current().headers.len()) + 3;
        let height = if m.suggestions().len() < 8 {
            m.suggestions().len() + 2
        } else {
            10
        };
        if x > u16::MAX || y > u16::MAX || y + height > u16::MAX {
            None
        } else if y + height <= screen_height {
            Some(
                Some(
                    Area {
                        x: x as u16,
                        y: y as u16,
                        width: smaller(40, near_difference(headers.width, 4)),
                        height: height as u16,
                    },
                ),
            )
        } else {
            Some(None)
        }
    } else {
        Some(None)
    }
}

/// The look of a suggestion.
pub open spec fn suggestion_style(selected: bool) -> TextStyle {
    if selected {
        TextStyle { fg: Some(Color::Black), bg: Some(Color::Cyan), bold: true }
    } else {
        TextStyle { fg: Some(Color::White), bg: Some(Color::DarkGray), bold: false }
    }
}

/// Whether a suggestion is selected.
pub open spec fn is_selected(m: AppModel, i: int) -> bool {
    m.header_autocomplete matches Some(ac) && ac.selected == i
}

/// The suggestions as a list.
pub open spec fn suggestion_items(m: AppModel) -> Seq<PieceModel> {
    Seq::new(
        m.suggestions().len(),
        |i: int|
            PieceModel {
                text: m.suggestions()[i],
                style: suggestion_style(is_selected(m, i)),
            },
    )
}

/// The suggestions above everything else.
pub open spec fn popup(before: Seq<DrawModel>, m: AppModel, area: Option<Area>) -> Seq<
    DrawModel,
> {
    match area {
        None => before,
        Some(a) => before.push(DrawModel::Clear { area: a }).push(
            DrawModel::List {
                area: a,
                look: LookModel {
                    fill: TextStyle::bg(Color::DarkGray),
                    ..bare_look(TextStyle::fg(Color::Cyan))
                },
                items: suggestion_items(m),
            },
        ),
    }
}

/// Where the suggestions are shown.
fn find_popup_area(app: &App, headers: Area, screen_height: u16) -> (r: Option<Option<Area>>)
    requires
        app@.has_current(),
    ensures
        r == popup_area(app@, headers, screen_height),
{
    let editing = match app.editing_field {
        Some(EditingField::Headers) => true,
        _ => false,
    };
    if !editing || app.header_field != HeaderField::Key {
        return Some(None);
    }
    let names = app.get_filtered_header_suggestions();
    proof {
        assert(crate::suggestions::texts(names@).len() == names@.len());
    }
    if names.len() == 0 {
        return Some(None);
    }
    let count = match app.get_current_request() {
        Some(request) => truncated(request.headers.len()),
        None => 0,
    };
    let height: u16 = if names.len() < 8 {
        names.len() as u16 + 2
    } else {
        10
    };
    if headers.x > u16::MAX - 2 || count > u16::MAX - headers.y || headers.y + count > u16::MAX - 3
        || height > u16::MAX - (headers.y + count + 3) {
        return None;
    }
    let y: u16 = headers.y + count + 3;
    if y + height <= screen_height {
        Some(
            Some(
                Area {
                    x: headers.x + 2,
                    y,
                    width: min_of(40, headers.width.saturating_sub(4)),
                    height,
                },
            ),
        )
    } else {
        Some(None)
    }
}

fn draw_popup(ops: &mut Vec<DrawOp>, app: &App, area: Option<Area>)
    ensures
        draw_models(final(ops)@) == popup(draw_models(old(ops)@), app@, area),
{
    if let Some(a) = area {
        let names = app.get_filtered_header_suggestions();
        let ghost all = suggestion_items(app@);
        let mut items: Vec<Piece> = Vec::new();
        let mut i: usize = 0;
        proof {
            assert(piece_models(items@) =~= all.take(0));
            assert(crate::suggestions::texts(names@).len() == names@.len());
        }
        while i < names.len()
            invariant
                i <= names@.len(),
                crate::suggestions::texts(names@) == app@.suggestions(),
                all == suggestion_items(app@),
                piece_models(items@) == all.take(i as int),
            decreases names@.len() - i,
        {
            let selected = match app.header_autocomplete {
                Some(ac) => ac.selected == i,
                None => false,
            };
            let style = if selected {
                TextStyle { fg: Some(Color::Black), bg: Some(Color::Cyan), bold: true }
            } else {
                TextStyle { fg: Some(Color::White), bg: Some(Color::DarkGray), bold: false }
            };
            proof {
                assert(crate::suggestions::texts(names@)[i as int] == names@[i as int]@);
                assert(all.take(i + 1) =~= all.take(i as int).push(all[i as int]));
            }
            add_piece(&mut items, Piece { text: names[i].to_owned(), style });
            i = i + 1;
        }
        proof {
            assert(all.take(i as int) =~= all);
        }
        draw(ops, DrawOp::Clear { area: a });
        let mut look = make_bare_look(TextStyle::fg(Color::Cyan));
        look.fill = TextStyle::bg(Color::DarkGray);
        draw(ops, DrawOp::List { area: a, look, items });
    }
}

// ── Body ──────────────────────────────────────────────────────────────────────

/// The text of the body's panel.
pub open spec fn body_text(m: AppModel) -> Seq<char> {
    if m.editing_field == Some(EditingField::Body) {
        m.input_buffer + " [EDITING - ^S to save, esc to cancel]"@
    } else {
        match m.current().body {
            Some(body) => body,
            None => "(no body)"@,
        }
    }
}

/// Whether a text ends with a newline.
pub open spec fn ends_line(s: Seq<char>) -> bool {
    s.len() > 0 && s.last() == '\n'
}

/// The number of rows up to the cursor behind a text.  A newline at its end
/// opens one more row, which the count of its rows leaves out.
pub open spec fn rows_to_cursor(text: Seq<char>, width: u16) -> nat {
    if ends_line(text) {
        wrapped_rows(text.drop_last(), width) + 1
    } else {
        wrapped_rows(text, width)
    }
}

/// The scroll value at which the cursor can be seen.
pub open spec fn scroll_to_cursor(scroll: u16, rows: nat, height: u16) -> u16 {
    larger(smaller(scroll, as_scroll(rows - 1)), as_scroll(rows - height))
}

/// The cursor in the body that is edited, and the scroll value at which it can
/// be seen: nothing where the terminal does not reach, and no cursor where its
/// row is below the area.
pub open spec fn body_cursor(
    before: Seq<DrawModel>,
    typed: Seq<char>,
    area: Area,
    scroll: u16,
) -> Option<(Seq<DrawModel>, u16)> {
    let content = area.inside();
    let width = larger(content.width, 1);
    let rows = rows_to_cursor(typed, width);
    let shown = scroll_to_cursor(scroll, rows, content.height);
    let row = content.y + (if rows > 0 {
        rows - 1
    } else {
        0
    }) - shown;
    let column = if ends_line(typed) {
        0
    } else {
        cursor_column(typed, width)
    };
    if row < 0 {
        None
    } else if row > content.bottom() {
        Some((before, shown))
    } else if content.x + column > u16::MAX {
        None
    } else {
        Some(
            (
                before.push(DrawModel::Cursor { x: (content.x + column) as u16, y: row as u16 }),
                shown,
            ),
        )
    }
}

/// The panel with the body of the selected request, and its scroll value.
pub open spec fn body_panel(before: Seq<DrawModel>, m: AppModel, area: Area) -> Option<
    (Seq<DrawModel>, u16),
> {
    let focused = m.focused_field == FocusableField::Body;
    let editing = m.editing_field == Some(EditingField::Body);
    let text = body_text(m);
    let content = ContentModel::Plain(text);
    let scroll = scroll_in_line(
        m.body_scroll,
        max_scroll(rows_of(content, area), area),
        if editing {
            ScrollMode::End
        } else {
            ScrollMode::Clamp
        },
    );
    let drawn = scrolled_text(
        before,
        content,
        titled_look(m.title("Body"@, FocusableField::Body), border_style(focused)),
        field_style(editing, focused),
        area,
        scroll,
    );
    if !can_count(text, area.inside().width) {
        None
    } else if editing {
        if at_boundary(text, m.cursor_pos as int) {
            body_cursor(
                drawn,
                text.take(char_index(text, m.cursor_pos as int)),
                area,
                scroll,
            )
        } else {
            None
        }
    } else {
        Some((drawn, scroll))
    }
}

/// The beginning of a text whose rows can be counted is such a text.
proof fn lemma_beginning_can_be_counted(s: Seq<char>, k: int, width: u16)
    requires
        can_count(s, width),
        0 <= k <= s.len(),
    ensures
        can_count(s.take(k), width),
    decreases s.len() - k,
{
    if k == s.len() {
        assert(s.take(k) =~= s);
    } else if width > MAX_WRAP_WIDTH {
        let longer = s.take(k + 1);
        lemma_beginning_can_be_counted(s, k + 1, width);
        assert(longer.drop_last() =~= s.take(k));
        crate::text::lemma_pieces_nonempty(s.take(k));
        let before = pieces(s.take(k));
        let after = pieces(longer);
        assert forall|i: int| 0 <= i < before.len() implies is_countable_line(
            #[trigger] before[i],
            width,
        ) by {
            if i < before.len() - 1 || longer.last() == '\n' {
                assert(after[i] == before[i]);
            } else {
                let grown = before[i].push(longer.last());
                assert(grown.drop_last() =~= before[i]);
                assert(after[i] == grown);
                assert(grown == before[i] + seq![longer.last()]);
                crate::text::lemma_encode_concat(before[i], seq![longer.last()]);
            }
        }
    }
}

fn draw_body_cursor(ops: &mut Vec<DrawOp>, typed: &str, area: Area, scroll: u16) -> (r: Option<
    u16,
>)
    requires
        can_count(typed@, area.inside().width),
    ensures
        r is Some == body_cursor(draw_models(old(ops)@), typed@, area, scroll) is Some,
        r matches Some(shown) ==> Some((draw_models(final(ops)@), shown)) == body_cursor(
            draw_models(old(ops)@),
            typed@,
            area,
            scroll,
        ),
{
    let content = area.inner();
    let width = max_of(content.width, 1);
    let v = chars_of(typed);
    let ends = v.len() > 0 && v[v.len() - 1] == '\n';
    let rows: u128 = if ends {
        let counted = from_chars(&v, 0, v.len() - 1);
        proof {
            assert(counted@ =~= typed@.drop_last());
            lemma_beginning_can_be_counted(typed@, typed@.len() - 1, content.width);
            assert(typed@.take(typed@.len() - 1) =~= typed@.drop_last());
        }
        count_rows(counted.as_str(), width) as u128 + 1
    } else {
        count_rows(typed, width) as u128
    };
    let shown = max_of(min_of(scroll, rows_without(rows, 1)), rows_without(rows, content.height));
    let under: u128 = content.y as u128 + rows.saturating_sub(1);
    if under < shown as u128 {
        return None;
    }
    let row: u128 = under - shown as u128;
    let column: u16 = if ends {
        0
    } else {
        wrapped_cursor_column(typed, width)
    };
    if row <= content.y.saturating_add(content.height) as u128 {
        if column > u16::MAX - content.x {
            return None;
        }
        draw(ops, DrawOp::Cursor { x: content.x + column, y: row as u16 });
    }
    Some(shown)
}

fn draw_body_panel(ops: &mut Vec<DrawOp>, app: &App, area: Area) -> (r: Option<u16>)
    requires
        app@.has_current(),
    ensures
        r is Some == body_panel(draw_models(old(ops)@), app@, area) is Some,
        r matches Some(scroll) ==> Some((draw_models(final(ops)@), scroll)) == body_panel(
            draw_models(old(ops)@),
            app@,
            area,
        ),
{
    let focused = app.focused_field == FocusableField::Body;
    let editing = match app.editing_field {
        Some(EditingField::Body) => true,
        _ => false,
    };
    let text = if editing {
        joined(app.input_buffer.as_str(), " [EDITING - ^S to save, esc to cancel]")
    } else {
        match app.get_current_request() {
            Some(request) => match &request.body {
                Some(body) => body.clone(),
                None => "(no body)".to_owned(),
            },
            None => "(no body)".to_owned(),
        }
    };
    if editing && !is_boundary(text.as_str(), app.cursor_pos) {
        return None;
    }
    if !can_count_rows(text.as_str(), area.inner().width) {
        return None;
    }
    let look = make_titled_look(
        widget_title("Body", app, FocusableField::Body),
        border_of(focused),
    );
    let copy = text.clone();
    let mode = if editing {
        ScrollMode::End
    } else {
        ScrollMode::Clamp
    };
    let scroll = render_scrollable_paragraph(
        ops,
        copy,
        look,
        make_field_style(editing, focused),
        area,
        app.body_scroll,
        mode,
    );
    if editing {
        let typed = split_at(text.as_str(), app.cursor_pos).0;
        proof {
            let k = char_index(text@, app.cursor_pos as int);
            crate::text::lemma_boundary(text@, app.cursor_pos as int);
            lemma_beginning_can_be_counted(text@, k, area.inside().width);
        }
        draw_body_cursor(ops, typed, area, scroll)
    } else {
        Some(scroll)
    }
}

// ── Events ────────────────────────────────────────────────────────────────────

impl AppModel {
    /// Whether the selected request is on its way.
    pub open spec fn is_pending(self) -> bool {
        self.pending_request_index == self.current_request_index && self.pending_response
    }
}

/// The text of the events' panel.
pub open spec fn events_text(m: AppModel) -> Seq<char> {
    if m.request_events().len() == 0 {
        "(no events yet)"@
    } else {
        join_texts(m.request_events(), "\n"@)
    }
}

/// The look of the events.
pub open spec fn events_style(m: AppModel) -> TextStyle {
    if m.is_pending() {
        TextStyle::fg(Color::Cyan)
    } else if m.focused_field == FocusableField::RequestEvents {
        TextStyle { fg: Some(Color::Gray), bg: Some(Color::DarkGray), bold: false }
    } else {
        TextStyle::fg(Color::DarkGray)
    }
}

/// The scroll value of the events.
pub open spec fn events_scroll(m: AppModel, area: Area) -> u16 {
    scroll_in_line(
        m.events_scroll,
        max_scroll(rows_of(ContentModel::Plain(events_text(m)), area), area),
        if m.is_pending() {
            ScrollMode::End
        } else {
            ScrollMode::Clamp
        },
    )
}

/// The panel with the events of the selected request, or nothing where its
/// rows cannot be counted.
pub open spec fn events_panel(before: Seq<DrawModel>, m: AppModel, area: Area) -> Option<
    Seq<DrawModel>,
> {
    let drawn = scrolled_text(
        before,
        ContentModel::Plain(events_text(m)),
        titled_look(
            "Request Events"@,
            border_style(m.focused_field == FocusableField::RequestEvents),
        ),
        events_style(m),
        area,
        events_scroll(m, area),
    );
    if can_count(events_text(m), area.inside().width) {
        Some(drawn)
    } else {
        None
    }
}

fn draw_events_panel(ops: &mut Vec<DrawOp>, app: &App, area: Area) -> (r: Option<u16>)
    ensures
        r is Some == events_panel(draw_models(old(ops)@), app@, area) is Some,
        r matches Some(scroll) ==> scroll == events_scroll(app@, area) && Some(
            draw_models(final(ops)@),
        ) == events_panel(draw_models(old(ops)@), app@, area),
{
    let focused = app.focused_field == FocusableField::RequestEvents;
    let pending = app.current_request_is_pending();
    let events = app.current_request_events();
    proof {
        assert(views(events@).len() == events@.len());
    }
    let text = if events.len() == 0 {
        "(no events yet)".to_owned()
    } else {
        join_slice(events, "\n")
    };
    let style = if pending {
        TextStyle::fg(Color::Cyan)
    } else if focused {
        TextStyle { fg: Some(Color::Gray), bg: Some(Color::DarkGray), bold: false }
    } else {
        TextStyle::fg(Color::DarkGray)
    };
    let look = make_titled_look("Request Events".to_owned(), border_of(focused));
    let mode = if pending {
        ScrollMode::End
    } else {
        ScrollMode::Clamp
    };
    if !can_count_rows(text.as_str(), area.inner().width) {
        return None;
    }
    Some(render_scrollable_paragraph(ops, text, look, style, area, app.events_scroll, mode))
}

/// Joins some strings.
fn join_slice(parts: &[String], sep: &str) -> (r: String)
    ensures
        r@ == join_texts(views(parts@), sep@),
{
    let mut all: Vec<String> = Vec::new();
    let mut i: usize = 0;
    while i < parts.len()
        invariant
            i <= parts@.len(),
            views(all@) =~= views(parts@).take(i as int),
        decreases parts@.len() - i,
    {
        let ghost done = all@;
        let part = parts[i].clone();
        proof {
            assert(views(done.push(part)) =~= views(done).push(part@));
        }
        all.push(part);
        i = i + 1;
    }
    proof {
        assert(views(parts@).take(i as int) =~= views(parts@));
    }
    join(&all, sep)
}

// ── Response ──────────────────────────────────────────────────────────────────

/// The color of a status.
pub open spec fn status_color(status: u16) -> Color {
    if 200 <= status < 300 {
        Color::Green
    } else {
        Color::Red
    }
}

/// What the right title of the response says.
pub open spec fn status_piece(m: AppModel) -> PieceModel {
    if m.is_pending() {
        PieceModel { text: "..."@, style: TextStyle::fg(Color::Cyan) }
    } else {
        match m.last_response() {
            Some(Ok(response)) => PieceModel {
                text: decimal(response.status as nat) + " "@ + (
                match crate::http_client::reason_phrase(response.status) {
                    Some(text) => text,
                    None => "Unknown"@,
                }),
                style: TextStyle {
                    fg: Some(status_color(response.status)),
                    bg: None,
                    bold: true,
                },
            },
            Some(Err(_)) => PieceModel {
                text: "ERR"@,
                style: TextStyle { fg: Some(Color::Red), bg: None, bold: true },
            },
            None => PieceModel { text: ""@, style: TextStyle::plain() },
        }
    }
}

/// The border of the response: its name, how it is shown, and its status.
pub open spec fn response_look(m: AppModel) -> LookModel {
    let focused = m.focused_field == FocusableField::Response;
    LookModel {
        titles: Seq::empty().push(
            TitleModel {
                piece: PieceModel { text: "Response"@, style: TextStyle::plain() },
                align: Align::Left,
            },
        ).push(
            TitleModel {
                piece: PieceModel {
                    text: crate::app::mode_label(m.response_view_mode),
                    style: TextStyle::fg(
                        if focused {
                            Color::White
                        } else {
                            Color::DarkGray
                        },
                    ),
                },
                align: Align::Center,
            },
        ).push(TitleModel { piece: status_piece(m), align: Align::Right }),
        border: border_style(focused),
        fill: TextStyle::plain(),
        all_sides: true,
    }
}

fn make_status_piece(app: &App) -> (r: Piece)
    ensures
        r@ == status_piece(app@),
{
    if app.current_request_is_pending() {
        return Piece { text: "...".to_owned(), style: TextStyle::fg(Color::Cyan) };
    }
    match app.current_last_response() {
        Some(Ok(response)) => {
            let mut text = decimal_string(response.status_code.as_u16() as usize);
            text.append(" ");
            match response.status_code.canonical_reason() {
                Some(reason) => {
                    text.append(reason);
                },
                None => {
                    text.append("Unknown");
                },
            }
            let color = if response.is_success() {
                Color::Green
            } else {
                Color::Red
            };
            Piece { text, style: TextStyle { fg: Some(color), bg: None, bold: true } }
        },
        Some(Err(_)) => Piece {
            text: "ERR".to_owned(),
            style: TextStyle { fg: Some(Color::Red), bg: None, bold: true },
        },
        None => Piece { text: "".to_owned(), style: TextStyle::plain() },
    }
}

fn make_response_look(app: &App) -> (r: Look)
    ensures
        r@ == response_look(app@),
{
    let focused = app.focused_field == FocusableField::Response;
    let mut look = make_bare_look(border_of(focused));
    look.add_title("Response".to_owned(), TextStyle::plain(), Align::Left);
    let color = if focused {
        Color::White
    } else {
        Color::DarkGray
    };
    look.add_title(
        app.response_view_mode.label().to_owned(),
        TextStyle::fg(color),
        Align::Center,
    );
    let status = make_status_piece(app);
    look.add_title(status.text, status.style, Align::Right);
    look
}

impl AppModel {
    /// Whether the response is shown as JSON.
    pub open spec fn shows_response_as_json(self) -> bool {
        self.response_view_mode == ResponseViewMode::Json && self.last_response() is Some
            && !self.is_pending()
    }
}

/// The text of a filter that may be edited.
pub open spec fn filter_text(m: AppModel, field: EditingField, value: Seq<char>) -> Seq<char> {
    if m.editing_field == Some(field) {
        m.input_buffer + " [EDITING]"@
    } else {
        value
    }
}

/// The look of a filter.
pub open spec fn filter_style(editing: bool, focused: bool) -> TextStyle {
    if editing {
        editing_style()
    } else if focused {
        TextStyle::fg(Color::Cyan)
    } else {
        TextStyle::fg(Color::DarkGray)
    }
}

fn make_filter_style(editing: bool, focused: bool) -> (r: TextStyle)
    ensures
        r == filter_style(editing, focused),
{
    if editing {
        make_editing_style()
    } else if focused {
        TextStyle::fg(Color::Cyan)
    } else {
        TextStyle::fg(Color::DarkGray)
    }
}

/// The border of a filter.
pub open spec fn filter_border(editing: bool) -> TextStyle {
    TextStyle::fg(
        if editing {
            Color::Cyan
        } else {
            Color::DarkGray
        },
    )
}

fn make_filter_border(editing: bool) -> (r: TextStyle)
    ensures
        r == filter_border(editing),
{
    if editing {
        TextStyle::fg(Color::Cyan)
    } else {
        TextStyle::fg(Color::DarkGray)
    }
}

/// The first binding of an action.
pub open spec fn first_with(bindings: Seq<BindingModel>, action: Action) -> Option<BindingModel>
    decreases bindings.len(),
{
    if bindings.len() == 0 {
        None
    } else if first_with(bindings.drop_last(), action) is Some {
        first_with(bindings.drop_last(), action)
    } else if bindings.last().action == action {
        Some(bindings.last())
    } else {
        None
    }
}

/// The title of the jq filter below a response.
pub open spec fn filter_title(m: AppModel) -> Seq<char> {
    if m.editing_field == Some(EditingField::JsonFilter) {
        "jq filter ("@ + hint_line(
            first_of_each(
                ranked(
                    m.keymap,
                    KeyContext {
                        screen: CurrentScreen::Request,
                        editing: Some(EditingField::JsonFilter),
                        focus: FocusableField::Response,
                    },
                ),
            ),
        ) + ")"@
    } else if m.focused_field == FocusableField::Response {
        match first_with(
            first_of_each(
                ranked(
                    m.keymap,
                    KeyContext {
                        screen: CurrentScreen::Request,
                        editing: None,
                        focus: FocusableField::Response,
                    },
                ),
            ),
            Action::EditJqFilter,
        ) {
            Some(binding) => "jq filter ("@ + binding.hint_text() + ")"@,
            None => "jq filter"@,
        }
    } else {
        "jq filter"@
    }
}

fn make_filter_title(app: &App) -> (r: String)
    ensures
        r@ == filter_title(app@),
{
    let editing = match app.editing_field {
        Some(EditingField::JsonFilter) => true,
        _ => false,
    };
    if editing {
        let ctx = KeyContext {
            screen: CurrentScreen::Request,
            editing: Some(EditingField::JsonFilter),
            focus: FocusableField::Response,
        };
        let mut r = joined("jq filter (", app.keymap.format_hint_line(&ctx).as_str());
        r.append(")");
        r
    } else if app.focused_field == FocusableField::Response {
        let ctx = KeyContext {
            screen: CurrentScreen::Request,
            editing: None,
            focus: FocusableField::Response,
        };
        let bindings = app.keymap.bindings_for(&ctx);
        let ghost models = shown_models(bindings@);
        let mut i: usize = 0;
        while i < bindings.len()
            invariant
                i <= bindings@.len(),
                models == shown_models(bindings@),
                models == first_of_each(ranked(app@.keymap, ctx)),
                ctx == (KeyContext {
                    screen: CurrentScreen::Request,
                    editing: None,
                    focus: FocusableField::Response,
                }),
                app@.editing_field != Some(EditingField::JsonFilter),
                app@.focused_field == FocusableField::Response,
                first_with(models.take(i as int), Action::EditJqFilter) is None,
            decreases bindings@.len() - i,
        {
            proof {
                assert(models.take(i + 1).drop_last() =~= models.take(i as int));
            }
            if bindings[i].action == Action::EditJqFilter {
                proof {
                    lemma_first_with_prefix(models, i + 1, Action::EditJqFilter);
                }
                let mut r = joined("jq filter (", bindings[i].hint_text().as_str());
                r.append(")");
                return r;
            }
            i = i + 1;
        }
        proof {
            assert(models.take(i as int) =~= models);
        }
        "jq filter".to_owned()
    } else {
        "jq filter".to_owned()
    }
}

proof fn lemma_first_with_prefix(bindings: Seq<BindingModel>, k: int, action: Action)
    requires
        0 <= k <= bindings.len(),
        first_with(bindings.take(k), action) is Some,
    ensures
        first_with(bindings, action) == first_with(bindings.take(k), action),
    decreases bindings.len() - k,
{
    if k < bindings.len() {
        assert(bindings.take(k + 1).drop_last() =~= bindings.take(k));
        lemma_first_with_prefix(bindings, k + 1, action);
    } else {
        assert(bindings.take(k) =~= bindings);
    }
}

/// The filter below a response that is shown as JSON.
pub open spec fn filter_bar(before: Seq<DrawModel>, m: AppModel, area: Area) -> Option<
    Seq<DrawModel>,
> {
    let editing = m.editing_field == Some(EditingField::JsonFilter);
    let focused = m.focused_field == FocusableField::Response;
    let text = filter_text(m, EditingField::JsonFilter, m.jq_filter());
    let look = titled_look(filter_title(m), filter_border(editing));
    let style = filter_style(editing, focused);
    if editing {
        edited_line(before, text, look, style, area, low_bits(m.cursor_pos as nat) as int)
    } else {
        Some(
            before.push(
                DrawModel::Text {
                    area,
                    paragraph: simple_paragraph(ContentModel::Plain(text), Some(look), style),
                },
            ),
        )
    }
}

fn draw_filter_bar(ops: &mut Vec<DrawOp>, app: &App, area: Area) -> (r: bool)
    ensures
        filter_bar(draw_models(old(ops)@), app@, area) is Some == r,
        r ==> Some(draw_models(final(ops)@)) == filter_bar(draw_models(old(ops)@), app@, area),
{
    let editing = match app.editing_field {
        Some(EditingField::JsonFilter) => true,
        _ => false,
    };
    let focused = app.focused_field == FocusableField::Response;
    let look = make_titled_look(make_filter_title(app), make_filter_border(editing));
    let style = make_filter_style(editing, focused);
    if editing {
        let text = joined(app.input_buffer.as_str(), " [EDITING]");
        draw_edited_line(ops, text, look, style, area, truncated(app.cursor_pos))
    } else {
        let text = app.current_jq_filter().to_owned();
        let paragraph = make_paragraph(Content::Plain(text), Some(look), style);
        draw(ops, DrawOp::Text { area, paragraph });
        true
    }
}

/// A row of the filters below streamed lines.
pub open spec fn filter_row(
    before: Seq<DrawModel>,
    m: AppModel,
    label: Seq<char>,
    field: EditingField,
    value: Seq<char>,
    area: Area,
) -> Option<Seq<DrawModel>> {
    let editing = m.editing_field == Some(field);
    let text = label + ": "@ + filter_text(m, field, value);
    let style = filter_style(editing, m.focused_field == FocusableField::Response);
    let paragraph = simple_paragraph(ContentModel::Plain(text), None, style);
    if editing {
        let cursor = low_bits(byte_len(label)) + 2 + low_bits(m.cursor_pos as nat);
        let width = larger(area.width, 1);
        if cursor > u16::MAX || area.x + cursor > u16::MAX {
            None
        } else {
            let scroll = line_scroll(cursor as u16, byte_len(text), width);
            Some(
                before.push(
                    DrawModel::Text {
                        area,
                        paragraph: ParagraphModel { scroll_x: scroll, ..paragraph },
                    },
                ).push(
                    DrawModel::Cursor { x: (area.x + cursor - scroll) as u16, y: area.y },
                ),
            )
        }
    } else {
        Some(before.push(DrawModel::Text { area, paragraph }))
    }
}

fn draw_filter_row(
    ops: &mut Vec<DrawOp>,
    app: &App,
    label: &str,
    field: EditingField,
    value: &str,
    area: Area,
) -> (r: bool)
    ensures
        filter_row(draw_models(old(ops)@), app@, label@, field, value@, area) is Some == r,
        r ==> Some(draw_models(final(ops)@)) == filter_row(
            draw_models(old(ops)@),
            app@,
            label@,
            field,
            value@,
            area,
        ),
{
    let editing = match app.editing_field {
        Some(edited) => edited == field,
        None => false,
    };
    let style = make_filter_style(editing, app.focused_field == FocusableField::Response);
    let mut text = joined(label, ": ");
    if editing {
        let shown = joined(app.input_buffer.as_str(), " [EDITING]");
        text.append(shown.as_str());
        let start = truncated(length(label));
        let offset = truncated(app.cursor_pos);
        if start > u16::MAX - 2 || offset > u16::MAX - (start + 2) {
            return false;
        }
        let cursor: u16 = start + 2 + offset;
        if cursor > u16::MAX - area.x {
            return false;
        }
        let scroll = find_line_scroll(cursor, length(text.as_str()), max_of(area.width, 1));
        let mut paragraph = make_paragraph(Content::Plain(text), None, style);
        paragraph.scroll_x = scroll;
        draw(ops, DrawOp::Text { area, paragraph });
        draw(ops, DrawOp::Cursor { x: area.x + cursor - scroll, y: area.y });
    } else {
        text.append(value);
        let paragraph = make_paragraph(Content::Plain(text), None, style);
        draw(ops, DrawOp::Text { area, paragraph });
    }
    true
}

/// The areas of the response: where it is shown, and where the filters are.
#[derive(Debug, Clone, Copy, PartialEq, Eq, Structural)]
pub struct ResponseAreas {
    pub output: Area,
    pub filters: Area,
    pub prefix_row: Area,
    pub suffix_row: Area,
    pub jq_row: Area,
}

/// A response shown as JSON: what jq made of it, and the filter.
pub open spec fn json_panel(
    before: Seq<DrawModel>,
    m: AppModel,
    areas: ResponseAreas,
    jq_text: Seq<char>,
) -> Option<(Seq<DrawModel>, u16)> {
    let content = ContentModel::Ansi(jq_text);
    let scroll = scroll_in_line(
        m.response_scroll,
        max_scroll(rows_of(content, areas.output), areas.output),
        ScrollMode::Clamp,
    );
    let drawn = scrolled_text(
        before,
        content,
        response_look(m),
        TextStyle::plain(),
        areas.output,
        scroll,
    );
    match filter_bar(drawn, m, areas.filters) {
        Some(shown) => if can_count(jq_text, areas.output.inside().width) {
            Some((shown, scroll))
        } else {
            None
        },
        None => None,
    }
}

fn draw_json_panel(ops: &mut Vec<DrawOp>, app: &App, areas: &ResponseAreas, jq_text: &str) -> (r:
    Option<u16>)
    ensures
        r is Some == json_panel(draw_models(old(ops)@), app@, *areas, jq_text@) is Some,
        r matches Some(scroll) ==> Some((draw_models(final(ops)@), scroll)) == json_panel(
            draw_models(old(ops)@),
            app@,
            *areas,
            jq_text@,
        ),
{
    if !can_count_rows(jq_text, areas.output.inner().width) {
        return None;
    }
    let look = make_response_look(app);
    let scroll = render_scrollable_text(
        ops,
        jq_text.to_owned(),
        look,
        areas.output,
        app.response_scroll,
        ScrollMode::Clamp,
    );
    if draw_filter_bar(ops, app, areas.filters) {
        Some(scroll)
    } else {
        None
    }
}

impl AppModel {
    /// Whether a filter or a pattern of the response is edited.
    pub open spec fn edits_filters(self) -> bool {
        self.edits(FocusableField::Response)
    }
}

/// The border of the filters below streamed lines.
pub open spec fn filters_block(m: AppModel, area: Area) -> DrawModel {
    DrawModel::Block {
        area,
        look: titled_look(
            if m.focused_field == FocusableField::Response || m.edits_filters() {
                "filters (f=jq | p=prefix | x=suffix)"@
            } else {
                "filters"@
            },
            filter_border(m.edits_filters()),
        ),
    }
}

/// The filters below streamed lines.
pub open spec fn filter_rows(before: Seq<DrawModel>, m: AppModel, areas: ResponseAreas) -> Option<
    Seq<DrawModel>,
> {
    match filter_row(
        before,
        m,
        "prefix"@,
        EditingField::StreamPrefixRegex,
        m.stream_prefix_regex(),
        areas.prefix_row,
    ) {
        None => None,
        Some(first) => match filter_row(
            first,
            m,
            "suffix"@,
            EditingField::StreamSuffixRegex,
            m.stream_suffix_regex(),
            areas.suffix_row,
        ) {
            None => None,
            Some(second) => filter_row(
                second,
                m,
                "jq   "@,
                EditingField::JsonFilter,
                m.jq_filter(),
                areas.jq_row,
            ),
        },
    }
}

/// A response shown as streamed lines: what jq made of them, following them
/// while they come, and the filters.
pub open spec fn stream_panel(before: Seq<DrawModel>, m: AppModel, areas: ResponseAreas) -> Option<
    (Seq<DrawModel>, u16),
> {
    let content = ContentModel::Ansi(join_texts(m.streamed_jq_output(), "\n"@));
    let scroll = scroll_in_line(
        m.response_scroll,
        max_scroll(rows_of(content, areas.output), areas.output),
        if m.is_pending() {
            ScrollMode::End
        } else {
            ScrollMode::Clamp
        },
    );
    let drawn = scrolled_text(
        before,
        content,
        response_look(m),
        TextStyle::plain(),
        areas.output,
        scroll,
    ).push(filters_block(m, areas.filters));
    match filter_rows(drawn, m, areas) {
        Some(shown) => if can_count(
            join_texts(m.streamed_jq_output(), "\n"@),
            areas.output.inside().width,
        ) {
            Some((shown, scroll))
        } else {
            None
        },
        None => None,
    }
}

fn draw_filter_rows(ops: &mut Vec<DrawOp>, app: &App, areas: &ResponseAreas) -> (r: bool)
    ensures
        filter_rows(draw_models(old(ops)@), app@, *areas) is Some == r,
        r ==> Some(draw_models(final(ops)@)) == filter_rows(draw_models(old(ops)@), app@, *areas),
{
    if !draw_filter_row(
        ops,
        app,
        "prefix",
        EditingField::StreamPrefixRegex,
        app.current_stream_prefix_regex(),
        areas.prefix_row,
    ) {
        return false;
    }
    if !draw_filter_row(
        ops,
        app,
        "suffix",
        EditingField::StreamSuffixRegex,
        app.current_stream_suffix_regex(),
        areas.suffix_row,
    ) {
        return false;
    }
    draw_filter_row(
        ops,
        app,
        "jq   ",
        EditingField::JsonFilter,
        app.current_jq_filter(),
        areas.jq_row,
    )
}

fn draw_stream_panel(ops: &mut Vec<DrawOp>, app: &App, areas: &ResponseAreas) -> (r: Option<u16>)
    ensures
        r is Some == stream_panel(draw_models(old(ops)@), app@, *areas) is Some,
        r matches Some(scroll) ==> Some((draw_models(final(ops)@), scroll)) == stream_panel(
            draw_models(old(ops)@),
            app@,
            *areas,
        ),
{
    let look = make_response_look(app);
    let mode = if app.current_request_is_pending() {
        ScrollMode::End
    } else {
        ScrollMode::Clamp
    };
    let text = app.current_streamed_jq_output();
    if !can_count_rows(text.as_str(), areas.output.inner().width) {
        return None;
    }
    let scroll = render_scrollable_text(
        ops,
        text,
        look,
        areas.output,
        app.response_scroll,
        mode,
    );
    let editing = edits_field(app, FocusableField::Response);
    let title = if app.focused_field == FocusableField::Response || editing {
        "filters (f=jq | p=prefix | x=suffix)".to_owned()
    } else {
        "filters".to_owned()
    };
    let block = make_titled_look(title, make_filter_border(editing));
    draw(ops, DrawOp::Block { area: areas.filters, look: block });
    if draw_filter_rows(ops, app, areas) {
        Some(scroll)
    } else {
        None
    }
}

/// A response as text: what has come of it while it comes, its body, why there
/// is none, or how to get one.
pub open spec fn response_text(m: AppModel) -> Seq<char> {
    if m.is_pending() {
        if m.streamed_body().len() == 0 {
            "Receiving response..."@
        } else {
            m.streamed_body()
        }
    } else {
        match m.last_response() {
            Some(Ok(response)) => response.body,
            Some(Err(e)) => "Error: "@ + e.text(),
            None => "No response yet (s=send request)"@,
        }
    }
}

/// The look of a response as text.
pub open spec fn response_style(m: AppModel) -> TextStyle {
    TextStyle {
        fg: if m.is_pending() {
            Some(Color::Cyan)
        } else {
            match m.last_response() {
                Some(Ok(response)) => Some(status_color(response.status)),
                _ => None,
            }
        },
        bg: if m.focused_field == FocusableField::Response {
            Some(Color::DarkGray)
        } else {
            None
        },
        bold: false,
    }
}

/// A response shown as text, or nothing where its rows cannot be counted.
pub open spec fn text_panel(before: Seq<DrawModel>, m: AppModel, area: Area) -> Option<
    (Seq<DrawModel>, u16),
> {
    let content = ContentModel::Plain(response_text(m));
    let scroll = scroll_in_line(
        m.response_scroll,
        max_scroll(rows_of(content, area), area),
        ScrollMode::Clamp,
    );
    if can_count(response_text(m), area.inside().width) {
        Some(
            (
                scrolled_text(before, content, response_look(m), response_style(m), area, scroll),
                scroll,
            ),
        )
    } else {
        None
    }
}

fn draw_text_panel(ops: &mut Vec<DrawOp>, app: &App, area: Area) -> (r: Option<u16>)
    ensures
        r is Some == text_panel(draw_models(old(ops)@), app@, area) is Some,
        r matches Some(scroll) ==> Some((draw_models(final(ops)@), scroll)) == text_panel(
            draw_models(old(ops)@),
            app@,
            area,
        ),
{
    let pending = app.current_request_is_pending();
    let mut fg: Option<Color> = None;
    let text = if pending {
        fg = Some(Color::Cyan);
        let streamed = app.current_streamed_body();
        proof {
            lemma_no_bytes(streamed@);
        }
        if length(streamed) == 0 {
            "Receiving response...".to_owned()
        } else {
            streamed.to_owned()
        }
    } else {
        match app.current_last_response() {
            Some(Ok(response)) => {
                fg = Some(
                    if response.is_success() {
                        Color::Green
                    } else {
                        Color::Red
                    },
                );
                response.body.clone()
            },
            Some(Err(e)) => joined("Error: ", e.to_string().as_str()),
            None => "No response yet (s=send request)".to_owned(),
        }
    };
    let bg = if app.focused_field == FocusableField::Response {
        Some(Color::DarkGray)
    } else {
        None
    };
    let look = make_response_look(app);
    if !can_count_rows(text.as_str(), area.inner().width) {
        return None;
    }
    Some(
        render_scrollable_paragraph(
            ops,
            text,
            look,
            TextStyle { fg, bg, bold: false },
            area,
            app.response_scroll,
            ScrollMode::Clamp,
        ),
    )
}

/// The panel with the response to the selected request, and its scroll value.
pub open spec fn response_panel(
    before: Seq<DrawModel>,
    m: AppModel,
    areas: ResponseAreas,
    jq_text: Seq<char>,
) -> Option<(Seq<DrawModel>, u16)> {
    if m.shows_response_as_json() {
        json_panel(before, m, areas, jq_text)
    } else if m.response_view_mode == ResponseViewMode::StreamedJson {
        stream_panel(before, m, areas)
    } else {
        text_panel(before, m, areas.output)
    }
}

/// How the area of the response is divided.
#[derive(Debug, Clone, Copy, PartialEq, Eq, Structural)]
pub enum ResponseLayout {
    Text,
    Json,
    Stream,
}

impl AppModel {
    /// How the area of the response is divided.
    pub open spec fn response_layout(self) -> ResponseLayout {
        if self.shows_response_as_json() {
            ResponseLayout::Json
        } else if self.response_view_mode == ResponseViewMode::StreamedJson {
            ResponseLayout::Stream
        } else {
            ResponseLayout::Text
        }
    }
}

/// How the area of the response is divided.
pub fn response_layout(app: &App) -> (r: ResponseLayout)
    ensures
        r == app@.response_layout(),
{
    if app.response_view_mode == ResponseViewMode::Json && app.current_last_response().is_some()
        && !app.current_request_is_pending() {
        ResponseLayout::Json
    } else if app.response_view_mode == ResponseViewMode::StreamedJson {
        ResponseLayout::Stream
    } else {
        ResponseLayout::Text
    }
}

impl AppModel {
    /// Whether what jq makes of the response is shown.
    pub open spec fn needs_jq_text(self) -> bool {
        self.current_screen == CurrentScreen::Request && self.has_current()
            && self.response_layout() == ResponseLayout::Json
    }
}

/// Whether what jq makes of the response is shown, so that jq is to be run
/// before the screen is drawn.
pub fn needs_jq_text(app: &App) -> (r: bool)
    ensures
        r == app@.needs_jq_text(),
{
    app.current_screen == CurrentScreen::Request && app.get_current_request().is_some()
        && response_layout(app) == ResponseLayout::Json
}

fn draw_response_panel(
    ops: &mut Vec<DrawOp>,
    app: &App,
    areas: &ResponseAreas,
    jq_text: &str,
) -> (r: Option<u16>)
    ensures
        r is Some == response_panel(draw_models(old(ops)@), app@, *areas, jq_text@) is Some,
        r matches Some(scroll) ==> Some((draw_models(final(ops)@), scroll)) == response_panel(
            draw_models(old(ops)@),
            app@,
            *areas,
            jq_text@,
        ),
{
    match response_layout(app) {
        ResponseLayout::Json => draw_json_panel(ops, app, areas, jq_text),
        ResponseLayout::Stream => draw_stream_panel(ops, app, areas),
        ResponseLayout::Text => draw_text_panel(ops, app, areas.output),
    }
}

// ── Screens ───────────────────────────────────────────────────────────────────

/// The requests as a list.
pub open spec fn request_items(m: AppModel) -> Seq<PieceModel> {
    Seq::new(
        m.requests.len(),
        |i: int|
            PieceModel {
                text: m.requests[i].method + " "@ + m.requests[i].url,
                style: if m.current_request_index == Some(i as usize) {
                    selected_style()
                } else {
                    TextStyle::plain()
                },
            },
    )
}

/// The main screen.
pub open spec fn main_screen(before: Seq<DrawModel>, m: AppModel, area: Area) -> Seq<DrawModel> {
    before.push(
        DrawModel::List {
            area,
            look: titled_look("Requests"@, TextStyle::fg(Color::Cyan)),
            items: request_items(m),
        },
    )
}

/// Draws the main screen.
pub fn render_main_screen(ops: &mut Vec<DrawOp>, app: &App, area: Area)
    ensures
        draw_models(final(ops)@) == main_screen(draw_models(old(ops)@), app@, area),
{
    let ghost all = request_items(app@);
    let mut items: Vec<Piece> = Vec::new();
    let mut i: usize = 0;
    proof {
        assert(piece_models(items@) =~= all.take(0));
    }
    while i < app.requests.len()
        invariant
            i <= app.requests@.len(),
            all == request_items(app@),
            piece_models(items@) == all.take(i as int),
        decreases app.requests@.len() - i,
    {
        let selected = match app.current_request_index {
            Some(idx) => idx == i,
            None => false,
        };
        let style = if selected {
            selected_item_style()
        } else {
            TextStyle::plain()
        };
        let mut text = joined(app.requests[i].method.as_str(), " ");
        text.append(app.requests[i].url.as_str());
        proof {
            assert(all.take(i + 1) =~= all.take(i as int).push(all[i as int]));
        }
        add_piece(&mut items, Piece { text, style });
        i = i + 1;
    }
    proof {
        assert(all.take(i as int) =~= all);
    }
    let look = make_titled_look("Requests".to_owned(), TextStyle::fg(Color::Cyan));
    draw(ops, DrawOp::List { area, look, items });
}

/// The areas of the request screen.
#[derive(Debug, Clone, Copy, PartialEq, Eq, Structural)]
pub struct RequestAreas {
    pub whole: Area,
    pub url: Area,
    pub headers: Area,
    pub body: Area,
    pub events: Area,
    pub response: ResponseAreas,
}

/// The request screen: what is drawn and the application with its scroll
/// values in line with that, or nothing where a cursor cannot be placed or
/// rows cannot be counted.
pub open spec fn request_screen(
    before: Seq<DrawModel>,
    m: AppModel,
    areas: RequestAreas,
    screen_height: u16,
    jq_text: Seq<char>,
) -> Option<(Seq<DrawModel>, AppModel)> {
    if !m.has_current() {
        Some(
            (
                before.push(
                    DrawModel::Text {
                        area: areas.whole,
                        paragraph: simple_paragraph(
                            ContentModel::Plain("No request selected"@),
                            Some(bare_look(TextStyle::plain())),
                            TextStyle::fg(Color::Red),
                        ),
                    },
                ),
                m,
            ),
        )
    } else {
        match url_panel(before, m, areas.url) {
            None => None,
            Some(url) => match (
                headers_panel(url, m, areas.headers),
                popup_area(m, areas.headers, screen_height),
            ) {
                (Some(headers), Some(over)) => match body_panel(headers, m, areas.body) {
                    None => None,
                    Some((body, body_scroll)) => match events_panel(body, m, areas.events) {
                        None => None,
                        Some(events) => match response_panel(events, m, areas.response, jq_text) {
                            None => None,
                            Some((response, response_scroll)) => Some(
                                (
                                    popup(response, m, over),
                                    AppModel {
                                        body_scroll,
                                        events_scroll: events_scroll(m, areas.events),
                                        response_scroll,
                                        ..m
                                    },
                                ),
                            ),
                        },
                    },
                },
                _ => None,
            },
        }
    }
}

/// Draws the request screen, and brings its scroll values in line with what is
/// drawn.  Where a cursor cannot be placed or rows cannot be counted, the screen
/// is not drawn as a whole.
pub fn render_request_screen(
    ops: &mut Vec<DrawOp>,
    app: &mut App,
    areas: &RequestAreas,
    screen_height: u16,
    jq_text: &str,
) -> (r: bool)
    ensures
        r == request_screen(
            draw_models(old(ops)@),
            old(app)@,
            *areas,
            screen_height,
            jq_text@,
        ) is Some,
        r ==> Some((draw_models(final(ops)@), final(app)@)) == request_screen(
            draw_models(old(ops)@),
            old(app)@,
            *areas,
            screen_height,
            jq_text@,
        ),
        !r ==> final(app)@ == old(app)@,
{
    if app.get_current_request().is_none() {
        let paragraph = make_paragraph(
            Content::Plain("No request selected".to_owned()),
            Some(make_bare_look(TextStyle::plain())),
            TextStyle::fg(Color::Red),
        );
        draw(ops, DrawOp::Text { area: areas.whole, paragraph });
        return true;
    }
    if !draw_url_panel(ops, app, areas.url) {
        return false;
    }
    if !draw_headers_panel(ops, app, areas.headers) {
        return false;
    }
    let over = match find_popup_area(app, areas.headers, screen_height) {
        Some(over) => over,
        None => {
            return false;
        },
    };
    let body_scroll: u16 = match draw_body_panel(ops, app, areas.body) {
        Some(scroll) => scroll,
        None => {
            return false;
        },
    };
    let events_scroll: u16 = match draw_events_panel(ops, app, areas.events) {
        Some(scroll) => scroll,
        None => {
            return false;
        },
    };
    let response_scroll: u16 = match draw_response_panel(ops, app, &areas.response, jq_text) {
        Some(scroll) => scroll,
        None => {
            return false;
        },
    };
    draw_popup(ops, app, over);
    app.body_scroll = body_scroll;
    app.events_scroll = events_scroll;
    app.response_scroll = response_scroll;
    true
}

// ── Footer ────────────────────────────────────────────────────────────────────

/// A group of actions that the footer tells of in one line.
#[derive(Debug, Clone, Copy, PartialEq, Eq, Structural)]
pub enum HintGroup {
    /// Going from field to field.
    Navigation,
    /// What can be done with the focused field.
    Field,
    /// What can be done with the request.
    Global,
}

/// Whether an action is told of in the line of a group.
pub open spec fn in_group(group: HintGroup, action: Action) -> bool {
    match group {
        HintGroup::Navigation => action == Action::FocusNextField || action
            == Action::FocusPreviousField,
        HintGroup::Field => action == Action::ScrollDown || action == Action::ScrollUp || action
            == Action::PageDown || action == Action::PageUp || action == Action::EditFocusedField
            || action == Action::EditSelectedHeader || action == Action::AddHeader || action
            == Action::DeleteHeader || action == Action::SelectNextHeader || action
            == Action::SelectPreviousHeader || action == Action::EditJqFilter || action
            == Action::EditStreamPrefixRegex || action == Action::EditStreamSuffixRegex,
        HintGroup::Global => action == Action::ToggleMethod || action == Action::SendRequest
            || action == Action::CycleViewMode || action == Action::GoBack || action
            == Action::TriggerExit,
    }
}

fn is_in_group(group: HintGroup, action: Action) -> (r: bool)
    ensures
        r == in_group(group, action),
{
    match group {
        HintGroup::Navigation => action == Action::FocusNextField || action
            == Action::FocusPreviousField,
        HintGroup::Field => action == Action::ScrollDown || action == Action::ScrollUp || action
            == Action::PageDown || action == Action::PageUp || action == Action::EditFocusedField
            || action == Action::EditSelectedHeader || action == Action::AddHeader || action
            == Action::DeleteHeader || action == Action::SelectNextHeader || action
            == Action::SelectPreviousHeader || action == Action::EditJqFilter || action
            == Action::EditStreamPrefixRegex || action == Action::EditStreamSuffixRegex,
        HintGroup::Global => action == Action::ToggleMethod || action == Action::SendRequest
            || action == Action::CycleViewMode || action == Action::GoBack || action
            == Action::TriggerExit,
    }
}

/// The bindings of a group.
pub open spec fn of_group(bindings: Seq<BindingModel>, group: HintGroup) -> Seq<BindingModel>
    decreases bindings.len(),
{
    if bindings.len() == 0 {
        Seq::empty()
    } else if in_group(group, bindings.last().action) {
        of_group(bindings.drop_last(), group).push(bindings.last())
    } else {
        of_group(bindings.drop_last(), group)
    }
}

fn make_group_line(bindings: &Vec<&Binding>, group: HintGroup) -> (r: String)
    ensures
        r@ == hint_line(of_group(shown_models(bindings@), group)),
{
    let ghost models = shown_models(bindings@);
    let mut chosen: Vec<&Binding> = Vec::new();
    let mut i: usize = 0;
    proof {
        assert(shown_models(chosen@) =~= of_group(models.take(0), group));
    }
    while i < bindings.len()
        invariant
            i <= bindings@.len(),
            models == shown_models(bindings@),
            shown_models(chosen@) == of_group(models.take(i as int), group),
        decreases bindings@.len() - i,
    {
        let binding = bindings[i];
        let ghost done = shown_models(chosen@);
        proof {
            assert(models.take(i + 1).drop_last() =~= models.take(i as int));
        }
        if is_in_group(group, binding.action) {
            chosen.push(binding);
            proof {
                assert(shown_models(chosen@) =~= done.push(binding@));
            }
        }
        i = i + 1;
    }
    proof {
        assert(models.take(i as int) =~= models);
    }
    make_hint_line(&chosen)
}

/// The left part of the footer: where the user is, and how many requests there
/// are.
pub open spec fn mode_pieces(m: AppModel) -> Seq<PieceModel> {
    Seq::empty().push(
        match m.current_screen {
            CurrentScreen::Main => PieceModel {
                text: "Choose a request"@,
                style: TextStyle::fg(Color::Green),
            },
            CurrentScreen::Request => PieceModel {
                text: "Editing request"@,
                style: TextStyle::fg(Color::Yellow),
            },
            CurrentScreen::Exiting => PieceModel {
                text: "Exiting"@,
                style: TextStyle::fg(Color::LightRed),
            },
        },
    ).push(PieceModel { text: " | "@, style: TextStyle::fg(Color::White) }).push(
        PieceModel {
            text: decimal(m.requests.len()) + " requests"@,
            style: TextStyle::fg(Color::DarkGray),
        },
    )
}

/// The right part of the footer: what can be done.
pub open spec fn key_lines(m: AppModel) -> Seq<LineModel> {
    let bindings = first_of_each(ranked(m.keymap, m.key_context()));
    let all = Seq::empty().push(centered_line(hint_line(bindings)));
    match m.current_screen {
        CurrentScreen::Main => match m.last_save_status {
            Some(status) => all.push(centered_line(status)),
            None => all,
        },
        CurrentScreen::Request => if m.editing_field is Some {
            all
        } else {
            Seq::empty().push(
                centered_line(hint_line(of_group(bindings, HintGroup::Navigation))),
            ).push(centered_line(hint_line(of_group(bindings, HintGroup::Field)))).push(
                centered_line(hint_line(of_group(bindings, HintGroup::Global))),
            )
        },
        CurrentScreen::Exiting => all,
    }
}

/// The look of the right part of the footer.
pub open spec fn key_style(m: AppModel) -> TextStyle {
    if m.current_screen == CurrentScreen::Request && m.editing_field is Some {
        TextStyle::fg(Color::Cyan)
    } else {
        TextStyle::fg(Color::Yellow)
    }
}

/// The footer.
pub open spec fn footer(before: Seq<DrawModel>, m: AppModel, mode: Area, keys: Area) -> Seq<
    DrawModel,
> {
    before.push(
        DrawModel::Text {
            area: mode,
            paragraph: simple_paragraph(
                ContentModel::Lines(
                    Seq::empty().push(LineModel { pieces: mode_pieces(m), align: Align::Center }),
                ),
                Some(bare_look(TextStyle::plain())),
                TextStyle::plain(),
            ),
        },
    ).push(
        DrawModel::Text {
            area: keys,
            paragraph: simple_paragraph(
                ContentModel::Lines(key_lines(m)),
                Some(bare_look(TextStyle::plain())),
                key_style(m),
            ),
        },
    )
}

fn make_mode_pieces(app: &App) -> (r: Vec<Piece>)
    ensures
        piece_models(r@) == mode_pieces(app@),
{
    let mut r: Vec<Piece> = Vec::new();
    proof {
        assert(piece_models(r@) =~= Seq::<PieceModel>::empty());
    }
    let place = match app.current_screen {
        CurrentScreen::Main => Piece {
            text: "Choose a request".to_owned(),
            style: TextStyle::fg(Color::Green),
        },
        CurrentScreen::Request => Piece {
            text: "Editing request".to_owned(),
            style: TextStyle::fg(Color::Yellow),
        },
        CurrentScreen::Exiting => Piece {
            text: "Exiting".to_owned(),
            style: TextStyle::fg(Color::LightRed),
        },
    };
    add_piece(&mut r, place);
    add_piece(&mut r, Piece { text: " | ".to_owned(), style: TextStyle::fg(Color::White) });
    let mut count = decimal_string(app.requests.len());
    count.append(" requests");
    add_piece(&mut r, Piece { text: count, style: TextStyle::fg(Color::DarkGray) });
    r
}

fn make_key_lines(app: &App) -> (r: Vec<StyledLine>)
    ensures
        line_models(r@) == key_lines(app@),
{
    let ctx = app.key_context();
    let mut r: Vec<StyledLine> = Vec::new();
    proof {
        assert(line_models(r@) =~= Seq::<LineModel>::empty());
    }
    if app.current_screen == CurrentScreen::Request && app.editing_field.is_none() {
        let bindings = app.keymap.bindings_for(&ctx);
        add_line(&mut r, make_centered_line(make_group_line(&bindings, HintGroup::Navigation)));
        add_line(&mut r, make_centered_line(make_group_line(&bindings, HintGroup::Field)));
        add_line(&mut r, make_centered_line(make_group_line(&bindings, HintGroup::Global)));
    } else {
        add_line(&mut r, make_centered_line(app.keymap.format_hint_line(&ctx)));
        if app.current_screen == CurrentScreen::Main {
            if let Some(status) = &app.last_save_status {
                add_line(&mut r, make_centered_line(status.clone()));
            }
        }
    }
    r
}

/// Draws the footer.
pub fn render_footer(ops: &mut Vec<DrawOp>, app: &App, mode: Area, keys: Area)
    ensures
        draw_models(final(ops)@) == footer(draw_models(old(ops)@), app@, mode, keys),
{
    let mut lines: Vec<StyledLine> = Vec::new();
    proof {
        assert(line_models(lines@) =~= Seq::<LineModel>::empty());
    }
    add_line(&mut lines, StyledLine { pieces: make_mode_pieces(app), align: Align::Center });
    let place = make_paragraph(
        Content::Lines(lines),
        Some(make_bare_look(TextStyle::plain())),
        TextStyle::plain(),
    );
    draw(ops, DrawOp::Text { area: mode, paragraph: place });
    let style = if app.current_screen == CurrentScreen::Request && app.editing_field.is_some() {
        TextStyle::fg(Color::Cyan)
    } else {
        TextStyle::fg(Color::Yellow)
    };
    let notes = make_paragraph(
        Content::Lines(make_key_lines(app)),
        Some(make_bare_look(TextStyle::plain())),
        style,
    );
    draw(ops, DrawOp::Text { area: keys, paragraph: notes });
}

// ── Exit popup ────────────────────────────────────────────────────────────────

/// A line in yellow in the middle.
pub open spec fn question_line(text: Seq<char>) -> LineModel {
    LineModel {
        pieces: Seq::empty().push(PieceModel { text, style: TextStyle::fg(Color::Yellow) }),
        align: Align::Center,
    }
}

/// The question whether to exit.
pub open spec fn exit_popup(before: Seq<DrawModel>, area: Area) -> Seq<DrawModel> {
    before.push(
        DrawModel::Text {
            area,
            paragraph: ParagraphModel {
                wrap: true,
                align: Align::Center,
                ..simple_paragraph(
                    ContentModel::Lines(
                        Seq::empty().push(question_line(""@)).push(
                            question_line("Do you really want to exit? [y|n]"@),
                        ),
                    ),
                    Some(
                        LookModel {
                            fill: TextStyle::bg(Color::DarkGray),
                            ..titled_look("Exit app"@, TextStyle::plain())
                        },
                    ),
                    TextStyle::plain(),
                )
            },
        },
    )
}

fn make_question_line(text: &str) -> (r: StyledLine)
    ensures
        r@ == question_line(text@),
{
    let mut pieces: Vec<Piece> = Vec::new();
    proof {
        assert(piece_models(pieces@) =~= Seq::<PieceModel>::empty());
    }
    add_piece(&mut pieces, Piece { text: text.to_owned(), style: TextStyle::fg(Color::Yellow) });
    StyledLine { pieces, align: Align::Center }
}

/// Draws the question whether to exit.
pub fn render_exit_popup(ops: &mut Vec<DrawOp>, area: Area)
    ensures
        draw_models(final(ops)@) == exit_popup(draw_models(old(ops)@), area),
{
    let mut lines: Vec<StyledLine> = Vec::new();
    proof {
        assert(line_models(lines@) =~= Seq::<LineModel>::empty());
    }
    add_line(&mut lines, make_question_line(""));
    add_line(&mut lines, make_question_line("Do you really want to exit? [y|n]"));
    let mut look = make_titled_look("Exit app".to_owned(), TextStyle::plain());
    look.fill = TextStyle::bg(Color::DarkGray);
    let mut paragraph = make_paragraph(Content::Lines(lines), Some(look), TextStyle::plain());
    paragraph.wrap = true;
    paragraph.align = Align::Center;
    draw(ops, DrawOp::Text { area, paragraph });
}

// ── Layout ────────────────────────────────────────────────────────────────────

/// What a part of a divided area asks for.
#[derive(Debug, Clone, Copy, PartialEq, Eq, Structural)]
pub enum Part {
    Length(u16),
    Min(u16),
    Percentage(u16),
    Fill(u16),
}

/// Whether ratatui's `Layout::split` may divide an area, inside a margin, into
/// these areas for these parts.  Where the parts ask for more or less than
/// there is, more than one outcome is possible.
pub uninterp spec fn splits_into(
    vertical: bool,
    parts: Seq<Part>,
    margin: u16,
    area: Area,
    areas: Seq<Area>,
) -> bool;

/// ratatui's `Layout::split`: divides an area, inside a margin, into one area
/// for each part.  Each of them lies in what is left inside the margin, and
/// reaches across it.  How much each part gets is left to a solver and is not
/// said here.
#[verifier::external_body]
fn split_area(vertical: bool, parts: &Vec<Part>, margin: u16, area: Area) -> (r: Vec<Area>)
    ensures
        r@.len() == parts@.len(),
        splits_into(vertical, parts@, margin, area, r@),
        forall|i: int|
            0 <= i < r@.len() ==> (#[trigger] r@[i]).is_slice_of(
                area.clipped().inset(margin),
                vertical,
            ),
{
    let direction = if vertical { Direction::Vertical } else { Direction::Horizontal };
    let constraints = parts.iter().map(|part| match part {
        Part::Length(n) => Constraint::Length(*n),
        Part::Min(n) => Constraint::Min(*n),
        Part::Percentage(n) => Constraint::Percentage(*n),
        Part::Fill(n) => Constraint::Fill(*n),
    });
    let layout = Layout::default().direction(direction).constraints(constraints).margin(margin);
    let areas = layout.split(Rect::new(area.x, area.y, area.width, area.height));
    areas.iter().map(|r| Area { x: r.x, y: r.y, width: r.width, height: r.height }).collect()
}

/// The parts of the screen: the title, the content and the footer.
pub open spec fn screen_parts() -> Seq<Part> {
    seq![Part::Length(1), Part::Min(1), Part::Length(5)]
}

/// The parts of the footer.
pub open spec fn footer_parts() -> Seq<Part> {
    seq![Part::Percentage(30), Part::Percentage(70)]
}

/// The halves of the request screen: the request, and what came of it.
pub open spec fn half_parts() -> Seq<Part> {
    seq![Part::Percentage(50), Part::Percentage(50)]
}

/// The parts of the request: the address, the headers and the body.
pub open spec fn request_parts() -> Seq<Part> {
    seq![Part::Length(3), Part::Length(8), Part::Min(8)]
}

/// The parts of what came of a request: the response and the events.
pub open spec fn result_parts() -> Seq<Part> {
    seq![Part::Fill(3), Part::Min(5)]
}

/// The parts of the response: what is shown, and the filters.
pub open spec fn response_parts(filter_height: u16) -> Seq<Part> {
    seq![Part::Min(1), Part::Length(filter_height)]
}

/// The rows of the filters.
pub open spec fn row_parts() -> Seq<Part> {
    seq![Part::Length(1), Part::Length(1), Part::Length(1)]
}

/// The parts of an area whose middle is so many percent of it.
pub open spec fn centered_parts(percent: u16) -> Seq<Part> {
    let side = Part::Percentage(((100 - percent) / 2) as u16);
    seq![side, Part::Percentage(percent), side]
}

/// Whether an area is the middle of another one, so many percent wide and
/// high.
pub open spec fn is_centered(percent_x: u16, percent_y: u16, area: Area, middle: Area) -> bool {
    exists|rows: Seq<Area>, columns: Seq<Area>|
        #![trigger rows[1], columns[1]]
        splits_into(true, centered_parts(percent_y), 0, area, rows) && splits_into(
            false,
            centered_parts(percent_x),
            0,
            rows[1],
            columns,
        ) && middle == columns[1]
}

/// The areas of the screen.
#[derive(Debug, Clone, Copy, PartialEq, Eq, Structural)]
pub struct ScreenAreas {
    pub title: Area,
    pub content: Area,
    pub mode: Area,
    pub keys: Area,
}

/// Whether the screen may be divided so.
pub open spec fn is_screen_layout(area: Area, areas: ScreenAreas) -> bool {
    exists|rows: Seq<Area>, feet: Seq<Area>|
        #![trigger rows[2], feet[1]]
        splits_into(true, screen_parts(), 0, area, rows) && splits_into(
            false,
            footer_parts(),
            0,
            rows[2],
            feet,
        ) && areas == (ScreenAreas {
            title: rows[0],
            content: rows[1],
            mode: feet[0],
            keys: feet[1],
        })
}

/// Whether the area of the response may be divided so.
pub open spec fn is_response_layout(
    layout: ResponseLayout,
    area: Area,
    areas: ResponseAreas,
) -> bool {
    match layout {
        ResponseLayout::Text => areas == (ResponseAreas {
            output: area,
            filters: area,
            prefix_row: area,
            suffix_row: area,
            jq_row: area,
        }),
        ResponseLayout::Json => exists|halves: Seq<Area>|
            #![trigger halves[1]]
            splits_into(true, response_parts(3), 0, area, halves) && areas == (ResponseAreas {
                output: halves[0],
                filters: halves[1],
                prefix_row: area,
                suffix_row: area,
                jq_row: area,
            }),
        ResponseLayout::Stream => exists|halves: Seq<Area>, rows: Seq<Area>|
            #![trigger halves[1], rows[2]]
            splits_into(true, response_parts(5), 0, area, halves) && splits_into(
                true,
                row_parts(),
                1,
                halves[1],
                rows,
            ) && areas == (ResponseAreas {
                output: halves[0],
                filters: halves[1],
                prefix_row: rows[0],
                suffix_row: rows[1],
                jq_row: rows[2],
            }),
    }
}

/// Whether the request screen may be divided so.
pub open spec fn is_request_layout(
    layout: ResponseLayout,
    area: Area,
    areas: RequestAreas,
) -> bool {
    areas.whole == area && exists|halves: Seq<Area>, left: Seq<Area>, right: Seq<Area>|
        #![trigger halves[1], left[2], right[1]]
        splits_into(false, half_parts(), 0, area, halves) && splits_into(
            true,
            request_parts(),
            0,
            halves[0],
            left,
        ) && splits_into(true, result_parts(), 0, halves[1], right) && areas.url == left[0]
            && areas.headers == left[1] && areas.body == left[2] && areas.events == right[1]
            && is_response_layout(layout, right[0], areas.response)
}

/// Divides an area in two.
fn split_two(vertical: bool, first: Part, second: Part, area: Area) -> (r: Vec<Area>)
    ensures
        r@.len() == 2,
        splits_into(vertical, seq![first, second], 0, area, r@),
        forall|i: int| 0 <= i < 2 ==> (#[trigger] r@[i]).is_slice_of(area.clipped(), vertical),
{
    let mut parts: Vec<Part> = Vec::new();
    parts.push(first);
    parts.push(second);
    proof {
        assert(parts@ =~= seq![first, second]);
    }
    split_area(vertical, &parts, 0, area)
}

/// Divides an area in three, inside a margin.
fn split_three(
    vertical: bool,
    first: Part,
    second: Part,
    third: Part,
    margin: u16,
    area: Area,
) -> (r: Vec<Area>)
    ensures
        r@.len() == 3,
        splits_into(vertical, seq![first, second, third], margin, area, r@),
        forall|i: int|
            0 <= i < 3 ==> (#[trigger] r@[i]).is_slice_of(
                area.clipped().inset(margin),
                vertical,
            ),
{
    let mut parts: Vec<Part> = Vec::new();
    parts.push(first);
    parts.push(second);
    parts.push(third);
    proof {
        assert(parts@ =~= seq![first, second, third]);
    }
    split_area(vertical, &parts, margin, area)
}

/// The middle of an area, so many percent wide and high.
pub fn centered_rect(percent_x: u16, percent_y: u16, area: Area) -> (r: Area)
    requires
        percent_x <= 100,
        percent_y <= 100,
    ensures
        is_centered(percent_x, percent_y, area, r),
        r.is_within(area.clipped()),
{
    let above = Part::Percentage((100 - percent_y) / 2);
    let beside = Part::Percentage((100 - percent_x) / 2);
    let rows = split_three(true, above, Part::Percentage(percent_y), above, 0, area);
    let columns = split_three(false, beside, Part::Percentage(percent_x), beside, 0, rows[1]);
    let middle = columns[1];
    proof {
        assert(middle == columns@[1] && rows@[1] == rows@[1]);
    }
    middle
}

/// Divides the screen.
pub fn lay_out_screen(area: Area) -> (r: ScreenAreas)
    ensures
        is_screen_layout(area, r),
        r.title.is_slice_of(area.clipped(), true),
        r.content.is_slice_of(area.clipped(), true),
        r.mode.is_within(area.clipped()),
        r.keys.is_within(area.clipped()),
{
    let rows = split_three(true, Part::Length(1), Part::Min(1), Part::Length(5), 0, area);
    let feet = split_two(false, Part::Percentage(30), Part::Percentage(70), rows[2]);
    let r = ScreenAreas { title: rows[0], content: rows[1], mode: feet[0], keys: feet[1] };
    proof {
        assert(r.keys == feet@[1] && rows@[2] == rows@[2]);
    }
    r
}

/// Divides the area of the response.
fn lay_out_response(layout: ResponseLayout, area: Area) -> (r: ResponseAreas)
    requires
        area.clipped() == area,
    ensures
        is_response_layout(layout, area, r),
        r.output.is_within(area),
        r.filters.is_within(area),
{
    let whole = ResponseAreas {
        output: area,
        filters: area,
        prefix_row: area,
        suffix_row: area,
        jq_row: area,
    };
    match layout {
        ResponseLayout::Text => whole,
        ResponseLayout::Json => {
            let halves = split_two(true, Part::Min(1), Part::Length(3), area);
            ResponseAreas { output: halves[0], filters: halves[1], ..whole }
        },
        ResponseLayout::Stream => {
            let halves = split_two(true, Part::Min(1), Part::Length(5), area);
            let rows = split_three(
                true,
                Part::Length(1),
                Part::Length(1),
                Part::Length(1),
                1,
                halves[1],
            );
            ResponseAreas {
                output: halves[0],
                filters: halves[1],
                prefix_row: rows[0],
                suffix_row: rows[1],
                jq_row: rows[2],
            }
        },
    }
}

/// Divides the request screen.
pub fn lay_out_request(layout: ResponseLayout, area: Area) -> (r: RequestAreas)
    ensures
        is_request_layout(layout, area, r),
        r.url.is_within(area.clipped()),
        r.headers.is_within(area.clipped()),
        r.body.is_within(area.clipped()),
        r.events.is_within(area.clipped()),
        r.response.output.is_within(area.clipped()),
        r.response.filters.is_within(area.clipped()),
{
    let halves = split_two(false, Part::Percentage(50), Part::Percentage(50), area);
    let left = split_three(
        true,
        Part::Length(3),
        Part::Length(8),
        Part::Min(8),
        0,
        halves[0],
    );
    let right = split_two(true, Part::Fill(3), Part::Min(5), halves[1]);
    let response = lay_out_response(layout, right[0]);
    RequestAreas {
        whole: area,
        url: left[0],
        headers: left[1],
        body: left[2],
        events: right[1],
        response,
    }
}

// ── The whole screen ──────────────────────────────────────────────────────────

/// The line at the top of the screen.
pub open spec fn title_bar(area: Area) -> DrawModel {
    DrawModel::Block {
        area,
        look: LookModel {
            titles: Seq::empty().push(
                TitleModel {
                    piece: PieceModel { text: "ImHoTTeP"@, style: TextStyle::plain() },
                    align: Align::Center,
                },
            ),
            border: TextStyle::plain(),
            fill: TextStyle::plain(),
            all_sides: false,
        },
    }
}

/// Everything that is drawn in some areas, and the application with its scroll
/// values in line with that, or nothing where the request screen cannot be drawn.
pub open spec fn whole_screen(
    m: AppModel,
    areas: ScreenAreas,
    request: RequestAreas,
    middle: Area,
    screen_height: u16,
    jq_text: Seq<char>,
) -> Option<(Seq<DrawModel>, AppModel)> {
    let top = Seq::empty().push(title_bar(areas.title));
    match m.current_screen {
        CurrentScreen::Main => Some(
            (footer(main_screen(top, m, areas.content), m, areas.mode, areas.keys), m),
        ),
        CurrentScreen::Request => match request_screen(top, m, request, screen_height, jq_text) {
            Some((drawn, after)) => Some((footer(drawn, after, areas.mode, areas.keys), after)),
            None => None,
        },
        CurrentScreen::Exiting => Some(
            (exit_popup(footer(top, m, areas.mode, areas.keys), middle), m),
        ),
    }
}

/// Draws everything in some areas, and brings scroll values in line with what
/// is drawn.  Nothing is drawn where a cursor cannot be placed or rows cannot be
/// counted.
pub fn draw_screen(
    app: &mut App,
    areas: &ScreenAreas,
    request: &RequestAreas,
    middle: Area,
    screen_height: u16,
    jq_text: &str,
) -> (r: Option<Vec<DrawOp>>)
    ensures
        r is Some == whole_screen(
            old(app)@,
            *areas,
            *request,
            middle,
            screen_height,
            jq_text@,
        ) is Some,
        r matches Some(ops) ==> Some((draw_models(ops@), final(app)@)) == whole_screen(
            old(app)@,
            *areas,
            *request,
            middle,
            screen_height,
            jq_text@,
        ),
        r is None ==> final(app)@ == old(app)@,
{
    let mut ops: Vec<DrawOp> = Vec::new();
    proof {
        assert(draw_models(ops@) =~= Seq::<DrawModel>::empty());
    }
    let mut look = make_bare_look(TextStyle::plain());
    look.add_title("ImHoTTeP".to_owned(), TextStyle::plain(), Align::Center);
    look.all_sides = false;
    draw(&mut ops, DrawOp::Block { area: areas.title, look });
    match app.current_screen {
        CurrentScreen::Main => {
            render_main_screen(&mut ops, app, areas.content);
        },
        CurrentScreen::Request => {
            if !render_request_screen(&mut ops, app, request, screen_height, jq_text) {
                return None;
            }
        },
        CurrentScreen::Exiting => {},
    }
    render_footer(&mut ops, app, areas.mode, areas.keys);
    if app.current_screen == CurrentScreen::Exiting {
        render_exit_popup(&mut ops, middle);
    }
    Some(ops)
}

/// Draws everything on a screen, given the text that jq made of the response
/// where it is shown as JSON.  Nothing is drawn where a cursor cannot be placed
/// or rows cannot be counted.
pub fn ui(app: &mut App, area: Area, jq_text: &str) -> (r: Option<Vec<DrawOp>>)
    ensures
        exists|areas: ScreenAreas, request: RequestAreas, middle: Area|
            {
                &&& is_screen_layout(area, areas)
                &&& is_request_layout(old(app)@.response_layout(), areas.content, request)
                &&& is_centered(60, 25, area, middle)
                &&& r is Some == (#[trigger] whole_screen(
                    old(app)@,
                    areas,
                    request,
                    middle,
                    area.height,
                    jq_text@,
                )) is Some
                &&& r matches Some(ops) ==> Some((draw_models(ops@), final(app)@)) == whole_screen(
                    old(app)@,
                    areas,
                    request,
                    middle,
                    area.height,
                    jq_text@,
                )
            },
        r is None ==> final(app)@ == old(app)@,
{
    let areas = lay_out_screen(area);
    let request = lay_out_request(response_layout(app), areas.content);
    let middle = centered_rect(60, 25, area);
    draw_screen(app, &areas, &request, middle, area.height, jq_text)
}

// ── Laws ──────────────────────────────────────────────────────────────────────

proof fn lemma_line_column(s: Seq<char>, k: int, col: int, max_width: int)
    requires
        0 <= col <= max_width,
    ensures
        0 <= line_column(s, k, col, max_width) <= max_width,
    decreases s.len() - k,
{
    if k < s.len() {
        let end = run_end(s, k, is_space(s[k]));
        lemma_run_end(s, k, is_space(s[k]));
        let width = display_width(s.subrange(k, end)) as int;
        lemma_line_column(s, end, column_after(col, width, is_space(s[k]), max_width), max_width);
    }
}

/// The column of the cursor is never beyond the width, and it is the first one
/// where there is no width or nothing stands in the last line.
pub proof fn lemma_column_is_within(text: Seq<char>, max_width: u16)
    ensures
        0 <= cursor_column(text, max_width) <= max_width,
        max_width == 0 ==> cursor_column(text, max_width) == 0,
        pieces(text).last().len() == 0 ==> cursor_column(text, max_width) == 0,
{
    lemma_line_column(pieces(text).last(), 0, 0, max_width as int);
}

/// The last line of a text goes on with the text behind a newline.
proof fn lemma_last_piece(a: Seq<char>, b: Seq<char>)
    ensures
        pieces(a + seq!['\n'] + b).last() == pieces(b).last(),
    decreases b.len(),
{
    let whole = a + seq!['\n'] + b;
    crate::text::lemma_pieces_nonempty(whole);
    crate::text::lemma_pieces_nonempty(b);
    if b.len() == 0 {
        assert(whole.drop_last() =~= a);
        assert(whole.last() == '\n');
    } else {
        lemma_last_piece(a, b.drop_last());
        assert(whole.drop_last() =~= a + seq!['\n'] + b.drop_last());
        assert(whole.last() == b.last());
        crate::text::lemma_pieces_nonempty(whole.drop_last());
        crate::text::lemma_pieces_nonempty(b.drop_last());
    }
}

/// Only the last line of a text counts for the column of the cursor.
pub proof fn lemma_last_line_fixes_column(a: Seq<char>, b: Seq<char>, max_width: u16)
    ensures
        cursor_column(a + "\n"@ + b, max_width) == cursor_column(b, max_width),
{
    reveal_strlit("\n");
    assert("\n"@ =~= seq!['\n']);
    lemma_last_piece(a, b);
}

/// The largest scroll value shows the last row, as far as there are scroll
/// values.
pub proof fn lemma_last_row_is_reached(rows: nat, area: Area)
    requires
        rows - area.inside().height <= u16::MAX,
    ensures
        rows <= max_scroll(rows, area) + area.inside().height,
        rows >= area.inside().height ==> rows == max_scroll(rows, area) + area.inside().height,
{
}

/// What jq made of a response matters only where it is shown.
pub proof fn lemma_jq_text_is_shown_or_ignored(
    m: AppModel,
    areas: ScreenAreas,
    request: RequestAreas,
    middle: Area,
    screen_height: u16,
    a: Seq<char>,
    b: Seq<char>,
)
    requires
        !m.needs_jq_text(),
    ensures
        whole_screen(m, areas, request, middle, screen_height, a) == whole_screen(
            m,
            areas,
            request,
            middle,
            screen_height,
            b,
        ),
{
}

/// Drawing changes nothing of the application but scroll values.
pub proof fn lemma_drawing_changes_scroll_only(
    m: AppModel,
    areas: ScreenAreas,
    request: RequestAreas,
    middle: Area,
    screen_height: u16,
    jq_text: Seq<char>,
)
    requires
        whole_screen(m, areas, request, middle, screen_height, jq_text) is Some,
    ensures
        ({
            let after = (whole_screen(
                m,
                areas,
                request,
                middle,
                screen_height,
                jq_text,
            )->0).1;
            after == (AppModel {
                body_scroll: after.body_scroll,
                events_scroll: after.events_scroll,
                response_scroll: after.response_scroll,
                ..m
            })
        }),
{
}

/// A scroll value that is in line with a text stays so, and is never beyond
/// the last row.  Any value beyond the last row means the last row.
pub proof fn lemma_scroll_is_in_line(scroll: u16, max: u16, mode: ScrollMode)
    ensures
        scroll_in_line(scroll, max, mode) <= max,
        scroll_in_line(scroll_in_line(scroll, max, mode), max, mode) == scroll_in_line(
            scroll,
            max,
            mode,
        ),
        scroll >= max ==> scroll_in_line(scroll, max, mode) == max,
        scroll_in_line(crate::app::SCROLL_TO_END, max, mode) == max,
{
}

proof fn lemma_run_is_printable(s: Seq<char>, k: int, col: int, max_width: int)
    requires
        is_printable_ascii(s),
        0 <= k <= s.len(),
        0 <= col,
        col + (s.len() - k) <= max_width,
    ensures
        line_column(s, k, col, max_width) == col + (s.len() - k),
    decreases s.len() - k,
{
    if k < s.len() {
        let end = run_end(s, k, is_space(s[k]));
        lemma_run_end(s, k, is_space(s[k]));
        assert(is_printable_ascii(s.subrange(k, end))) by {
            assert forall|i: int| 0 <= i < end - k implies ' ' <= #[trigger] s.subrange(k, end)[i]
                <= '~' by {
                assert(s[k + i] == s.subrange(k, end)[i]);
            }
        }
        lemma_run_is_printable(s, end, col + (end - k), max_width);
    }
}

/// Behind a line of plain characters that fits, the cursor stands in the column
/// that is as far as the line is long.
pub proof fn lemma_cursor_stands_behind_the_line(line: Seq<char>, max_width: u16)
    requires
        is_printable_ascii(line),
        line.len() <= max_width,
    ensures
        cursor_column(line, max_width) == line.len(),
{
    assert(!line.contains('\n')) by {
        if line.contains('\n') {
            let k = choose|k: int| 0 <= k < line.len() && line[k] == '\n';
            assert(' ' <= line[k]);
        }
    }
    crate::text::lemma_one_piece(line);
    lemma_run_is_printable(line, 0, 0, max_width as int);
}

/// A word that goes beyond the row goes to the next one; spaces that do are
/// dropped; a word longer than any row fills one.
pub proof fn lemma_words_wrap(col: int, width: int, max_width: int)
    requires
        0 <= col <= max_width,
        0 <= width,
    ensures
        col + width <= max_width ==> column_after(col, width, false, max_width) == col + width
            && column_after(col, width, true, max_width) == col + width,
        col + width > max_width ==> column_after(col, width, true, max_width) == col,
        col + width > max_width && width <= max_width ==> column_after(
            col,
            width,
            false,
            max_width,
        ) == width,
        width > max_width ==> column_after(col, width, false, max_width) == max_width,
{
}

/// A part that ends in a line break shows the row behind it too.
pub proof fn lemma_line_break_shows_a_row(text: Seq<char>, width: u16)
    ensures
        rows_to_cursor(text.push('\n'), width) == wrapped_rows(text, width) + 1,
        text.len() == 0 || text.last() != '\n' ==> rows_to_cursor(text, width) == wrapped_rows(
            text,
            width,
        ),
{
    assert(text.push('\n').drop_last() =~= text);
}

/// The binding that is named for an action is the first of its bindings.
pub proof fn lemma_first_with_is_first(bindings: Seq<BindingModel>, action: Action, i: int)
    requires
        0 <= i < bindings.len(),
        bindings[i].action == action,
        forall|j: int| 0 <= j < i ==> (#[trigger] bindings[j]).action != action,
    ensures
        first_with(bindings, action) == Some(bindings[i]),
    decreases bindings.len(),
{
    let front = bindings.drop_last();
    if i < front.len() {
        assert(front[i] == bindings[i]);
        assert forall|j: int| 0 <= j < i implies (#[trigger] front[j]).action != action by {
            assert(front[j] == bindings[j]);
        }
        lemma_first_with_is_first(front, action, i);
    } else {
        assert forall|j: int| 0 <= j < front.len() implies (#[trigger] front[j]).action
            != action by {
            assert(front[j] == bindings[j]);
        }
        lemma_first_with_none(front, action);
    }
}

proof fn lemma_first_with_none(bindings: Seq<BindingModel>, action: Action)
    requires
        forall|j: int| 0 <= j < bindings.len() ==> (#[trigger] bindings[j]).action != action,
    ensures
        first_with(bindings, action) is None,
    decreases bindings.len(),
{
    if bindings.len() > 0 {
        let front = bindings.drop_last();
        assert forall|j: int| 0 <= j < front.len() implies (#[trigger] front[j]).action
            != action by {
            assert(front[j] == bindings[j]);
        }
        lemma_first_with_none(front, action);
        assert(bindings[bindings.len() - 1].action != action);
    }
}

/// How much a part of a percentage and its two sides take: at most all of it,
/// and all but what is lost where the rest cannot be halved.
pub proof fn lemma_parts_take_all(percent: u16)
    requires
        percent <= 100,
    ensures
        centered_parts(percent).len() == 3,
        centered_parts(percent)[0] == centered_parts(percent)[2],
        centered_parts(percent)[1] == Part::Percentage(percent),
        centered_parts(percent)[0] matches Part::Percentage(side) && 99 <= side + percent + side
            <= 100,
        footer_parts()[0] matches Part::Percentage(a) && (
        footer_parts()[1] matches Part::Percentage(b) && a < b && a + b == 100),
        half_parts()[0] == half_parts()[1] && half_parts()[0] == Part::Percentage(50),
{
}

/// A run takes in every character of its kind from its start on and ends before
/// the first of the other kind.
pub proof fn lemma_run_is_of_one_kind(s: Seq<char>, k: int, spaces: bool)
    requires
        0 <= k <= s.len(),
    ensures
        forall|j: int| k <= j < run_end(s, k, spaces) ==> is_space(#[trigger] s[j]) == spaces,
        run_end(s, k, spaces) < s.len() ==> is_space(s[run_end(s, k, spaces)]) != spaces,
    decreases s.len() - k,
{
    if k < s.len() && is_space(s[k]) == spaces {
        lemma_run_is_of_one_kind(s, k + 1, spaces);
    }
}

proof fn lemma_last_run(line: Seq<char>)
    ensures
        last_run(line) <= line.len(),
        forall|j: int| line.len() - last_run(line) <= j < line.len() ==> #[trigger] line[j]
            > '\u{7f}',
        last_run(line) < line.len() ==> line[line.len() - last_run(line) - 1] <= '\u{7f}',
    decreases line.len(),
{
    if line.len() > 0 && line.last() > '\u{7f}' {
        let front = line.drop_last();
        lemma_last_run(front);
        assert forall|j: int| line.len() - last_run(line) <= j < line.len() implies #[trigger]
            line[j] > '\u{7f}' by {
            if j < front.len() {
                assert(line[j] == front[j]);
            }
        }
    }
}

/// No run of characters beyond ASCII in a line is longer than its longest run,
/// and a line of ASCII has none.
pub proof fn lemma_no_run_is_longer(line: Seq<char>, i: int, j: int)
    requires
        0 <= i <= j <= line.len(),
        forall|k: int| i <= k < j ==> #[trigger] line[k] > '\u{7f}',
    ensures
        j - i <= longest_run(line),
        longest_run(line) <= line.len(),
        (forall|k: int| 0 <= k < line.len() ==> #[trigger] line[k] <= '\u{7f}') ==> longest_run(
            line,
        ) == 0,
    decreases line.len(),
{
    if line.len() > 0 {
        let front = line.drop_last();
        lemma_last_run(line);
        if j < line.len() {
            assert forall|k: int| i <= k < j implies #[trigger] front[k] > '\u{7f}' by {
                assert(front[k] == line[k]);
            }
            lemma_no_run_is_longer(front, i, j);
        } else {
            lemma_no_run_is_longer(front, 0, 0);
            if j - i > last_run(line) {
                assert(line[line.len() - last_run(line) - 1] > '\u{7f}');
            }
        }
        if forall|k: int| 0 <= k < line.len() ==> #[trigger] line[k] <= '\u{7f}' {
            assert forall|k: int| 0 <= k < front.len() implies #[trigger] front[k] <= '\u{7f}' by {
                assert(front[k] == line[k]);
            }
            assert(line[line.len() - 1] <= '\u{7f}');
        }
    }
}

/// Every text can be counted in rows of ordinary width, and in rows of any width
/// where none of its lines is too long or where it is ASCII and the row leaves
/// room.
pub proof fn lemma_ordinary_texts_can_be_counted(text: Seq<char>, width: u16)
    ensures
        width <= 16384 ==> can_count(text, width),
        (forall|i: int|
            0 <= i < pieces(text).len() ==> byte_len(#[trigger] pieces(text)[i]) <= 65535)
            ==> can_count(text, width),
        byte_len(text) <= 65535 && !text.contains('\n') ==> can_count(text, width),
        width <= 65533 && vstd::utf8::is_ascii_chars(text) && !text.contains('\n') ==> can_count(
            text,
            width,
        ),
{
    if !text.contains('\n') {
        crate::text::lemma_one_piece(text);
        if vstd::utf8::is_ascii_chars(text) {
            assert forall|k: int| 0 <= k < text.len() implies #[trigger] text[k] <= '\u{7f}' by {}
            lemma_no_run_is_longer(text, 0, 0);
        }
    }
}

} // verus!
