//! What is drawn, as plain values.

use vstd::prelude::*;

verus! {

/// A rectangle of the terminal.
#[derive(Debug, Clone, Copy, PartialEq, Eq, Structural)]
pub struct Area {
    pub x: u16,
    pub y: u16,
    pub width: u16,
    pub height: u16,
}

/// The sum of two coordinates, as far as there are coordinates.
pub open spec fn far_sum(a: u16, b: u16) -> u16 {
    if a + b <= u16::MAX {
        (a + b) as u16
    } else {
        u16::MAX
    }
}

/// The difference of two coordinates, or zero.
pub open spec fn near_difference(a: u16, b: u16) -> u16 {
    if a >= b {
        (a - b) as u16
    } else {
        0
    }
}

/// The smaller of two coordinates.
pub open spec fn smaller(a: u16, b: u16) -> u16 {
    if a <= b {
        a
    } else {
        b
    }
}

/// The larger of two coordinates.
pub open spec fn larger(a: u16, b: u16) -> u16 {
    if a >= b {
        a
    } else {
        b
    }
}

pub(crate) fn min_of(a: u16, b: u16) -> (r: u16)
    ensures
        r == smaller(a, b),
{
    if a <= b {
        a
    } else {
        b
    }
}

pub(crate) fn max_of(a: u16, b: u16) -> (r: u16)
    ensures
        r == larger(a, b),
{
    if a >= b {
        a
    } else {
        b
    }
}

impl Area {
    /// The column behind the last one.
    pub open spec fn right(self) -> u16 {
        far_sum(self.x, self.width)
    }

    /// The row behind the last one.
    pub open spec fn bottom(self) -> u16 {
        far_sum(self.y, self.height)
    }

    /// The part of the area whose coordinates can be written down.
    pub open spec fn clipped(self) -> Area {
        Area {
            x: self.x,
            y: self.y,
            width: (self.right() - self.x) as u16,
            height: (self.bottom() - self.y) as u16,
        }
    }

    /// What is left inside a margin on all sides, or an empty area where there
    /// is no room for it.
    pub open spec fn inset(self, margin: u16) -> Area {
        let both = far_sum(margin, margin);
        if self.width < both || self.height < both {
            Area { x: 0, y: 0, width: 0, height: 0 }
        } else {
            Area {
                x: far_sum(self.x, margin),
                y: far_sum(self.y, margin),
                width: (self.width - both) as u16,
                height: (self.height - both) as u16,
            }
        }
    }

    /// Whether the area lies in another one.
    pub open spec fn is_within(self, other: Area) -> bool {
        &&& other.x <= self.x
        &&& other.y <= self.y
        &&& self.x + self.width <= other.x + other.width
        &&& self.y + self.height <= other.y + other.height
    }

    /// Whether the area lies in another one, and reaches across it: from left
    /// to right, or else from top to bottom.
    pub open spec fn is_slice_of(self, other: Area, across: bool) -> bool {
        &&& self.is_within(other)
        &&& across ==> self.x == other.x && self.width == other.width
        &&& !across ==> self.y == other.y && self.height == other.height
    }

    /// What is left inside a border on all sides.
    pub open spec fn inside(self) -> Area {
        Area {
            x: smaller(far_sum(self.x, 1), self.right()),
            y: smaller(far_sum(self.y, 1), self.bottom()),
            width: near_difference(self.width, 2),
            height: near_difference(self.height, 2),
        }
    }

    /// What is left inside a border on all sides.
    pub fn inner(&self) -> (r: Area)
        ensures
            r == self.inside(),
    {
        Area {
            x: min_of(self.x.saturating_add(1), self.x.saturating_add(self.width)),
            y: min_of(self.y.saturating_add(1), self.y.saturating_add(self.height)),
            width: self.width.saturating_sub(2),
            height: self.height.saturating_sub(2),
        }
    }
}

/// A color.
#[derive(Debug, Clone, Copy, PartialEq, Eq, Structural)]
pub enum Color {
    Black,
    Red,
    Green,
    Yellow,
    Cyan,
    Gray,
    DarkGray,
    LightRed,
    White,
}

/// How a text looks.
#[derive(Debug, Clone, Copy, PartialEq, Eq, Structural)]
pub struct TextStyle {
    pub fg: Option<Color>,
    pub bg: Option<Color>,
    pub bold: bool,
}

impl TextStyle {
    pub open spec fn spec_plain() -> TextStyle {
        TextStyle { fg: None, bg: None, bold: false }
    }

    pub open spec fn spec_fg(color: Color) -> TextStyle {
        TextStyle { fg: Some(color), bg: None, bold: false }
    }

    pub open spec fn spec_bg(color: Color) -> TextStyle {
        TextStyle { fg: None, bg: Some(color), bold: false }
    }

    /// As the terminal shows it.
    #[verifier::when_used_as_spec(spec_plain)]
    pub fn plain() -> (r: TextStyle)
        ensures
            r == TextStyle::spec_plain(),
    {
        TextStyle { fg: None, bg: None, bold: false }
    }

    /// In a color.
    #[verifier::when_used_as_spec(spec_fg)]
    pub fn fg(color: Color) -> (r: TextStyle)
        ensures
            r == TextStyle::spec_fg(color),
    {
        TextStyle { fg: Some(color), bg: None, bold: false }
    }

    /// On a color.
    #[verifier::when_used_as_spec(spec_bg)]
    pub fn bg(color: Color) -> (r: TextStyle)
        ensures
            r == TextStyle::spec_bg(color),
    {
        TextStyle { fg: None, bg: Some(color), bold: false }
    }
}

/// Where a text stands in its line.
#[derive(Debug, Clone, Copy, PartialEq, Eq, Structural)]
pub enum Align {
    Left,
    Center,
    Right,
}

/// A text with its look.
pub struct Piece {
    pub text: String,
    pub style: TextStyle,
}

#[verifier::ext_equal]
pub ghost struct PieceModel {
    pub text: Seq<char>,
    pub style: TextStyle,
}

impl View for Piece {
    type V = PieceModel;

    open spec fn view(&self) -> PieceModel {
        PieceModel { text: self.text@, style: self.style }
    }
}

/// What some pieces say.
pub open spec fn piece_models(pieces: Seq<Piece>) -> Seq<PieceModel> {
    Seq::new(pieces.len(), |i: int| pieces[i]@)
}

pub(crate) fn add_piece(pieces: &mut Vec<Piece>, piece: Piece)
    ensures
        piece_models(final(pieces)@) == piece_models(old(pieces)@).push(piece@),
{
    proof {
        assert(piece_models(pieces@.push(piece)) =~= piece_models(pieces@).push(piece@));
    }
    pieces.push(piece);
}

/// A title in the border of a block.
pub struct Title {
    pub piece: Piece,
    pub align: Align,
}

#[verifier::ext_equal]
pub ghost struct TitleModel {
    pub piece: PieceModel,
    pub align: Align,
}

impl View for Title {
    type V = TitleModel;

    open spec fn view(&self) -> TitleModel {
        TitleModel { piece: self.piece@, align: self.align }
    }
}

/// What some titles say.
pub open spec fn title_models(titles: Seq<Title>) -> Seq<TitleModel> {
    Seq::new(titles.len(), |i: int| titles[i]@)
}

/// The border of a block with its titles.
pub struct Look {
    pub titles: Vec<Title>,
    pub border: TextStyle,
    pub fill: TextStyle,
    /// Whether the border is on all sides, or else only at the top.
    pub all_sides: bool,
}

#[verifier::ext_equal]
pub ghost struct LookModel {
    pub titles: Seq<TitleModel>,
    pub border: TextStyle,
    pub fill: TextStyle,
    pub all_sides: bool,
}

impl View for Look {
    type V = LookModel;

    open spec fn view(&self) -> LookModel {
        LookModel {
            titles: title_models(self.titles@),
            border: self.border,
            fill: self.fill,
            all_sides: self.all_sides,
        }
    }
}

/// A border without a title.
pub open spec fn bare_look(border: TextStyle) -> LookModel {
    LookModel { titles: Seq::empty(), border, fill: TextStyle::plain(), all_sides: true }
}

/// A border with a title at its left.
pub open spec fn titled_look(title: Seq<char>, border: TextStyle) -> LookModel {
    LookModel {
        titles: Seq::empty().push(
            TitleModel {
                piece: PieceModel { text: title, style: TextStyle::plain() },
                align: Align::Left,
            },
        ),
        border,
        fill: TextStyle::plain(),
        all_sides: true,
    }
}

pub(crate) fn make_bare_look(border: TextStyle) -> (r: Look)
    ensures
        r@ == bare_look(border),
{
    let r = Look { titles: Vec::new(), border, fill: TextStyle::plain(), all_sides: true };
    proof {
        assert(title_models(r.titles@) =~= Seq::<TitleModel>::empty());
    }
    r
}

impl Look {
    /// Adds a title.
    pub(crate) fn add_title(&mut self, text: String, style: TextStyle, align: Align)
        ensures
            final(self)@ == (LookModel {
                titles: old(self)@.titles.push(
                    TitleModel { piece: PieceModel { text: text@, style }, align },
                ),
                ..old(self)@
            }),
    {
        let title = Title { piece: Piece { text, style }, align };
        proof {
            assert(title_models(self.titles@.push(title)) =~= title_models(self.titles@).push(
                title@,
            ));
        }
        self.titles.push(title);
    }
}

pub(crate) fn make_titled_look(title: String, border: TextStyle) -> (r: Look)
    ensures
        r@ == titled_look(title@, border),
{
    let mut r = make_bare_look(border);
    r.add_title(title, TextStyle::plain(), Align::Left);
    r
}

/// A line made of pieces.
pub struct StyledLine {
    pub pieces: Vec<Piece>,
    pub align: Align,
}

#[verifier::ext_equal]
pub ghost struct LineModel {
    pub pieces: Seq<PieceModel>,
    pub align: Align,
}

impl View for StyledLine {
    type V = LineModel;

    open spec fn view(&self) -> LineModel {
        LineModel { pieces: piece_models(self.pieces@), align: self.align }
    }
}

/// What some lines say.
pub open spec fn line_models(lines: Seq<StyledLine>) -> Seq<LineModel> {
    Seq::new(lines.len(), |i: int| lines[i]@)
}

/// A centered line of one text.
pub open spec fn centered_line(text: Seq<char>) -> LineModel {
    LineModel {
        pieces: Seq::empty().push(PieceModel { text, style: TextStyle::plain() }),
        align: Align::Center,
    }
}

pub(crate) fn make_centered_line(text: String) -> (r: StyledLine)
    ensures
        r@ == centered_line(text@),
{
    let mut pieces: Vec<Piece> = Vec::new();
    proof {
        assert(piece_models(pieces@) =~= Seq::<PieceModel>::empty());
    }
    add_piece(&mut pieces, Piece { text, style: TextStyle::plain() });
    StyledLine { pieces, align: Align::Center }
}

pub(crate) fn add_line(lines: &mut Vec<StyledLine>, line: StyledLine)
    ensures
        line_models(final(lines)@) == line_models(old(lines)@).push(line@),
{
    proof {
        assert(line_models(lines@.push(line)) =~= line_models(lines@).push(line@));
    }
    lines.push(line);
}

/// What a paragraph holds.
pub enum Content {
    /// A text as it is.
    Plain(String),
    /// A text with escape sequences for its colors.
    Ansi(String),
    /// Lines made of pieces.
    Lines(Vec<StyledLine>),
}

#[verifier::ext_equal]
pub ghost enum ContentModel {
    Plain(Seq<char>),
    Ansi(Seq<char>),
    Lines(Seq<LineModel>),
}

impl View for Content {
    type V = ContentModel;

    open spec fn view(&self) -> ContentModel {
        match self {
            Content::Plain(text) => ContentModel::Plain(text@),
            Content::Ansi(text) => ContentModel::Ansi(text@),
            Content::Lines(lines) => ContentModel::Lines(line_models(lines@)),
        }
    }
}

/// A paragraph of text.
pub struct Paragraph {
    pub content: Content,
    pub look: Option<Look>,
    pub style: TextStyle,
    pub wrap: bool,
    pub scroll_y: u16,
    pub scroll_x: u16,
    pub align: Align,
}

#[verifier::ext_equal]
pub ghost struct ParagraphModel {
    pub content: ContentModel,
    pub look: Option<LookModel>,
    pub style: TextStyle,
    pub wrap: bool,
    pub scroll_y: u16,
    pub scroll_x: u16,
    pub align: Align,
}

impl View for Paragraph {
    type V = ParagraphModel;

    open spec fn view(&self) -> ParagraphModel {
        ParagraphModel {
            content: self.content@,
            look: match self.look {
                Some(look) => Some(look@),
                None => None,
            },
            style: self.style,
            wrap: self.wrap,
            scroll_y: self.scroll_y,
            scroll_x: self.scroll_x,
            align: self.align,
        }
    }
}

/// A paragraph that is neither wrapped nor scrolled.
pub open spec fn simple_paragraph(
    content: ContentModel,
    look: Option<LookModel>,
    style: TextStyle,
) -> ParagraphModel {
    ParagraphModel {
        content,
        look,
        style,
        wrap: false,
        scroll_y: 0,
        scroll_x: 0,
        align: Align::Left,
    }
}

/// What an optional look says.
pub open spec fn look_model(look: Option<Look>) -> Option<LookModel> {
    match look {
        Some(l) => Some(l@),
        None => None,
    }
}

pub(crate) fn make_paragraph(content: Content, look: Option<Look>, style: TextStyle) -> (r:
    Paragraph)
    ensures
        r@ == simple_paragraph(content@, look_model(look), style),
{
    Paragraph {
        content,
        look,
        style,
        wrap: false,
        scroll_y: 0,
        scroll_x: 0,
        align: Align::Left,
    }
}

/// One thing to be drawn.
pub enum DrawOp {
    /// An empty block.
    Block { area: Area, look: Look },
    /// A paragraph.
    Text { area: Area, paragraph: Paragraph },
    /// A list of lines.
    List { area: Area, look: Look, items: Vec<Piece> },
    /// A scroll bar at the right.
    Scrollbar { area: Area, max: u16, position: u16 },
    /// The cursor of the terminal.
    Cursor { x: u16, y: u16 },
    /// Nothing at all, where something was.
    Clear { area: Area },
}

#[verifier::ext_equal]
pub ghost enum DrawModel {
    Block { area: Area, look: LookModel },
    Text { area: Area, paragraph: ParagraphModel },
    List { area: Area, look: LookModel, items: Seq<PieceModel> },
    Scrollbar { area: Area, max: u16, position: u16 },
    Cursor { x: u16, y: u16 },
    Clear { area: Area },
}

impl View for DrawOp {
    type V = DrawModel;

    open spec fn view(&self) -> DrawModel {
        match self {
            DrawOp::Block { area, look } => DrawModel::Block { area: *area, look: look@ },
            DrawOp::Text { area, paragraph } => DrawModel::Text {
                area: *area,
                paragraph: paragraph@,
            },
            DrawOp::List { area, look, items } => DrawModel::List {
                area: *area,
                look: look@,
                items: piece_models(items@),
            },
            DrawOp::Scrollbar { area, max, position } => DrawModel::Scrollbar {
                area: *area,
                max: *max,
                position: *position,
            },
            DrawOp::Cursor { x, y } => DrawModel::Cursor { x: *x, y: *y },
            DrawOp::Clear { area } => DrawModel::Clear { area: *area },
        }
    }
}

/// What some things to be drawn say.
pub open spec fn draw_models(ops: Seq<DrawOp>) -> Seq<DrawModel> {
    Seq::new(ops.len(), |i: int| ops[i]@)
}

/// Adds one more thing to be drawn.
pub(crate) fn draw(ops: &mut Vec<DrawOp>, op: DrawOp)
    ensures
        draw_models(final(ops)@) == draw_models(old(ops)@).push(op@),
{
    proof {
        assert(draw_models(ops@.push(op)) =~= draw_models(ops@).push(op@));
    }
    ops.push(op);
}

/// Inside a border there is one column less on either side and one row less
/// above and below, and what is inside lies within the area.
pub proof fn lemma_inside_lies_within(area: Area)
    requires
        area.width >= 2,
        area.height >= 2,
        area.x + area.width <= u16::MAX,
        area.y + area.height <= u16::MAX,
    ensures
        area.inside().is_within(area),
        area.inside().x == area.x + 1,
        area.inside().y == area.y + 1,
        area.inside().width == area.width - 2,
        area.inside().height == area.height - 2,
        area.right() == area.x + area.width,
        area.bottom() == area.y + area.height,
        area.clipped() == area,
        area.inset(1) == area.inside(),
        area.inset(0) == area,
{
}

/// The smaller and the larger of two, and their difference as far as there is
/// one.
pub proof fn lemma_smaller_and_larger(a: u16, b: u16)
    ensures
        smaller(a, b) <= a && smaller(a, b) <= b,
        larger(a, b) >= a && larger(a, b) >= b,
        smaller(a, b) + larger(a, b) == a + b,
        near_difference(a, b) == larger(a, b) - b,
        a + b <= u16::MAX ==> far_sum(a, b) == a + b,
        a + b > u16::MAX ==> far_sum(a, b) == u16::MAX,
{
}

/// A titled border has its one title at the left, and a bare one has none; a
/// centered line is its text alone.
pub proof fn lemma_titles_are_shown(title: Seq<char>, border: TextStyle)
    ensures
        titled_look(title, border).titles.len() == 1,
        titled_look(title, border).titles[0].piece.text == title,
        titled_look(title, border).titles[0].align == Align::Left,
        titled_look(title, border).border == border,
        titled_look(title, border).all_sides,
        bare_look(border).titles.len() == 0,
        bare_look(border).border == border,
        bare_look(border).all_sides,
        centered_line(title).align == Align::Center,
        centered_line(title).pieces.len() == 1,
        centered_line(title).pieces[0].text == title,
{
}

} // verus!
