//! Terminal screens: what they hold, how they scroll, and how they are read.

use vstd::prelude::*;

use crate::ui::style::{cell_style, cell_to_style, plain, Style};

verus! {

/// A colour as a terminal program sets it.
#[derive(Debug, Clone, Copy, PartialEq, Eq, Structural)]
pub enum CellColor {
    Default,
    Idx(u8),
    Rgb(u8, u8, u8),
}

/// One cell of a terminal screen.
pub struct Cell {
    pub text: String,
    pub fg: CellColor,
    pub bg: CellColor,
    pub bold: bool,
    pub italic: bool,
    pub underline: bool,
    pub inverse: bool,
}

/// What a cell shows.
pub struct CellView {
    pub text: Seq<char>,
    pub fg: CellColor,
    pub bg: CellColor,
    pub bold: bool,
    pub italic: bool,
    pub underline: bool,
    pub inverse: bool,
}

impl DeepView for Cell {
    type V = CellView;

    open spec fn deep_view(&self) -> CellView {
        CellView {
            text: self.text@,
            fg: self.fg,
            bg: self.bg,
            bold: self.bold,
            italic: self.italic,
            underline: self.underline,
            inverse: self.inverse,
        }
    }
}

/// What a terminal holds: the rows that have scrolled off the top, oldest
/// first, how many of them it keeps, the rows of the screen, how far it is
/// scrolled back, its size and its cursor, both as rows and columns.
pub struct ScreenState {
    pub history: Seq<Seq<CellView>>,
    pub limit: nat,
    pub rows: Seq<Seq<CellView>>,
    pub offset: nat,
    pub size: (u16, u16),
    pub cursor: (u16, u16),
}

impl ScreenState {
    /// The screen scrolled back by `n` rows, as far as there are any.
    pub open spec fn scrolled(self, n: nat) -> ScreenState {
        ScreenState {
            offset: if n < self.history.len() {
                n
            } else {
                self.history.len()
            },
            ..self
        }
    }

    /// Whether the rows in view can be told: no more rows are scrolled back than
    /// the screen has.
    pub open spec fn viewable(self) -> bool {
        self.offset <= self.history.len() && self.offset <= self.rows.len()
    }

    /// The rows in view.
    pub open spec fn visible(self) -> Seq<Seq<CellView>> {
        self.history.skip(self.history.len() - self.offset) + self.rows.take(
            self.rows.len() - self.offset,
        )
    }

    /// The cell in view at a row and a column.
    pub open spec fn cell(self, row: int, col: int) -> Option<CellView> {
        if row < self.visible().len() && col < self.visible()[row].len() {
            Some(self.visible()[row][col])
        } else {
            None
        }
    }

    /// The screen with another size: rows and columns are cut off or added,
    /// empty, at the bottom and on the right.
    pub open spec fn resized(self, rows: u16, cols: u16) -> ScreenState {
        ScreenState {
            rows: Seq::new(
                rows as nat,
                |i: int|
                    Seq::new(
                        cols as nat,
                        |j: int|
                            if i < self.rows.len() && j < self.rows[i].len() {
                                self.rows[i][j]
                            } else {
                                blank_cell()
                            },
                    ),
            ),
            size: (rows, cols),
            cursor: (
                if self.cursor.0 < rows {
                    self.cursor.0
                } else {
                    (rows - 1) as u16
                },
                if self.cursor.1 < cols {
                    self.cursor.1
                } else {
                    (cols - 1) as u16
                },
            ),
            ..self
        }
    }
}

/// A cell that nothing was written to.
pub open spec fn blank_cell() -> CellView {
    CellView {
        text: Seq::empty(),
        fg: CellColor::Default,
        bg: CellColor::Default,
        bold: false,
        italic: false,
        underline: false,
        inverse: false,
    }
}

/// The state of a terminal that nothing was written to.
pub open spec fn blank_screen(rows: u16, cols: u16, limit: nat) -> ScreenState {
    ScreenState {
        history: Seq::empty(),
        limit,
        rows: Seq::new(rows as nat, |i: int| Seq::new(cols as nat, |j: int| blank_cell())),
        offset: 0,
        size: (rows, cols),
        cursor: (0, 0),
    }
}

/// `vt100::Parser`, the terminal emulator. Nothing in it is visible here;
/// `screen_of` stands for what it holds.
#[verifier::external_type_specification]
#[verifier::external_body]
pub struct ExParser(vt100::Parser);

/// What a terminal emulator holds.
pub uninterp spec fn screen_of(p: vt100::Parser) -> ScreenState;

/// What the terminal behind a reference holds, if there is one.
pub open spec fn state_of(screen: Option<&mut vt100::Parser>) -> Option<ScreenState> {
    match screen {
        Some(p) => Some(screen_of(*p)),
        None => None,
    }
}

/// `vt100::Parser::new` makes a blank terminal of the given size that keeps so
/// many rows of what scrolls off. Without any rows the outside function would
/// underflow.
#[verifier::external_body]
fn new_parser(rows: u16, cols: u16, history: usize) -> (r: vt100::Parser)
    requires
        rows > 0,
    ensures
        screen_of(r) == blank_screen(rows, cols, history as nat),
{
    vt100::Parser::new(rows, cols, history)
}

/// `vt100::Parser::set_scrollback` scrolls back by the given number of rows, or
/// by as many as there are, and changes nothing else.
#[verifier::external_body]
fn set_scrollback(p: &mut vt100::Parser, rows: usize)
    ensures
        screen_of(*final(p)) == screen_of(*old(p)).scrolled(rows as nat),
{
    p.set_scrollback(rows);
}

/// `vt100::Screen::scrollback` tells how far the terminal is scrolled back.
#[verifier::external_body]
fn scrollback(p: &vt100::Parser) -> (r: usize)
    ensures
        r == screen_of(*p).offset,
{
    p.screen().scrollback()
}

/// `vt100::Screen::size` tells the rows and columns of the terminal. The
/// emulator keeps exactly that many rows.
#[verifier::external_body]
fn screen_size(p: &vt100::Parser) -> (r: (u16, u16))
    ensures
        r == screen_of(*p).size,
        r.0 == screen_of(*p).rows.len(),
{
    p.screen().size()
}

/// `vt100::Screen::cursor_position` tells the row and column of the cursor.
#[verifier::external_body]
fn cursor_position(p: &vt100::Parser) -> (r: (u16, u16))
    ensures
        r == screen_of(*p).cursor,
{
    p.screen().cursor_position()
}

/// `vt100::Screen::cell` finds the cell in view at a row and a column, if there
/// is one; its getters tell what the cell shows. With more rows scrolled back
/// than the screen has, the outside function would underflow.
#[verifier::external_body]
fn cell(p: &vt100::Parser, row: u16, col: u16) -> (r: Option<Cell>)
    requires
        screen_of(*p).viewable(),
    ensures
        match r {
            Some(c) => screen_of(*p).cell(row as int, col as int) == Some(c.deep_view()),
            None => screen_of(*p).cell(row as int, col as int) is None,
        },
{
    p.screen().cell(row, col).map(|c| Cell {
        text: c.contents(),
        fg: match c.fgcolor() {
            vt100::Color::Default => CellColor::Default,
            vt100::Color::Idx(i) => CellColor::Idx(i),
            vt100::Color::Rgb(r, g, b) => CellColor::Rgb(r, g, b),
        },
        bg: match c.bgcolor() {
            vt100::Color::Default => CellColor::Default,
            vt100::Color::Idx(i) => CellColor::Idx(i),
            vt100::Color::Rgb(r, g, b) => CellColor::Rgb(r, g, b),
        },
        bold: c.bold(), italic: c.italic(), underline: c.underline(), inverse: c.inverse(),
    })
}

/// `vt100::Parser::set_size` changes the size of the terminal. An empty size
/// would make the outside function underflow.
#[verifier::external_body]
fn set_size(p: &mut vt100::Parser, rows: u16, cols: u16)
    requires
        rows > 0,
        cols > 0,
    ensures
        screen_of(*final(p)) == screen_of(*old(p)).resized(rows, cols),
{
    p.set_size(rows, cols);
}

/// Makes a blank terminal that keeps `history` rows of what scrolls off.
pub fn new_screen(rows: u16, cols: u16, history: usize) -> (r: vt100::Parser)
    requires
        rows > 0,
    ensures
        screen_of(r) == blank_screen(rows, cols, history as nat),
{
    new_parser(rows, cols, history)
}

/// Where scrolling back to `desired` rows ends up: no further than there are
/// rows, nor than the screen is high.
pub open spec fn reach(s: ScreenState, desired: nat) -> nat {
    let actual = s.scrolled(desired).offset;
    if actual < s.size.0 {
        actual
    } else {
        s.size.0 as nat
    }
}

/// Finds out how far the screen scrolls back, `step` rows from `scroll`, and
/// leaves it scrolled to the bottom. Without a screen it does not scroll.
pub fn probe_scroll(screen: Option<&mut vt100::Parser>, scroll: usize, step: usize) -> (r: usize)
    ensures
        match screen {
            Some(p) => {
                &&& r == reach(screen_of(*p), scroll.saturating_add(step) as nat)
                &&& screen_of(*final(p)) == screen_of(*p).scrolled(0)
            },
            None => r == 0,
        },
{
    let desired: usize = scroll.saturating_add(step);
    match screen {
        Some(p) => {
            set_scrollback(p, desired);
            let actual: usize = scrollback(p);
            let (rows, _): (u16, u16) = screen_size(p);
            set_scrollback(p, 0);
            actual.min(rows as usize)
        },
        None => 0,
    }
}

/// What is shown for one cell.
pub struct Glyph {
    pub text: String,
    pub style: Style,
}

/// The text and the style shown for one cell.
pub struct GlyphView {
    pub text: Seq<char>,
    pub style: Style,
}

impl DeepView for Glyph {
    type V = GlyphView;

    open spec fn deep_view(&self) -> GlyphView {
        GlyphView { text: self.text@, style: self.style }
    }
}

/// What is shown for a cell: its text in its style, a space if it has no text,
/// and a plain space where there is no cell.
pub open spec fn glyph_of(c: Option<CellView>) -> GlyphView {
    match c {
        None => GlyphView { text: " "@, style: plain() },
        Some(c) => GlyphView {
            text: if c.text.len() == 0 {
                " "@
            } else {
                c.text
            },
            style: cell_style(c),
        },
    }
}

/// What is shown in one row.
pub open spec fn glyph_row(s: ScreenState, row: int) -> Seq<GlyphView> {
    Seq::new(s.size.1 as nat, |col: int| glyph_of(s.cell(row, col)))
}

/// What is shown of a screen, row by row.
pub open spec fn glyph_rows(s: ScreenState) -> Seq<Seq<GlyphView>> {
    Seq::new(s.size.0 as nat, |row: int| glyph_row(s, row))
}

/// A picture of a terminal screen.
pub struct Snapshot {
    pub rows: Vec<Vec<Glyph>>,
    pub cursor: (u16, u16),
}

fn make_glyph(c: Option<Cell>) -> (r: Glyph)
    ensures
        match c {
            Some(d) => r.deep_view() == glyph_of(Some(d.deep_view())),
            None => r.deep_view() == glyph_of(None),
        },
{
    match c {
        None => Glyph { text: " ".to_string(), style: Style::new() },
        Some(c) => {
            let style = cell_to_style(&c);
            let text = if c.text.as_str().is_empty() {
                " ".to_string()
            } else {
                c.text
            };
            Glyph { text, style }
        },
    }
}

/// Takes a picture of the screen scrolled back by `scroll` rows, and leaves it
/// scrolled to the bottom.
pub fn capture(p: &mut vt100::Parser, scroll: usize) -> (r: Snapshot)
    requires
        screen_of(*old(p)).scrolled(scroll as nat).viewable(),
    ensures
        r.rows.deep_view() == glyph_rows(screen_of(*old(p)).scrolled(scroll as nat)),
        r.cursor == screen_of(*old(p)).cursor,
        screen_of(*final(p)) == screen_of(*old(p)).scrolled(0),
{
    set_scrollback(p, scroll);
    let ghost s = screen_of(*p);
    let (height, width): (u16, u16) = screen_size(p);
    let mut rows: Vec<Vec<Glyph>> = Vec::new();
    let mut row: u16 = 0;
    assert(rows.deep_view() =~= glyph_rows(s).take(0));
    while row < height
        invariant
            row <= height,
            screen_of(*p) == s,
            s.viewable(),
            s.size == (height, width),
            rows.deep_view() == glyph_rows(s).take(row as int),
        decreases height - row,
    {
        let mut glyphs: Vec<Glyph> = Vec::new();
        let mut col: u16 = 0;
        assert(glyphs.deep_view() =~= glyph_row(s, row as int).take(0));
        while col < width
            invariant
                col <= width,
                screen_of(*p) == s,
                s.viewable(),
                s.size == (height, width),
                glyphs.deep_view() == glyph_row(s, row as int).take(col as int),
            decreases width - col,
        {
            let ghost before = glyphs.deep_view();
            let g = make_glyph(cell(p, row, col));
            glyphs.push(g);
            assert(glyphs.deep_view() =~= before.push(g.deep_view()));
            col = col + 1;
            assert(glyph_row(s, row as int).take(col as int) =~= before.push(
                glyph_row(s, row as int)[col - 1],
            ));
        }
        let ghost before = rows.deep_view();
        assert(glyph_row(s, row as int).take(col as int) =~= glyph_row(s, row as int));
        rows.push(glyphs);
        assert(rows.deep_view() =~= before.push(glyph_row(s, row as int)));
        row = row + 1;
        assert(glyph_rows(s).take(row as int) =~= before.push(glyph_rows(s)[row - 1]));
    }
    assert(glyph_rows(s).take(row as int) =~= glyph_rows(s));
    let cursor = cursor_position(p);
    set_scrollback(p, 0);
    Snapshot { rows, cursor }
}

/// Tells whether the screen can be drawn scrolled back by `scroll` rows, and
/// leaves it scrolled to the bottom.
pub fn can_capture(p: &mut vt100::Parser, scroll: usize) -> (r: bool)
    ensures
        r == screen_of(*old(p)).scrolled(scroll as nat).viewable(),
        screen_of(*final(p)) == screen_of(*old(p)).scrolled(0),
{
    set_scrollback(p, scroll);
    let offset: usize = scrollback(p);
    let (height, _): (u16, u16) = screen_size(p);
    set_scrollback(p, 0);
    offset <= height as usize
}

/// The size that a terminal is given: at least one row and one column.
pub open spec fn at_least_one(n: u16) -> u16 {
    if n == 0 {
        1
    } else {
        n
    }
}

/// Gives the screen a new size of at least one row and one column.
pub fn resize_screen(p: &mut vt100::Parser, cols: u16, rows: u16)
    ensures
        screen_of(*final(p)) == screen_of(*old(p)).resized(at_least_one(rows), at_least_one(cols)),
{
    set_size(p, rows.max(1), cols.max(1));
}

} // verus!
