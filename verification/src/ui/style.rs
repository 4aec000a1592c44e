//! Colours, styles and styled text.

use vstd::prelude::*;

use crate::screen::{Cell, CellColor, CellView};

verus! {

/// A colour of the display.
#[derive(Debug, Clone, Copy, PartialEq, Eq, Structural)]
pub enum Color {
    Black,
    Red,
    Green,
    Yellow,
    Blue,
    Magenta,
    Cyan,
    Gray,
    DarkGray,
    LightRed,
    LightGreen,
    LightYellow,
    LightBlue,
    LightMagenta,
    LightCyan,
    White,
    Rgb(u8, u8, u8),
    Indexed(u8),
}

/// How text looks.
#[derive(Debug, Clone, Copy, PartialEq, Eq, Structural)]
pub struct Style {
    pub fg: Option<Color>,
    pub bg: Option<Color>,
    pub bold: bool,
    pub italic: bool,
    pub underlined: bool,
    pub reversed: bool,
}

/// Text as the display has it by default.
pub open spec fn plain() -> Style {
    Style {
        fg: None,
        bg: None,
        bold: false,
        italic: false,
        underlined: false,
        reversed: false,
    }
}

/// Text in a colour.
pub open spec fn colored(c: Color) -> Style {
    Style { fg: Some(c), ..plain() }
}

/// Bold text in a colour.
pub open spec fn bold_colored(c: Color) -> Style {
    Style { bold: true, ..colored(c) }
}

impl Style {
    /// The default look.
    pub fn new() -> (r: Style)
        ensures
            r == plain(),
    {
        Style {
            fg: None,
            bg: None,
            bold: false,
            italic: false,
            underlined: false,
            reversed: false,
        }
    }

    /// A colour and nothing else.
    pub fn color(c: Color) -> (r: Style)
        ensures
            r == colored(c),
    {
        let mut s = Style::new();
        s.fg = Some(c);
        s
    }

    /// A colour in bold.
    pub fn bold_color(c: Color) -> (r: Style)
        ensures
            r == bold_colored(c),
    {
        let mut s = Style::color(c);
        s.bold = true;
        s
    }
}

/// A piece of text in one style.
pub struct Span {
    pub content: String,
    pub style: Style,
}

/// A line of styled text.
pub struct Line {
    pub spans: Vec<Span>,
}

/// The text of a span.
pub struct SpanView {
    pub content: Seq<char>,
    pub style: Style,
}

impl DeepView for Span {
    type V = SpanView;

    open spec fn deep_view(&self) -> SpanView {
        SpanView { content: self.content@, style: self.style }
    }
}

impl DeepView for Line {
    type V = Seq<SpanView>;

    open spec fn deep_view(&self) -> Seq<SpanView> {
        self.spans.deep_view()
    }
}

/// A span of the given text.
pub open spec fn span(content: Seq<char>, style: Style) -> SpanView {
    SpanView { content, style }
}

/// Makes a line of one span.
pub fn one_span(content: String, style: Style) -> (r: Line)
    ensures
        r.deep_view() == seq![span(content@, style)],
{
    let mut spans: Vec<Span> = Vec::new();
    spans.push(Span { content, style });
    let r = Line { spans };
    assert(r.deep_view() =~= seq![span(content@, style)]);
    r
}

/// Makes a line of two spans.
pub fn two_spans(a: String, a_style: Style, b: String, b_style: Style) -> (r: Line)
    ensures
        r.deep_view() == seq![span(a@, a_style), span(b@, b_style)],
{
    let mut spans: Vec<Span> = Vec::new();
    spans.push(Span { content: a, style: a_style });
    spans.push(Span { content: b, style: b_style });
    let r = Line { spans };
    assert(r.deep_view() =~= seq![span(a@, a_style), span(b@, b_style)]);
    r
}

/// The display's colour for a terminal's: the first sixteen have names.
pub open spec fn display_color(c: CellColor) -> Option<Color> {
    match c {
        CellColor::Default => None,
        CellColor::Idx(i) => Some(
            if i == 0 {
                Color::Black
            } else if i == 1 {
                Color::Red
            } else if i == 2 {
                Color::Green
            } else if i == 3 {
                Color::Yellow
            } else if i == 4 {
                Color::Blue
            } else if i == 5 {
                Color::Magenta
            } else if i == 6 {
                Color::Cyan
            } else if i == 7 {
                Color::White
            } else if i == 8 {
                Color::DarkGray
            } else if i == 9 {
                Color::LightRed
            } else if i == 10 {
                Color::LightGreen
            } else if i == 11 {
                Color::LightYellow
            } else if i == 12 {
                Color::LightBlue
            } else if i == 13 {
                Color::LightMagenta
            } else if i == 14 {
                Color::LightCyan
            } else if i == 15 {
                Color::Gray
            } else {
                Color::Indexed(i)
            },
        ),
        CellColor::Rgb(r, g, b) => Some(Color::Rgb(r, g, b)),
    }
}

/// The style of a terminal cell.
pub open spec fn cell_style(c: CellView) -> Style {
    Style {
        fg: display_color(c.fg),
        bg: display_color(c.bg),
        bold: c.bold,
        italic: c.italic,
        underlined: c.underline,
        reversed: c.inverse,
    }
}

/// Translates a terminal colour.
pub fn vt100_color(c: CellColor) -> (r: Option<Color>)
    ensures
        r == display_color(c),
{
    match c {
        CellColor::Default => None,
        CellColor::Idx(i) => Some(
            match i {
                0 => Color::Black,
                1 => Color::Red,
                2 => Color::Green,
                3 => Color::Yellow,
                4 => Color::Blue,
                5 => Color::Magenta,
                6 => Color::Cyan,
                7 => Color::White,
                8 => Color::DarkGray,
                9 => Color::LightRed,
                10 => Color::LightGreen,
                11 => Color::LightYellow,
                12 => Color::LightBlue,
                13 => Color::LightMagenta,
                14 => Color::LightCyan,
                15 => Color::Gray,
                n => Color::Indexed(n),
            },
        ),
        CellColor::Rgb(r, g, b) => Some(Color::Rgb(r, g, b)),
    }
}

/// Translates the attributes of a terminal cell.
pub fn cell_to_style(cell: &Cell) -> (r: Style)
    ensures
        r == cell_style(cell.deep_view()),
{
    let mut style = Style::new();
    if let Some(fg) = vt100_color(cell.fg) {
        style.fg = Some(fg);
    }
    if let Some(bg) = vt100_color(cell.bg) {
        style.bg = Some(bg);
    }
    if cell.bold {
        style.bold = true;
    }
    if cell.italic {
        style.italic = true;
    }
    if cell.underline {
        style.underlined = true;
    }
    if cell.inverse {
        style.reversed = true;
    }
    style
}

} // verus!
