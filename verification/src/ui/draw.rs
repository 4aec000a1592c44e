//! Drawing instructions.

use vstd::prelude::*;

use crate::ui::layout::Area;
use crate::ui::style::{plain, Line, Span, SpanView, Style};

verus! {

/// The side of an area that a rule is drawn along.
#[derive(Debug, Clone, Copy, PartialEq, Eq, Structural)]
pub enum Side {
    Top,
    Left,
}

/// The text of a paragraph.
pub enum Body {
    /// Text in the style of the paragraph, with its line endings.
    Raw(String),
    /// Styled lines.
    Lines(Vec<Line>),
}

/// Something that is drawn in an area.
pub enum Widget {
    /// A border on all sides, with a title at the top left and a hint at the
    /// bottom right.
    Border { style: Style, title: Option<String>, hint: Option<String> },
    /// A border on one side.
    Rule { style: Style, side: Side },
    /// A paragraph that starts at the given line.
    Text { body: Body, style: Style, scroll: u16, wrap: bool, centered: bool },
    /// Tabs with a bar between them.
    Tabs { titles: Vec<String>, selected: usize, style: Style, highlight: Style },
    /// A list with a mark at the selected item.
    Items { items: Vec<Span>, selected: usize, highlight: Style },
    /// A scroll bar at the right.
    Scrollbar { style: Style, length: usize, position: usize },
    /// Nothing, over what was there before.
    Clear,
}

/// One drawing instruction.
pub enum Draw {
    /// Draw something in an area.
    Widget(Area, Widget),
    /// Show the cursor in a column and a row.
    Cursor(u16, u16),
}

/// The text of a paragraph.
pub enum BodyView {
    Raw(Seq<char>),
    Lines(Seq<Seq<SpanView>>),
}

/// What a widget shows.
pub enum WidgetView {
    Border { style: Style, title: Option<Seq<char>>, hint: Option<Seq<char>> },
    Rule { style: Style, side: Side },
    Text { body: BodyView, style: Style, scroll: u16, wrap: bool, centered: bool },
    Tabs { titles: Seq<Seq<char>>, selected: usize, style: Style, highlight: Style },
    Items { items: Seq<SpanView>, selected: usize, highlight: Style },
    Scrollbar { style: Style, length: usize, position: usize },
    Clear,
}

/// What a drawing instruction shows.
pub enum DrawView {
    Widget(Area, WidgetView),
    Cursor(u16, u16),
}

impl DeepView for Body {
    type V = BodyView;

    open spec fn deep_view(&self) -> BodyView {
        match *self {
            Body::Raw(s) => BodyView::Raw(s@),
            Body::Lines(lines) => BodyView::Lines(lines.deep_view()),
        }
    }
}

impl DeepView for Widget {
    type V = WidgetView;

    open spec fn deep_view(&self) -> WidgetView {
        match *self {
            Widget::Border { style, title, hint } => WidgetView::Border {
                style,
                title: title.deep_view(),
                hint: hint.deep_view(),
            },
            Widget::Rule { style, side } => WidgetView::Rule { style, side },
            Widget::Text { body, style, scroll, wrap, centered } => WidgetView::Text {
                body: body.deep_view(),
                style,
                scroll,
                wrap,
                centered,
            },
            Widget::Tabs { titles, selected, style, highlight } => WidgetView::Tabs {
                titles: titles.deep_view(),
                selected,
                style,
                highlight,
            },
            Widget::Items { items, selected, highlight } => WidgetView::Items {
                items: items.deep_view(),
                selected,
                highlight,
            },
            Widget::Scrollbar { style, length, position } => WidgetView::Scrollbar {
                style,
                length,
                position,
            },
            Widget::Clear => WidgetView::Clear,
        }
    }
}

impl DeepView for Draw {
    type V = DrawView;

    open spec fn deep_view(&self) -> DrawView {
        match *self {
            Draw::Widget(area, w) => DrawView::Widget(area, w.deep_view()),
            Draw::Cursor(x, y) => DrawView::Cursor(x, y),
        }
    }
}

/// A paragraph of text that is neither scrolled nor wrapped.
pub open spec fn note(area: Area, text: Seq<char>, style: Style) -> DrawView {
    DrawView::Widget(
        area,
        WidgetView::Text {
            body: BodyView::Raw(text),
            style,
            scroll: 0,
            wrap: false,
            centered: false,
        },
    )
}

/// Lines that are neither scrolled nor wrapped.
pub open spec fn block_of_lines(area: Area, lines: Seq<Seq<SpanView>>) -> DrawView {
    DrawView::Widget(
        area,
        WidgetView::Text {
            body: BodyView::Lines(lines),
            style: plain(),
            scroll: 0,
            wrap: false,
            centered: false,
        },
    )
}

/// Draws a paragraph of text that is neither scrolled nor wrapped.
pub fn draw_note(area: Area, text: String, style: Style) -> (r: Draw)
    ensures
        r.deep_view() == note(area, text@, style),
{
    Draw::Widget(
        area,
        Widget::Text { body: Body::Raw(text), style, scroll: 0, wrap: false, centered: false },
    )
}

/// Draws lines that are neither scrolled nor wrapped.
pub fn draw_lines(area: Area, lines: Vec<Line>) -> (r: Draw)
    ensures
        r.deep_view() == block_of_lines(area, lines.deep_view()),
{
    Draw::Widget(
        area,
        Widget::Text {
            body: Body::Lines(lines),
            style: Style::new(),
            scroll: 0,
            wrap: false,
            centered: false,
        },
    )
}

/// Adds a drawing instruction.
pub fn add_draw(out: &mut Vec<Draw>, d: Draw)
    ensures
        final(out).deep_view() == old(out).deep_view().push(d.deep_view()),
{
    out.push(d);
    assert(out.deep_view() =~= old(out).deep_view().push(d.deep_view()));
}

/// Adds drawing instructions.
pub fn add_draws(out: &mut Vec<Draw>, more: Vec<Draw>)
    ensures
        final(out).deep_view() == old(out).deep_view() + more.deep_view(),
{
    let mut more = more;
    let ghost tail = more.deep_view();
    out.append(&mut more);
    assert(out.deep_view() =~= old(out).deep_view() + tail);
}

} // verus!
