//! The pane that shows the state of the repository.

use vstd::prelude::*;

use crate::app::{lists_path, listed, GitTab, Window};
use crate::git::types::{number, BranchView, FileDiffView, RowView, WorktreeView};
use crate::git::{FileDiff, SbsKind, SbsRow};
use crate::text::{
    count_lines, decimal, lines, split_lines, starts_with, to_chars, to_decimal, to_text, views,
};
use crate::ui::draw::{
    add_draw, add_draws, block_of_lines, draw_lines, draw_note, note, Body, BodyView, Draw,
    DrawView, Side, Widget, WidgetView,
};
use crate::ui::layout::{
    in_four, in_three, in_two, inside_border, split_four, split_three, split_two, Area, Axis,
    Part,
};
use crate::ui::style::{
    bold_colored, colored, one_span, plain, span, two_spans, Color, Line, Span, SpanView, Style,
};

verus! {

/// The style of a line of a diff.
pub open spec fn diff_line_style(line: Seq<char>) -> Style {
    if "+"@.is_prefix_of(line) && !"+++"@.is_prefix_of(line) {
        colored(Color::Green)
    } else if "-"@.is_prefix_of(line) && !"---"@.is_prefix_of(line) {
        colored(Color::Red)
    } else if "@@"@.is_prefix_of(line) {
        colored(Color::Cyan)
    } else if "diff "@.is_prefix_of(line) || "index "@.is_prefix_of(line) {
        bold_colored(Color::Blue)
    } else {
        plain()
    }
}

/// Colours a line of a diff.
pub fn color_diff_line(line: &[char]) -> (r: Line)
    ensures
        r.deep_view() == seq![span(line@, diff_line_style(line@))],
{
    let style = if starts_with(line, "+") && !starts_with(line, "+++") {
        Style::color(Color::Green)
    } else if starts_with(line, "-") && !starts_with(line, "---") {
        Style::color(Color::Red)
    } else if starts_with(line, "@@") {
        Style::color(Color::Cyan)
    } else if starts_with(line, "diff ") || starts_with(line, "index ") {
        Style::bold_color(Color::Blue)
    } else {
        Style::new()
    };
    one_span(to_text(line), style)
}

/// Text set against the right of a field of `width` characters.
pub open spec fn padded(text: Seq<char>, width: nat) -> Seq<char> {
    if text.len() < width {
        Seq::new((width - text.len()) as nat, |i: int| ' ') + text
    } else {
        text
    }
}

/// A line number as it stands before a line, and a space.
pub open spec fn gutter(no: Option<nat>, width: nat) -> Seq<char> {
    padded(
        match no {
            Some(n) => decimal(n),
            None => Seq::empty(),
        },
        width,
    ).push(' ')
}

fn make_gutter(no: Option<usize>, width: usize) -> (r: String)
    ensures
        r@ == gutter(number(no), width as nat),
{
    let digits: Vec<char> = match no {
        Some(n) => to_decimal(n),
        None => Vec::new(),
    };
    let mut r = String::new();
    let fill: usize = width.saturating_sub(digits.len());
    let mut i: usize = 0;
    while i < fill
        invariant
            i <= fill,
            r@ == Seq::new(i as nat, |j: int| ' '),
        decreases fill - i,
    {
        r.push(' ');
        i = i + 1;
        assert(r@ =~= Seq::new(i as nat, |j: int| ' '));
    }
    r.append(to_text(digits.as_slice()).as_str());
    assert(r@ =~= padded(digits@, width as nat));
    r.push(' ');
    assert(no is None ==> digits@ =~= Seq::<char>::empty());
    r
}

/// A line with its number before it.
pub open spec fn numbered(no: Option<nat>, width: nat, text: Seq<char>, style: Style) -> Seq<
    SpanView,
> {
    seq![span(gutter(no, width), colored(Color::DarkGray)), span(text, style)]
}

/// An empty line.
pub open spec fn blank() -> Seq<SpanView> {
    seq![span(""@, plain())]
}

/// The left half of a side-by-side row.
pub open spec fn left_half(row: RowView, width: nat) -> Seq<SpanView> {
    match row.kind {
        SbsKind::Header => seq![span(row.left, bold_colored(Color::Blue))],
        SbsKind::Context => numbered(row.left_no, width, row.left, plain()),
        SbsKind::Removed => numbered(row.left_no, width, row.left, colored(Color::Red)),
        SbsKind::Added => blank(),
        SbsKind::Changed => numbered(row.left_no, width, row.left, colored(Color::Red)),
    }
}

/// The right half of a side-by-side row.
pub open spec fn right_half(row: RowView, width: nat) -> Seq<SpanView> {
    match row.kind {
        SbsKind::Header => seq![span(row.right, bold_colored(Color::Blue))],
        SbsKind::Context => numbered(row.right_no, width, row.right, plain()),
        SbsKind::Removed => blank(),
        SbsKind::Added => numbered(row.right_no, width, row.right, colored(Color::Green)),
        SbsKind::Changed => numbered(row.right_no, width, row.right, colored(Color::Green)),
    }
}

fn numbered_line(no: Option<usize>, width: usize, text: String, style: Style) -> (r: Line)
    ensures
        r.deep_view() == numbered(number(no), width as nat, text@, style),
{
    two_spans(make_gutter(no, width), Style::color(Color::DarkGray), text, style)
}

/// Sets a side-by-side row with line numbers of the given width.
pub fn sbs_row_to_lines(row: &SbsRow, no_w: usize) -> (r: (Line, Line))
    ensures
        r.0.deep_view() == left_half(row.deep_view(), no_w as nat),
        r.1.deep_view() == right_half(row.deep_view(), no_w as nat),
{
    let empty = "".to_string();
    match row.kind {
        SbsKind::Header => {
            let s = Style::bold_color(Color::Blue);
            (one_span(row.left.clone(), s), one_span(row.right.clone(), s))
        },
        SbsKind::Context => (
            numbered_line(row.left_no, no_w, row.left.clone(), Style::new()),
            numbered_line(row.right_no, no_w, row.right.clone(), Style::new()),
        ),
        SbsKind::Removed => (
            numbered_line(row.left_no, no_w, row.left.clone(), Style::color(Color::Red)),
            one_span(empty, Style::new()),
        ),
        SbsKind::Added => (
            one_span(empty, Style::new()),
            numbered_line(row.right_no, no_w, row.right.clone(), Style::color(Color::Green)),
        ),
        SbsKind::Changed => (
            numbered_line(row.left_no, no_w, row.left.clone(), Style::color(Color::Red)),
            numbered_line(row.right_no, no_w, row.right.clone(), Style::color(Color::Green)),
        ),
    }
}

/// The larger of a line number and another number.
pub open spec fn larger(no: Option<nat>, other: Option<nat>) -> Option<nat> {
    match (no, other) {
        (Some(a), Some(b)) => Some(
            if a < b {
                b
            } else {
                a
            },
        ),
        (Some(a), None) => Some(a),
        (None, b) => b,
    }
}

/// The largest line number in the rows, if there is one.
pub open spec fn largest_number(rows: Seq<RowView>) -> Option<nat>
    decreases rows.len(),
{
    if rows.len() == 0 {
        None
    } else {
        larger(
            rows.last().right_no,
            larger(rows.last().left_no, largest_number(rows.drop_last())),
        )
    }
}

/// How many characters the line numbers of the rows need.
pub open spec fn gutter_width(rows: Seq<RowView>) -> nat {
    match largest_number(rows) {
        Some(n) => decimal(n).len(),
        None => 1,
    }
}

fn pick_larger(no: Option<usize>, other: Option<usize>) -> (r: Option<usize>)
    ensures
        number(r) == larger(number(no), number(other)),
{
    match (no, other) {
        (Some(a), Some(b)) => if a < b {
            Some(b)
        } else {
            Some(a)
        },
        (Some(a), None) => Some(a),
        (None, b) => b,
    }
}

fn number_width(rows: &Vec<SbsRow>) -> (r: usize)
    ensures
        r == gutter_width(rows.deep_view()),
{
    let ghost all = rows.deep_view();
    let mut max: Option<usize> = None;
    let mut i: usize = 0;
    assert(all.take(0) =~= Seq::<RowView>::empty());
    while i < rows.len()
        invariant
            i <= rows@.len(),
            all == rows.deep_view(),
            number(max) == largest_number(all.take(i as int)),
        decreases rows@.len() - i,
    {
        assert(all[i as int] == rows@[i as int].deep_view());
        assert(all.take(i + 1).drop_last() =~= all.take(i as int));
        max = pick_larger(rows[i].right_no, pick_larger(rows[i].left_no, max));
        i = i + 1;
    }
    assert(all.take(i as int) =~= all);
    match max {
        Some(n) => to_decimal(n).len(),
        None => 1,
    }
}

/// The part of a list that shows in `height` lines from line `scroll` on.
pub open spec fn in_view<T>(all: Seq<T>, scroll: u16, height: u16) -> Seq<T> {
    let end = if scroll + height < all.len() {
        scroll + height
    } else {
        all.len() as int
    };
    if scroll <= end {
        all.subrange(scroll as int, end)
    } else {
        Seq::empty()
    }
}

/// How far `count` lines scroll in an area, and how far they have.
pub open spec fn scroll_widget(count: nat, area: Area, scroll: u16, style: Style) -> WidgetView {
    WidgetView::Scrollbar {
        style,
        length: if count < area.height {
            0
        } else {
            (count - area.height) as usize
        },
        position: scroll as usize,
    }
}

fn make_scrollbar(count: usize, area: Area, scroll: u16, style: Style) -> (r: Widget)
    ensures
        r.deep_view() == scroll_widget(count as nat, area, scroll, style),
{
    Widget::Scrollbar {
        style,
        length: count.saturating_sub(area.height as usize),
        position: scroll as usize,
    }
}

/// Text in `text_area` with a scroll bar in `bar_area`.
pub open spec fn text_picture(
    content: Seq<char>,
    scroll: u16,
    text_area: Area,
    bar_area: Area,
    style: Style,
) -> Seq<DrawView> {
    seq![
        DrawView::Widget(
            text_area,
            WidgetView::Text {
                body: BodyView::Raw(content),
                style: plain(),
                scroll,
                wrap: true,
                centered: false,
            },
        ),
        DrawView::Widget(
            bar_area,
            scroll_widget(lines(content).len(), text_area, scroll, style),
        ),
    ]
}

/// A diff in `text_area` with a scroll bar in `bar_area`.
pub open spec fn unified_picture(
    content: Seq<char>,
    scroll: u16,
    text_area: Area,
    bar_area: Area,
    style: Style,
) -> Seq<DrawView> {
    seq![
        DrawView::Widget(
            text_area,
            WidgetView::Text {
                body: BodyView::Lines(
                    lines(content).map_values(
                        |line: Seq<char>| seq![span(line, diff_line_style(line))],
                    ),
                ),
                style: plain(),
                scroll,
                wrap: true,
                centered: false,
            },
        ),
        DrawView::Widget(
            bar_area,
            scroll_widget(lines(content).len(), text_area, scroll, style),
        ),
    ]
}

/// A side-by-side diff: the two halves of the rows in view, a rule between them
/// and a scroll bar.
pub open spec fn sbs_picture(
    rows: Seq<RowView>,
    scroll: u16,
    left_area: Area,
    div_area: Area,
    right_area: Area,
    bar_area: Area,
    style: Style,
) -> Seq<DrawView> {
    let shown = in_view(rows, scroll, left_area.height);
    let width = gutter_width(rows);
    seq![
        DrawView::Widget(div_area, WidgetView::Rule { style, side: Side::Left }),
        block_of_lines(left_area, shown.map_values(|row: RowView| left_half(row, width))),
        block_of_lines(right_area, shown.map_values(|row: RowView| right_half(row, width))),
        DrawView::Widget(bar_area, scroll_widget(rows.len(), left_area, scroll, style)),
    ]
}

/// The parts of an area that has a scroll bar at its right.
pub open spec fn text_parts() -> Seq<Part> {
    seq![Part::Min(0), Part::Length(1)]
}

/// The parts of an area for a side-by-side diff.
pub open spec fn sbs_parts() -> Seq<Part> {
    seq![Part::Percentage(50), Part::Length(1), Part::Percentage(50), Part::Length(1)]
}

/// Whether `out` shows text with a scroll bar in an area.
pub open spec fn text_drawn(
    content: Seq<char>,
    scroll: u16,
    area: Area,
    style: Style,
    out: Seq<DrawView>,
) -> bool {
    exists|a: Area, b: Area|
        in_two(area, Axis::Across, text_parts(), a, b) && out == text_picture(
            content,
            scroll,
            a,
            b,
            style,
        )
}

/// Whether `out` shows a diff with a scroll bar in an area.
pub open spec fn unified_drawn(
    content: Seq<char>,
    scroll: u16,
    area: Area,
    style: Style,
    out: Seq<DrawView>,
) -> bool {
    exists|a: Area, b: Area|
        in_two(area, Axis::Across, text_parts(), a, b) && out == unified_picture(
            content,
            scroll,
            a,
            b,
            style,
        )
}

/// Whether `out` shows a side-by-side diff in an area.
pub open spec fn sbs_drawn(
    rows: Seq<RowView>,
    scroll: u16,
    area: Area,
    style: Style,
    out: Seq<DrawView>,
) -> bool {
    exists|a: Area, b: Area, c: Area, d: Area|
        in_four(area, Axis::Across, sbs_parts(), a, b, c, d) && out == sbs_picture(
            rows,
            scroll,
            a,
            b,
            c,
            d,
            style,
        )
}

/// Draws text in one area and its scroll bar in another.
pub fn draw_text(content: &str, scroll: u16, text_area: Area, bar_area: Area, style: Style) -> (r:
    Vec<Draw>)
    ensures
        r.deep_view() == text_picture(content@, scroll, text_area, bar_area, style),
{
    let line_count: usize = count_lines(content);
    let mut out: Vec<Draw> = Vec::new();
    add_draw(
        &mut out,
        Draw::Widget(
            text_area,
            Widget::Text {
                body: Body::Raw(content.to_string()),
                style: Style::new(),
                scroll,
                wrap: true,
                centered: false,
            },
        ),
    );
    add_draw(
        &mut out,
        Draw::Widget(bar_area, make_scrollbar(line_count, text_area, scroll, style)),
    );
    assert(out.deep_view() =~= text_picture(content@, scroll, text_area, bar_area, style));
    out
}

/// Draws text with a scroll bar.
pub fn render_scrollable_text(content: &str, scroll: u16, area: Area, border_style: Style) -> (r:
    Vec<Draw>)
    ensures
        text_drawn(content@, scroll, area, border_style, r.deep_view()),
{
    let (text_area, bar_area) = split_two(Axis::Across, Part::Min(0), Part::Length(1), area);
    draw_text(content, scroll, text_area, bar_area, border_style)
}

/// Draws a diff in one area and its scroll bar in another.
pub fn draw_unified_diff(
    content: &str,
    scroll: u16,
    text_area: Area,
    bar_area: Area,
    style: Style,
) -> (r: Vec<Draw>)
    ensures
        r.deep_view() == unified_picture(content@, scroll, text_area, bar_area, style),
{
    let cs = to_chars(content);
    let raw = split_lines(cs.as_slice());
    let ghost colour = |line: Seq<char>| seq![span(line, diff_line_style(line))];
    let ghost want = lines(content@).map_values(colour);
    assert(views(raw@).len() == raw@.len());
    let mut colored_lines: Vec<Line> = Vec::new();
    let mut i: usize = 0;
    assert(colored_lines.deep_view() =~= want.take(0));
    while i < raw.len()
        invariant
            i <= raw@.len(),
            views(raw@) == lines(content@),
            raw@.len() == lines(content@).len(),
            want == lines(content@).map_values(colour),
            colour == (|line: Seq<char>| seq![span(line, diff_line_style(line))]),
            colored_lines.deep_view() == want.take(i as int),
        decreases raw@.len() - i,
    {
        let ghost before = colored_lines.deep_view();
        let line = color_diff_line(raw[i]);
        assert(views(raw@)[i as int] == raw@[i as int]@);
        colored_lines.push(line);
        assert(colored_lines.deep_view() =~= before.push(line.deep_view()));
        i = i + 1;
        assert(want.take(i as int) =~= before.push(want[i - 1]));
    }
    assert(want.take(i as int) =~= want);
    let line_count: usize = colored_lines.len();
    let mut out: Vec<Draw> = Vec::new();
    add_draw(
        &mut out,
        Draw::Widget(
            text_area,
            Widget::Text {
                body: Body::Lines(colored_lines),
                style: Style::new(),
                scroll,
                wrap: true,
                centered: false,
            },
        ),
    );
    assert(line_count == lines(content@).len());
    add_draw(
        &mut out,
        Draw::Widget(bar_area, make_scrollbar(line_count, text_area, scroll, style)),
    );
    assert(out.deep_view() =~= unified_picture(content@, scroll, text_area, bar_area, style));
    out
}

/// Draws a diff with a scroll bar.
pub fn render_unified_diff(content: &str, scroll: u16, area: Area, border_style: Style) -> (r: Vec<
    Draw,
>)
    ensures
        unified_drawn(content@, scroll, area, border_style, r.deep_view()),
{
    let (text_area, bar_area) = split_two(Axis::Across, Part::Min(0), Part::Length(1), area);
    draw_unified_diff(content, scroll, text_area, bar_area, border_style)
}

/// Draws a side-by-side diff in the given areas.
pub fn draw_sbs(
    fd: &FileDiff,
    scroll: u16,
    left_area: Area,
    div_area: Area,
    right_area: Area,
    bar_area: Area,
    style: Style,
) -> (r: Vec<Draw>)
    ensures
        r.deep_view() == sbs_picture(
            fd.deep_view().sbs,
            scroll,
            left_area,
            div_area,
            right_area,
            bar_area,
            style,
        ),
{
    let rows = &fd.sbs;
    let ghost all = rows.deep_view();
    let total: usize = rows.len();
    let no_w: usize = number_width(rows);
    let ghost w = no_w as nat;
    let height: usize = left_area.height as usize;
    let start: usize = scroll as usize;
    let end: usize = (start + height).min(total);
    let ghost shown = in_view(all, scroll, left_area.height);
    let ghost lefts = shown.map_values(|row: RowView| left_half(row, w));
    let ghost rights = shown.map_values(|row: RowView| right_half(row, w));
    let mut ll: Vec<Line> = Vec::new();
    let mut rl: Vec<Line> = Vec::new();
    let mut i: usize = start;
    assert(ll.deep_view() =~= lefts.take(0));
    assert(rl.deep_view() =~= rights.take(0));
    while i < end
        invariant
            start <= i,
            start <= end ==> i <= end,
            end <= rows@.len(),
            all == rows.deep_view(),
            start <= end ==> shown == all.subrange(start as int, end as int),
            lefts == shown.map_values(|row: RowView| left_half(row, w)),
            rights == shown.map_values(|row: RowView| right_half(row, w)),
            w == no_w,
            start <= end ==> ll.deep_view() == lefts.take(i - start),
            start <= end ==> rl.deep_view() == rights.take(i - start),
            start > end ==> i == start && ll@.len() == 0 && rl@.len() == 0,
        decreases end - i,
    {
        let ghost before_l = ll.deep_view();
        let ghost before_r = rl.deep_view();
        let (l, r) = sbs_row_to_lines(&rows[i], no_w);
        assert(all[i as int] == rows@[i as int].deep_view());
        ll.push(l);
        rl.push(r);
        assert(ll.deep_view() =~= before_l.push(l.deep_view()));
        assert(rl.deep_view() =~= before_r.push(r.deep_view()));
        i = i + 1;
        assert(lefts.take(i - start) =~= before_l.push(lefts[i - 1 - start]));
        assert(rights.take(i - start) =~= before_r.push(rights[i - 1 - start]));
    }
    assert(ll.deep_view() =~= lefts);
    assert(rl.deep_view() =~= rights);
    let mut out: Vec<Draw> = Vec::new();
    add_draw(&mut out, Draw::Widget(div_area, Widget::Rule { style, side: Side::Left }));
    add_draw(&mut out, draw_lines(left_area, ll));
    add_draw(&mut out, draw_lines(right_area, rl));
    add_draw(&mut out, Draw::Widget(bar_area, make_scrollbar(total, left_area, scroll, style)));
    assert(out.deep_view() =~= sbs_picture(
        all,
        scroll,
        left_area,
        div_area,
        right_area,
        bar_area,
        style,
    ));
    out
}

/// Draws a side-by-side diff.
pub fn render_sbs(fd: &FileDiff, scroll: u16, area: Area, border_style: Style) -> (r: Vec<Draw>)
    ensures
        sbs_drawn(fd.deep_view().sbs, scroll, area, border_style, r.deep_view()),
{
    let (left_area, div_area, right_area, bar_area) = split_four(
        Axis::Across,
        Part::Percentage(50),
        Part::Length(1),
        Part::Percentage(50),
        Part::Length(1),
        area,
    );
    draw_sbs(fd, scroll, left_area, div_area, right_area, bar_area, border_style)
}

/// How the selected item of a list looks.
pub open spec fn selection() -> Style {
    Style { reversed: true, ..bold_colored(Color::Blue) }
}

fn selection_style() -> (r: Style)
    ensures
        r == selection(),
{
    let mut s = Style::bold_color(Color::Blue);
    s.reversed = true;
    s
}

/// The worktrees tab: the names of the worktrees, marked where a window is open.
pub open spec fn worktrees_picture<S>(
    win: Window<S>,
    area: Area,
    open_paths: Seq<Seq<char>>,
) -> Seq<DrawView> {
    if win.git_worktrees@.len() == 0 {
        seq![note(area, "No worktrees found."@, plain())]
    } else {
        seq![
            DrawView::Widget(
                area,
                WidgetView::Items {
                    items: win.git_worktrees.deep_view().map_values(
                        |wt: WorktreeView|
                            span(
                                if listed(open_paths, wt.path) {
                                    wt.name + " [open]"@
                                } else {
                                    wt.name
                                },
                                plain(),
                            ),
                    ),
                    selected: win.worktree_selected,
                    highlight: selection(),
                },
            ),
        ]
    }
}

/// The branches tab: the names of the branches, the current one marked.
pub open spec fn branches_picture<S>(win: Window<S>, area: Area) -> Seq<DrawView> {
    if win.git_branches@.len() == 0 {
        seq![note(area, "No branches found."@, plain())]
    } else {
        seq![
            DrawView::Widget(
                area,
                WidgetView::Items {
                    items: win.git_branches.deep_view().map_values(
                        |b: BranchView|
                            if b.is_current {
                                span("* "@ + b.name, bold_colored(Color::Green))
                            } else {
                                span("  "@ + b.name, plain())
                            },
                    ),
                    selected: win.branch_selected,
                    highlight: selection(),
                },
            ),
        ]
    }
}

/// Draws the worktrees tab.
pub fn render_worktrees_tab<S>(win: &Window<S>, area: Area, open_paths: &Vec<String>) -> (r: Vec<
    Draw,
>)
    ensures
        r.deep_view() == worktrees_picture(*win, area, open_paths.deep_view()),
{
    let mut out: Vec<Draw> = Vec::new();
    let ghost paths = open_paths.deep_view();
    assert(win.git_worktrees.len() == win.git_worktrees@.len());
    if win.git_worktrees.is_empty() {
        add_draw(&mut out, draw_note(area, "No worktrees found.".to_string(), Style::new()));
        assert(out.deep_view() =~= worktrees_picture(*win, area, paths));
        return out;
    }
    let ghost label = |wt: WorktreeView|
        span(
            if listed(paths, wt.path) {
                wt.name + " [open]"@
            } else {
                wt.name
            },
            plain(),
        );
    let ghost all = win.git_worktrees.deep_view();
    let ghost want = all.map_values(label);
    let mut items: Vec<Span> = Vec::new();
    let mut i: usize = 0;
    assert(items.deep_view() =~= want.take(0));
    while i < win.git_worktrees.len()
        invariant
            i <= win.git_worktrees@.len(),
            all == win.git_worktrees.deep_view(),
            paths == open_paths.deep_view(),
            want == all.map_values(label),
            label == (|wt: WorktreeView|
                span(
                    if listed(paths, wt.path) {
                        wt.name + " [open]"@
                    } else {
                        wt.name
                    },
                    plain(),
                )),
            items.deep_view() == want.take(i as int),
        decreases win.git_worktrees@.len() - i,
    {
        let wt = &win.git_worktrees[i];
        let ghost before = items.deep_view();
        assert(all[i as int] == wt.deep_view());
        let content = if lists_path(open_paths, wt.path.as_str()) {
            wt.name.clone().concat(" [open]")
        } else {
            wt.name.clone()
        };
        let item = Span { content, style: Style::new() };
        items.push(item);
        assert(items.deep_view() =~= before.push(item.deep_view()));
        i = i + 1;
        assert(want.take(i as int) =~= before.push(want[i - 1]));
    }
    assert(want.take(i as int) =~= want);
    add_draw(
        &mut out,
        Draw::Widget(
            area,
            Widget::Items { items, selected: win.worktree_selected, highlight: selection_style() },
        ),
    );
    assert(out.deep_view() =~= worktrees_picture(*win, area, paths));
    out
}

/// Draws the branches tab.
pub fn render_branches_tab<S>(win: &Window<S>, area: Area) -> (r: Vec<Draw>)
    ensures
        r.deep_view() == branches_picture(*win, area),
{
    let mut out: Vec<Draw> = Vec::new();
    assert(win.git_branches.len() == win.git_branches@.len());
    if win.git_branches.is_empty() {
        add_draw(&mut out, draw_note(area, "No branches found.".to_string(), Style::new()));
        assert(out.deep_view() =~= branches_picture(*win, area));
        return out;
    }
    let ghost label = |b: BranchView|
        if b.is_current {
            span("* "@ + b.name, bold_colored(Color::Green))
        } else {
            span("  "@ + b.name, plain())
        };
    let ghost all = win.git_branches.deep_view();
    let ghost want = all.map_values(label);
    let mut items: Vec<Span> = Vec::new();
    let mut i: usize = 0;
    assert(items.deep_view() =~= want.take(0));
    while i < win.git_branches.len()
        invariant
            i <= win.git_branches@.len(),
            all == win.git_branches.deep_view(),
            want == all.map_values(label),
            label == (|b: BranchView|
                if b.is_current {
                    span("* "@ + b.name, bold_colored(Color::Green))
                } else {
                    span("  "@ + b.name, plain())
                }),
            items.deep_view() == want.take(i as int),
        decreases win.git_branches@.len() - i,
    {
        let b = &win.git_branches[i];
        let ghost before = items.deep_view();
        assert(all[i as int] == b.deep_view());
        let marker = if b.is_current { "* " } else { "  " };
        let style = if b.is_current {
            Style::bold_color(Color::Green)
        } else {
            Style::new()
        };
        let item = Span { content: marker.to_string().concat(b.name.as_str()), style };
        items.push(item);
        assert(items.deep_view() =~= before.push(item.deep_view()));
        i = i + 1;
        assert(want.take(i as int) =~= before.push(want[i - 1]));
    }
    assert(want.take(i as int) =~= want);
    add_draw(
        &mut out,
        Draw::Widget(
            area,
            Widget::Items { items, selected: win.branch_selected, highlight: selection_style() },
        ),
    );
    assert(out.deep_view() =~= branches_picture(*win, area));
    out
}

/// Whether `out` shows the selected file of the diff in an area: side by side in
/// full screen, as git printed it otherwise.
pub open spec fn file_drawn<S>(
    win: Window<S>,
    area: Area,
    style: Style,
    out: Seq<DrawView>,
) -> bool {
    if win.diff_file_idx < win.file_diffs@.len() {
        let fd = win.file_diffs@[win.diff_file_idx as int].deep_view();
        if win.fullscreen {
            sbs_drawn(fd.sbs, win.diff_content_scroll, area, style, out)
        } else {
            unified_drawn(fd.content, win.diff_content_scroll, area, style, out)
        }
    } else {
        out == Seq::<DrawView>::empty()
    }
}

/// The list of changed files and the rule beside it.
pub open spec fn file_list_picture<S>(
    win: Window<S>,
    list_area: Area,
    div_area: Area,
    style: Style,
) -> Seq<DrawView> {
    seq![
        DrawView::Widget(
            list_area,
            WidgetView::Items {
                items: win.file_diffs.deep_view().map_values(
                    |f: FileDiffView| span(f.filename, plain()),
                ),
                selected: win.diff_file_idx,
                highlight: selection(),
            },
        ),
        DrawView::Widget(div_area, WidgetView::Rule { style, side: Side::Left }),
    ]
}

/// The parts of the diff tab when the list of files shows.
pub open spec fn diff_parts() -> Seq<Part> {
    seq![Part::Percentage(20), Part::Length(1), Part::Min(0)]
}

/// Whether `out` shows the diff tab in an area: the selected file and, unless it
/// is switched off, the list of files.
pub open spec fn diff_drawn<S>(
    win: Window<S>,
    area: Area,
    focused: bool,
    style: Style,
    out: Seq<DrawView>,
) -> bool {
    if win.file_diffs@.len() == 0 {
        out == seq![
            note(
                area,
                if focused {
                    "No changes in working tree."@
                } else {
                    ""@
                },
                plain(),
            ),
        ]
    } else if win.diff_show_list {
        exists|a: Area, b: Area, c: Area, rest: Seq<DrawView>|
            #![trigger in_three(area, Axis::Across, diff_parts(), a, b, c), file_drawn(
                win,
                c,
                style,
                rest,
            )]
            in_three(area, Axis::Across, diff_parts(), a, b, c) && file_drawn(
                win,
                c,
                style,
                rest,
            ) && out == file_list_picture(win, a, b, style) + rest
    } else {
        file_drawn(win, area, style, out)
    }
}

/// Draws the list of changed files and the rule beside it.
pub fn draw_file_list<S>(win: &Window<S>, list_area: Area, div_area: Area, style: Style) -> (r: Vec<
    Draw,
>)
    ensures
        r.deep_view() == file_list_picture(*win, list_area, div_area, style),
{
    let ghost label = |f: FileDiffView| span(f.filename, plain());
    let ghost all = win.file_diffs.deep_view();
    let ghost want = all.map_values(label);
    let mut items: Vec<Span> = Vec::new();
    let mut i: usize = 0;
    assert(items.deep_view() =~= want.take(0));
    while i < win.file_diffs.len()
        invariant
            i <= win.file_diffs@.len(),
            all == win.file_diffs.deep_view(),
            want == all.map_values(label),
            label == (|f: FileDiffView| span(f.filename, plain())),
            items.deep_view() == want.take(i as int),
        decreases win.file_diffs@.len() - i,
    {
        let ghost before = items.deep_view();
        assert(all[i as int] == win.file_diffs@[i as int].deep_view());
        let item = Span { content: win.file_diffs[i].filename.clone(), style: Style::new() };
        items.push(item);
        assert(items.deep_view() =~= before.push(item.deep_view()));
        i = i + 1;
        assert(want.take(i as int) =~= before.push(want[i - 1]));
    }
    assert(want.take(i as int) =~= want);
    let mut out: Vec<Draw> = Vec::new();
    add_draw(
        &mut out,
        Draw::Widget(
            list_area,
            Widget::Items { items, selected: win.diff_file_idx, highlight: selection_style() },
        ),
    );
    add_draw(&mut out, Draw::Widget(div_area, Widget::Rule { style, side: Side::Left }));
    assert(out.deep_view() =~= file_list_picture(*win, list_area, div_area, style));
    out
}

fn render_file<S>(win: &Window<S>, area: Area, style: Style) -> (r: Vec<Draw>)
    ensures
        file_drawn(*win, area, style, r.deep_view()),
{
    if win.diff_file_idx < win.file_diffs.len() {
        let fd = &win.file_diffs[win.diff_file_idx];
        if win.fullscreen {
            render_sbs(fd, win.diff_content_scroll, area, style)
        } else {
            render_unified_diff(fd.content.as_str(), win.diff_content_scroll, area, style)
        }
    } else {
        let r: Vec<Draw> = Vec::new();
        assert(r.deep_view() =~= Seq::<DrawView>::empty());
        r
    }
}

/// Draws the diff tab.
pub fn render_diff_tab<S>(win: &Window<S>, area: Area, focused: bool, border_style: Style) -> (r:
    Vec<Draw>)
    ensures
        diff_drawn(*win, area, focused, border_style, r.deep_view()),
{
    assert(win.file_diffs.len() == win.file_diffs@.len());
    if win.file_diffs.is_empty() {
        let text = if focused { "No changes in working tree." } else { "" };
        let mut out: Vec<Draw> = Vec::new();
        add_draw(&mut out, draw_note(area, text.to_string(), Style::new()));
        assert(out.deep_view() =~= seq![note(area, text@, plain())]);
        return out;
    }
    if win.diff_show_list {
        let (list_area, div_area, content_area) = split_three(
            Axis::Across,
            Part::Percentage(20),
            Part::Length(1),
            Part::Min(0),
            area,
        );
        let mut out = draw_file_list(win, list_area, div_area, border_style);
        assert(in_three(
            area,
            Axis::Across,
            diff_parts(),
            list_area,
            div_area,
            content_area,
        ));
        let rest = render_file(win, content_area, border_style);
        assert(file_drawn(*win, content_area, border_style, rest.deep_view()));
        add_draws(&mut out, rest);
        out
    } else {
        render_file(win, area, border_style)
    }
}

/// The keys that are named at the bottom of the git pane.
pub open spec fn git_hint(tab: GitTab, fullscreen: bool) -> Seq<char> {
    match (tab, fullscreen) {
        (GitTab::Diff, true) => " ↑↓/j/k scroll  e explorer  ^F exit fullscreen  ^R refresh "@,
        (GitTab::Diff, false) =>
            " ←→ tabs  ↑↓ file  j/k scroll  e explorer  ^F fullscreen  ^R refresh "@,
        (GitTab::Worktrees, _) =>
            " ←→ tabs  ↑↓ select  Enter open  ^T new  d delete  ^R refresh "@,
        (GitTab::Branches, _) => " ←→ tabs  ↑↓ select  d delete  ^R refresh "@,
        (GitTab::Log, _) => " ←→ tabs  ↑↓ scroll  ^R refresh "@,
    }
}

/// The frame of the git pane: its border, the tabs and the rule below them.
pub open spec fn git_frame<S>(
    win: Window<S>,
    area: Area,
    tabs_area: Area,
    sep_area: Area,
    focused: bool,
    style: Style,
) -> Seq<DrawView> {
    seq![
        DrawView::Widget(
            area,
            WidgetView::Border {
                style,
                title: None,
                hint: Some(
                    if focused {
                        git_hint(win.git_tab, win.fullscreen)
                    } else {
                        ""@
                    },
                ),
            },
        ),
        DrawView::Widget(
            tabs_area,
            WidgetView::Tabs {
                titles: seq![
                    GitTab::Diff.label(),
                    GitTab::Worktrees.label(),
                    GitTab::Branches.label(),
                    GitTab::Log.label(),
                ],
                selected: win.git_tab.place() as usize,
                style: if focused {
                    colored(Color::Blue)
                } else {
                    colored(Color::DarkGray)
                },
                highlight: Style { underlined: true, ..bold_colored(Color::Blue) },
            },
        ),
        DrawView::Widget(sep_area, WidgetView::Rule { style, side: Side::Top }),
    ]
}

/// Whether `out` shows the current tab in an area.
pub open spec fn tab_drawn<S>(
    win: Window<S>,
    area: Area,
    focused: bool,
    style: Style,
    open_paths: Seq<Seq<char>>,
    out: Seq<DrawView>,
) -> bool {
    match win.git_tab {
        GitTab::Diff => diff_drawn(win, area, focused, style, out),
        GitTab::Worktrees => out == worktrees_picture(win, area, open_paths),
        GitTab::Branches => out == branches_picture(win, area),
        GitTab::Log => text_drawn(win.tab_text(), win.scroll(), area, style, out),
    }
}

/// The parts of the inside of the git pane.
pub open spec fn git_parts() -> Seq<Part> {
    seq![Part::Length(1), Part::Length(1), Part::Min(0)]
}

/// Whether `out` shows the git pane in an area: the frame, and in it the current
/// tab.
pub open spec fn git_drawn<S>(
    win: Window<S>,
    area: Area,
    focused: bool,
    style: Style,
    open_paths: Seq<Seq<char>>,
    out: Seq<DrawView>,
) -> bool {
    exists|a: Area, b: Area, c: Area, rest: Seq<DrawView>|
        #![trigger in_three(area.inside(), Axis::Down, git_parts(), a, b, c), tab_drawn(
            win,
            c,
            focused,
            style,
            open_paths,
            rest,
        )]
        in_three(area.inside(), Axis::Down, git_parts(), a, b, c) && tab_drawn(
            win,
            c,
            focused,
            style,
            open_paths,
            rest,
        ) && out == git_frame(win, area, a, b, focused, style) + rest
}

fn pick_hint(tab: GitTab, fullscreen: bool) -> (r: &'static str)
    ensures
        r@ == git_hint(tab, fullscreen),
{
    match (tab, fullscreen) {
        (GitTab::Diff, true) => " ↑↓/j/k scroll  e explorer  ^F exit fullscreen  ^R refresh ",
        (GitTab::Diff, false) =>
            " ←→ tabs  ↑↓ file  j/k scroll  e explorer  ^F fullscreen  ^R refresh ",
        (GitTab::Worktrees, _) =>
            " ←→ tabs  ↑↓ select  Enter open  ^T new  d delete  ^R refresh ",
        (GitTab::Branches, _) => " ←→ tabs  ↑↓ select  d delete  ^R refresh ",
        (GitTab::Log, _) => " ←→ tabs  ↑↓ scroll  ^R refresh ",
    }
}

/// Draws the frame of the git pane.
pub fn draw_git_frame<S>(
    win: &Window<S>,
    area: Area,
    tabs_area: Area,
    sep_area: Area,
    focused: bool,
    style: Style,
) -> (r: Vec<Draw>)
    ensures
        r.deep_view() == git_frame(*win, area, tabs_area, sep_area, focused, style),
{
    let hint = if focused {
        pick_hint(win.git_tab, win.fullscreen)
    } else {
        ""
    };
    let mut out: Vec<Draw> = Vec::new();
    add_draw(
        &mut out,
        Draw::Widget(
            area,
            Widget::Border { style, title: None, hint: Some(hint.to_string()) },
        ),
    );
    let tab_style = if focused {
        Style::color(Color::Blue)
    } else {
        Style::color(Color::DarkGray)
    };
    let mut highlight = Style::bold_color(Color::Blue);
    highlight.underlined = true;
    let mut titles: Vec<String> = Vec::new();
    titles.push(GitTab::Diff.title().to_string());
    titles.push(GitTab::Worktrees.title().to_string());
    titles.push(GitTab::Branches.title().to_string());
    titles.push(GitTab::Log.title().to_string());
    assert(titles.deep_view() =~= seq![
        GitTab::Diff.label(),
        GitTab::Worktrees.label(),
        GitTab::Branches.label(),
        GitTab::Log.label(),
    ]);
    add_draw(
        &mut out,
        Draw::Widget(
            tabs_area,
            Widget::Tabs { titles, selected: win.git_tab.index(), style: tab_style, highlight },
        ),
    );
    add_draw(&mut out, Draw::Widget(sep_area, Widget::Rule { style, side: Side::Top }));
    assert(out.deep_view() =~= git_frame(*win, area, tabs_area, sep_area, focused, style));
    out
}

fn render_tab<S>(
    win: &Window<S>,
    area: Area,
    focused: bool,
    style: Style,
    open_paths: &Vec<String>,
) -> (r: Vec<Draw>)
    ensures
        tab_drawn(*win, area, focused, style, open_paths.deep_view(), r.deep_view()),
{
    match win.git_tab {
        GitTab::Diff => render_diff_tab(win, area, focused, style),
        GitTab::Worktrees => render_worktrees_tab(win, area, open_paths),
        GitTab::Branches => render_branches_tab(win, area),
        GitTab::Log => render_scrollable_text(
            win.simple_tab_content(),
            win.current_scroll(),
            area,
            style,
        ),
    }
}

/// Draws the git pane.
pub fn render_git_pane<S>(
    win: &Window<S>,
    area: Area,
    focused: bool,
    normal: Style,
    active: Style,
    open_paths: &Vec<String>,
) -> (r: Vec<Draw>)
    ensures
        git_drawn(
            *win,
            area,
            focused,
            if focused {
                active
            } else {
                normal
            },
            open_paths.deep_view(),
            r.deep_view(),
        ),
{
    let border_style = if focused { active } else { normal };
    let inner = inside_border(area);
    let (tabs_area, sep_area, content_area) = split_three(
        Axis::Down,
        Part::Length(1),
        Part::Length(1),
        Part::Min(0),
        inner,
    );
    let mut out = draw_git_frame(win, area, tabs_area, sep_area, focused, border_style);
    assert(in_three(inner, Axis::Down, git_parts(), tabs_area, sep_area, content_area));
    let rest = render_tab(win, content_area, focused, border_style, open_paths);
    assert(tab_drawn(
        *win,
        content_area,
        focused,
        border_style,
        open_paths.deep_view(),
        rest.deep_view(),
    ));
    add_draws(&mut out, rest);
    out
}

} // verus!
