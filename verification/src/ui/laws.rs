//! What holds of everything that is drawn.

use vstd::prelude::*;

use crate::app::{window_paths, AppState, GitTab, Pane, Window};
use crate::git::types::RowView;
use crate::screen::{GlyphView, ScreenState};
use crate::text::decimal;
use crate::ui::draw::{DrawView, WidgetView};
use crate::ui::git_pane::{
    diff_drawn, diff_parts, file_drawn, file_list_picture, git_drawn, git_frame, git_parts,
    gutter, gutter_width, in_view, largest_number, sbs_parts, sbs_picture, tab_drawn, text_drawn,
    text_parts, text_picture, unified_picture,
};
use crate::ui::layout::{
    asked, asked_by, fixed_by, greedy, in_four, in_three, in_two, pieces_lie_within, Area, Axis,
    Part,
};
use crate::ui::pty_pane::{
    claude_picture, missing_agent, pane_border, pty_picture, runs, terminal_picture,
};
use crate::ui::render::{
    asks, bar_picture, column_parts, dialog_area, dialog_parts, display_drawn, display_parts,
    front_git_drawn, laid_out, overlay_drawn, panes_picture, question, question_picture,
    row_parts, window_drawn, Panes,
};
use crate::ui::style::{bold_colored, colored, Color, SpanView, Style};

verus! {

/// The text of spans in a row.
pub open spec fn span_text(spans: Seq<SpanView>) -> Seq<char>
    decreases spans.len(),
{
    if spans.len() == 0 {
        Seq::empty()
    } else {
        span_text(spans.drop_last()) + spans.last().content
    }
}

/// The text of glyphs in a row.
pub open spec fn glyph_text(glyphs: Seq<GlyphView>) -> Seq<char>
    decreases glyphs.len(),
{
    if glyphs.len() == 0 {
        Seq::empty()
    } else {
        glyph_text(glyphs.drop_last()) + glyphs.last().text
    }
}

/// Putting glyphs together into spans keeps their text.
pub proof fn spans_keep_the_text(glyphs: Seq<GlyphView>)
    ensures
        span_text(runs(glyphs)) == glyph_text(glyphs),
    decreases glyphs.len(),
{
    if glyphs.len() > 0 {
        spans_keep_the_text(glyphs.drop_last());
        let before = runs(glyphs.drop_last());
        let g = glyphs.last();
        if before.len() > 0 && before.last().style == g.style {
            assert(runs(glyphs).drop_last() =~= before.drop_last());
            assert(span_text(before.drop_last()) + (before.last().content + g.text)
                =~= span_text(before.drop_last()) + before.last().content + g.text);
        } else {
            assert(runs(glyphs).drop_last() =~= before);
        }
    }
}

/// Neighbouring spans differ in style, so that there are no more spans than
/// changes of style.
pub proof fn neighbouring_spans_differ(glyphs: Seq<GlyphView>, i: int)
    requires
        0 < i < runs(glyphs).len(),
    ensures
        runs(glyphs)[i - 1].style != runs(glyphs)[i].style,
    decreases glyphs.len(),
{
    let before = runs(glyphs.drop_last());
    let all = runs(glyphs);
    if i < before.len() {
        neighbouring_spans_differ(glyphs.drop_last(), i);
        assert(all[i - 1].style == before[i - 1].style);
        assert(all[i].style == before[i].style);
    } else {
        assert(all[i - 1] == before[i - 1]);
    }
}

proof fn lemma_decimal_grows(m: nat, n: nat)
    requires
        m <= n,
    ensures
        1 <= decimal(m).len() <= decimal(n).len(),
    decreases n,
{
    if n >= 10 {
        lemma_decimal_grows(0, n / 10);
        if m >= 10 {
            lemma_decimal_grows(m / 10, n / 10);
        }
    }
}

proof fn lemma_largest(rows: Seq<RowView>, i: int)
    requires
        0 <= i < rows.len(),
    ensures
        rows[i].left_no matches Some(n) ==> (largest_number(rows) matches Some(m) && n <= m),
        rows[i].right_no matches Some(n) ==> (largest_number(rows) matches Some(m) && n <= m),
    decreases rows.len(),
{
    if i < rows.len() - 1 {
        lemma_largest(rows.drop_last(), i);
        assert(rows.drop_last()[i] == rows[i]);
    }
}

/// The line numbers of a side-by-side diff all take the same room, numbered
/// lines and others alike.
pub proof fn line_numbers_align(rows: Seq<RowView>, i: int)
    requires
        0 <= i < rows.len(),
    ensures
        gutter(rows[i].left_no, gutter_width(rows)).len() == gutter_width(rows) + 1,
        gutter(rows[i].right_no, gutter_width(rows)).len() == gutter_width(rows) + 1,
{
    lemma_largest(rows, i);
    if let Some(m) = largest_number(rows) {
        if let Some(n) = rows[i].left_no {
            lemma_decimal_grows(n, m);
        }
        if let Some(n) = rows[i].right_no {
            lemma_decimal_grows(n, m);
        }
    }
}

/// The rows in view fill the area or reach the last row.
pub proof fn rows_in_view_fit(rows: Seq<RowView>, scroll: u16, height: u16)
    ensures
        in_view(rows, scroll, height).len() <= height,
        scroll + height <= rows.len() ==> in_view(rows, scroll, height).len() == height,
        forall|i: int|
            0 <= i < in_view(rows, scroll, height).len() ==> #[trigger] in_view(
                rows,
                scroll,
                height,
            )[i] == rows[scroll + i],
{
}

pub proof fn lemma_two(a: Part, b: Part, size: int)
    ensures
        ({
            let parts = seq![a, b];
            &&& parts.take(1) =~= seq![a]
            &&& parts.take(2) =~= parts
            &&& asked_by(parts, size) == asked(a, size)
                + asked(b, size)
            &&& asked_by(parts.take(1), size) == asked(a, size)
            &&& greedy(parts) == (if a is Min {
                1int
            } else {
                0
            }) + if b is Min {
                1int
            } else {
                0
            }
            &&& greedy(parts.take(1)) == if a is Min {
                1int
            } else {
                0
            }
        }),
{
    let parts = seq![a, b];
    assert(parts.take(1) =~= seq![a]);
    assert(parts.take(2) =~= parts);
    assert(parts.drop_last() =~= seq![a]);
    assert(seq![a].drop_last() =~= Seq::<Part>::empty());
    reveal_with_fuel(asked_by, 3);
    reveal_with_fuel(greedy, 3);
}

/// The panes fill the window: the agent has the left half, and the right one is
/// shared by git, with three fifths of the rows, and the shell.
pub proof fn panes_fill_the_window(area: Area, panes: Panes)
    requires
        area.addressable(),
        laid_out(area, panes),
    ensures
        panes.claude.x == area.x,
        panes.claude.y == area.y,
        panes.claude.height == area.height,
        panes.claude.width == (area.width + 1) / 2,
        panes.git.x == area.x + panes.claude.width,
        panes.git.y == area.y,
        panes.git.width == area.width - panes.claude.width,
        panes.git.height == (60 * area.height + 50) / 100,
        panes.terminal.x == panes.git.x,
        panes.terminal.y == area.y + panes.git.height,
        panes.terminal.width == panes.git.width,
        panes.terminal.height == area.height - panes.git.height,
{
    let right = choose|right: Area|
        in_two(area, Axis::Across, column_parts(), panes.claude, right) && in_two(
            right,
            Axis::Down,
            row_parts(),
            panes.git,
            panes.terminal,
        );
    lemma_two(Part::Percentage(50), Part::Percentage(50), area.width as int);
    let cols = seq![panes.claude, right];
    assert(cols[0].piece_of(area, Axis::Across));
    assert(cols[1].piece_of(area, Axis::Across));
    assert(cols[0].end(Axis::Across) == cols[1].start(Axis::Across));
    assert(cols[1].end(Axis::Across) == area.end(Axis::Across));
    lemma_two(Part::Percentage(60), Part::Percentage(40), right.height as int);
    let rows = seq![panes.git, panes.terminal];
    assert(rows[0].piece_of(right, Axis::Down));
    assert(rows[1].piece_of(right, Axis::Down));
    assert(rows[0].end(Axis::Down) == rows[1].start(Axis::Down));
    assert(rows[1].end(Axis::Down) == right.end(Axis::Down));
}

/// A side-by-side diff has two halves, with a column for the rule between them
/// and one for the scroll bar: together they fill the area. The left half has
/// half of the columns, rounded up, and the right half gives up the two columns.
/// On less than six columns each half has half of them, but for what the two
/// columns and rounding take.
pub proof fn halves_share_the_area(area: Area, left: Area, rule: Area, right: Area, bar: Area)
    requires
        area.addressable(),
        area.width >= 2,
        in_four(area, Axis::Across, sbs_parts(), left, rule, right, bar),
    ensures
        rule.width == 1,
        bar.width == 1,
        left.x == area.x,
        rule.x == left.x + left.width,
        right.x == rule.x + 1,
        bar.x == right.x + right.width,
        bar.x + 1 == area.x + area.width,
        area.width >= 6 ==> left.width == (area.width + 1) / 2,
        left.width + right.width == area.width - 2,
        area.width - 6 <= 2 * left.width <= area.width + 2,
        area.width - 6 <= 2 * right.width <= area.width + 2,
{
    let half = Part::Percentage(50);
    let one = Part::Length(1);
    let parts = seq![half, one, half, one];
    let pieces = seq![left, rule, right, bar];
    let size = area.width as int;
    assert(parts.drop_last() =~= seq![half, one, half]);
    assert(seq![half, one, half].drop_last() =~= seq![half, one]);
    assert(seq![half, one].drop_last() =~= seq![half]);
    assert(seq![half].drop_last() =~= Seq::<Part>::empty());
    reveal_with_fuel(asked_by, 5);
    reveal_with_fuel(fixed_by, 5);
    assert(asked_by(parts, size) == 100 * size + 200);
    assert(fixed_by(parts) == 2);
    assert(parts[0] == half && parts[1] == one && parts[2] == half && parts[3] == one);
    assert(pieces[1].start(Axis::Across) == pieces[0].end(Axis::Across));
    assert(pieces[2].start(Axis::Across) == pieces[1].end(Axis::Across));
    assert(pieces[3].start(Axis::Across) == pieces[2].end(Axis::Across));
}

/// Whether a drawing instruction stays in an area.
pub open spec fn stays_in(d: DrawView, area: Area) -> bool {
    match d {
        DrawView::Widget(a, _) => a.within(area),
        DrawView::Cursor(x, y) => {
            &&& area.x <= x < area.x + area.width
            &&& area.y <= y < area.y + area.height
        },
    }
}

/// Whether drawing instructions stay in an area.
pub open spec fn all_stay_in(out: Seq<DrawView>, area: Area) -> bool {
    forall|i: int| 0 <= i < out.len() ==> stays_in(#[trigger] out[i], area)
}

/// Whether drawing instructions leave the cursor alone.
pub open spec fn no_cursor(out: Seq<DrawView>) -> bool {
    forall|i: int| 0 <= i < out.len() ==> (#[trigger] out[i]) is Widget
}

proof fn lemma_wider(out: Seq<DrawView>, inner: Area, outer: Area)
    requires
        all_stay_in(out, inner),
        inner.within(outer),
    ensures
        all_stay_in(out, outer),
{
    assert forall|i: int| 0 <= i < out.len() implies stays_in(#[trigger] out[i], outer) by {
        assert(stays_in(out[i], inner));
    }
}

proof fn lemma_joined(a: Seq<DrawView>, b: Seq<DrawView>, area: Area)
    ensures
        all_stay_in(a, area) && all_stay_in(b, area) ==> all_stay_in(a + b, area),
        no_cursor(a) && no_cursor(b) ==> no_cursor(a + b),
{
}

proof fn lemma_text_stays<S>(win: Window<S>, area: Area, style: Style, out: Seq<DrawView>)
    requires
        text_drawn(win.tab_text(), win.scroll(), area, style, out),
    ensures
        all_stay_in(out, area),
        no_cursor(out),
{
    let (a, b) = choose|a: Area, b: Area|
        in_two(area, Axis::Across, text_parts(), a, b) && out
            == text_picture(win.tab_text(), win.scroll(), a, b, style);
    pieces_lie_within(area, Axis::Across, text_parts(), seq![a, b], 0);
    pieces_lie_within(area, Axis::Across, text_parts(), seq![a, b], 1);
}

proof fn lemma_file_stays<S>(win: Window<S>, area: Area, style: Style, out: Seq<DrawView>)
    requires
        file_drawn(win, area, style, out),
    ensures
        all_stay_in(out, area),
        no_cursor(out),
{
    if win.diff_file_idx < win.file_diffs@.len() {
        let fd = win.file_diffs@[win.diff_file_idx as int].deep_view();
        let scroll = win.diff_content_scroll;
        if win.fullscreen {
            let (a, b, c, d) = choose|a: Area, b: Area, c: Area, d: Area|
                in_four(area, Axis::Across, sbs_parts(), a, b, c, d) && out
                    == sbs_picture(fd.sbs, scroll, a, b, c, d, style);
            let pieces = seq![a, b, c, d];
            pieces_lie_within(area, Axis::Across, sbs_parts(), pieces, 0);
            pieces_lie_within(area, Axis::Across, sbs_parts(), pieces, 1);
            pieces_lie_within(area, Axis::Across, sbs_parts(), pieces, 2);
            pieces_lie_within(area, Axis::Across, sbs_parts(), pieces, 3);
        } else {
            let (a, b) = choose|a: Area, b: Area|
                in_two(area, Axis::Across, text_parts(), a, b) && out
                    == unified_picture(fd.content, scroll, a, b, style);
            pieces_lie_within(area, Axis::Across, text_parts(), seq![a, b], 0);
            pieces_lie_within(area, Axis::Across, text_parts(), seq![a, b], 1);
        }
    }
}

proof fn lemma_diff_stays<S>(
    win: Window<S>,
    area: Area,
    focused: bool,
    style: Style,
    out: Seq<DrawView>,
)
    requires
        diff_drawn(win, area, focused, style, out),
    ensures
        all_stay_in(out, area),
        no_cursor(out),
{
    if win.file_diffs@.len() > 0 {
        if win.diff_show_list {
            let (a, b, c, rest) = choose|a: Area, b: Area, c: Area, rest: Seq<DrawView>|
                #![trigger in_three(area, Axis::Across, diff_parts(), a, b, c), file_drawn(
                    win,
                    c,
                    style,
                    rest,
                )]
                in_three(area, Axis::Across, diff_parts(), a, b, c) && file_drawn(
                    win,
                    c,
                    style,
                    rest,
                ) && out == file_list_picture(win, a, b, style) + rest;
            let pieces = seq![a, b, c];
            pieces_lie_within(area, Axis::Across, diff_parts(), pieces, 0);
            pieces_lie_within(area, Axis::Across, diff_parts(), pieces, 1);
            pieces_lie_within(area, Axis::Across, diff_parts(), pieces, 2);
            lemma_file_stays(win, c, style, rest);
            lemma_wider(rest, c, area);
            lemma_joined(file_list_picture(win, a, b, style), rest, area);
        } else {
            lemma_file_stays(win, area, style, out);
        }
    }
}

proof fn lemma_git_stays<S>(
    win: Window<S>,
    area: Area,
    focused: bool,
    style: Style,
    open_paths: Seq<Seq<char>>,
    out: Seq<DrawView>,
)
    requires
        area.addressable(),
        git_drawn(win, area, focused, style, open_paths, out),
    ensures
        all_stay_in(out, area),
        no_cursor(out),
{
    let inner = area.inside();
    let (a, b, c, rest) = choose|a: Area, b: Area, c: Area, rest: Seq<DrawView>|
        #![trigger in_three(inner, Axis::Down, git_parts(), a, b, c), tab_drawn(
            win,
            c,
            focused,
            style,
            open_paths,
            rest,
        )]
        in_three(inner, Axis::Down, git_parts(), a, b, c) && tab_drawn(
            win,
            c,
            focused,
            style,
            open_paths,
            rest,
        ) && out == git_frame(win, area, a, b, focused, style) + rest;
    let pieces = seq![a, b, c];
    pieces_lie_within(inner, Axis::Down, git_parts(), pieces, 0);
    pieces_lie_within(inner, Axis::Down, git_parts(), pieces, 1);
    pieces_lie_within(inner, Axis::Down, git_parts(), pieces, 2);
    if win.git_tab == GitTab::Diff {
        lemma_diff_stays(win, c, focused, style, rest);
    } else if win.git_tab == GitTab::Log {
        lemma_text_stays(win, c, style, rest);
    }
    lemma_wider(rest, c, area);
    lemma_joined(git_frame(win, area, a, b, focused, style), rest, area);
}

proof fn lemma_pty_stays(
    running: bool,
    screen: Option<ScreenState>,
    area: Area,
    focused: bool,
    border: WidgetView,
    fail_msg: Seq<char>,
    scroll: usize,
)
    requires
        area.addressable(),
    ensures
        all_stay_in(
            pty_picture(
                running,
                screen,
                area,
                focused,
                border,
                fail_msg,
                scroll,
            ),
            area,
        ),
        !focused || scroll > 0 ==> no_cursor(
            pty_picture(
                running,
                screen,
                area,
                focused,
                border,
                fail_msg,
                scroll,
            ),
        ),
{
}

proof fn lemma_claude_stays<S>(
    win: Window<S>,
    agent: Seq<char>,
    screen: Option<ScreenState>,
    area: Area,
    focused: bool,
    normal: Style,
    active: Style,
)
    requires
        area.addressable(),
    ensures
        all_stay_in(claude_picture(win, agent, screen, area, focused, normal, active), area),
        !focused || win.claude_scroll > 0 ==> no_cursor(
            claude_picture(win, agent, screen, area, focused, normal, active),
        ),
{
    lemma_pty_stays(
        win.claude is Some,
        screen,
        area,
        focused,
        if focused {
            pane_border(
                active,
                " "@ + win.name@ + " * "@,
                " S↑↓/PgUp/PgDn scroll  ^W pane  ^Q quit "@,
            )
        } else {
            pane_border(normal, " "@ + win.name@ + " "@, ""@)
        },
        missing_agent(agent),
        win.claude_scroll,
    );
}

proof fn lemma_terminal_stays<S>(
    win: Window<S>,
    screen: Option<ScreenState>,
    area: Area,
    focused: bool,
    normal: Style,
    active: Style,
)
    requires
        area.addressable(),
    ensures
        all_stay_in(terminal_picture(win, screen, area, focused, normal, active), area),
        !focused ==> no_cursor(terminal_picture(win, screen, area, focused, normal, active)),
{
    lemma_pty_stays(
        win.terminal is Some,
        screen,
        area,
        focused,
        if focused {
            pane_border(active, " Terminal * "@, " ^W pane  ^Q quit "@)
        } else {
            pane_border(normal, " Terminal "@, ""@)
        },
        "Failed to start shell.\nCheck $SHELL."@,
        0,
    );
}

proof fn lemma_panes_stay<S>(
    a: AppState<S>,
    agent: Seq<char>,
    claude: Option<ScreenState>,
    terminal: Option<ScreenState>,
    area: Area,
    panes: Panes,
    git: Seq<DrawView>,
)
    requires
        area.addressable(),
        laid_out(area, panes),
        all_stay_in(git, panes.git),
        no_cursor(git),
    ensures
        all_stay_in(panes_picture(a, agent, claude, terminal, panes, git), area),
        a.front().focused == Pane::Git || (a.front().focused == Pane::Claude
            && a.front().claude_scroll > 0) ==> no_cursor(
            panes_picture(a, agent, claude, terminal, panes, git),
        ),
{
    let win = a.front();
    let normal = colored(Color::Blue);
    let active = bold_colored(Color::Blue);
    let on_claude = win.focused == Pane::Claude;
    let on_terminal = win.focused == Pane::Terminal;
    panes_fill_the_window(area, panes);
    let left = claude_picture(win, agent, claude, panes.claude, on_claude, normal, active);
    let right = terminal_picture(win, terminal, panes.terminal, on_terminal, normal, active);
    lemma_claude_stays(win, agent, claude, panes.claude, on_claude, normal, active);
    lemma_terminal_stays(win, terminal, panes.terminal, on_terminal, normal, active);
    lemma_wider(left, panes.claude, area);
    lemma_wider(git, panes.git, area);
    lemma_wider(right, panes.terminal, area);
    lemma_joined(left, git, area);
    lemma_joined(left + git, right, area);
}

proof fn lemma_window_stays<S>(
    a: AppState<S>,
    agent: Seq<char>,
    claude: Option<ScreenState>,
    terminal: Option<ScreenState>,
    area: Area,
    out: Seq<DrawView>,
)
    requires
        area.addressable(),
        window_drawn(a, agent, claude, terminal, area, out),
    ensures
        all_stay_in(out, area),
        cursorless(a.front()) ==> no_cursor(out),
{
    let win = a.front();
    let paths = window_paths(a.windows);
    let git_focused = win.focused == Pane::Git;
    let git_style = if git_focused {
        bold_colored(Color::Blue)
    } else {
        colored(Color::Blue)
    };
    if win.fullscreen {
        lemma_git_stays(win, area, git_focused, git_style, paths, out);
    } else {
        let (panes, git) = choose|panes: Panes, git: Seq<DrawView>|
            laid_out(area, panes) && #[trigger] front_git_drawn(a, panes.git, git) && out
                == #[trigger] panes_picture(a, agent, claude, terminal, panes, git);
        panes_fill_the_window(area, panes);
        lemma_git_stays(win, panes.git, git_focused, git_style, paths, git);
        lemma_panes_stay(a, agent, claude, terminal, area, panes, git);
    }
}

proof fn lemma_overlay_stays<S>(a: AppState<S>, area: Area, out: Seq<DrawView>)
    requires
        area.addressable(),
        overlay_drawn(a, area, out),
    ensures
        !asks(a) || area.height >= 5 ==> all_stay_in(out, area),
        no_cursor(out),
{
    if asks(a) {
        let dialog = dialog_area(area);
        let inner = dialog.inside();
        let mode = a.input_mode->0;
        let q = question(mode, a.input);
        let (first, second) = choose|first: Area, second: Area|
            in_two(inner, Axis::Down, dialog_parts(), first, second) && out
                == question_picture(q, dialog, first, second);
        assert(area.height >= 5 ==> dialog.within(area));
        pieces_lie_within(inner, Axis::Down, dialog_parts(), seq![first, second], 0);
        pieces_lie_within(inner, Axis::Down, dialog_parts(), seq![first, second], 1);
    }
}

/// Whether a window shows no cursor: the git pane has the focus or the whole
/// display, or the agent pane has the focus and is scrolled back.
pub open spec fn cursorless<S>(win: Window<S>) -> bool {
    ||| win.fullscreen
    ||| win.focused == Pane::Git
    ||| win.focused == Pane::Claude && win.claude_scroll > 0
}

proof fn lemma_display_stays<S>(
    a: AppState<S>,
    agent: Seq<char>,
    claude: Option<ScreenState>,
    terminal: Option<ScreenState>,
    area: Area,
    out: Seq<DrawView>,
)
    requires
        area.addressable(),
        display_drawn(a, agent, claude, terminal, area, out),
    ensures
        !asks(a) || area.height >= 5 ==> all_stay_in(out, area),
        cursorless(a.front()) ==> no_cursor(out),
{
    let (bar, content, win, overlay) = choose|
        bar: Area,
        content: Area,
        win: Seq<DrawView>,
        overlay: Seq<DrawView>,
    |
        #![trigger in_two(area, Axis::Down, display_parts(), bar, content), window_drawn(
            a,
            agent,
            claude,
            terminal,
            content,
            win,
        ), overlay_drawn(a, area, overlay)]
        in_two(area, Axis::Down, display_parts(), bar, content) && window_drawn(
            a,
            agent,
            claude,
            terminal,
            content,
            win,
        ) && overlay_drawn(a, area, overlay) && out == bar_picture(a, bar) + win + overlay;
    pieces_lie_within(area, Axis::Down, display_parts(), seq![bar, content], 0);
    pieces_lie_within(area, Axis::Down, display_parts(), seq![bar, content], 1);
    lemma_window_stays(a, agent, claude, terminal, content, win);
    lemma_wider(win, content, area);
    lemma_overlay_stays(a, area, overlay);
    lemma_joined(bar_picture(a, bar), win, area);
    lemma_joined(bar_picture(a, bar) + win, overlay, area);
}

/// Nothing is drawn off the display, as long as it is high enough for the
/// question that is asked, if any.
pub proof fn drawing_stays_on_the_display<S>(
    a: AppState<S>,
    agent: Seq<char>,
    claude: Option<ScreenState>,
    terminal: Option<ScreenState>,
    area: Area,
    out: Seq<DrawView>,
)
    requires
        area.addressable(),
        display_drawn(a, agent, claude, terminal, area, out),
        asks(a) ==> area.height >= 5,
    ensures
        all_stay_in(out, area),
{
    lemma_display_stays(a, agent, claude, terminal, area, out);
}

/// The cursor shows only in a terminal pane that has the focus and is not
/// scrolled back.
pub proof fn cursor_needs_the_focus<S>(
    a: AppState<S>,
    agent: Seq<char>,
    claude: Option<ScreenState>,
    terminal: Option<ScreenState>,
    area: Area,
    out: Seq<DrawView>,
)
    requires
        area.addressable(),
        display_drawn(a, agent, claude, terminal, area, out),
        cursorless(a.front()),
    ensures
        no_cursor(out),
{
    lemma_display_stays(a, agent, claude, terminal, area, out);
}

} // verus!
