//! What the parts of the picture show.

use vstd::prelude::*;

use super::draw::{block_of_lines, BodyView, DrawView, WidgetView};
use super::git_pane::{
    branches_picture, diff_line_style, diff_parts, file_drawn, file_list_picture, git_drawn,
    git_frame, git_hint, gutter, gutter_width, in_view, largest_number, left_half, right_half,
    sbs_drawn, sbs_picture, scroll_widget, tab_drawn, text_drawn, text_picture, unified_drawn,
    unified_picture, worktrees_picture,
};
use super::layout::{in_three, in_two, Area, Axis};
use super::pty_pane::{
    claude_picture, cursor_in, pty_picture, runs, screen_lines, terminal_picture,
};
use super::render::{
    bar_picture, dialog_area, display_drawn, display_parts, front_git_drawn, laid_out,
    overlay_drawn, panes_picture, question, window_drawn, Panes,
};
use super::style::{display_color, Color, SpanView, Style};
use crate::app::{window_paths, AppState, GitTab, InputMode, Pane, Window};
use crate::git::types::{RowView, SbsKind};
use crate::path_laws::{open_paths_are_those_of_windows, open_somewhere};
use crate::screen::{glyph_of, CellColor, CellView, GlyphView, ScreenState};
use crate::text::{decimal, lines};

verus! {

/// Whether a style is a colour and, it may be, bold, and nothing more.
pub open spec fn is_colored(s: Style, c: Option<Color>, bold: bool) -> bool {
    &&& s.fg == c
    &&& s.bg is None
    &&& s.bold == bold
    &&& !s.italic && !s.underlined && !s.reversed
}

/// Added lines of a diff are green, removed ones red and hunk headers cyan; the
/// headers with three signs are plain, those that begin a file bold blue, and
/// all other lines plain.
pub proof fn diff_lines_have_colors(line: Seq<char>)
    ensures
        ({
            let s = diff_line_style(line);
            let plus = line.len() > 0 && line[0] == '+';
            let minus = line.len() > 0 && line[0] == '-';
            let at = line.len() > 1 && line[0] == '@' && line[1] == '@';
            let tripled = line.len() > 2 && line[1] == line[0] && line[2] == line[0];
            let top = "diff "@.is_prefix_of(line) || "index "@.is_prefix_of(line);
            &&& plus && !tripled ==> is_colored(s, Some(Color::Green), false)
            &&& minus && !tripled ==> is_colored(s, Some(Color::Red), false)
            &&& at ==> is_colored(s, Some(Color::Cyan), false)
            &&& (plus || minus) && tripled ==> is_colored(s, None, false)
            &&& !plus && !minus && !at && top ==> is_colored(s, Some(Color::Blue), true)
            &&& !plus && !minus && !at && !top ==> is_colored(s, None, false)
        }),
{
    reveal_strlit("+");
    reveal_strlit("-");
    reveal_strlit("+++");
    reveal_strlit("---");
    reveal_strlit("@@");
    reveal_strlit("diff ");
    reveal_strlit("index ");
    if line.len() > 0 {
        let one = line.subrange(0, 1);
        assert(one[0] == line[0]);
        assert(line[0] == '+' ==> one =~= "+"@);
        assert(line[0] == '-' ==> one =~= "-"@);
        assert("+"@ == one ==> "+"@[0] == one[0]);
        assert("-"@ == one ==> "-"@[0] == one[0]);
    }
    if line.len() > 1 {
        let two = line.subrange(0, 2);
        assert(two[0] == line[0] && two[1] == line[1]);
        assert(line[0] == '@' && line[1] == '@' ==> two =~= "@@"@);
        assert("@@"@ == two ==> "@@"@[0] == two[0] && "@@"@[1] == two[1]);
    }
    if line.len() > 2 {
        let three = line.subrange(0, 3);
        assert(three[0] == line[0] && three[1] == line[1] && three[2] == line[2]);
        assert(line[0] == '+' && line[1] == '+' && line[2] == '+' ==> three =~= "+++"@);
        assert(line[0] == '-' && line[1] == '-' && line[2] == '-' ==> three =~= "---"@);
        assert("+++"@ == three ==> "+++"@[1] == three[1] && "+++"@[2] == three[2]);
        assert("---"@ == three ==> "---"@[1] == three[1] && "---"@[2] == three[2]);
    }
    if line.len() > 4 {
        let five = line.subrange(0, 5);
        assert(five[0] == line[0]);
        assert("diff "@ == five ==> "diff "@[0] == five[0]);
    }
    if line.len() > 5 {
        let six = line.subrange(0, 6);
        assert(six[0] == line[0]);
        assert("index "@ == six ==> "index "@[0] == six[0]);
    }
}

/// So many blanks.
pub open spec fn blanks(n: nat) -> Seq<char> {
    Seq::new(n, |i: int| ' ')
}

/// A line number stands at the right of its field, written in full, with one
/// blank behind it; where there is none the field is blank.
pub proof fn line_numbers_are_written(n: nat, width: nat)
    ensures
        decimal(n).len() <= width ==> gutter(Some(n), width) == blanks(
            (width - decimal(n).len()) as nat,
        ) + decimal(n) + blanks(1),
        decimal(n).len() > width ==> gutter(Some(n), width) == decimal(n) + blanks(1),
        gutter(None, width) == blanks(width + 1),
{
    if decimal(n).len() <= width {
        assert(gutter(Some(n), width) =~= blanks((width - decimal(n).len()) as nat) + decimal(n)
            + blanks(1));
    } else {
        assert(gutter(Some(n), width) =~= decimal(n) + blanks(1));
    }
    assert(gutter(None, width) =~= blanks(width + 1));
}

/// Whether a row has a line number.
pub open spec fn has_number(row: RowView, n: nat) -> bool {
    row.left_no == Some(n) || row.right_no == Some(n)
}

proof fn lemma_largest(rows: Seq<RowView>)
    ensures
        forall|i: int, n: nat|
            0 <= i < rows.len() && #[trigger] has_number(rows[i], n) ==> largest_number(rows)
                is Some && n <= largest_number(rows)->0,
        largest_number(rows) is Some ==> exists|i: int|
            0 <= i < rows.len() && #[trigger] has_number(rows[i], largest_number(rows)->0),
    decreases rows.len(),
{
    if rows.len() > 0 {
        let shorter = rows.drop_last();
        let k = rows.len() - 1;
        lemma_largest(shorter);
        assert forall|i: int, n: nat|
            0 <= i < rows.len() && #[trigger] has_number(rows[i], n) implies largest_number(rows)
            is Some && n <= largest_number(rows)->0 by {
            if i < k {
                assert(has_number(shorter[i], n));
            }
        }
        if let Some(m) = largest_number(rows) {
            if !has_number(rows[k], m) {
                assert(largest_number(shorter) == Some(m));
                let i = choose|i: int|
                    0 <= i < shorter.len() && #[trigger] has_number(shorter[i], m);
                assert(has_number(rows[i], m));
            }
        }
    }
}

/// The field for line numbers is as wide as the largest one that shows, and one
/// character wide where none does.
pub proof fn number_fields_fit(rows: Seq<RowView>, m: nat, i: int)
    ensures
        0 <= i < rows.len() && has_number(rows[i], m) && (forall|j: int, n: nat|
            0 <= j < rows.len() && #[trigger] has_number(rows[j], n) ==> n <= m) ==> gutter_width(
            rows,
        ) == decimal(m).len(),
        (forall|j: int, n: nat| 0 <= j < rows.len() ==> !#[trigger] has_number(rows[j], n))
            ==> gutter_width(rows) == 1,
{
    lemma_largest(rows);
}

/// A header of a side-by-side diff shows in bold blue, without numbers; a line
/// shows behind its number, on the left if the old file has it, in red if the
/// new one has not got it as it is, and on the right if the new file has it, in
/// green if the old one has not. The other half of a row stays empty.
pub proof fn halves_show_their_file(row: RowView, width: nat)
    ensures
        ({
            let l = left_half(row, width);
            let r = right_half(row, width);
            let old = row.kind == SbsKind::Context || row.kind == SbsKind::Removed || row.kind
                == SbsKind::Changed;
            let new = row.kind == SbsKind::Context || row.kind == SbsKind::Added || row.kind
                == SbsKind::Changed;
            let shared = row.kind == SbsKind::Context;
            &&& row.kind == SbsKind::Header ==> {
                &&& l.len() == 1 && l[0].content == row.left
                &&& r.len() == 1 && r[0].content == row.right
                &&& is_colored(l[0].style, Some(Color::Blue), true)
                &&& is_colored(r[0].style, Some(Color::Blue), true)
            }
            &&& old ==> {
                &&& l.len() == 2
                &&& l[0].content == gutter(row.left_no, width)
                &&& is_colored(l[0].style, Some(Color::DarkGray), false)
                &&& l[1].content == row.left
                &&& is_colored(
                    l[1].style,
                    if shared {
                        None
                    } else {
                        Some(Color::Red)
                    },
                    false,
                )
            }
            &&& new ==> {
                &&& r.len() == 2
                &&& r[0].content == gutter(row.right_no, width)
                &&& is_colored(r[0].style, Some(Color::DarkGray), false)
                &&& r[1].content == row.right
                &&& is_colored(
                    r[1].style,
                    if shared {
                        None
                    } else {
                        Some(Color::Green)
                    },
                    false,
                )
            }
            &&& row.kind == SbsKind::Added ==> l.len() == 1 && l[0].content.len() == 0
            &&& row.kind == SbsKind::Removed ==> r.len() == 1 && r[0].content.len() == 0
        }),
{
    reveal_strlit("");
}

/// What shows of a list from a line on: as many as fit, or as there are.
pub proof fn views_are_filled<T>(all: Seq<T>, scroll: u16, height: u16)
    ensures
        ({
            let shown = in_view(all, scroll, height);
            &&& scroll + height <= all.len() ==> shown.len() == height
            &&& scroll <= all.len() < scroll + height ==> shown.len() == all.len() - scroll
            &&& all.len() < scroll ==> shown.len() == 0
            &&& forall|i: int| 0 <= i < shown.len() ==> #[trigger] shown[i] == all[scroll + i]
        }),
{
}

/// A scroll bar is as long as there are lines that do not fit, and stands where
/// the text is scrolled to.
pub proof fn scroll_bars_measure_what_is_left(count: nat, area: Area, scroll: u16, style: Style)
    requires
        count <= usize::MAX,
    ensures
        match scroll_widget(count, area, scroll, style) {
            WidgetView::Scrollbar { style: s, length, position } => {
                &&& s == style
                &&& position == scroll
                &&& count >= area.height ==> length + area.height == count
                &&& count < area.height ==> length == 0
            },
            _ => false,
        },
{
}

/// A diff shows all its lines, each as it is and in its own style, from the line
/// that it is scrolled to on, and its scroll bar counts those lines.
pub proof fn diffs_show_all_their_lines(
    content: Seq<char>,
    scroll: u16,
    text_area: Area,
    bar_area: Area,
    style: Style,
    k: int,
)
    requires
        0 <= k < lines(content).len(),
    ensures
        ({
            let out = unified_picture(content, scroll, text_area, bar_area, style);
            let line = lines(content)[k];
            &&& out.len() == 2
            &&& out[0] matches DrawView::Widget(area, WidgetView::Text { body, scroll: from, .. })
            &&& area == text_area && from == scroll
            &&& body matches BodyView::Lines(ls)
            &&& ls.len() == lines(content).len()
            &&& ls[k].len() == 1 && ls[k][0].content == line && ls[k][0].style == diff_line_style(
                line,
            )
            &&& out[1] == DrawView::Widget(
                bar_area,
                scroll_widget(lines(content).len(), text_area, scroll, style),
            )
        }),
{
}

/// Plain text shows as it is, from the line that it is scrolled to on, and its
/// scroll bar counts its lines.
pub proof fn texts_show_as_they_are(
    content: Seq<char>,
    scroll: u16,
    text_area: Area,
    bar_area: Area,
    style: Style,
)
    ensures
        ({
            let out = text_picture(content, scroll, text_area, bar_area, style);
            &&& out.len() == 2
            &&& out[0] matches DrawView::Widget(area, WidgetView::Text { body, scroll: from, .. })
            &&& area == text_area && from == scroll
            &&& body == BodyView::Raw(content)
            &&& out[1] == DrawView::Widget(
                bar_area,
                scroll_widget(lines(content).len(), text_area, scroll, style),
            )
        }),
{
}

/// Every worktree shows by its name, in order, with a mark exactly if some window
/// is open on it, and the selected one is the selected item.
pub proof fn worktrees_show_whether_open<S>(
    win: Window<S>,
    area: Area,
    ws: Seq<Window<S>>,
    k: int,
)
    requires
        0 <= k < win.git_worktrees@.len(),
    ensures
        ({
            let out = worktrees_picture(win, area, window_paths(ws));
            let wt = win.git_worktrees@[k];
            &&& out.len() == 1
            &&& out[0] matches DrawView::Widget(at, WidgetView::Items { items, selected, .. })
            &&& at == area
            &&& selected == win.worktree_selected
            &&& items.len() == win.git_worktrees@.len()
            &&& open_somewhere(ws, wt.path@) ==> items[k].content == wt.name@ + " [open]"@
            &&& !open_somewhere(ws, wt.path@) ==> items[k].content == wt.name@
        }),
{
    open_paths_are_those_of_windows(ws, win, win.git_worktrees@[k].path@);
    assert(win.git_worktrees.deep_view()[k] == win.git_worktrees@[k].deep_view());
}

/// Every branch shows by its name, in order, behind a star if it is the current
/// one and behind blanks if not, and the selected one is the selected item.
pub proof fn branches_show_which_is_current<S>(win: Window<S>, area: Area, k: int)
    requires
        0 <= k < win.git_branches@.len(),
    ensures
        ({
            let out = branches_picture(win, area);
            let b = win.git_branches@[k];
            &&& out.len() == 1
            &&& out[0] matches DrawView::Widget(at, WidgetView::Items { items, selected, .. })
            &&& at == area
            &&& selected == win.branch_selected
            &&& items.len() == win.git_branches@.len()
            &&& items[k].content == seq![
                if b.is_current {
                    '*'
                } else {
                    ' '
                },
                ' ',
            ] + b.name@
            &&& items[k].style.bold == b.is_current
        }),
{
    reveal_strlit("* ");
    reveal_strlit("  ");
    assert("* "@ =~= seq!['*', ' ']);
    assert("  "@ =~= seq![' ', ' ']);
    assert(win.git_branches.deep_view()[k] == win.git_branches@[k].deep_view());
}

/// Every changed file shows by its name, in order, and the one whose changes show
/// is the selected item.
pub proof fn files_show_by_name<S>(
    win: Window<S>,
    list_area: Area,
    div_area: Area,
    style: Style,
    k: int,
)
    requires
        0 <= k < win.file_diffs@.len(),
    ensures
        ({
            let out = file_list_picture(win, list_area, div_area, style);
            &&& out.len() == 2
            &&& out[0] matches DrawView::Widget(at, WidgetView::Items { items, selected, .. })
            &&& at == list_area
            &&& selected == win.diff_file_idx
            &&& items.len() == win.file_diffs@.len()
            &&& items[k].content == win.file_diffs@[k].filename@
        }),
{
    assert(win.file_diffs.deep_view()[k] == win.file_diffs@[k].deep_view());
}

/// Text with the style of each character.
pub open spec fn styled(text: Seq<char>, style: Style) -> Seq<(char, Style)> {
    Seq::new(text.len(), |i: int| (text[i], style))
}

/// The characters of glyphs with their styles.
pub open spec fn glyph_chars(glyphs: Seq<GlyphView>) -> Seq<(char, Style)>
    decreases glyphs.len(),
{
    if glyphs.len() == 0 {
        Seq::empty()
    } else {
        glyph_chars(glyphs.drop_last()) + styled(glyphs.last().text, glyphs.last().style)
    }
}

/// The characters of spans with their styles.
pub open spec fn span_chars(spans: Seq<SpanView>) -> Seq<(char, Style)>
    decreases spans.len(),
{
    if spans.len() == 0 {
        Seq::empty()
    } else {
        span_chars(spans.drop_last()) + styled(spans.last().content, spans.last().style)
    }
}

/// Putting glyphs together into spans keeps every character and its style.
pub proof fn spans_keep_the_styles(glyphs: Seq<GlyphView>)
    ensures
        span_chars(runs(glyphs)) == glyph_chars(glyphs),
    decreases glyphs.len(),
{
    if glyphs.len() > 0 {
        spans_keep_the_styles(glyphs.drop_last());
        let before = runs(glyphs.drop_last());
        let g = glyphs.last();
        let now = runs(glyphs);
        if before.len() > 0 && before.last().style == g.style {
            assert(now.drop_last() =~= before.drop_last());
            assert(styled(before.last().content + g.text, g.style) =~= styled(
                before.last().content,
                g.style,
            ) + styled(g.text, g.style));
            assert(span_chars(now) =~= span_chars(before) + styled(g.text, g.style));
        } else {
            assert(now.drop_last() =~= before);
        }
    }
}

/// A screen shows in as many lines as it has rows, each with the glyph of every
/// column, in order.
pub proof fn screens_show_every_cell(s: ScreenState, row: int)
    requires
        0 <= row < s.size.0,
    ensures
        screen_lines(s).len() == s.size.0,
        span_chars(screen_lines(s)[row]) == glyph_chars(
            Seq::new(s.size.1 as nat, |col: int| glyph_of(s.cell(row, col))),
        ),
{
    let glyphs = crate::screen::glyph_rows(s)[row];
    spans_keep_the_styles(glyphs);
    assert(glyphs =~= Seq::new(s.size.1 as nat, |col: int| glyph_of(s.cell(row, col))));
}

/// A cell shows its text, or a blank if it has none, with its colours and its
/// looks.
pub proof fn cells_show_their_text(c: CellView)
    ensures
        ({
            let g = glyph_of(Some(c));
            &&& c.text.len() > 0 ==> g.text == c.text
            &&& c.text.len() == 0 ==> g.text == seq![' ']
            &&& g.style.fg == display_color(c.fg) && g.style.bg == display_color(c.bg)
            &&& g.style.bold == c.bold && g.style.italic == c.italic
            &&& g.style.underlined == c.underline && g.style.reversed == c.inverse
            &&& glyph_of(None).text == seq![' ']
            &&& is_colored(glyph_of(None).style, None, false)
        }),
{
    reveal_strlit(" ");
    assert(" "@ =~= seq![' ']);
}

/// Different colours of a terminal show as different colours; those beyond the
/// first sixteen keep their number, and others their three parts.
pub proof fn colors_stay_apart(a: CellColor, b: CellColor, i: u8, r: u8, g: u8, bl: u8)
    ensures
        display_color(a) == display_color(b) ==> a == b,
        display_color(CellColor::Default) is None,
        i >= 16 ==> display_color(CellColor::Idx(i)) == Some(Color::Indexed(i)),
        display_color(CellColor::Rgb(r, g, bl)) == Some(Color::Rgb(r, g, bl)),
{
}

/// The cursor of a screen stands as far from the corner of its pane's inside as
/// on the screen, where that is inside.
pub proof fn cursors_stand_where_they_are(inner: Area, cursor: (u16, u16))
    requires
        inner.addressable(),
    ensures
        cursor.1 < inner.width && cursor.0 < inner.height ==> cursor_in(inner, cursor) == seq![
            DrawView::Cursor((inner.x + cursor.1) as u16, (inner.y + cursor.0) as u16),
        ],
        cursor.1 >= inner.width || cursor.0 >= inner.height ==> cursor_in(inner, cursor).len() == 0,
{
}

/// A terminal pane shows its border and, inside, the lines of its screen as far
/// back as it is scrolled; behind them comes the cursor if the pane has the
/// focus and is not scrolled back. Without a session it shows a message.
pub proof fn terminal_panes_show_their_screen(
    running: bool,
    screen: Option<ScreenState>,
    area: Area,
    focused: bool,
    border: WidgetView,
    fail_msg: Seq<char>,
    scroll: usize,
)
    ensures
        ({
            let out = pty_picture(running, screen, area, focused, border, fail_msg, scroll);
            &&& out.len() > 0 && out[0] == DrawView::Widget(area, border)
            &&& !running ==> {
                &&& out.len() == 2
                &&& out[1] matches DrawView::Widget(at, WidgetView::Text { body, .. })
                &&& at == area.inside() && body == BodyView::Raw(fail_msg)
            }
            &&& running && screen is Some ==> {
                let s = screen->0;
                &&& out.len() >= 2
                &&& out[1] matches DrawView::Widget(at, WidgetView::Text { body, scroll: from, .. })
                &&& at == area.inside() && from == 0
                &&& body == BodyView::Lines(screen_lines(s.scrolled(scroll as nat)))
                &&& out.skip(2) == if focused && scroll == 0 {
                    cursor_in(area.inside(), s.cursor)
                } else {
                    Seq::empty()
                }
            }
            &&& running && screen is None ==> out.len() == 1
        }),
{
    let out = pty_picture(running, screen, area, focused, border, fail_msg, scroll);
    if running {
        if let Some(s) = screen {
            let tail = if focused && scroll == 0 {
                cursor_in(area.inside(), s.cursor)
            } else {
                Seq::empty()
            };
            assert(out.skip(2) =~= tail);
        }
    }
}

/// A question is asked in the middle of the display, give or take one: it is
/// five rows high, and as wide as leaves two columns on either side, but no more
/// than 54.
pub proof fn questions_are_in_the_middle(area: Area)
    requires
        area.addressable(),
        area.width >= 4,
        area.height >= 5,
    ensures
        ({
            let d = dialog_area(area);
            let left = d.x - area.x;
            let right = area.x + area.width - (d.x + d.width);
            let over = d.y - area.y;
            let under = area.y + area.height - (d.y + d.height);
            &&& d.height == 5
            &&& area.width <= 58 ==> d.width + 4 == area.width
            &&& area.width > 58 ==> d.width == 54
            &&& left == right || left + 1 == right
            &&& over == under || over + 1 == under
        }),
{
}

/// A question names what it is about, and the one for a name shows what has been
/// typed.
pub proof fn questions_name_their_subject(path: String, name: String, input: Seq<char>)
    ensures
        question(InputMode::NewWorktree, input).answer == input.push('_'),
        question(InputMode::ConfirmDelete(path, name), input).text == "Remove worktree '"@ + name@
            + seq!['\'', '?'],
        question(InputMode::ConfirmDeleteBranch(name), input).text == "Delete branch '"@ + name@
            + seq!['\'', '?'],
{
    reveal_strlit("_");
    reveal_strlit("'?");
    assert("'?"@ =~= seq!['\'', '?']);
    assert(input + "_"@ =~= input.push('_'));
}

/// The bar shows the name of every window, in order, and marks the one in front.
pub proof fn the_bar_names_the_windows<S>(a: AppState<S>, area: Area, k: int)
    requires
        0 <= k < a.windows.len(),
        0 <= a.active <= usize::MAX,
    ensures
        ({
            let out = bar_picture(a, area);
            &&& out.len() == 2
            &&& out[0] matches DrawView::Widget(at, WidgetView::Tabs { titles, selected, .. })
            &&& at == area
            &&& selected == a.active
            &&& titles.len() == a.windows.len()
            &&& titles[k] == seq![' '] + a.windows[k].name@ + seq![' ']
        }),
{
    reveal_strlit(" ");
    assert(" "@ =~= seq![' ']);
}

/// A side-by-side diff shows the rows from the one that it is scrolled to on, as
/// many as fit, each row's halves at the same height, with numbers as wide as
/// the whole diff needs; its scroll bar counts all rows.
pub proof fn both_halves_show_the_same_rows(
    rows: Seq<RowView>,
    scroll: u16,
    left: Area,
    rule: Area,
    right: Area,
    bar: Area,
    style: Style,
    k: int,
)
    requires
        0 <= k < left.height,
        scroll + k < rows.len(),
    ensures
        ({
            let out = sbs_picture(rows, scroll, left, rule, right, bar, style);
            let width = gutter_width(rows);
            &&& out.len() == 4
            &&& out[1] matches DrawView::Widget(l_at, WidgetView::Text { body: l, scroll: ls, .. })
            &&& out[2] matches DrawView::Widget(r_at, WidgetView::Text { body: r, scroll: rs, .. })
            &&& l_at == left && r_at == right && ls == 0 && rs == 0
            &&& l matches BodyView::Lines(l_lines)
            &&& r matches BodyView::Lines(r_lines)
            &&& k < l_lines.len() <= left.height && r_lines.len() == l_lines.len()
            &&& l_lines[k] == left_half(rows[scroll + k], width)
            &&& r_lines[k] == right_half(rows[scroll + k], width)
            &&& out[3] == DrawView::Widget(bar, scroll_widget(rows.len(), left, scroll, style))
        }),
{
    views_are_filled(rows, scroll, left.height);
}

/// Whether `out` shows the selected file in an area, scrolled to where it is: side
/// by side in full screen, as git printed it otherwise.
pub open spec fn selected_shows<S>(
    win: Window<S>,
    area: Area,
    style: Style,
    out: Seq<DrawView>,
) -> bool {
    let f = win.file_diffs@[win.diff_file_idx as int];
    let from = win.diff_content_scroll;
    &&& win.fullscreen ==> sbs_drawn(f.sbs.deep_view(), from, area, style, out)
    &&& !win.fullscreen ==> unified_drawn(f.content@, from, area, style, out)
}

/// The diff tab shows the selected file and, if it is switched on, the list of
/// files before it.
pub proof fn the_selected_file_shows<S>(
    win: Window<S>,
    area: Area,
    focused: bool,
    style: Style,
    paths: Seq<Seq<char>>,
    out: Seq<DrawView>,
)
    requires
        win.wf(),
        win.git_tab == GitTab::Diff,
        win.file_diffs@.len() > 0,
        tab_drawn(win, area, focused, style, paths, out),
    ensures
        !win.diff_show_list ==> selected_shows(win, area, style, out),
        win.diff_show_list ==> exists|list: Area, rule: Area, rest: Area, shown: Seq<DrawView>|
            #![trigger in_three(area, Axis::Across, diff_parts(), list, rule, rest), selected_shows(
                win,
                rest,
                style,
                shown,
            )]
            {
                &&& in_three(area, Axis::Across, diff_parts(), list, rule, rest)
                &&& selected_shows(win, rest, style, shown)
                &&& out == file_list_picture(win, list, rule, style) + shown
            },
{
    if win.diff_show_list {
        let (a, b, c, rest) = choose|a: Area, b: Area, c: Area, rest: Seq<DrawView>|
            #![trigger in_three(area, Axis::Across, diff_parts(), a, b, c), file_drawn(
                win,
                c,
                style,
                rest,
            )]
            in_three(area, Axis::Across, diff_parts(), a, b, c) && file_drawn(win, c, style, rest)
                && out == file_list_picture(win, a, b, style) + rest;
        assert(selected_shows(win, c, style, rest));
    }
}

/// The log tab shows the log, scrolled to where it is.
pub proof fn the_log_shows<S>(
    win: Window<S>,
    area: Area,
    focused: bool,
    style: Style,
    paths: Seq<Seq<char>>,
    out: Seq<DrawView>,
)
    requires
        win.git_tab == GitTab::Log,
        tab_drawn(win, area, focused, style, paths, out),
    ensures
        text_drawn(win.git_log@, win.scroll_offsets@[3], area, style, out),
{
}

/// The two lists show in their tabs.
pub proof fn the_lists_show<S>(
    win: Window<S>,
    area: Area,
    focused: bool,
    style: Style,
    paths: Seq<Seq<char>>,
    out: Seq<DrawView>,
)
    requires
        tab_drawn(win, area, focused, style, paths, out),
    ensures
        win.git_tab == GitTab::Worktrees ==> out == worktrees_picture(win, area, paths),
        win.git_tab == GitTab::Branches ==> out == branches_picture(win, area),
{
}

/// The agent pane is titled with the name of its window, and each pane's title
/// has a star exactly if the pane has the focus. Each shows its own session.
pub proof fn titles_show_the_focus<S>(
    win: Window<S>,
    agent: Seq<char>,
    screen: Option<ScreenState>,
    area: Area,
    focused: bool,
    normal: Style,
    active: Style,
)
    ensures
        ({
            let c = claude_picture(win, agent, screen, area, focused, normal, active);
            let t = terminal_picture(win, screen, area, focused, normal, active);
            let end = if focused {
                " * "@
            } else {
                " "@
            };
            let look = if focused {
                active
            } else {
                normal
            };
            &&& c[0] matches DrawView::Widget(
                c_at,
                WidgetView::Border { style: c_style, title: Some(c_title), .. },
            )
            &&& c_at == area && c_style == look && c_title == " "@ + win.name@ + end
            &&& t[0] matches DrawView::Widget(
                t_at,
                WidgetView::Border { style: t_style, title: Some(t_title), .. },
            )
            &&& t_at == area && t_style == look && t_title == (if focused {
                " Terminal * "@
            } else {
                " Terminal "@
            })
            &&& win.claude is Some && screen is Some ==> c[1] == block_of_lines(
                area.inside(),
                screen_lines(screen->0.scrolled(win.claude_scroll as nat)),
            )
            &&& win.terminal is Some && screen is Some ==> t[1] == block_of_lines(
                area.inside(),
                screen_lines(screen->0.scrolled(0)),
            )
        }),
{
}

/// The inside of a border is the area without one cell on each side.
pub proof fn borders_take_one_cell(area: Area)
    requires
        area.addressable(),
    ensures
        ({
            let r = area.inside();
            &&& area.width >= 2 ==> r.x == area.x + 1 && r.x + r.width + 1 == area.x + area.width
            &&& area.height >= 2 ==> r.y == area.y + 1 && r.y + r.height + 1 == area.y + area.height
            &&& area.width < 2 ==> r.width == 0
            &&& area.height < 2 ==> r.height == 0
        }),
{
}

/// The git pane has its keys named while it has the focus, and the current tab
/// is the selected one of the four.
pub proof fn the_current_tab_is_marked<S>(
    win: Window<S>,
    area: Area,
    tabs_area: Area,
    sep_area: Area,
    focused: bool,
    style: Style,
)
    ensures
        ({
            let out = git_frame(win, area, tabs_area, sep_area, focused, style);
            &&& out.len() == 3
            &&& out[0] matches DrawView::Widget(at, WidgetView::Border { style: s, hint: h, .. })
            &&& at == area && s == style
            &&& h matches Some(hint)
            &&& focused ==> hint == git_hint(win.git_tab, win.fullscreen)
            &&& !focused ==> hint.len() == 0
            &&& out[1] matches DrawView::Widget(t_at, WidgetView::Tabs { titles, selected, .. })
            &&& t_at == tabs_area
            &&& titles.len() == 4 && selected < 4
            &&& titles[selected as int] == win.git_tab.label()
            &&& win.git_tab == GitTab::Diff ==> selected == 0
            &&& win.git_tab == GitTab::Worktrees ==> selected == 1
            &&& win.git_tab == GitTab::Branches ==> selected == 2
            &&& win.git_tab == GitTab::Log ==> selected == 3
        }),
{
    reveal_strlit("");
}

/// Text that is drawn as it is.
pub open spec fn says(d: DrawView, text: Seq<char>) -> bool {
    d matches DrawView::Widget(_, WidgetView::Text { body, .. }) && body == BodyView::Raw(text)
}

/// What the user is asked is drawn over all else, on a cleared area in the middle
/// of the display: first the question, then the answer.
pub proof fn questions_are_drawn_last<S>(
    a: AppState<S>,
    agent: Seq<char>,
    claude: Option<ScreenState>,
    terminal: Option<ScreenState>,
    area: Area,
    out: Seq<DrawView>,
    mode: InputMode,
)
    requires
        display_drawn(a, agent, claude, terminal, area, out),
        a.input_mode == Some(mode),
        !a.front().fullscreen,
    ensures
        out.len() >= 4,
        out[out.len() - 4] == DrawView::Widget(dialog_area(area), WidgetView::Clear),
        says(out[out.len() - 2], question(mode, a.input).text),
        says(out[out.len() - 1], question(mode, a.input).answer),
{
    let (bar, content, win, overlay) = choose|
        bar: Area,
        content: Area,
        win: Seq<DrawView>,
        overlay: Seq<DrawView>,
    |
        #![trigger in_two(area, Axis::Down, display_parts(), bar, content), window_drawn(
            a,
            agent,
            claude,
            terminal,
            content,
            win,
        ), overlay_drawn(a, area, overlay)]
        in_two(area, Axis::Down, display_parts(), bar, content) && window_drawn(
            a,
            agent,
            claude,
            terminal,
            content,
            win,
        ) && overlay_drawn(a, area, overlay) && out == bar_picture(a, bar) + win + overlay;
    let below = bar_picture(a, bar) + win;
    assert(overlay.len() == 4);
    assert(out =~= below + overlay);
    assert(out[out.len() - 4] == overlay[0]);
    assert(out[out.len() - 2] == overlay[2]);
    assert(out[out.len() - 1] == overlay[3]);
}

/// Blue text, bold or not.
pub open spec fn blue_text(bold: bool) -> Style {
    Style {
        fg: Some(Color::Blue),
        bg: None,
        bold,
        italic: false,
        underlined: false,
        reversed: false,
    }
}

/// Whether `git` shows the git pane of the window in front, in a bold border if
/// it has the focus, with a mark at the worktrees that some window is on.
pub open spec fn front_git_shows<S>(a: AppState<S>, area: Area, git: Seq<DrawView>) -> bool {
    let focused = a.front().focused == Pane::Git;
    git_drawn(a.front(), area, focused, blue_text(focused), window_paths(a.windows), git)
}

/// Below the bar, in full screen, the git pane of the window in front has the
/// display to itself; else it has the agent's and the shell's beside it. Its
/// border is bold while it has the focus.
pub proof fn the_window_in_front_shows<S>(
    a: AppState<S>,
    agent: Seq<char>,
    claude: Option<ScreenState>,
    terminal: Option<ScreenState>,
    area: Area,
    out: Seq<DrawView>,
)
    requires
        window_drawn(a, agent, claude, terminal, area, out),
    ensures
        a.front().fullscreen ==> front_git_shows(a, area, out),
        !a.front().fullscreen ==> exists|panes: Panes, git: Seq<DrawView>|
            #![trigger laid_out(area, panes), front_git_shows(a, panes.git, git)]
            {
                let w = a.front();
                let blue = blue_text(false);
                let bold = blue_text(true);
                &&& laid_out(area, panes)
                &&& front_git_shows(a, panes.git, git)
                &&& out == claude_picture(
                    w,
                    agent,
                    claude,
                    panes.claude,
                    w.focused == Pane::Claude,
                    blue,
                    bold,
                ) + git + terminal_picture(
                    w,
                    terminal,
                    panes.terminal,
                    w.focused == Pane::Terminal,
                    blue,
                    bold,
                )
            },
{
    if !a.front().fullscreen {
        let (panes, git) = choose|panes: Panes, git: Seq<DrawView>|
            laid_out(area, panes) && #[trigger] front_git_drawn(a, panes.git, git) && out
                == #[trigger] panes_picture(a, agent, claude, terminal, panes, git);
        assert(front_git_shows(a, panes.git, git));
    }
}

} // verus!
