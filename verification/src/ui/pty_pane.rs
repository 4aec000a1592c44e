//! The panes that show terminal sessions.

use vstd::prelude::*;

use crate::app::Window;
use crate::screen::{
    capture, glyph_of, glyph_row, glyph_rows, screen_of, state_of, CellView, Glyph,
    GlyphView, ScreenState,
};
use crate::ui::draw::{
    add_draw, block_of_lines, draw_lines, draw_note, note, Draw, DrawView, Widget, WidgetView,
};
use crate::ui::layout::{clip, inside_border, Area};
use crate::ui::style::{colored, span, Color, Line, Span, SpanView, Style};

verus! {

/// A row of glyphs as spans: neighbours of the same style are one span.
pub open spec fn runs(glyphs: Seq<GlyphView>) -> Seq<SpanView>
    decreases glyphs.len(),
{
    if glyphs.len() == 0 {
        Seq::empty()
    } else {
        let before = runs(glyphs.drop_last());
        let g = glyphs.last();
        if before.len() > 0 && before.last().style == g.style {
            before.drop_last().push(span(before.last().content + g.text, g.style))
        } else {
            before.push(span(g.text, g.style))
        }
    }
}

/// Whether every glyph has some text.
pub open spec fn inked(glyphs: Seq<GlyphView>) -> bool {
    forall|i: int| 0 <= i < glyphs.len() ==> (#[trigger] glyphs[i]).text.len() > 0
}

/// The lines that show a screen.
pub open spec fn screen_lines(s: ScreenState) -> Seq<Seq<SpanView>> {
    Seq::new(glyph_rows(s).len(), |i: int| runs(glyph_rows(s)[i]))
}

/// The span that is being put together, once it has text.
pub open spec fn open_run(text: Seq<char>, style: Style) -> Seq<SpanView> {
    if text.len() == 0 {
        Seq::empty()
    } else {
        seq![span(text, style)]
    }
}

proof fn lemma_inked(c: Option<CellView>)
    ensures
        glyph_of(c).text.len() > 0,
{
    reveal_strlit(" ");
}

/// Puts a row of glyphs together.
pub fn row_line(glyphs: &Vec<Glyph>) -> (r: Line)
    requires
        inked(glyphs.deep_view()),
    ensures
        r.deep_view() == runs(glyphs.deep_view()),
{
    let ghost gs = glyphs.deep_view();
    let mut spans: Vec<Span> = Vec::new();
    let mut run_text = String::new();
    let mut run_style = Style::new();
    let mut i: usize = 0;
    assert(gs.take(0) =~= Seq::<GlyphView>::empty());
    assert(spans.deep_view() + open_run(run_text@, run_style) =~= runs(gs.take(0)));
    while i < glyphs.len()
        invariant
            i <= glyphs@.len(),
            gs == glyphs.deep_view(),
            inked(gs),
            spans.deep_view() + open_run(run_text@, run_style) == runs(gs.take(i as int)),
            run_text@.len() == 0 ==> i == 0 && spans@.len() == 0,
        decreases glyphs@.len() - i,
    {
        let g = &glyphs[i];
        let ghost before = runs(gs.take(i as int));
        let ghost done = spans.deep_view();
        assert(gs[i as int] == g.deep_view());
        assert(gs.take(i + 1).drop_last() =~= gs.take(i as int));
        assert(run_text@.len() > 0 ==> before.drop_last() =~= done && before.last() == span(
            run_text@,
            run_style,
        ));
        if g.style == run_style {
            let ghost old_text = run_text@;
            run_text.append(g.text.as_str());
            assert(old_text.len() == 0 ==> run_text@ =~= g.text@);
        } else {
            if !run_text.as_str().is_empty() {
                spans.push(Span { content: run_text, style: run_style });
                assert(spans.deep_view() =~= before);
            }
            run_text = g.text.clone();
            run_style = g.style;
        }
        i = i + 1;
        assert(spans.deep_view() + open_run(run_text@, run_style) =~= runs(gs.take(i as int)));
    }
    assert(gs.take(i as int) =~= gs);
    let ghost done = spans.deep_view();
    if !run_text.as_str().is_empty() {
        spans.push(Span { content: run_text, style: run_style });
        assert(spans.deep_view() =~= done + open_run(run_text@, run_style));
    } else {
        assert(spans.deep_view() =~= done + open_run(run_text@, run_style));
    }
    Line { spans }
}

fn rows_to_lines(rows: &Vec<Vec<Glyph>>, Ghost(s): Ghost<ScreenState>) -> (r: Vec<Line>)
    requires
        rows.deep_view() == glyph_rows(s),
    ensures
        r.deep_view() == screen_lines(s),
{
    let mut r: Vec<Line> = Vec::new();
    let mut i: usize = 0;
    assert(rows.deep_view().len() == rows@.len());
    assert(r.deep_view() =~= screen_lines(s).take(0));
    while i < rows.len()
        invariant
            i <= rows@.len(),
            rows@.len() == glyph_rows(s).len(),
            rows.deep_view() == glyph_rows(s),
            r.deep_view() == screen_lines(s).take(i as int),
        decreases rows@.len() - i,
    {
        let ghost before = r.deep_view();
        assert(rows@[i as int].deep_view() == rows.deep_view()[i as int]);
        assert(rows@[i as int].deep_view() == glyph_row(s, i as int));
        proof {
            assert forall|j: int| 0 <= j < glyph_row(s, i as int).len() implies (
            #[trigger] glyph_row(s, i as int)[j]).text.len() > 0 by {
                lemma_inked(s.cell(i as int, j));
            }
        }
        let line = row_line(&rows[i]);
        r.push(line);
        assert(r.deep_view() =~= before.push(line.deep_view()));
        i = i + 1;
        assert(screen_lines(s).take(i as int) =~= before.push(screen_lines(s)[i - 1]));
    }
    assert(screen_lines(s).take(i as int) =~= screen_lines(s));
    r
}

/// The cursor of a screen that is drawn in `inner`, if it lies there.
pub open spec fn cursor_in(inner: Area, cursor: (u16, u16)) -> Seq<DrawView> {
    let x = clip(inner.x + cursor.1);
    let y = clip(inner.y + cursor.0);
    if x < inner.x + inner.width && y < inner.y + inner.height {
        seq![DrawView::Cursor(x as u16, y as u16)]
    } else {
        Seq::empty()
    }
}

/// What a terminal pane shows: a border and in it the screen of the session,
/// with the cursor if the pane has the focus and is not scrolled back, or a
/// message if there is no session.
pub open spec fn pty_picture(
    running: bool,
    screen: Option<ScreenState>,
    area: Area,
    focused: bool,
    border: WidgetView,
    fail_msg: Seq<char>,
    scroll: usize,
) -> Seq<DrawView> {
    let frame = DrawView::Widget(area, border);
    if !running {
        seq![frame, note(area.inside(), fail_msg, colored(Color::Red))]
    } else {
        match screen {
            None => seq![frame],
            Some(s) => seq![
                frame,
                block_of_lines(area.inside(), screen_lines(s.scrolled(scroll as nat))),
            ] + if focused && scroll == 0 {
                cursor_in(area.inside(), s.cursor)
            } else {
                Seq::empty()
            },
        }
    }
}

/// The border of a terminal pane.
pub open spec fn pane_border(style: Style, title: Seq<char>, hint: Seq<char>) -> WidgetView {
    WidgetView::Border { style, title: Some(title), hint: Some(hint) }
}

fn render_pty_pane(
    running: bool,
    screen: Option<&mut vt100::Parser>,
    area: Area,
    focused: bool,
    title: String,
    hint: &str,
    border_style: Style,
    fail_msg: &str,
    scroll_offset: usize,
) -> (r: Vec<Draw>)
    requires
        area.addressable(),
        match screen {
            Some(p) => running ==> screen_of(*p).scrolled(scroll_offset as nat).viewable(),
            None => true,
        },
    ensures
        r.deep_view() == pty_picture(
            running,
            state_of(screen),
            area,
            focused,
            pane_border(border_style, title@, hint@),
            fail_msg@,
            scroll_offset,
        ),
        match screen {
            Some(p) => screen_of(*final(p)) == (if running {
                screen_of(*p).scrolled(0)
            } else {
                screen_of(*p)
            }),
            None => true,
        },
{
    let ghost state = state_of(screen);
    let inner = inside_border(area);
    let mut out: Vec<Draw> = Vec::new();
    let border = Widget::Border {
        style: border_style,
        title: Some(title),
        hint: Some(hint.to_string()),
    };
    let ghost frame = DrawView::Widget(area, border.deep_view());
    add_draw(&mut out, Draw::Widget(area, border));
    assert(out.deep_view() =~= seq![frame]);
    if !running {
        add_draw(&mut out, draw_note(inner, fail_msg.to_string(), Style::color(Color::Red)));
        assert(out.deep_view() =~= seq![
            frame,
            note(area.inside(), fail_msg@, colored(Color::Red)),
        ]);
        return out;
    }
    match screen {
        None => {},
        Some(p) => {
            let ghost s = screen_of(*p);
            let shot = capture(p, scroll_offset);
            let lines = rows_to_lines(&shot.rows, Ghost(s.scrolled(scroll_offset as nat)));
            add_draw(&mut out, draw_lines(inner, lines));
            let ghost head = out.deep_view();
            assert(head =~= seq![
                frame,
                block_of_lines(area.inside(), screen_lines(s.scrolled(scroll_offset as nat))),
            ]);
            if focused && scroll_offset == 0 {
                let (crow, ccol): (u16, u16) = shot.cursor;
                let cx: u16 = inner.x.saturating_add(ccol);
                let cy: u16 = inner.y.saturating_add(crow);
                if cx < inner.x + inner.width && cy < inner.y + inner.height {
                    add_draw(&mut out, Draw::Cursor(cx, cy));
                }
            }
            assert(out.deep_view() =~= head + if focused && scroll_offset == 0 {
                cursor_in(area.inside(), s.cursor)
            } else {
                Seq::empty()
            });
        },
    }
    out
}

/// What the agent pane says if the program `agent` did not start.
pub open spec fn missing_agent(agent: Seq<char>) -> Seq<char> {
    "Failed to start "@ + agent + " CLI.\nEnsure `"@ + agent + "` is on PATH."@
}

/// What the agent pane shows.
pub open spec fn claude_picture<S>(
    win: Window<S>,
    agent: Seq<char>,
    screen: Option<ScreenState>,
    area: Area,
    focused: bool,
    normal: Style,
    active: Style,
) -> Seq<DrawView> {
    pty_picture(
        win.claude is Some,
        screen,
        area,
        focused,
        if focused {
            pane_border(
                active,
                " "@ + win.name@ + " * "@,
                " S↑↓/PgUp/PgDn scroll  ^W pane  ^Q quit "@,
            )
        } else {
            pane_border(normal, " "@ + win.name@ + " "@, ""@)
        },
        missing_agent(agent),
        win.claude_scroll,
    )
}

/// What the shell pane shows.
pub open spec fn terminal_picture<S>(
    win: Window<S>,
    screen: Option<ScreenState>,
    area: Area,
    focused: bool,
    normal: Style,
    active: Style,
) -> Seq<DrawView> {
    pty_picture(
        win.terminal is Some,
        screen,
        area,
        focused,
        if focused {
            pane_border(active, " Terminal * "@, " ^W pane  ^Q quit "@)
        } else {
            pane_border(normal, " Terminal "@, ""@)
        },
        "Failed to start shell.\nCheck $SHELL."@,
        0,
    )
}

/// Draws the agent pane. `agent` is the program that runs in it, and `screen` the
/// screen of its session, if it can be read.
pub fn render_claude_pane<S>(
    win: &Window<S>,
    agent: &str,
    screen: Option<&mut vt100::Parser>,
    area: Area,
    focused: bool,
    normal: Style,
    active: Style,
) -> (r: Vec<Draw>)
    requires
        area.addressable(),
        match screen {
            Some(p) => win.claude is Some ==> screen_of(*p).scrolled(
                win.claude_scroll as nat,
            ).viewable(),
            None => true,
        },
    ensures
        r.deep_view() == claude_picture(
            *win,
            agent@,
            state_of(screen),
            area,
            focused,
            normal,
            active,
        ),
        match screen {
            Some(p) => screen_of(*final(p)) == (if win.claude is Some {
                screen_of(*p).scrolled(0)
            } else {
                screen_of(*p)
            }),
            None => true,
        },
{
    let border_style = if focused { active } else { normal };
    let hint = if focused { " S↑↓/PgUp/PgDn scroll  ^W pane  ^Q quit " } else { "" };
    let title = " ".to_string().concat(win.name.as_str()).concat(if focused { " * " } else { " " });
    let fail_msg = "Failed to start ".to_string().concat(agent).concat(
        " CLI.\nEnsure `",
    ).concat(agent).concat("` is on PATH.");
    render_pty_pane(
        win.claude.is_some(),
        screen,
        area,
        focused,
        title,
        hint,
        border_style,
        fail_msg.as_str(),
        win.claude_scroll,
    )
}

/// Draws the shell pane. `screen` is the screen of its session, if it can be
/// read.
pub fn render_terminal_pane<S>(
    win: &Window<S>,
    screen: Option<&mut vt100::Parser>,
    area: Area,
    focused: bool,
    normal: Style,
    active: Style,
) -> (r: Vec<Draw>)
    requires
        area.addressable(),
    ensures
        r.deep_view() == terminal_picture(*win, state_of(screen), area, focused, normal, active),
        match screen {
            Some(p) => screen_of(*final(p)) == (if win.terminal is Some {
                screen_of(*p).scrolled(0)
            } else {
                screen_of(*p)
            }),
            None => true,
        },
{
    let border_style = if focused { active } else { normal };
    let hint = if focused { " ^W pane  ^Q quit " } else { "" };
    let title = if focused { " Terminal * " } else { " Terminal " };
    render_pty_pane(
        win.terminal.is_some(),
        screen,
        area,
        focused,
        title.to_string(),
        hint,
        border_style,
        "Failed to start shell.\nCheck $SHELL.",
        0,
    )
}

} // verus!
