//! The whole display.

use vstd::prelude::*;

use crate::app::{window_paths, App, AppState, InputMode, Pane, Window};
use crate::screen::{screen_of, state_of, ScreenState};
use crate::ui::draw::{
    add_draw, add_draws, draw_note, note, Body, BodyView, Draw, DrawView, Widget, WidgetView,
};
use crate::ui::git_pane::{git_drawn, render_git_pane};
use crate::ui::layout::{
    in_two, inside_border, pieces_lie_within, split_two, Area, Axis, Part,
};
use crate::ui::pty_pane::{
    claude_picture, render_claude_pane, render_terminal_pane, terminal_picture,
};
use crate::ui::style::{bold_colored, colored, plain, Color, Style};

verus! {

/// The bar at the top: the names of the windows, and the program's name.
pub open spec fn bar_picture<S>(a: AppState<S>, area: Area) -> Seq<DrawView> {
    seq![
        DrawView::Widget(
            area,
            WidgetView::Tabs {
                titles: a.windows.map_values(|w: Window<S>| " "@ + w.name@ + " "@),
                selected: a.active as usize,
                style: colored(Color::DarkGray),
                highlight: bold_colored(Color::Blue),
            },
        ),
        DrawView::Widget(
            area,
            WidgetView::Text {
                body: BodyView::Raw("datui"@),
                style: bold_colored(Color::Blue),
                scroll: 0,
                wrap: false,
                centered: true,
            },
        ),
    ]
}

/// Draws the bar at the top.
pub fn render_window_bar<S>(app: &App<S>, area: Area) -> (r: Vec<Draw>)
    ensures
        r.deep_view() == bar_picture(app@, area),
{
    let ghost label = |w: Window<S>| " "@ + w.name@ + " "@;
    let ghost ws = app.windows@;
    let ghost want = ws.map_values(label);
    let mut titles: Vec<String> = Vec::new();
    let mut i: usize = 0;
    assert(titles.deep_view() =~= want.take(0));
    while i < app.windows.len()
        invariant
            i <= ws.len(),
            ws == app.windows@,
            want == ws.map_values(label),
            label == (|w: Window<S>| " "@ + w.name@ + " "@),
            titles.deep_view() == want.take(i as int),
        decreases ws.len() - i,
    {
        let ghost before = titles.deep_view();
        let title = " ".to_string().concat(app.windows[i].name.as_str()).concat(" ");
        titles.push(title);
        assert(titles.deep_view() =~= before.push(title@));
        i = i + 1;
        assert(want.take(i as int) =~= before.push(want[i - 1]));
    }
    assert(want.take(i as int) =~= want);
    let mut out: Vec<Draw> = Vec::new();
    add_draw(
        &mut out,
        Draw::Widget(
            area,
            Widget::Tabs {
                titles,
                selected: app.active,
                style: Style::color(Color::DarkGray),
                highlight: Style::bold_color(Color::Blue),
            },
        ),
    );
    add_draw(
        &mut out,
        Draw::Widget(
            area,
            Widget::Text {
                body: Body::Raw("datui".to_string()),
                style: Style::bold_color(Color::Blue),
                scroll: 0,
                wrap: false,
                centered: true,
            },
        ),
    );
    assert(out.deep_view() =~= bar_picture(app@, area));
    out
}

/// The area of a question: in the middle of the display, five rows high and at
/// most 54 columns wide, with a margin of two columns on either side.
pub open spec fn dialog_area(area: Area) -> Area {
    let margin_free = if area.width < 4 {
        0
    } else {
        area.width - 4
    };
    let width = if margin_free < 54 {
        margin_free
    } else {
        54
    };
    Area {
        x: (area.x + (area.width - width) / 2) as u16,
        y: (area.y + (if area.height < 5 {
            0
        } else {
            area.height - 5
        }) / 2) as u16,
        width: width as u16,
        height: 5,
    }
}

fn find_dialog_area(area: Area) -> (r: Area)
    requires
        area.addressable(),
    ensures
        r == dialog_area(area),
{
    let w: u16 = area.width.saturating_sub(4).min(54);
    let h: u16 = 5;
    let x: u16 = area.x + (area.width.saturating_sub(w)) / 2;
    let y: u16 = area.y + (area.height.saturating_sub(h)) / 2;
    Area { x, y, width: w, height: h }
}

/// What is asked: a title, a line of text, a second line and the colours of the
/// border and of the second line.
pub struct Question {
    pub title: Seq<char>,
    pub text: Seq<char>,
    pub answer: Seq<char>,
    pub border: Style,
    pub answer_style: Style,
}

/// What the user is asked, given what has been typed so far.
pub open spec fn question(mode: InputMode, input: Seq<char>) -> Question {
    match mode {
        InputMode::NewWorktree => Question {
            title: " New Worktree "@,
            text: "Branch name (worktree created at ../name):"@,
            answer: input + "_"@,
            border: bold_colored(Color::Blue),
            answer_style: bold_colored(Color::White),
        },
        InputMode::ConfirmDelete(_, name) => Question {
            title: " Delete Worktree "@,
            text: "Remove worktree '"@ + name@ + "'?"@,
            answer: "Press y to confirm, n or Esc to cancel"@,
            border: bold_colored(Color::Red),
            answer_style: colored(Color::DarkGray),
        },
        InputMode::ConfirmDeleteBranch(name) => Question {
            title: " Delete Branch "@,
            text: "Delete branch '"@ + name@ + "'?"@,
            answer: "Press y to confirm, n or Esc to cancel"@,
            border: bold_colored(Color::Red),
            answer_style: colored(Color::DarkGray),
        },
    }
}

/// A question in a dialog, with the areas of its two lines.
pub open spec fn question_picture(q: Question, dialog: Area, first: Area, second: Area) -> Seq<
    DrawView,
> {
    seq![
        DrawView::Widget(dialog, WidgetView::Clear),
        DrawView::Widget(
            dialog,
            WidgetView::Border { style: q.border, title: Some(q.title), hint: None },
        ),
        note(first, q.text, plain()),
        note(second, q.answer, q.answer_style),
    ]
}

/// The parts of the inside of a dialog.
pub open spec fn dialog_parts() -> Seq<Part> {
    seq![Part::Length(1), Part::Length(1)]
}

/// Whether `out` shows what the user is asked, over a display of the given area.
pub open spec fn prompt_drawn<S>(a: AppState<S>, area: Area, out: Seq<DrawView>) -> bool {
    let dialog = dialog_area(area);
    match a.input_mode {
        None => out == seq![DrawView::Widget(dialog, WidgetView::Clear)],
        Some(mode) => exists|first: Area, second: Area|
            in_two(dialog.inside(), Axis::Down, dialog_parts(), first, second) && out
                == question_picture(question(mode, a.input), dialog, first, second),
    }
}

/// Draws a question in a dialog, its two lines in the given areas.
pub fn draw_question(mode: &InputMode, input: &str, dialog: Area, first: Area, second: Area) -> (r:
    Vec<Draw>)
    ensures
        r.deep_view() == question_picture(question(*mode, input@), dialog, first, second),
{
    let mut out: Vec<Draw> = Vec::new();
    let red = Style::bold_color(Color::Red);
    let confirm = "Press y to confirm, n or Esc to cancel";
    let (title, border, text, answer, answer_style): (&str, Style, String, String, Style) =
        match mode {
        InputMode::NewWorktree => (
            " New Worktree ",
            Style::bold_color(Color::Blue),
            "Branch name (worktree created at ../name):".to_string(),
            input.to_string().concat("_"),
            Style::bold_color(Color::White),
        ),
        InputMode::ConfirmDelete(_, name) => (
            " Delete Worktree ",
            red,
            "Remove worktree '".to_string().concat(name.as_str()).concat("'?"),
            confirm.to_string(),
            Style::color(Color::DarkGray),
        ),
        InputMode::ConfirmDeleteBranch(name) => (
            " Delete Branch ",
            red,
            "Delete branch '".to_string().concat(name.as_str()).concat("'?"),
            confirm.to_string(),
            Style::color(Color::DarkGray),
        ),
    };
    add_draw(&mut out, Draw::Widget(dialog, Widget::Clear));
    add_draw(
        &mut out,
        Draw::Widget(
            dialog,
            Widget::Border { style: border, title: Some(title.to_string()), hint: None },
        ),
    );
    add_draw(&mut out, draw_note(first, text, Style::new()));
    add_draw(&mut out, draw_note(second, answer, answer_style));
    assert(out.deep_view() =~= question_picture(question(*mode, input@), dialog, first, second));
    out
}

/// Draws what the user is asked over a display of the given area.
pub fn render_input_prompt<S>(app: &App<S>, area: Area) -> (r: Vec<Draw>)
    requires
        area.addressable(),
    ensures
        prompt_drawn(app@, area, r.deep_view()),
{
    let dialog = find_dialog_area(area);
    match &app.input_mode {
        None => {
            let mut out: Vec<Draw> = Vec::new();
            add_draw(&mut out, Draw::Widget(dialog, Widget::Clear));
            assert(out.deep_view() =~= seq![DrawView::Widget(dialog, WidgetView::Clear)]);
            out
        },
        Some(mode) => {
            let (first, second) = split_two(
                Axis::Down,
                Part::Length(1),
                Part::Length(1),
                inside_border(dialog),
            );
            draw_question(mode, app.input_buf.as_str(), dialog, first, second)
        },
    }
}

/// The areas of the panes of a window.
pub struct Panes {
    pub claude: Area,
    pub git: Area,
    pub terminal: Area,
}

/// The parts of the display: the bar, and what is below it.
pub open spec fn display_parts() -> Seq<Part> {
    seq![Part::Length(1), Part::Min(0)]
}

/// The parts of a window from left to right.
pub open spec fn column_parts() -> Seq<Part> {
    seq![Part::Percentage(50), Part::Percentage(50)]
}

/// The parts of the right column of a window.
pub open spec fn row_parts() -> Seq<Part> {
    seq![Part::Percentage(60), Part::Percentage(40)]
}

/// Whether a window is laid out in an area: the agent at the left, git over the
/// shell at the right.
pub open spec fn laid_out(area: Area, panes: Panes) -> bool {
    exists|right: Area|
        in_two(area, Axis::Across, column_parts(), panes.claude, right) && in_two(
            right,
            Axis::Down,
            row_parts(),
            panes.git,
            panes.terminal,
        )
}

/// Whether `git` shows the git pane of the window in front.
pub open spec fn front_git_drawn<S>(a: AppState<S>, area: Area, git: Seq<DrawView>) -> bool {
    let focused = a.front().focused == Pane::Git;
    git_drawn(
        a.front(),
        area,
        focused,
        if focused {
            bold_colored(Color::Blue)
        } else {
            colored(Color::Blue)
        },
        window_paths(a.windows),
        git,
    )
}

/// The three panes, given what shows in the git pane.
pub open spec fn panes_picture<S>(
    a: AppState<S>,
    agent: Seq<char>,
    claude: Option<ScreenState>,
    terminal: Option<ScreenState>,
    panes: Panes,
    git: Seq<DrawView>,
) -> Seq<DrawView> {
    let normal = colored(Color::Blue);
    let active = bold_colored(Color::Blue);
    let win = a.front();
    claude_picture(
        win,
        agent,
        claude,
        panes.claude,
        win.focused == Pane::Claude,
        normal,
        active,
    ) + git + terminal_picture(
        win,
        terminal,
        panes.terminal,
        win.focused == Pane::Terminal,
        normal,
        active,
    )
}

/// Whether `out` shows the three panes in an area.
pub open spec fn panes_drawn<S>(
    a: AppState<S>,
    agent: Seq<char>,
    claude: Option<ScreenState>,
    terminal: Option<ScreenState>,
    area: Area,
    out: Seq<DrawView>,
) -> bool {
    exists|panes: Panes, git: Seq<DrawView>|
        laid_out(area, panes) && #[trigger] front_git_drawn(a, panes.git, git) && out
            == #[trigger] panes_picture(a, agent, claude, terminal, panes, git)
}

/// Whether `out` shows the window in front in an area. In full screen that is
/// the git pane alone.
pub open spec fn window_drawn<S>(
    a: AppState<S>,
    agent: Seq<char>,
    claude: Option<ScreenState>,
    terminal: Option<ScreenState>,
    area: Area,
    out: Seq<DrawView>,
) -> bool {
    if a.front().fullscreen {
        front_git_drawn(a, area, out)
    } else {
        panes_drawn(a, agent, claude, terminal, area, out)
    }
}

/// Whether a question shows: one is asked, and the window is not in full screen.
pub open spec fn asks<S>(a: AppState<S>) -> bool {
    a.input_mode is Some && !a.front().fullscreen
}

/// Whether `out` shows the question, if one shows.
pub open spec fn overlay_drawn<S>(a: AppState<S>, area: Area, out: Seq<DrawView>) -> bool {
    if asks(a) {
        prompt_drawn(a, area, out)
    } else {
        out == Seq::<DrawView>::empty()
    }
}

/// Whether `out` shows the program on a display: the bar, the window in front
/// below it and, over both, what the user is asked.
pub open spec fn display_drawn<S>(
    a: AppState<S>,
    agent: Seq<char>,
    claude: Option<ScreenState>,
    terminal: Option<ScreenState>,
    area: Area,
    out: Seq<DrawView>,
) -> bool {
    exists|bar: Area, content: Area, win: Seq<DrawView>, overlay: Seq<DrawView>|
        #![trigger in_two(area, Axis::Down, display_parts(), bar, content), window_drawn(
            a,
            agent,
            claude,
            terminal,
            content,
            win,
        ), overlay_drawn(a, area, overlay)]
        in_two(area, Axis::Down, display_parts(), bar, content) && window_drawn(
            a,
            agent,
            claude,
            terminal,
            content,
            win,
        ) && overlay_drawn(a, area, overlay) && out == bar_picture(a, bar) + win + overlay
}

/// Whether the screens can be drawn as they are scrolled.
pub open spec fn drawable<S>(a: AppState<S>, claude: Option<ScreenState>) -> bool {
    a.front().claude is Some && !a.front().fullscreen ==> match claude {
        Some(s) => s.scrolled(a.front().claude_scroll as nat).viewable(),
        None => true,
    }
}

fn render_front_git<S>(app: &App<S>, area: Area) -> (r: Vec<Draw>)
    requires
        app.active < app.windows@.len(),
    ensures
        front_git_drawn(app@, area, r.deep_view()),
{
    let win = app.win();
    let normal = Style::color(Color::Blue);
    let active = Style::bold_color(Color::Blue);
    let paths = app.open_paths();
    render_git_pane(win, area, win.focused == Pane::Git, normal, active, &paths)
}

fn render_panes<S>(
    app: &App<S>,
    agent: &str,
    claude: Option<&mut vt100::Parser>,
    terminal: Option<&mut vt100::Parser>,
    area: Area,
) -> (r: Vec<Draw>)
    requires
        app.active < app.windows@.len(),
        !app@.front().fullscreen,
        drawable(app@, state_of(claude)),
        area.addressable(),
    ensures
        panes_drawn(app@, agent@, state_of(claude), state_of(terminal), area, r.deep_view()),
        match claude {
            Some(p) => screen_of(*final(p)) == (if app@.front().claude is Some {
                screen_of(*p).scrolled(0)
            } else {
                screen_of(*p)
            }),
            None => true,
        },
        match terminal {
            Some(p) => screen_of(*final(p)) == (if app@.front().terminal is Some {
                screen_of(*p).scrolled(0)
            } else {
                screen_of(*p)
            }),
            None => true,
        },
{
    let ghost claude_state = state_of(claude);
    let ghost terminal_state = state_of(terminal);
    let win = app.win();
    let normal = Style::color(Color::Blue);
    let active = Style::bold_color(Color::Blue);
    let (left, right) = split_two(
        Axis::Across,
        Part::Percentage(50),
        Part::Percentage(50),
        area,
    );
    let (git_area, term_area) = split_two(
        Axis::Down,
        Part::Percentage(60),
        Part::Percentage(40),
        right,
    );
    let ghost panes = Panes { claude: left, git: git_area, terminal: term_area };
    proof {
        pieces_lie_within(area, Axis::Across, column_parts(), seq![left, right], 0);
        pieces_lie_within(area, Axis::Across, column_parts(), seq![left, right], 1);
        pieces_lie_within(right, Axis::Down, row_parts(), seq![git_area, term_area], 1);
        assert(in_two(area, Axis::Across, column_parts(), panes.claude, right));
        assert(in_two(right, Axis::Down, row_parts(), panes.git, panes.terminal));
        assert(laid_out(area, panes));
    }
    let mut out = render_claude_pane(
        win,
        agent,
        claude,
        left,
        win.focused == Pane::Claude,
        normal,
        active,
    );
    let git = render_front_git(app, git_area);
    let ghost git_view = git.deep_view();
    add_draws(&mut out, git);
    add_draws(
        &mut out,
        render_terminal_pane(
            win,
            terminal,
            term_area,
            win.focused == Pane::Terminal,
            normal,
            active,
        ),
    );
    assert(front_git_drawn(app@, panes.git, git_view));
    assert(out.deep_view() == panes_picture(
        app@,
        agent@,
        claude_state,
        terminal_state,
        panes,
        git_view,
    ));
    out
}

/// Draws the program on a display of the given area. `agent` is the program that
/// runs in the agent pane; the screens are those of the sessions in front, if
/// they can be read.
pub fn render<S>(
    app: &App<S>,
    agent: &str,
    claude: Option<&mut vt100::Parser>,
    terminal: Option<&mut vt100::Parser>,
    area: Area,
) -> (r: Vec<Draw>)
    requires
        app.active < app.windows@.len(),
        drawable(app@, state_of(claude)),
        area.addressable(),
    ensures
        display_drawn(app@, agent@, state_of(claude), state_of(terminal), area, r.deep_view()),
        match claude {
            Some(p) => screen_of(*final(p)) == (if app@.front().claude is Some
                && !app@.front().fullscreen {
                screen_of(*p).scrolled(0)
            } else {
                screen_of(*p)
            }),
            None => true,
        },
        match terminal {
            Some(p) => screen_of(*final(p)) == (if app@.front().terminal is Some
                && !app@.front().fullscreen {
                screen_of(*p).scrolled(0)
            } else {
                screen_of(*p)
            }),
            None => true,
        },
{
    let ghost claude_state = state_of(claude);
    let ghost terminal_state = state_of(terminal);
    let (bar_area, content_area) = split_two(Axis::Down, Part::Length(1), Part::Min(0), area);
    assert(in_two(area, Axis::Down, display_parts(), bar_area, content_area));
    proof {
        pieces_lie_within(area, Axis::Down, display_parts(), seq![bar_area, content_area], 1);
    }
    let mut out = render_window_bar(app, bar_area);
    let fullscreen = app.win().fullscreen;
    let front = if fullscreen {
        render_front_git(app, content_area)
    } else {
        render_panes(app, agent, claude, terminal, content_area)
    };
    let ghost front_view = front.deep_view();
    assert(window_drawn(app@, agent@, claude_state, terminal_state, content_area, front_view));
    add_draws(&mut out, front);
    let overlay = if app.input_mode.is_some() && !fullscreen {
        render_input_prompt(app, area)
    } else {
        let none: Vec<Draw> = Vec::new();
        assert(none.deep_view() =~= Seq::<DrawView>::empty());
        none
    };
    assert(overlay_drawn(app@, area, overlay.deep_view()));
    add_draws(&mut out, overlay);
    out
}

} // verus!
