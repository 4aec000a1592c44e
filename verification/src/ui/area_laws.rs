//! Where the parts of the picture are.

use vstd::prelude::*;

use super::git_pane::{diff_parts, git_parts, text_parts};
use super::laws::lemma_two;
use super::layout::{
    asked_by, fixed_by, greedy, in_three, in_two, nearest, offset, Area, Axis, Part,
};
use super::render::{dialog_parts, display_parts};

verus! {

/// Text has its area but for the last column, which the scroll bar has.
pub proof fn scroll_bars_have_the_last_column(area: Area, text: Area, bar: Area)
    requires
        area.addressable(),
        area.width >= 1,
        in_two(area, Axis::Across, text_parts(), text, bar),
    ensures
        text.x == area.x && text.width + 1 == area.width,
        bar.x == area.x + text.width && bar.width == 1,
        text.y == area.y && text.height == area.height,
        bar.y == area.y && bar.height == area.height,
{
    let pieces = seq![text, bar];
    lemma_two(Part::Min(0), Part::Length(1), area.width as int);
    assert(pieces[0].piece_of(area, Axis::Across));
    assert(pieces[1].piece_of(area, Axis::Across));
    assert(pieces[1].start(Axis::Across) == pieces[0].end(Axis::Across));
    assert(pieces[1].end(Axis::Across) == nearest(
        100 * area.start(Axis::Across) + offset(
            text_parts(),
            2,
            area.width as int,
            100 * (area.width - 1),
        ),
    ));
    assert(pieces[0].end(Axis::Across) == nearest(
        100 * area.start(Axis::Across) + offset(
            text_parts(),
            1,
            area.width as int,
            100 * (area.width - 1),
        ),
    ));
}

/// The bar has the first row of the display, and the window in front the rest.
pub proof fn the_bar_has_the_first_row(area: Area, bar: Area, content: Area)
    requires
        area.addressable(),
        area.height >= 1,
        in_two(area, Axis::Down, display_parts(), bar, content),
    ensures
        bar.y == area.y && bar.height == 1,
        content.y == area.y + 1 && content.height + 1 == area.height,
        bar.x == area.x && bar.width == area.width,
        content.x == area.x && content.width == area.width,
{
    let pieces = seq![bar, content];
    lemma_two(Part::Length(1), Part::Min(0), area.height as int);
    assert(pieces[0].piece_of(area, Axis::Down));
    assert(pieces[1].piece_of(area, Axis::Down));
    assert(pieces[1].start(Axis::Down) == pieces[0].end(Axis::Down));
    assert(pieces[0].end(Axis::Down) == nearest(
        100 * area.start(Axis::Down) + offset(
            display_parts(),
            1,
            area.height as int,
            100 * (area.height - 1),
        ),
    ));
    assert(pieces[1].end(Axis::Down) == nearest(
        100 * area.start(Axis::Down) + offset(
            display_parts(),
            2,
            area.height as int,
            100 * (area.height - 1),
        ),
    ));
}

/// The question has the first row inside its dialog, and the answer the second.
pub proof fn questions_have_two_rows(inner: Area, first: Area, second: Area)
    requires
        inner.addressable(),
        inner.height >= 2,
        in_two(inner, Axis::Down, dialog_parts(), first, second),
    ensures
        first.y == inner.y && first.height == 1,
        second.y == inner.y + 1 && second.height == 1,
        first.x == inner.x && first.width == inner.width,
        second.x == inner.x && second.width == inner.width,
{
    let parts = dialog_parts();
    let pieces = seq![first, second];
    lemma_two(Part::Length(1), Part::Length(1), inner.height as int);
    assert(parts.drop_last() =~= seq![Part::Length(1)]);
    assert(seq![Part::Length(1)].drop_last() =~= Seq::<Part>::empty());
    reveal_with_fuel(fixed_by, 3);
    assert(parts[0] == Part::Length(1) && parts[1] == Part::Length(1));
    assert(pieces[0].piece_of(inner, Axis::Down));
    assert(pieces[1].piece_of(inner, Axis::Down));
    assert(pieces[1].start(Axis::Down) == pieces[0].end(Axis::Down));
}

proof fn lemma_three(a: Part, b: Part, c: Part, size: int)
    ensures
        ({
            let parts = seq![a, b, c];
            &&& parts.take(1) =~= seq![a]
            &&& parts.take(2) =~= seq![a, b]
            &&& parts.take(3) =~= parts
            &&& asked_by(parts, size) == asked_by(seq![a, b], size) + asked_by(seq![c], size)
            &&& greedy(parts) == greedy(seq![a, b]) + greedy(seq![c])
            &&& fixed_by(parts) == fixed_by(seq![a, b]) + fixed_by(seq![c])
        }),
{
    let parts = seq![a, b, c];
    assert(parts.take(1) =~= seq![a]);
    assert(parts.take(2) =~= seq![a, b]);
    assert(parts.take(3) =~= parts);
    assert(parts.drop_last() =~= seq![a, b]);
    assert(seq![c].drop_last() =~= Seq::<Part>::empty());
    reveal_with_fuel(asked_by, 2);
    reveal_with_fuel(greedy, 2);
    reveal_with_fuel(fixed_by, 2);
}

/// Inside the git pane the tabs have the first row, the rule the second, and the
/// current tab the rest.
pub proof fn tabs_have_the_first_row(inner: Area, tabs: Area, rule: Area, rest: Area)
    requires
        inner.addressable(),
        inner.height >= 2,
        in_three(inner, Axis::Down, git_parts(), tabs, rule, rest),
    ensures
        tabs.y == inner.y && tabs.height == 1,
        rule.y == inner.y + 1 && rule.height == 1,
        rest.y == inner.y + 2 && rest.height + 2 == inner.height,
        tabs.x == inner.x && tabs.width == inner.width,
        rule.x == inner.x && rule.width == inner.width,
        rest.x == inner.x && rest.width == inner.width,
{
    let one = Part::Length(1);
    let more = Part::Min(0);
    let parts = seq![one, one, more];
    let pieces = seq![tabs, rule, rest];
    let size = inner.height as int;
    let spare = 100 * (size - 2);
    lemma_three(one, one, more, size);
    lemma_two(one, one, size);
    assert(seq![more].drop_last() =~= Seq::<Part>::empty());
    reveal_with_fuel(asked_by, 2);
    reveal_with_fuel(greedy, 2);
    assert(pieces[0].piece_of(inner, Axis::Down));
    assert(pieces[1].piece_of(inner, Axis::Down));
    assert(pieces[2].piece_of(inner, Axis::Down));
    assert(pieces[1].start(Axis::Down) == pieces[0].end(Axis::Down));
    assert(pieces[2].start(Axis::Down) == pieces[1].end(Axis::Down));
    assert(asked_by(parts, size) == 200);
    assert(greedy(parts) == 1);
    let from = 100 * inner.start(Axis::Down);
    assert(pieces[0].end(Axis::Down) == nearest(from + offset(parts, 1, size, spare)));
    assert(pieces[1].end(Axis::Down) == nearest(from + offset(parts, 2, size, spare)));
    assert(pieces[2].end(Axis::Down) == nearest(from + offset(parts, 3, size, spare)));
}

/// The list of files has a fifth of the columns, rounded to the nearest, the rule
/// has the next one, and the selected file the rest.
pub proof fn lists_have_a_fifth(area: Area, list: Area, rule: Area, rest: Area)
    requires
        area.addressable(),
        area.width >= 2,
        in_three(area, Axis::Across, diff_parts(), list, rule, rest),
    ensures
        list.x == area.x && list.width == (20 * area.width + 50) / 100,
        rule.x == area.x + list.width && rule.width == 1,
        rest.x == rule.x + 1 && list.width + 1 + rest.width == area.width,
        list.y == area.y && list.height == area.height,
        rule.y == area.y && rule.height == area.height,
        rest.y == area.y && rest.height == area.height,
{
    let fifth = Part::Percentage(20);
    let one = Part::Length(1);
    let more = Part::Min(0);
    let parts = seq![fifth, one, more];
    let pieces = seq![list, rule, rest];
    let size = area.width as int;
    let spare = 100 * size - 20 * size - 100;
    lemma_three(fifth, one, more, size);
    lemma_two(fifth, one, size);
    assert(seq![more].drop_last() =~= Seq::<Part>::empty());
    reveal_with_fuel(asked_by, 2);
    reveal_with_fuel(greedy, 2);
    assert(pieces[0].piece_of(area, Axis::Across));
    assert(pieces[1].piece_of(area, Axis::Across));
    assert(pieces[2].piece_of(area, Axis::Across));
    assert(pieces[1].start(Axis::Across) == pieces[0].end(Axis::Across));
    assert(pieces[2].start(Axis::Across) == pieces[1].end(Axis::Across));
    assert(asked_by(parts, size) == 20 * size + 100);
    assert(greedy(parts) == 1);
    let from = 100 * area.start(Axis::Across);
    assert(pieces[0].end(Axis::Across) == nearest(from + offset(parts, 1, size, spare)));
    assert(pieces[1].end(Axis::Across) == nearest(from + offset(parts, 2, size, spare)));
    assert(pieces[2].end(Axis::Across) == nearest(from + offset(parts, 3, size, spare)));
}

} // verus!
