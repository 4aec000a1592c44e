//! Areas of the display, and how they are divided.

use ratatui::layout::{Constraint, Direction, Layout, Rect};
use ratatui::widgets::Block;
use vstd::prelude::*;

verus! {

/// A rectangle of cells.
#[derive(Debug, Clone, Copy, PartialEq, Eq, Structural)]
pub struct Area {
    pub x: u16,
    pub y: u16,
    pub width: u16,
    pub height: u16,
}

/// The direction in which an area is divided.
#[derive(Debug, Clone, Copy, PartialEq, Eq, Structural)]
pub enum Axis {
    Down,
    Across,
}

/// What a part of an area asks for: a fixed size, a share of the area, or what
/// is left, but at least some size.
#[derive(Debug, Clone, Copy, PartialEq, Eq, Structural)]
pub enum Part {
    Length(u16),
    Percentage(u16),
    Min(u16),
}

/// `n`, or the last coordinate if it is beyond that.
pub open spec fn clip(n: int) -> int {
    if n > u16::MAX {
        u16::MAX as int
    } else {
        n
    }
}

impl Area {
    /// The first coordinate along an axis.
    pub open spec fn start(self, axis: Axis) -> int {
        match axis {
            Axis::Down => self.y as int,
            Axis::Across => self.x as int,
        }
    }

    /// The size along an axis.
    pub open spec fn extent(self, axis: Axis) -> int {
        match axis {
            Axis::Down => self.height as int,
            Axis::Across => self.width as int,
        }
    }

    /// The coordinate behind the area along an axis.
    pub open spec fn end(self, axis: Axis) -> int {
        self.start(axis) + self.extent(axis)
    }

    /// The coordinate behind the area along an axis, as far as coordinates go.
    pub open spec fn limit(self, axis: Axis) -> int {
        clip(self.end(axis))
    }

    /// Whether the area lies in the range of coordinates.
    pub open spec fn addressable(self) -> bool {
        self.x + self.width <= u16::MAX && self.y + self.height <= u16::MAX
    }

    /// Whether the area lies in another one.
    pub open spec fn within(self, outer: Area) -> bool {
        &&& outer.x <= self.x
        &&& self.x + self.width <= outer.x + outer.width
        &&& outer.y <= self.y
        &&& self.y + self.height <= outer.y + outer.height
    }

    /// Whether the area is a piece of another one, cut across the given axis.
    pub open spec fn piece_of(self, outer: Area, axis: Axis) -> bool {
        match axis {
            Axis::Down => self.x == outer.x && self.width == outer.width,
            Axis::Across => self.y == outer.y && self.height == outer.height,
        }
    }

    /// What is inside a border of one cell.
    pub open spec fn inside(self) -> Area {
        Area {
            x: if self.width == 0 {
                self.x
            } else {
                clip(self.x + 1) as u16
            },
            y: if self.height == 0 {
                self.y
            } else {
                clip(self.y + 1) as u16
            },
            width: if self.width < 2 {
                0
            } else {
                (self.width - 2) as u16
            },
            height: if self.height < 2 {
                0
            } else {
                (self.height - 2) as u16
            },
        }
    }
}

/// What a part asks of `size` cells, in hundredths of a cell.
pub open spec fn asked(part: Part, size: int) -> int {
    match part {
        Part::Length(n) => 100 * n,
        Part::Percentage(p) => p * size,
        Part::Min(n) => 100 * n,
    }
}

/// What the parts together ask of `size` cells.
pub open spec fn asked_by(parts: Seq<Part>, size: int) -> int
    decreases parts.len(),
{
    if parts.len() == 0 {
        0
    } else {
        asked_by(parts.drop_last(), size) + asked(parts.last(), size)
    }
}

/// What the parts together ask of an area in cells, shares of it left out.
pub open spec fn fixed_by(parts: Seq<Part>) -> int
    decreases parts.len(),
{
    if parts.len() == 0 {
        0
    } else {
        fixed_by(parts.drop_last()) + match parts.last() {
            Part::Length(n) => n as int,
            Part::Percentage(_) => 0,
            Part::Min(n) => n as int,
        }
    }
}

/// How many parts want what is left.
pub open spec fn greedy(parts: Seq<Part>) -> int
    decreases parts.len(),
{
    if parts.len() == 0 {
        0
    } else {
        greedy(parts.drop_last()) + if parts.last() is Min {
            1int
        } else {
            0
        }
    }
}

/// Where a part ends, in hundredths of a cell, if the first `n` parts get what
/// they ask for and the greedy one also gets `spare`.
pub open spec fn offset(parts: Seq<Part>, n: int, size: int, spare: int) -> int {
    asked_by(parts.take(n), size) + spare * greedy(parts.take(n))
}

/// The coordinate that is nearest to so many hundredths.
pub open spec fn nearest(hundredths: int) -> int {
    (hundredths + 50) / 100
}

/// Whether the parts are two shares of `size` cells, each with a fixed size behind
/// it, and the second share is no smaller than either fixed size after it has
/// given way by `over`.
pub open spec fn second_gives_way(parts: Seq<Part>, size: int, over: int) -> bool {
    &&& parts.len() == 4
    &&& parts[0] is Percentage
    &&& parts[1] is Length
    &&& parts[2] is Percentage
    &&& parts[3] is Length
    &&& asked(parts[2], size) - over >= asked(parts[1], size)
    &&& asked(parts[2], size) - over >= asked(parts[3], size)
}

/// Whether an area is divided into `pieces` as the parts ask: one piece for each
/// part, one after the other from the start of the area and no further than its
/// end. Fixed sizes are met where there is room for them all. Where no part has
/// to give way, each gets what it asks for, and the greedy one the rest. Where
/// fixed sizes fit and shares ask too much, the pieces fill the area, greedy
/// parts get no more than their minimum, and each share gets at most what it
/// asks for and is short by at most what is asked too much, but for rounding.
/// Of two shares that each have a fixed size behind them, the second gives way.
/// Where not even the fixed sizes fit, the pieces fill the area, no part gets
/// more than it asks for, and shares get nothing.
pub open spec fn divides(area: Area, axis: Axis, parts: Seq<Part>, pieces: Seq<Area>) -> bool {
    let size = area.limit(axis) - area.start(axis);
    let spare = 100 * size - asked_by(parts, size);
    &&& pieces.len() == parts.len()
    &&& forall|i: int| 0 <= i < pieces.len() ==> (#[trigger] pieces[i]).piece_of(area, axis)
    &&& pieces.len() > 0 ==> pieces[0].start(axis) == area.start(axis)
    &&& forall|i: int|
        0 < i < pieces.len() ==> (#[trigger] pieces[i]).start(axis) == pieces[i - 1].end(axis)
    &&& pieces.len() > 0 ==> pieces.last().end(axis) <= area.limit(axis)
    &&& fixed_by(parts) <= size ==> forall|i: int|
        0 <= i < parts.len() ==> match #[trigger] parts[i] {
            Part::Length(n) => pieces[i].extent(axis) == n,
            _ => true,
        }
    &&& spare >= 0 && greedy(parts) <= 1 ==> forall|i: int|
        0 <= i < pieces.len() ==> (#[trigger] pieces[i]).end(axis) == nearest(
            100 * area.start(axis) + offset(parts, i + 1, size, spare),
        )
    &&& spare < 0 && fixed_by(parts) <= size ==> {
        &&& pieces.last().end(axis) == area.limit(axis)
        &&& forall|i: int|
            0 <= i < parts.len() ==> match #[trigger] parts[i] {
                Part::Length(_) => true,
                Part::Percentage(p) => p * size + spare - 100 <= 100 * pieces[i].extent(axis)
                    <= p * size + 100,
                Part::Min(n) => pieces[i].extent(axis) == n,
            }
        &&& second_gives_way(parts, size, -spare) ==> pieces[0].end(axis) == nearest(
            100 * area.start(axis) + asked(parts[0], size),
        )
    }
    &&& fixed_by(parts) > size ==> {
        &&& pieces.last().end(axis) == area.limit(axis)
        &&& forall|i: int|
            0 <= i < parts.len() ==> match #[trigger] parts[i] {
                Part::Length(n) => pieces[i].extent(axis) <= n,
                Part::Percentage(_) => pieces[i].extent(axis) == 0,
                Part::Min(n) => pieces[i].extent(axis) <= n,
            }
    }
}

/// Whether an area is divided into these two.
pub open spec fn in_two(area: Area, axis: Axis, parts: Seq<Part>, a: Area, b: Area) -> bool {
    divides(area, axis, parts, seq![a, b])
}

/// Whether an area is divided into these three.
pub open spec fn in_three(
    area: Area,
    axis: Axis,
    parts: Seq<Part>,
    a: Area,
    b: Area,
    c: Area,
) -> bool {
    divides(area, axis, parts, seq![a, b, c])
}

/// Whether an area is divided into these four.
pub open spec fn in_four(
    area: Area,
    axis: Axis,
    parts: Seq<Part>,
    a: Area,
    b: Area,
    c: Area,
    d: Area,
) -> bool {
    divides(area, axis, parts, seq![a, b, c, d])
}

/// `ratatui::layout::Layout::split` divides an area along an axis. The pieces
/// follow one another without a gap and stay in the area; of the constraints
/// that cannot all be met, minimums and fixed lengths come before shares, and
/// shares before growing. A share is an equation of one strength, so what the
/// shares fall short of together is what is asked too much. Weakest of all,
/// neighbours are to be of equal size: between two shares that each have a fixed
/// length behind them that settles the matter, since the second share has two
/// smaller neighbours and the first has one. How the shortfall is spread over
/// shares otherwise is left unsaid, and so is which of the fixed lengths gives
/// way where not all of them fit.
#[verifier::external_body]
fn split(axis: Axis, parts: &Vec<Part>, area: Area) -> (r: Vec<Area>)
    requires
        forall|i: int| 0 <= i < parts@.len() ==> match #[trigger] parts@[i] {
            Part::Min(n) => n <= 0x7fff,
            _ => true,
        },
    ensures
        divides(area, axis, parts@, r@),
{
    let direction = match axis {
        Axis::Down => Direction::Vertical,
        Axis::Across => Direction::Horizontal,
    };
    let constraints = parts.iter().map(|p| match p {
        Part::Length(n) => Constraint::Length(*n),
        Part::Percentage(n) => Constraint::Percentage(*n),
        Part::Min(n) => Constraint::Min(*n),
    });
    let rect = Rect { x: area.x, y: area.y, width: area.width, height: area.height };
    let pieces = Layout::new(direction, constraints).split(rect);
    pieces.iter().map(|r| Area { x: r.x, y: r.y, width: r.width, height: r.height }).collect()
}

/// `ratatui::widgets::Block::inner`, for a block with a border on all sides, is
/// the area inside the border.
#[verifier::external_body]
fn border_inner(area: Area) -> (r: Area)
    ensures
        r == area.inside(),
{
    let rect = Rect { x: area.x, y: area.y, width: area.width, height: area.height };
    let r = Block::bordered().inner(rect);
    Area { x: r.x, y: r.y, width: r.width, height: r.height }
}

/// Divides an area into two.
pub fn split_two(axis: Axis, a: Part, b: Part, area: Area) -> (r: (Area, Area))
    requires
        a matches Part::Min(n) ==> n <= 0x7fff,
        b matches Part::Min(n) ==> n <= 0x7fff,
    ensures
        in_two(area, axis, seq![a, b], r.0, r.1),
{
    let mut parts: Vec<Part> = Vec::new();
    parts.push(a);
    parts.push(b);
    assert(parts@ =~= seq![a, b]);
    let r = split(axis, &parts, area);
    assert(r@ =~= seq![r@[0], r@[1]]);
    (r[0], r[1])
}

/// Divides an area into three.
pub fn split_three(axis: Axis, a: Part, b: Part, c: Part, area: Area) -> (r: (Area, Area, Area))
    requires
        a matches Part::Min(n) ==> n <= 0x7fff,
        b matches Part::Min(n) ==> n <= 0x7fff,
        c matches Part::Min(n) ==> n <= 0x7fff,
    ensures
        in_three(area, axis, seq![a, b, c], r.0, r.1, r.2),
{
    let mut parts: Vec<Part> = Vec::new();
    parts.push(a);
    parts.push(b);
    parts.push(c);
    assert(parts@ =~= seq![a, b, c]);
    let r = split(axis, &parts, area);
    assert(r@ =~= seq![r@[0], r@[1], r@[2]]);
    (r[0], r[1], r[2])
}

/// Divides an area into four.
pub fn split_four(axis: Axis, a: Part, b: Part, c: Part, d: Part, area: Area) -> (r: (
    Area,
    Area,
    Area,
    Area,
))
    requires
        a matches Part::Min(n) ==> n <= 0x7fff,
        b matches Part::Min(n) ==> n <= 0x7fff,
        c matches Part::Min(n) ==> n <= 0x7fff,
        d matches Part::Min(n) ==> n <= 0x7fff,
    ensures
        in_four(area, axis, seq![a, b, c, d], r.0, r.1, r.2, r.3),
{
    let mut parts: Vec<Part> = Vec::new();
    parts.push(a);
    parts.push(b);
    parts.push(c);
    parts.push(d);
    assert(parts@ =~= seq![a, b, c, d]);
    let r = split(axis, &parts, area);
    assert(r@ =~= seq![r@[0], r@[1], r@[2], r@[3]]);
    (r[0], r[1], r[2], r[3])
}

proof fn lemma_in_order(area: Area, axis: Axis, parts: Seq<Part>, pieces: Seq<Area>, i: int, j: int)
    requires
        divides(area, axis, parts, pieces),
        0 <= i <= j < pieces.len(),
    ensures
        pieces[i].start(axis) <= pieces[j].start(axis),
        pieces[i].end(axis) <= pieces[j].end(axis),
    decreases j - i,
{
    if i < j {
        lemma_in_order(area, axis, parts, pieces, i, j - 1);
        assert(pieces[j].start(axis) == pieces[j - 1].end(axis));
    }
}

/// The pieces of an area lie in it.
pub proof fn pieces_lie_within(area: Area, axis: Axis, parts: Seq<Part>, pieces: Seq<Area>, i: int)
    requires
        divides(area, axis, parts, pieces),
        0 <= i < pieces.len(),
    ensures
        pieces[i].within(area),
        area.addressable() ==> pieces[i].addressable(),
{
    lemma_in_order(area, axis, parts, pieces, 0, i);
    lemma_in_order(area, axis, parts, pieces, i, pieces.len() - 1);
    assert(pieces[i].piece_of(area, axis));
}

/// The pieces of an area do not overlap: each ends before the next one starts.
pub proof fn pieces_are_apart(
    area: Area,
    axis: Axis,
    parts: Seq<Part>,
    pieces: Seq<Area>,
    i: int,
    j: int,
)
    requires
        divides(area, axis, parts, pieces),
        0 <= i < j < pieces.len(),
    ensures
        pieces[i].end(axis) <= pieces[j].start(axis),
{
    lemma_in_order(area, axis, parts, pieces, i + 1, j);
    assert(pieces[i + 1].start(axis) == pieces[i].end(axis));
}

/// Finds the area inside a border.
pub fn inside_border(area: Area) -> (r: Area)
    ensures
        r == area.inside(),
{
    border_inner(area)
}

} // verus!
