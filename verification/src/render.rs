//! Rendering a frame: the character grid of the bounded viewport.

use vstd::prelude::*;
use crate::ant::Ant;
use crate::grid::{BlackCells, Point, in_bounds, HEIGHT, WIDTH};

verus! {

/// The glyph of the ground at `p`: a filled block on a black cell, a dot on
/// a white one.
pub open spec fn ground_glyph(black: Set<Point>, p: Point) -> char {
    if black.contains(p) {
        '█'
    } else {
        '.'
    }
}

/// The glyph of an ant: its decimal digit for ids below ten, a star above.
pub open spec fn ant_glyph(id: u8) -> char {
    if id < 10 {
        (48 + id) as char
    } else {
        '*'
    }
}

/// The glyph shown at `p`: the ground, unless an ant stands on `p`, in which
/// case the glyph of the last such ant in the order of the sequence.
pub open spec fn frame_glyph(black: Set<Point>, ants: Seq<Ant>, p: Point) -> char
    decreases ants.len(),
{
    if ants.len() == 0 {
        ground_glyph(black, p)
    } else if ants.last().position == p {
        ant_glyph(ants.last().id)
    } else {
        frame_glyph(black, ants.drop_last(), p)
    }
}

/// The glyph of an ant as a character.
pub fn ant_char(id: u8) -> (c: char)
    ensures
        c == ant_glyph(id),
{
    if id < 10 {
        (48 + id) as char
    } else {
        '*'
    }
}

/// The glyph of one cell of the viewport, the ants overlaid on the ground.
pub fn cell_char(black_cells: &BlackCells, ants: &Vec<Ant>, p: Point) -> (c: char)
    requires
        in_bounds(p),
    ensures
        c == frame_glyph(black_cells@, ants@, p),
{
    let mut c: char = if black_cells.contains(&p) {
        '█'
    } else {
        '.'
    };
    let mut j: usize = 0;
    while j < ants.len()
        invariant
            j <= ants@.len(),
            c == frame_glyph(black_cells@, ants@.take(j as int), p),
        decreases ants@.len() - j,
    {
        if ants[j].position == p {
            c = ant_char(ants[j].id);
        }
        j = j + 1;
        proof {
            assert(ants@.take(j as int).drop_last() =~= ants@.take(j as int - 1));
        }
    }
    proof {
        assert(ants@.take(ants@.len() as int) =~= ants@);
    }
    c
}

/// Paint the full viewport: one row of glyphs per grid row, the ground
/// overlaid with the ants.
pub fn render_frame(black_cells: &BlackCells, ants: &Vec<Ant>) -> (rows: Vec<Vec<char>>)
    ensures
        rows@.len() == HEIGHT,
        forall|j: int| 0 <= j < HEIGHT ==> (#[trigger] rows@[j])@.len() == WIDTH,
        forall|p: Point|
            in_bounds(p) ==> rows@[p.y as int]@[p.x as int] == #[trigger] frame_glyph(
                black_cells@,
                ants@,
                p,
            ),
{
    let mut rows: Vec<Vec<char>> = Vec::new();
    let mut y: i64 = 0;
    while y < HEIGHT
        invariant
            0 <= y <= HEIGHT,
            rows@.len() == y,
            forall|j: int| 0 <= j < y ==> (#[trigger] rows@[j])@.len() == WIDTH,
            forall|p: Point|
                in_bounds(p) && p.y < y ==> rows@[p.y as int]@[p.x as int] == #[trigger] frame_glyph(
                    black_cells@,
                    ants@,
                    p,
                ),
        decreases HEIGHT - y,
    {
        let mut row: Vec<char> = Vec::new();
        let mut x: i64 = 0;
        while x < WIDTH
            invariant
                0 <= x <= WIDTH,
                0 <= y < HEIGHT,
                row@.len() == x,
                forall|j: int|
                    0 <= j < x ==> (#[trigger] row@[j]) == frame_glyph(
                        black_cells@,
                        ants@,
                        Point { x: j as i64, y },
                    ),
            decreases WIDTH - x,
        {
            let p = Point { x, y };
            let c = cell_char(black_cells, ants, p);
            row.push(c);
            x = x + 1;
        }
        rows.push(row);
        y = y + 1;
    }
    rows
}

} // verus!
