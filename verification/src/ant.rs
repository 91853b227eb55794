//! The ant and its step rule: flip the cell's colour, turn, move forward.

use vstd::prelude::*;
use crate::grid::{BlackCells, Point, in_bounds, toggled, HEIGHT, WIDTH};
use rand::Rng;

verus! {

/// A facing direction; a strict 4-cycle under the two quarter turns.
#[derive(Clone, Copy, PartialEq, Eq, Structural, Debug)]
pub enum Direction {
    Up,
    Down,
    Left,
    Right,
}

/// The direction one quarter turn clockwise from `d`.
pub open spec fn turned_right(d: Direction) -> Direction {
    match d {
        Direction::Up => Direction::Right,
        Direction::Right => Direction::Down,
        Direction::Down => Direction::Left,
        Direction::Left => Direction::Up,
    }
}

/// The direction one quarter turn counter-clockwise from `d`.
pub open spec fn turned_left(d: Direction) -> Direction {
    match d {
        Direction::Up => Direction::Left,
        Direction::Left => Direction::Down,
        Direction::Down => Direction::Right,
        Direction::Right => Direction::Up,
    }
}

/// The two turns are mutually inverse, and four clockwise quarter turns
/// bring every direction back to itself.
pub proof fn lemma_turns_inverse(d: Direction)
    ensures
        turned_right(turned_left(d)) == d,
        turned_left(turned_right(d)) == d,
        turned_right(turned_right(turned_right(turned_right(d)))) == d,
{
}

/// The edge wrap applied before a move: standing on the edge that the move
/// would leave, the coordinate first jumps to the opposite edge.
pub open spec fn wrapped(p: Point, d: Direction) -> Point {
    if p.x == 0 && d == Direction::Left {
        Point { x: (WIDTH - 1) as i64, y: p.y }
    } else if p.x == WIDTH - 1 && d == Direction::Right {
        Point { x: 0, y: p.y }
    } else if p.y == 0 && d == Direction::Up {
        Point { x: p.x, y: (HEIGHT - 1) as i64 }
    } else if p.y == HEIGHT - 1 && d == Direction::Down {
        Point { x: p.x, y: 0 }
    } else {
        p
    }
}

/// One cell forward in direction `d`, with no wrap.
pub open spec fn advanced(p: Point, d: Direction) -> Point {
    match d {
        Direction::Up => Point { x: p.x, y: (p.y - 1) as i64 },
        Direction::Right => Point { x: (p.x + 1) as i64, y: p.y },
        Direction::Down => Point { x: p.x, y: (p.y + 1) as i64 },
        Direction::Left => Point { x: (p.x - 1) as i64, y: p.y },
    }
}

/// Where a move from `p` in direction `d` lands: wrap at the edge, then one
/// cell forward.
pub open spec fn moved(p: Point, d: Direction) -> Point {
    advanced(wrapped(p, d), d)
}

/// Wraparound triggers exactly at the low edge: from the left edge facing
/// left, the wrap lands on the right edge of the same row, before the
/// forward step of that move is applied.
pub proof fn lemma_wrap_low_edge(y: i64)
    requires
        0 <= y < HEIGHT,
    ensures
        wrapped(Point { x: 0, y }, Direction::Left) == (Point { x: (WIDTH - 1) as i64, y }),
{
}

/// An ant: an identifier, a position on the grid, and a facing direction.
#[derive(Clone, Copy, PartialEq, Eq, Structural, Debug)]
pub struct Ant {
    pub position: Point,
    pub direction: Direction,
    pub id: u8,
}

/// The state transition of one step: flip the colour of the cell under the
/// ant, turn right if it was black and left if it was white, then move one
/// cell forward in the new direction.
pub open spec fn stepped(a: Ant, s: Set<Point>) -> (Ant, Set<Point>) {
    let d = if s.contains(a.position) {
        turned_right(a.direction)
    } else {
        turned_left(a.direction)
    };
    (Ant { position: moved(a.position, d), direction: d, id: a.id }, toggled(s, a.position))
}

/// The state after `n` consecutive steps of one ant on black-cell set `s`.
pub open spec fn stepped_n(a: Ant, s: Set<Point>, n: nat) -> (Ant, Set<Point>)
    decreases n,
{
    if n == 0 {
        (a, s)
    } else {
        let prev = stepped_n(a, s, (n - 1) as nat);
        stepped(prev.0, prev.1)
    }
}

/// Determinism: the outcome of a run is a function of the starting state
/// alone, so two runs of the same length from equal ant states and equal
/// black-cell sets end in equal ant states and equal black-cell sets.
pub proof fn lemma_run_deterministic(a1: Ant, s1: Set<Point>, a2: Ant, s2: Set<Point>, n: nat)
    requires
        a1 == a2,
        s1 == s2,
    ensures
        stepped_n(a1, s1, n) == stepped_n(a2, s2, n),
{
}

impl Ant {
    /// A new ant facing up at a uniformly random coordinate of the grid.
    pub fn new(id: u8) -> (r: Ant)
        ensures
            r.id == id,
            r.direction == Direction::Up,
            in_bounds(r.position),
    {
        Ant {
            position: Point { x: random_in_range(0, WIDTH), y: random_in_range(0, HEIGHT) },
            direction: Direction::Up,
            id,
        }
    }

    /// A new ant facing up at the given coordinate.
    pub fn new_at(id: u8, position: Point) -> (r: Ant)
        requires
            in_bounds(position),
        ensures
            r == (Ant { position, direction: Direction::Up, id }),
    {
        Ant { position, direction: Direction::Up, id }
    }

    /// Rotate the facing direction a quarter turn clockwise.
    pub fn turn_right(&mut self)
        ensures
            final(self).direction == turned_right(old(self).direction),
            final(self).position == old(self).position,
            final(self).id == old(self).id,
    {
        self.direction = match self.direction {
            Direction::Up => Direction::Right,
            Direction::Right => Direction::Down,
            Direction::Down => Direction::Left,
            Direction::Left => Direction::Up,
        };
    }

    /// Rotate the facing direction a quarter turn counter-clockwise.
    pub fn turn_left(&mut self)
        ensures
            final(self).direction == turned_left(old(self).direction),
            final(self).position == old(self).position,
            final(self).id == old(self).id,
    {
        self.direction = match self.direction {
            Direction::Up => Direction::Left,
            Direction::Right => Direction::Up,
            Direction::Down => Direction::Right,
            Direction::Left => Direction::Down,
        };
    }

    /// Move one cell forward in the facing direction, wrapping at the edge;
    /// the result is always in bounds.
    pub fn move_forward(&mut self)
        requires
            in_bounds(old(self).position),
        ensures
            final(self).position == moved(old(self).position, old(self).direction),
            in_bounds(final(self).position),
            final(self).direction == old(self).direction,
            final(self).id == old(self).id,
    {
        if self.position.x == 0 && self.direction == Direction::Left {
            self.position.x = WIDTH - 1;
        } else if self.position.x == WIDTH - 1 && self.direction == Direction::Right {
            self.position.x = 0;
        } else if self.position.y == 0 && self.direction == Direction::Up {
            self.position.y = HEIGHT - 1;
        } else if self.position.y == HEIGHT - 1 && self.direction == Direction::Down {
            self.position.y = 0;
        }

        match self.direction {
            Direction::Up => self.position.y = self.position.y - 1,
            Direction::Right => self.position.x = self.position.x + 1,
            Direction::Down => self.position.y = self.position.y + 1,
            Direction::Left => self.position.x = self.position.x - 1,
        }
    }

    /// One step of the automaton rule on the given black-cell set: flip the
    /// colour of the cell under the ant, turn right if it was black and left
    /// if it was white, then move one cell forward.
    pub fn step(&mut self, black_cells: &mut BlackCells)
        requires
            old(black_cells).wf(),
            in_bounds(old(self).position),
        ensures
            final(black_cells).wf(),
            in_bounds(final(self).position),
            (*final(self), final(black_cells)@) == stepped(*old(self), old(black_cells)@),
    {
        if black_cells.contains(&self.position) {
            black_cells.remove(&self.position);
            self.turn_right();
        } else {
            black_cells.insert(self.position);
            self.turn_left();
        }

        self.move_forward();
    }
}

/// Advance one ant `n` steps on the given black-cell set.
pub fn run_steps(ant: &mut Ant, black_cells: &mut BlackCells, n: u64)
    requires
        old(black_cells).wf(),
        in_bounds(old(ant).position),
    ensures
        final(black_cells).wf(),
        in_bounds(final(ant).position),
        (*final(ant), final(black_cells)@) == stepped_n(*old(ant), old(black_cells)@, n as nat),
{
    let mut i: u64 = 0;
    while i < n
        invariant
            i <= n,
            black_cells.wf(),
            in_bounds(ant.position),
            (*ant, black_cells@) == stepped_n(*old(ant), old(black_cells)@, i as nat),
        decreases n - i,
    {
        ant.step(black_cells);
        i = i + 1;
    }
}

/// Relies on rand's `Rng::gen_range` on the thread-local generator: the draw
/// lies in the given half-open range; the call panics on an empty range, so
/// the range must be non-empty.
#[verifier::external_body]
fn random_in_range(lo: i64, hi: i64) -> (r: i64)
    requires
        lo < hi,
    ensures
        lo <= r < hi,
{
    rand::thread_rng().gen_range(lo..hi)
}

} // verus!
