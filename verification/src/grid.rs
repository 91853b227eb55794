//! The toroidal grid: coordinates, bounds, and the set of black cells.

use vstd::prelude::*;
use vstd::arithmetic::div_mod::{lemma_fundamental_div_mod, lemma_fundamental_div_mod_converse};
use vstd::relations::injective_on;
use vstd::set_lib::lemma_map_size;
use vstd::assert_sets_equal;
use std::collections::HashSet;

verus! {

broadcast use vstd::std_specs::hash::group_hash_axioms;

/// Width of the grid in cells.
pub const WIDTH: i64 = 80;

/// Height of the grid in cells.
pub const HEIGHT: i64 = 70;

/// A grid coordinate.
#[derive(Clone, Copy, Hash, Eq, PartialEq, Structural, Debug)]
pub struct Point {
    pub x: i64,
    pub y: i64,
}

/// Whether a coordinate lies inside the grid.
pub open spec fn in_bounds(p: Point) -> bool {
    0 <= p.x < WIDTH && 0 <= p.y < HEIGHT
}

/// The row-major index of a coordinate; a bijection on in-bounds coordinates.
pub open spec fn cell_key(p: Point) -> u64 {
    (p.y * WIDTH + p.x) as u64
}

/// The coordinate whose row-major index is `k`.
pub open spec fn cell_at(k: u64) -> Point {
    Point { x: ((k as int) % (WIDTH as int)) as i64, y: ((k as int) / (WIDTH as int)) as i64 }
}

/// Distinct in-bounds coordinates have distinct row-major indices.
pub proof fn lemma_key_injective(p: Point, q: Point)
    requires
        in_bounds(p),
        in_bounds(q),
        cell_key(p) == cell_key(q),
    ensures
        p == q,
{
    assert(p.y * (WIDTH as int) + p.x == q.y * (WIDTH as int) + q.x);
}

/// The row-major index of an in-bounds coordinate is a valid key and decodes back.
pub proof fn lemma_key_roundtrip(p: Point)
    requires
        in_bounds(p),
    ensures
        (cell_key(p) as int) < (WIDTH as int) * (HEIGHT as int),
        cell_at(cell_key(p)) == p,
{
    let v = p.y * (WIDTH as int) + p.x;
    assert(0 <= v < (WIDTH as int) * (HEIGHT as int));
    assert(cell_key(p) as int == v);
    lemma_fundamental_div_mod_converse(v, WIDTH as int, p.y as int, p.x as int);
}

/// A valid key decodes to an in-bounds coordinate that encodes back to it.
pub proof fn lemma_at_roundtrip(k: u64)
    requires
        (k as int) < (WIDTH as int) * (HEIGHT as int),
    ensures
        in_bounds(cell_at(k)),
        cell_key(cell_at(k)) == k,
{
    lemma_fundamental_div_mod(k as int, WIDTH as int);
    assert((k as int) / (WIDTH as int) < HEIGHT as int);
}

/// The colour flip of one visit: a black cell turns white, a white one black.
pub open spec fn toggled(s: Set<Point>, p: Point) -> Set<Point> {
    if s.contains(p) {
        s.remove(p)
    } else {
        s.insert(p)
    }
}

/// Two consecutive visits to the same cell restore its prior colour:
/// toggling the membership of a cell is an involution on the black-cell set.
pub proof fn lemma_toggle_twice(s: Set<Point>, p: Point)
    ensures
        toggled(toggled(s, p), p) == s,
{
    assert(toggled(toggled(s, p), p) =~= s);
}

/// The set of black cells, stored as a hash set of row-major indices.
pub struct BlackCells {
    cells: HashSet<u64>,
}

impl View for BlackCells {
    type V = Set<Point>;

    /// The abstract contents: the set of in-bounds coordinates currently black.
    closed spec fn view(&self) -> Set<Point> {
        Set::new(|p: Point| in_bounds(p) && self.cells@.contains(cell_key(p)))
    }
}

impl BlackCells {
    /// The key set is finite and every stored key indexes an in-bounds cell.
    pub closed spec fn wf(&self) -> bool {
        &&& self.cells@.finite()
        &&& forall|k: u64|
            self.cells@.contains(k) ==> (k as int) < (WIDTH as int) * (HEIGHT as int)
    }

    /// An empty grid: every cell is white.
    pub fn new() -> (r: BlackCells)
        ensures
            r.wf(),
            r@ == Set::<Point>::empty(),
    {
        let r = BlackCells { cells: HashSet::new() };
        proof {
            assert_sets_equal!(r@ == Set::<Point>::empty());
        }
        r
    }

    /// Whether the cell at `p` is black.
    pub fn contains(&self, p: &Point) -> (r: bool)
        requires
            in_bounds(*p),
        ensures
            r == self@.contains(*p),
    {
        let k = cell_index(*p);
        self.cells.contains(&k)
    }

    /// Paint the cell at `p` black.
    pub fn insert(&mut self, p: Point)
        requires
            old(self).wf(),
            in_bounds(p),
        ensures
            final(self).wf(),
            final(self)@ == old(self)@.insert(p),
    {
        let k = cell_index(p);
        self.cells.insert(k);
        proof {
            lemma_key_roundtrip(p);
            assert_sets_equal!(self@ == old(self)@.insert(p), q => {
                if in_bounds(q) && cell_key(q) == cell_key(p) {
                    lemma_key_injective(p, q);
                }
            });
        }
    }

    /// Paint the cell at `p` white.
    pub fn remove(&mut self, p: &Point)
        requires
            old(self).wf(),
            in_bounds(*p),
        ensures
            final(self).wf(),
            final(self)@ == old(self)@.remove(*p),
    {
        let k = cell_index(*p);
        self.cells.remove(&k);
        proof {
            lemma_key_roundtrip(*p);
            assert_sets_equal!(self@ == old(self)@.remove(*p), q => {
                if in_bounds(q) && cell_key(q) == cell_key(*p) {
                    lemma_key_injective(*p, q);
                }
            });
        }
    }

    /// The number of black cells.
    pub fn len(&self) -> (n: usize)
        requires
            self.wf(),
        ensures
            self@.finite(),
            n == self@.len(),
    {
        proof {
            self.lemma_view_size();
        }
        self.cells.len()
    }

    /// The abstract contents mirror the stored keys one for one.
    proof fn lemma_view_size(&self)
        requires
            self.wf(),
        ensures
            self@.finite(),
            self@.len() == self.cells@.len(),
    {
        let f = |k: u64| cell_at(k);
        assert forall|q: Point| self.cells@.map(f).contains(q) implies self@.contains(q) by {
            let k = choose|k: u64| self.cells@.contains(k) && f(k) == q;
            lemma_at_roundtrip(k);
        }
        assert forall|q: Point| self@.contains(q) implies self.cells@.map(f).contains(q) by {
            lemma_key_roundtrip(q);
            assert(self.cells@.contains(cell_key(q)) && f(cell_key(q)) == q);
        }
        assert(self.cells@.map(f) =~= self@);
        assert forall|k1: u64, k2: u64|
            self.cells@.contains(k1) && self.cells@.contains(k2) && #[trigger] f(k1)
                == #[trigger] f(k2) implies k1 == k2 by {
            lemma_at_roundtrip(k1);
            lemma_at_roundtrip(k2);
        }
        assert(injective_on(f, self.cells@));
        lemma_map_size(self.cells@, self@, f);
    }
}

/// The row-major index of an in-bounds coordinate, as stored in the hash set.
fn cell_index(p: Point) -> (k: u64)
    requires
        in_bounds(p),
    ensures
        k == cell_key(p),
{
    (p.y * WIDTH + p.x) as u64
}

} // verus!
