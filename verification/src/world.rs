//! The simulation: the ants, their black-cell sets, and the per-frame loop.

use vstd::prelude::*;
use crate::ant::{Ant, Direction, stepped};
use crate::grid::{BlackCells, Point, in_bounds, HEIGHT, WIDTH};

verus! {

/// Whether all ants share one black-cell set or each ant owns its own.
#[derive(Clone, Copy, PartialEq, Eq, Structural, Debug)]
pub enum GridMode {
    Shared,
    Isolated,
}

/// The centre of the grid.
pub open spec fn grid_center() -> Point {
    Point { x: (WIDTH / 2) as i64, y: (HEIGHT / 2) as i64 }
}

/// The joint state after every ant of `ants`, in order, has taken one step
/// on the shared black-cell set `s`.
pub open spec fn frame_shared(ants: Seq<Ant>, s: Set<Point>) -> (Seq<Ant>, Set<Point>)
    decreases ants.len(),
{
    if ants.len() == 0 {
        (Seq::<Ant>::empty(), s)
    } else {
        let prev = frame_shared(ants.drop_last(), s);
        let st = stepped(ants.last(), prev.1);
        (prev.0.push(st.0), st.1)
    }
}

/// A frame leaves the number of ants unchanged.
pub proof fn lemma_frame_shared_len(ants: Seq<Ant>, s: Set<Point>)
    ensures
        frame_shared(ants, s).0.len() == ants.len(),
    decreases ants.len(),
{
    if ants.len() > 0 {
        lemma_frame_shared_len(ants.drop_last(), s);
    }
}

/// The simulation state: the ants, their black-cell sets, and a counter of
/// the frames stepped so far.
pub struct World {
    pub mode: GridMode,
    pub ants: Vec<Ant>,
    pub grids: Vec<BlackCells>,
    pub steps: u64,
}

impl World {
    /// One black-cell set in shared mode and one per ant in isolated mode,
    /// every set well formed, and every ant inside the grid.
    pub open spec fn wf(&self) -> bool {
        &&& match self.mode {
            GridMode::Shared => self.grids@.len() == 1,
            GridMode::Isolated => self.grids@.len() == self.ants@.len(),
        }
        &&& forall|i: int| 0 <= i < self.grids@.len() ==> (#[trigger] self.grids@[i]).wf()
        &&& forall|i: int|
            0 <= i < self.ants@.len() ==> in_bounds((#[trigger] self.ants@[i]).position)
    }

    /// A world of `n` ants with ids `0..n`, facing up at random coordinates,
    /// sharing one black-cell set that starts empty.
    pub fn new_shared(n: u8) -> (w: World)
        ensures
            w.wf(),
            w.mode == GridMode::Shared,
            w.steps == 0,
            w.ants@.len() == n,
            forall|i: int|
                0 <= i < n ==> (#[trigger] w.ants@[i]).id == i && w.ants@[i].direction
                    == Direction::Up,
            w.grids@.len() == 1,
            w.grids@[0]@ == Set::<Point>::empty(),
    {
        let mut ants: Vec<Ant> = Vec::new();
        let mut id: u8 = 0;
        while id < n
            invariant
                id <= n,
                ants@.len() == id,
                forall|i: int|
                    0 <= i < id ==> (#[trigger] ants@[i]).id == i && ants@[i].direction
                        == Direction::Up && in_bounds(ants@[i].position),
            decreases n - id,
        {
            ants.push(Ant::new(id));
            id = id + 1;
        }
        let mut grids: Vec<BlackCells> = Vec::new();
        grids.push(BlackCells::new());
        World { mode: GridMode::Shared, ants, grids, steps: 0 }
    }

    /// A world of `n` ants with ids `0..n`, each facing up at the centre of
    /// the grid and owning its own black-cell set that starts empty.
    pub fn new_isolated(n: u8) -> (w: World)
        ensures
            w.wf(),
            w.mode == GridMode::Isolated,
            w.steps == 0,
            w.ants@.len() == n,
            w.grids@.len() == n,
            forall|i: int|
                0 <= i < n ==> #[trigger] w.ants@[i] == (Ant {
                    position: grid_center(),
                    direction: Direction::Up,
                    id: i as u8,
                }),
            forall|i: int| 0 <= i < n ==> (#[trigger] w.grids@[i])@ == Set::<Point>::empty(),
    {
        let center = Point { x: WIDTH / 2, y: HEIGHT / 2 };
        let mut ants: Vec<Ant> = Vec::new();
        let mut grids: Vec<BlackCells> = Vec::new();
        let mut id: u8 = 0;
        while id < n
            invariant
                id <= n,
                center == grid_center(),
                ants@.len() == id,
                grids@.len() == id,
                forall|i: int|
                    0 <= i < id ==> #[trigger] ants@[i] == (Ant {
                        position: grid_center(),
                        direction: Direction::Up,
                        id: i as u8,
                    }),
                forall|i: int|
                    0 <= i < id ==> (#[trigger] grids@[i]).wf() && grids@[i]@ == Set::<
                        Point,
                    >::empty(),
            decreases n - id,
        {
            ants.push(Ant::new_at(id, center));
            grids.push(BlackCells::new());
            id = id + 1;
        }
        World { mode: GridMode::Isolated, ants, grids, steps: 0 }
    }

    /// Advance the whole world one frame: every ant, in order, takes one
    /// step on its black-cell set, and the frame counter grows by one. In
    /// shared mode each ant steps on the set as the ants before it in the
    /// same frame left it; in isolated mode the ants do not interact.
    pub fn step_all(&mut self)
        requires
            old(self).wf(),
            old(self).steps < u64::MAX,
        ensures
            final(self).wf(),
            final(self).mode == old(self).mode,
            final(self).steps == old(self).steps + 1,
            final(self).ants@.len() == old(self).ants@.len(),
            final(self).grids@.len() == old(self).grids@.len(),
            old(self).mode == GridMode::Shared ==> ({
                let r = frame_shared(old(self).ants@, old(self).grids@[0]@);
                final(self).ants@ == r.0 && final(self).grids@[0]@ == r.1
            }),
            old(self).mode == GridMode::Isolated ==> forall|i: int|
                0 <= i < old(self).ants@.len() ==> (#[trigger] final(self).ants@[i]) == stepped(
                    old(self).ants@[i],
                    old(self).grids@[i]@,
                ).0 && final(self).grids@[i]@ == stepped(
                    old(self).ants@[i],
                    old(self).grids@[i]@,
                ).1,
    {
        let n = self.ants.len();
        match self.mode {
            GridMode::Shared => {
                let mut i: usize = 0;
                while i < n
                    invariant
                        i <= n,
                        n == self.ants@.len(),
                        self.mode == old(self).mode,
                        self.mode == GridMode::Shared,
                        self.steps == old(self).steps,
                        self.grids@.len() == 1,
                        self.grids@[0].wf(),
                        old(self).wf(),
                        old(self).ants@.len() == n,
                        old(self).grids@.len() == 1,
                        forall|j: int|
                            0 <= j < n ==> in_bounds((#[trigger] self.ants@[j]).position),
                        ({
                            let r = frame_shared(
                                old(self).ants@.take(i as int),
                                old(self).grids@[0]@,
                            );
                            self.ants@ == r.0 + old(self).ants@.skip(i as int) && self.grids@[0]@
                                == r.1
                        }),
                    decreases n - i,
                {
                    proof {
                        lemma_frame_shared_len(
                            old(self).ants@.take(i as int),
                            old(self).grids@[0]@,
                        );
                        assert(old(self).ants@.take(i as int).len() == i as int);
                        assert(old(self).ants@.skip(i as int)[0] == old(self).ants@[i as int]);
                        assert(self.ants@[i as int] == old(self).ants@[i as int]);
                    }
                    let ghost prev_ants = self.ants@;
                    let a = &mut self.ants[i];
                    let g = &mut self.grids[0];
                    a.step(g);
                    proof {
                        let s0 = old(self).grids@[0]@;
                        let taken = old(self).ants@.take(i as int);
                        let taken1 = old(self).ants@.take(i as int + 1);
                        assert(taken1.len() == i as int + 1);
                        assert(taken1.drop_last() =~= taken);
                        assert(taken1.last() == old(self).ants@[i as int]);
                        let r = frame_shared(taken, s0);
                        let r1 = frame_shared(taken1, s0);
                        let st = stepped(old(self).ants@[i as int], r.1);
                        assert(r1.0 == r.0.push(st.0) && r1.1 == st.1);
                        lemma_frame_shared_len(taken, s0);
                        assert(self.ants@ =~= r1.0 + old(self).ants@.skip(i as int + 1));
                    }
                    i = i + 1;
                }
                proof {
                    assert(old(self).ants@.take(n as int) =~= old(self).ants@);
                    assert(self.ants@ =~= frame_shared(old(self).ants@, old(self).grids@[0]@).0);
                }
            },
            GridMode::Isolated => {
                let mut i: usize = 0;
                while i < n
                    invariant
                        i <= n,
                        n == self.ants@.len(),
                        self.mode == old(self).mode,
                        self.mode == GridMode::Isolated,
                        self.steps == old(self).steps,
                        self.grids@.len() == n,
                        old(self).wf(),
                        old(self).ants@.len() == n,
                        old(self).grids@.len() == n,
                        forall|j: int|
                            0 <= j < n ==> in_bounds((#[trigger] self.ants@[j]).position),
                        forall|j: int| 0 <= j < n ==> (#[trigger] self.grids@[j]).wf(),
                        forall|j: int|
                            i <= j < n ==> (#[trigger] self.ants@[j]) == old(self).ants@[j]
                                && self.grids@[j] == old(self).grids@[j],
                        forall|j: int|
                            0 <= j < i ==> (#[trigger] self.ants@[j]) == stepped(
                                old(self).ants@[j],
                                old(self).grids@[j]@,
                            ).0 && self.grids@[j]@ == stepped(
                                old(self).ants@[j],
                                old(self).grids@[j]@,
                            ).1,
                    decreases n - i,
                {
                    proof {
                        assert(self.ants@[i as int] == old(self).ants@[i as int]);
                        assert(self.grids@[i as int] == old(self).grids@[i as int]);
                    }
                    let a = &mut self.ants[i];
                    let g = &mut self.grids[i];
                    a.step(g);
                    proof {
                        assert(self.ants@[i as int] == stepped(
                            old(self).ants@[i as int],
                            old(self).grids@[i as int]@,
                        ).0);
                        assert(self.grids@[i as int]@ == stepped(
                            old(self).ants@[i as int],
                            old(self).grids@[i as int]@,
                        ).1);
                    }
                    i = i + 1;
                }
            },
        }
        self.steps = self.steps + 1;
    }
}

} // verus!
