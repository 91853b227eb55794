use langton::ant::{run_steps, Ant, Direction};
use langton::grid::{BlackCells, Point, HEIGHT, WIDTH};

#[test]
fn turns_are_inverse() {
    let dirs = [Direction::Up, Direction::Right, Direction::Down, Direction::Left];
    for d in dirs {
        let mut a = Ant { position: Point { x: 3, y: 4 }, direction: d, id: 0 };
        a.turn_left();
        a.turn_right();
        assert_eq!(a.direction, d);
        a.turn_right();
        a.turn_left();
        assert_eq!(a.direction, d);
    }
}

#[test]
fn four_right_turns_come_back() {
    let dirs = [Direction::Up, Direction::Right, Direction::Down, Direction::Left];
    for d in dirs {
        let mut a = Ant { position: Point { x: 0, y: 0 }, direction: d, id: 0 };
        for _ in 0..4 {
            a.turn_right();
        }
        assert_eq!(a.direction, d);
    }
}

#[test]
fn turn_tables_match() {
    let mut a = Ant::new_at(0, Point { x: 1, y: 1 });
    assert_eq!(a.direction, Direction::Up);
    a.turn_right();
    assert_eq!(a.direction, Direction::Right);
    a.turn_right();
    assert_eq!(a.direction, Direction::Down);
    a.turn_right();
    assert_eq!(a.direction, Direction::Left);
    a.turn_right();
    assert_eq!(a.direction, Direction::Up);
    a.turn_left();
    assert_eq!(a.direction, Direction::Left);
    a.turn_left();
    assert_eq!(a.direction, Direction::Down);
    a.turn_left();
    assert_eq!(a.direction, Direction::Right);
    a.turn_left();
    assert_eq!(a.direction, Direction::Up);
}

#[test]
fn two_visits_restore_a_white_cell() {
    let p = Point { x: 10, y: 12 };
    let mut cells = BlackCells::new();
    assert!(!cells.contains(&p));
    let mut first = Ant::new_at(0, p);
    first.step(&mut cells);
    assert!(cells.contains(&p));
    let mut second = Ant::new_at(1, p);
    second.step(&mut cells);
    assert!(!cells.contains(&p));
    assert_eq!(cells.len(), 0);
}

#[test]
fn two_visits_restore_a_black_cell() {
    let p = Point { x: 7, y: 3 };
    let mut cells = BlackCells::new();
    cells.insert(p);
    assert!(cells.contains(&p));
    let mut first = Ant::new_at(0, p);
    first.step(&mut cells);
    assert!(!cells.contains(&p));
    let mut second = Ant::new_at(1, p);
    second.step(&mut cells);
    assert!(cells.contains(&p));
    assert_eq!(cells.len(), 1);
}

#[test]
fn first_two_steps_from_the_center() {
    let mut cells = BlackCells::new();
    let mut a = Ant::new_at(0, Point { x: 40, y: 35 });
    assert_eq!(a.direction, Direction::Up);

    a.step(&mut cells);
    assert!(cells.contains(&Point { x: 40, y: 35 }));
    assert_eq!(a.direction, Direction::Left);
    assert_eq!(a.position, Point { x: 39, y: 35 });
    assert_eq!(cells.len(), 1);

    a.step(&mut cells);
    assert!(cells.contains(&Point { x: 39, y: 35 }));
    assert_eq!(a.direction, Direction::Down);
    assert_eq!(a.position, Point { x: 39, y: 36 });
    assert_eq!(cells.len(), 2);
}

#[test]
fn wraparound_triggers_at_each_edge() {
    // Left edge: the wrap puts the ant on column WIDTH - 1, then the move
    // itself steps one cell further left.
    let mut a = Ant { position: Point { x: 0, y: 9 }, direction: Direction::Left, id: 0 };
    a.move_forward();
    assert_eq!(a.position, Point { x: WIDTH - 2, y: 9 });

    // Right edge.
    let mut a = Ant { position: Point { x: WIDTH - 1, y: 9 }, direction: Direction::Right, id: 0 };
    a.move_forward();
    assert_eq!(a.position, Point { x: 1, y: 9 });

    // Top edge.
    let mut a = Ant { position: Point { x: 5, y: 0 }, direction: Direction::Up, id: 0 };
    a.move_forward();
    assert_eq!(a.position, Point { x: 5, y: HEIGHT - 2 });

    // Bottom edge.
    let mut a = Ant { position: Point { x: 5, y: HEIGHT - 1 }, direction: Direction::Down, id: 0 };
    a.move_forward();
    assert_eq!(a.position, Point { x: 5, y: 1 });

    // Away from the edges no wrap applies.
    let mut a = Ant { position: Point { x: 5, y: 9 }, direction: Direction::Left, id: 0 };
    a.move_forward();
    assert_eq!(a.position, Point { x: 4, y: 9 });
}

#[test]
fn steps_never_leave_the_grid() {
    let mut cells = BlackCells::new();
    let mut a = Ant::new_at(0, Point { x: 0, y: 0 });
    for _ in 0..2000 {
        a.step(&mut cells);
        assert!(0 <= a.position.x && a.position.x < WIDTH);
        assert!(0 <= a.position.y && a.position.y < HEIGHT);
    }
}

#[test]
fn random_starts_lie_on_the_grid() {
    for id in 0..50 {
        let a = Ant::new(id);
        assert_eq!(a.id, id);
        assert_eq!(a.direction, Direction::Up);
        assert!(0 <= a.position.x && a.position.x < WIDTH);
        assert!(0 <= a.position.y && a.position.y < HEIGHT);
    }
}

#[test]
fn identical_runs_agree() {
    let start = Point { x: 40, y: 35 };
    let mut a1 = Ant::new_at(0, start);
    let mut c1 = BlackCells::new();
    run_steps(&mut a1, &mut c1, 1000);

    let mut a2 = Ant::new_at(0, start);
    let mut c2 = BlackCells::new();
    run_steps(&mut a2, &mut c2, 1000);

    assert_eq!(a1, a2);
    assert_eq!(c1.len(), c2.len());
    for y in 0..HEIGHT {
        for x in 0..WIDTH {
            let p = Point { x, y };
            assert_eq!(c1.contains(&p), c2.contains(&p));
        }
    }
}

#[test]
fn highway_grows_by_a_constant_increment() {
    // After the chaotic phase of roughly ten thousand steps, the single ant
    // settles into the diagonal highway, and the black-cell count grows by
    // the same amount over every window of 104 steps.
    let mut a = Ant::new_at(0, Point { x: 40, y: 35 });
    let mut cells = BlackCells::new();
    run_steps(&mut a, &mut cells, 10200);
    let mut counts = vec![cells.len()];
    for _ in 0..5 {
        run_steps(&mut a, &mut cells, 104);
        counts.push(cells.len());
    }
    assert_eq!(counts, vec![740, 752, 764, 776, 788, 800]);
    for w in counts.windows(2) {
        assert_eq!(w[1] - w[0], 12);
    }

    // On the torus the highway later crosses its own wrapped trail, which
    // disturbs the count for a while; once it re-forms, well past step
    // eleven thousand, the growth is constant again.
    run_steps(&mut a, &mut cells, 12064 - 10720);
    let mut counts = vec![cells.len()];
    for _ in 0..5 {
        run_steps(&mut a, &mut cells, 104);
        counts.push(cells.len());
    }
    assert_eq!(counts, vec![964, 976, 988, 1000, 1012, 1024]);
    for w in counts.windows(2) {
        assert_eq!(w[1] - w[0], 12);
    }
}
