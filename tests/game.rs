use tetris_core::{
    lock, random_shape, rotate_piece, rotation, spawn, ActivePiece, Game, GridPos, GridSize, HeapEntry, Input, Inputs,
    Origin, OriginMode, Rotate, Shape, Timers,
};

const GRAVITY: u64 = 750_000;
const REPEAT: u64 = 80_000;
const LOCK_DELAY: u64 = 500_000;

fn timers() -> Timers {
    Timers::new(GRAVITY, REPEAT, REPEAT, LOCK_DELAY)
}

fn size() -> GridSize {
    GridSize { width: 10, height: 22 }
}

fn pressed(actions: &[Input]) -> Inputs {
    let mut i = Inputs::new();
    for a in actions {
        i.set_action_state(*a, true);
    }
    i
}

fn cell(game: &Game, x: i16, y: i16) -> HeapEntry {
    game.heap.blocks[(x + y * game.size.width) as usize]
}

fn occupy(game: &mut Game, x: i16, y: i16) {
    let w = game.size.width;
    game.heap.blocks[(x + y * w) as usize] = HeapEntry::Occupied;
}

fn positions(game: &Game) -> Vec<(i16, i16)> {
    game.piece.unwrap().blocks.iter().map(|p| (p.x, p.y)).collect()
}

fn piece(cells: [(i16, i16); 4], origin: (i16, i16), mode: OriginMode, shape: Shape) -> ActivePiece {
    ActivePiece {
        blocks: cells.map(|(x, y)| GridPos { x, y }),
        origin: Origin { pos: GridPos { x: origin.0, y: origin.1 }, mode },
        shape,
    }
}

#[test]
fn spawn_places_each_shape_near_the_top_centre() {
    let g = Game::new(size(), timers(), Shape::I);
    assert_eq!(positions(&g), vec![(4, 20), (5, 20), (6, 20), (7, 20)]);
    assert_eq!((g.piece.unwrap().origin.pos.x, g.piece.unwrap().origin.pos.y), (6, 20));
    let g = Game::new(size(), timers(), Shape::T);
    assert_eq!(positions(&g), vec![(4, 20), (5, 20), (6, 20), (5, 21)]);
    assert_eq!((g.piece.unwrap().origin.pos.x, g.piece.unwrap().origin.pos.y), (5, 20));
    let g = Game::new(size(), timers(), Shape::O);
    assert_eq!(positions(&g), vec![(4, 20), (4, 21), (5, 20), (5, 21)]);
    assert!(!g.is_lost());
    assert_eq!(g.timers.lock_delay.remaining, LOCK_DELAY);
}

#[test]
fn playfield_too_narrow_for_the_first_piece_is_lost() {
    let g = Game::new(GridSize { width: 3, height: 22 }, timers(), Shape::I);
    assert!(g.is_lost());
    assert!(g.piece.is_none());
}

#[test]
fn hard_drop_on_empty_grid_lands_on_floor_and_spawns() {
    let mut g = Game::new(size(), timers(), Shape::I);
    let lost = g.step(16_000, &pressed(&[Input::HardDropJustPressed]), Shape::O);
    assert!(!lost);
    for x in 0..10 {
        let expected = if (4..8).contains(&x) { HeapEntry::Occupied } else { HeapEntry::Vacant };
        assert_eq!(cell(&g, x, 0), expected);
    }
    assert_eq!(g.heap.blocks.iter().filter(|c| **c == HeapEntry::Occupied).count(), 4);
    assert_eq!(g.piece.unwrap().shape, Shape::O);
    assert_eq!(positions(&g), vec![(4, 20), (4, 21), (5, 20), (5, 21)]);
    assert!(!g.hard_drop.get());
}

#[test]
fn hard_drop_rests_on_the_highest_obstacle_below() {
    let mut g = Game::new(size(), timers(), Shape::I);
    occupy(&mut g, 6, 3);
    occupy(&mut g, 4, 1);
    g.step(1, &pressed(&[Input::HardDropJustPressed]), Shape::T);
    for x in 4..8 {
        assert_eq!(cell(&g, x, 4), HeapEntry::Occupied);
        assert_eq!(cell(&g, x, 5), HeapEntry::Vacant);
    }
    assert_eq!(cell(&g, 5, 3), HeapEntry::Vacant);
}

#[test]
fn hard_drop_does_not_depend_on_step_length() {
    let mut a = Game::new(size(), timers(), Shape::T);
    let mut b = Game::new(size(), timers(), Shape::T);
    a.step(1, &pressed(&[Input::HardDropJustPressed]), Shape::O);
    b.step(5_000_000, &pressed(&[Input::HardDropJustPressed]), Shape::O);
    assert_eq!(a.heap.blocks, b.heap.blocks);
    assert_eq!(cell(&a, 5, 1), HeapEntry::Occupied);
    assert_eq!(cell(&a, 4, 0), HeapEntry::Occupied);
}

#[test]
fn soft_drop_stops_above_a_filled_column() {
    let mut g = Game::new(size(), timers(), Shape::O);
    for y in 0..6 {
        occupy(&mut g, 4, y);
    }
    let soft = pressed(&[Input::SoftDropPressed]);
    let mut lowest = 20;
    let mut steps = 0;
    while cell(&g, 4, 6) == HeapEntry::Vacant && steps < 100 {
        g.step(REPEAT, &soft, Shape::I);
        if cell(&g, 4, 6) == HeapEntry::Vacant {
            lowest = lowest.min(positions(&g).iter().map(|p| p.1).min().unwrap());
        }
        steps += 1;
    }
    assert_eq!(lowest, 6);
    assert_eq!(cell(&g, 4, 6), HeapEntry::Occupied);
    assert_eq!(cell(&g, 5, 6), HeapEntry::Occupied);
    assert_eq!(cell(&g, 4, 7), HeapEntry::Occupied);
    assert_eq!(cell(&g, 5, 7), HeapEntry::Occupied);
    assert_eq!(cell(&g, 5, 5), HeapEntry::Vacant);
}

#[test]
fn held_left_moves_once_per_repeat_and_stops_at_wall() {
    let mut g = Game::new(size(), timers(), Shape::O);
    let left = pressed(&[Input::LeftPressed]);
    g.step(40_000, &left, Shape::O);
    assert_eq!(positions(&g), vec![(4, 20), (4, 21), (5, 20), (5, 21)]);
    g.step(40_000, &left, Shape::O);
    assert_eq!(positions(&g), vec![(3, 20), (3, 21), (4, 20), (4, 21)]);
    assert!(g.reset_lock_delay.get());
    for _ in 0..10 {
        g.step(REPEAT, &left, Shape::O);
    }
    assert_eq!(positions(&g)[0].0, 0);
}

#[test]
fn left_and_right_together_cancel() {
    let mut g = Game::new(size(), timers(), Shape::O);
    g.step(REPEAT, &pressed(&[Input::LeftPressed, Input::RightPressed]), Shape::O);
    assert_eq!(positions(&g), vec![(4, 20), (4, 21), (5, 20), (5, 21)]);
    assert!(!g.reset_lock_delay.get());
}

#[test]
fn gravity_and_soft_drop_together_fall_two_rows() {
    let mut g = Game::new(size(), Timers::new(REPEAT, REPEAT, REPEAT, LOCK_DELAY), Shape::O);
    g.step(REPEAT, &pressed(&[Input::SoftDropPressed]), Shape::O);
    assert_eq!(positions(&g), vec![(4, 18), (4, 19), (5, 18), (5, 19)]);
}

#[test]
fn two_row_fall_shortens_to_one_row_above_an_obstacle() {
    let mut g = Game::new(size(), Timers::new(REPEAT, REPEAT, REPEAT, LOCK_DELAY), Shape::O);
    occupy(&mut g, 4, 18);
    g.step(REPEAT, &pressed(&[Input::SoftDropPressed]), Shape::O);
    assert_eq!(positions(&g), vec![(4, 19), (4, 20), (5, 19), (5, 20)]);
}

#[test]
fn grounded_piece_locks_after_exactly_the_lock_delay() {
    let mut g = Game::new(size(), timers(), Shape::O);
    g.piece = Some(piece([(4, 0), (4, 1), (5, 0), (5, 1)], (5, 1), OriginMode::PointCentered, Shape::O));
    let idle = Inputs::new();
    for _ in 0..4 {
        g.step(100_000, &idle, Shape::T);
        assert_eq!(cell(&g, 4, 0), HeapEntry::Vacant);
        assert_eq!(positions(&g), vec![(4, 0), (4, 1), (5, 0), (5, 1)]);
    }
    g.step(100_000, &idle, Shape::T);
    assert_eq!(cell(&g, 4, 0), HeapEntry::Occupied);
    assert_eq!(cell(&g, 5, 1), HeapEntry::Occupied);
    assert_eq!(g.piece.unwrap().shape, Shape::T);
}

#[test]
fn moving_a_grounded_piece_restarts_the_lock_delay() {
    let mut g = Game::new(size(), timers(), Shape::O);
    g.piece = Some(piece([(4, 0), (4, 1), (5, 0), (5, 1)], (5, 1), OriginMode::PointCentered, Shape::O));
    let idle = Inputs::new();
    for _ in 0..4 {
        g.step(100_000, &idle, Shape::T);
    }
    assert_eq!(g.timers.lock_delay.remaining, 100_000);
    g.step(REPEAT, &pressed(&[Input::RightPressed]), Shape::T);
    assert_eq!(g.timers.lock_delay.remaining, LOCK_DELAY);
    assert_eq!(positions(&g), vec![(5, 0), (5, 1), (6, 0), (6, 1)]);
    g.step(100_000, &idle, Shape::T);
    assert_eq!(cell(&g, 5, 0), HeapEntry::Vacant);
}

#[test]
fn t_against_left_wall_kicks_one_column_right() {
    let mut g = Game::new(size(), timers(), Shape::T);
    g.piece = Some(piece([(0, 9), (0, 10), (0, 11), (1, 10)], (0, 10), OriginMode::BlockCentered, Shape::T));
    g.step(1, &pressed(&[Input::ClkwJustPressed]), Shape::T);
    assert_eq!(positions(&g), vec![(0, 10), (1, 10), (2, 10), (1, 9)]);
    let o = g.piece.unwrap().origin.pos;
    assert_eq!((o.x, o.y), (1, 10));
    assert!(g.reset_lock_delay.get());
}

#[test]
fn rotation_that_fits_nowhere_is_reverted() {
    let mut g = Game::new(size(), timers(), Shape::I);
    let before = piece([(0, 0), (1, 0), (2, 0), (3, 0)], (2, 0), OriginMode::PointCentered, Shape::I);
    g.piece = Some(before);
    for x in 0..10 {
        if !(0..4).contains(&x) {
            occupy(&mut g, x, 0);
        }
        occupy(&mut g, x, 1);
    }
    let mut p = before;
    let turned = rotate_piece(&mut p, Rotate::Clockwise, 10, &g.heap);
    assert!(!turned);
    assert_eq!(p.blocks.map(|b| (b.x, b.y)), before.blocks.map(|b| (b.x, b.y)));
    g.reset_lock_delay.set_to(false);
    rotation(&mut g, &pressed(&[Input::ClkwJustPressed]));
    assert_eq!(positions(&g), vec![(0, 0), (1, 0), (2, 0), (3, 0)]);
    assert!(!g.reset_lock_delay.get());
}

#[test]
fn clockwise_then_counterclockwise_restores_the_piece() {
    let g = Game::new(size(), timers(), Shape::I);
    for shape in [Shape::I, Shape::O, Shape::T, Shape::S, Shape::Z, Shape::L, Shape::J] {
        let start = ActivePiece::spawned(GridSize { width: 10, height: 12 }, shape);
        let mut p = start;
        assert!(rotate_piece(&mut p, Rotate::Clockwise, 10, &g.heap));
        assert!(rotate_piece(&mut p, Rotate::Counterclockwise, 10, &g.heap));
        assert_eq!(p.blocks.map(|b| (b.x, b.y)), start.blocks.map(|b| (b.x, b.y)));
        assert_eq!((p.origin.pos.x, p.origin.pos.y), (start.origin.pos.x, start.origin.pos.y));
    }
}

#[test]
fn i_piece_turns_about_a_grid_point() {
    let g = Game::new(size(), timers(), Shape::I);
    let mut p = piece([(3, 5), (4, 5), (5, 5), (6, 5)], (5, 5), OriginMode::PointCentered, Shape::I);
    assert!(rotate_piece(&mut p, Rotate::Clockwise, 10, &g.heap));
    assert_eq!(p.blocks.map(|b| (b.x, b.y)), [(5, 6), (5, 5), (5, 4), (5, 3)]);
}

#[test]
fn both_rotation_keys_together_do_nothing() {
    let mut g = Game::new(size(), timers(), Shape::T);
    g.step(1, &pressed(&[Input::ClkwJustPressed, Input::CclwJustPressed]), Shape::T);
    assert_eq!(positions(&g), vec![(4, 20), (5, 20), (6, 20), (5, 21)]);
}

#[test]
fn blocked_spawn_loses_once_and_freezes_the_game() {
    let mut g = Game::new(size(), timers(), Shape::I);
    g.piece = None;
    for x in 0..10 {
        occupy(&mut g, x, 20);
        occupy(&mut g, x, 21);
    }
    let idle = Inputs::new();
    assert!(g.step(1, &idle, Shape::T));
    assert!(g.is_lost());
    assert!(g.piece.is_none());
    let heap = g.heap.blocks.clone();
    assert!(!g.step(1, &pressed(&[Input::HardDropJustPressed]), Shape::O));
    assert!(!g.step(1_000_000, &idle, Shape::I));
    assert_eq!(g.heap.blocks, heap);
    assert!(g.piece.is_none());
    assert!(g.is_lost());
}

#[test]
fn locking_in_the_top_rows_loses() {
    let mut g = Game::new(size(), timers(), Shape::O);
    for x in 0..10 {
        for y in 0..19 {
            if x != 0 {
                occupy(&mut g, x, y);
            }
        }
    }
    occupy(&mut g, 0, 0);
    let lost = g.step(1, &pressed(&[Input::HardDropJustPressed]), Shape::T);
    assert!(lost);
    assert!(g.is_lost());
    assert_eq!(cell(&g, 4, 19), HeapEntry::Occupied);
    assert_eq!(cell(&g, 5, 20), HeapEntry::Occupied);
    assert_eq!(cell(&g, 5, 21), HeapEntry::Vacant);
    let heap = g.heap.blocks.clone();
    assert!(!g.step(1_000_000, &pressed(&[Input::HardDropJustPressed]), Shape::T));
    assert!(!lock(&mut g, 1_000_000));
    assert_eq!(g.heap.blocks, heap);
    assert!(g.piece.is_none());
}

#[test]
fn lock_and_spawn_called_directly() {
    let mut g = Game::new(size(), timers(), Shape::O);
    g.piece = Some(piece([(0, 0), (0, 1), (1, 0), (1, 1)], (1, 1), OriginMode::PointCentered, Shape::O));
    g.hard_drop.set();
    assert!(lock(&mut g, 0));
    assert!(g.piece.is_none());
    assert!(!g.hard_drop.get());
    assert_eq!(cell(&g, 1, 1), HeapEntry::Occupied);
    assert!(!spawn(&mut g, Shape::Z));
    assert_eq!(positions(&g), vec![(4, 21), (5, 21), (5, 20), (6, 20)]);
}

#[test]
fn random_shapes_vary() {
    let mut seen = Vec::new();
    for _ in 0..300 {
        let s = random_shape();
        if !seen.contains(&s) {
            seen.push(s);
        }
    }
    assert!(seen.len() >= 2);
}

#[test]
fn piece_stays_in_bounds_and_off_the_heap_during_play() {
    let mut g = Game::new(size(), Timers::new(1_000_000_000, REPEAT, REPEAT, LOCK_DELAY), Shape::T);
    let shapes = [Shape::I, Shape::O, Shape::T, Shape::S, Shape::Z, Shape::L, Shape::J];
    let mut locks = 0;
    for i in 0..600usize {
        let inputs = if i % 23 == 22 {
            pressed(&[Input::HardDropJustPressed])
        } else {
            match i % 7 {
                0 => pressed(&[Input::LeftPressed]),
                1 => pressed(&[Input::ClkwJustPressed]),
                2 | 4 => pressed(&[Input::SoftDropPressed]),
                3 => pressed(&[Input::RightPressed]),
                5 => pressed(&[Input::CclwJustPressed]),
                _ => Inputs::new(),
            }
        };
        let before = g.heap.blocks.iter().filter(|c| **c == HeapEntry::Occupied).count();
        if g.step(REPEAT, &inputs, shapes[(i * 3) % 7]) {
            break;
        }
        if g.heap.blocks.iter().filter(|c| **c == HeapEntry::Occupied).count() > before {
            locks += 1;
        }
        let p = g.piece.unwrap();
        for b in p.blocks {
            assert!(0 <= b.x && b.x < 10 && 0 <= b.y);
            if b.y < 22 {
                assert_eq!(cell(&g, b.x, b.y), HeapEntry::Vacant);
            }
        }
    }
    assert!(locks >= 5);
}

#[test]
fn every_shape_spawns_with_its_lowest_row_level() {
    for shape in [Shape::I, Shape::O, Shape::T, Shape::S, Shape::Z, Shape::L, Shape::J] {
        let g = Game::new(size(), timers(), shape);
        let rows: Vec<i16> = positions(&g).iter().map(|p| p.1).collect();
        assert_eq!(*rows.iter().min().unwrap(), 20);
        assert!(*rows.iter().max().unwrap() <= 21);
    }
}

#[test]
fn spawn_leaves_a_game_with_a_piece_alone() {
    let mut g = Game::new(size(), timers(), Shape::T);
    g.step(100_000, &Inputs::new(), Shape::T);
    let before = positions(&g);
    let remaining = g.timers.lock_delay.remaining;
    assert!(!spawn(&mut g, Shape::I));
    assert_eq!(positions(&g), before);
    assert_eq!(g.piece.unwrap().shape, Shape::T);
    assert_eq!(g.timers.lock_delay.remaining, remaining);
}

#[test]
fn spawn_leaves_a_lost_game_alone() {
    let mut g = Game::new(GridSize { width: 3, height: 22 }, timers(), Shape::I);
    assert!(g.is_lost());
    let heap = g.heap.blocks.clone();
    assert!(spawn(&mut g, Shape::O));
    assert!(g.piece.is_none());
    assert_eq!(g.heap.blocks, heap);
}
